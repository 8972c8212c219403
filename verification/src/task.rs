//! Task records and request validation.
//!
//! A task is a name together with a priority tag drawn from a closed set of
//! four. A task submitted for creation never carries an identifier; the store
//! assigns one on insertion.

use vstd::prelude::*;

verus! {

/// Urgency of a task: one of a closed set of four tags. The core enforces no
/// ordering between them beyond the enumeration itself.
#[derive(Debug, Clone, Copy, PartialEq, Eq, Structural)]
pub enum Priority {
    Low,
    Medium,
    High,
    Critical,
}

/// One to-do record. `id` is absent before first persistence and assigned by
/// the store on insert.
#[derive(Debug, Clone)]
pub struct Task {
    pub id: Option<u64>,
    pub name: String,
    pub priority: Priority,
}

/// The priority named by a tag, or `None` for an unknown tag.
pub open spec fn spec_priority_from_tag(tag: Seq<char>) -> Option<Priority> {
    if tag == "Low"@ {
        Some(Priority::Low)
    } else if tag == "Medium"@ {
        Some(Priority::Medium)
    } else if tag == "High"@ {
        Some(Priority::High)
    } else if tag == "Critical"@ {
        Some(Priority::Critical)
    } else {
        None
    }
}

/// Maps a tag to its priority; unknown tags are rejected, never defaulted.
pub fn priority_from_tag(tag: &str) -> (r: Option<Priority>)
    ensures
        r == spec_priority_from_tag(tag@),
{
    let t = tag.to_owned();
    if t == "Low".to_owned() {
        Some(Priority::Low)
    } else if t == "Medium".to_owned() {
        Some(Priority::Medium)
    } else if t == "High".to_owned() {
        Some(Priority::High)
    } else if t == "Critical".to_owned() {
        Some(Priority::Critical)
    } else {
        None
    }
}

/// Why a creation request was rejected. Rejection happens before any
/// persistence call.
#[derive(Debug, Clone, Copy, PartialEq, Eq, Structural)]
pub enum CreateError {
    /// The body carries no `name` field.
    MissingName,
    /// The name is present but empty.
    EmptyName,
    /// The body carries no `priority` field.
    MissingPriority,
    /// The priority tag is not one of the four known tags.
    UnknownPriority,
}

/// The validation rule for a creation request: which bodies are accepted,
/// and the exact rejection for each body that is not.
pub open spec fn spec_validate(name: Option<Seq<char>>, tag: Option<Seq<char>>) -> Result<
    (Seq<char>, Priority),
    CreateError,
> {
    match name {
        None => Err(CreateError::MissingName),
        Some(n) => if n.len() == 0 {
            Err(CreateError::EmptyName)
        } else {
            match tag {
                None => Err(CreateError::MissingPriority),
                Some(t) => match spec_priority_from_tag(t) {
                    None => Err(CreateError::UnknownPriority),
                    Some(p) => Ok((n, p)),
                },
            }
        },
    }
}

/// Checks a creation request and builds the task to persist: the name must be
/// present and non-empty, the priority tag one of the four known tags. The
/// built task carries no identifier; a client-supplied identifier is never
/// accepted. A bad body yields its typed rejection, never a default.
pub fn validate_create(name: Option<String>, priority_tag: Option<String>) -> (r: Result<
    Task,
    CreateError,
>)
    ensures
        r matches Ok(t) ==> t.id is None && spec_validate(
            name.deep_view(),
            priority_tag.deep_view(),
        ) == Ok::<(Seq<char>, Priority), CreateError>((t.name@, t.priority)),
        r matches Err(e) ==> spec_validate(name.deep_view(), priority_tag.deep_view()) == Err::<
            (Seq<char>, Priority),
            CreateError,
        >(e),
{
    match name {
        None => Err(CreateError::MissingName),
        Some(n) => {
            if n.as_str().is_empty() {
                Err(CreateError::EmptyName)
            } else {
                match priority_tag {
                    None => Err(CreateError::MissingPriority),
                    Some(tg) => match priority_from_tag(tg.as_str()) {
                        None => Err(CreateError::UnknownPriority),
                        Some(p) => Ok(Task { id: None, name: n, priority: p }),
                    },
                }
            }
        },
    }
}

} // verus!
