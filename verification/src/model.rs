//! The data model: priorities with their inline tags, tasks, named task
//! spaces, listing filters, and the errors the store surfaces.

use vstd::prelude::*;
use vstd::string::*;
use crate::text::{spec_contains, str_contains};

verus! {

/// A task's priority level.
#[derive(Clone, Copy, PartialEq, Eq, Structural, Debug)]
pub enum Priority {
    Low,
    Medium,
    High,
    Urgent,
}

/// Which tasks a listing includes.
#[derive(Clone, Copy, PartialEq, Eq, Structural, Debug)]
pub enum StatusFilter {
    All,
    Completed,
    Pending,
}

/// The failures the store's own operations surface; persistence failures
/// belong to the caller that performs the file write.
#[derive(Clone, Copy, PartialEq, Eq, Structural, Debug)]
pub enum TodoError {
    SpaceNotFound,
    IndexOutOfRange,
}

pub open spec fn tag_low() -> Seq<char> {
    seq!['{', 'L', 'O', 'W', '}']
}

pub open spec fn tag_medium() -> Seq<char> {
    seq!['{', 'M', 'E', 'D', 'I', 'U', 'M', '}']
}

pub open spec fn tag_high() -> Seq<char> {
    seq!['{', 'H', 'I', 'G', 'H', '}']
}

pub open spec fn tag_urgent() -> Seq<char> {
    seq!['{', 'U', 'R', 'G', 'E', 'N', 'T', '}']
}

/// The fixed textual tag of a priority.
pub open spec fn spec_tag_of(p: Priority) -> Seq<char> {
    match p {
        Priority::Low => tag_low(),
        Priority::Medium => tag_medium(),
        Priority::High => tag_high(),
        Priority::Urgent => tag_urgent(),
    }
}

/// The priority encoded in a line: the first tag found in precedence order
/// Urgent, High, Medium, Low; Medium when no tag is present.
pub open spec fn spec_decode_priority(line: Seq<char>) -> Priority {
    if spec_contains(line, tag_urgent()) {
        Priority::Urgent
    } else if spec_contains(line, tag_high()) {
        Priority::High
    } else if spec_contains(line, tag_medium()) {
        Priority::Medium
    } else if spec_contains(line, tag_low()) {
        Priority::Low
    } else {
        Priority::Medium
    }
}

impl Priority {
    /// The inline tag this priority is written as.
    pub fn to_markdown(&self) -> (r: &'static str)
        ensures
            r@ == spec_tag_of(*self),
    {
        match self {
            Priority::Urgent => {
                proof {
                    reveal_strlit("{URGENT}");
                    assert("{URGENT}"@ =~= tag_urgent());
                }
                "{URGENT}"
            },
            Priority::High => {
                proof {
                    reveal_strlit("{HIGH}");
                    assert("{HIGH}"@ =~= tag_high());
                }
                "{HIGH}"
            },
            Priority::Medium => {
                proof {
                    reveal_strlit("{MEDIUM}");
                    assert("{MEDIUM}"@ =~= tag_medium());
                }
                "{MEDIUM}"
            },
            Priority::Low => {
                proof {
                    reveal_strlit("{LOW}");
                    assert("{LOW}"@ =~= tag_low());
                }
                "{LOW}"
            },
        }
    }

    /// The priority a line carries, by scanning for the known tags.
    pub fn from_markdown(line: &str) -> (r: Priority)
        ensures
            r == spec_decode_priority(line@),
    {
        proof {
            reveal_strlit("{URGENT}");
            reveal_strlit("{HIGH}");
            reveal_strlit("{MEDIUM}");
            reveal_strlit("{LOW}");
            assert("{URGENT}"@ =~= tag_urgent());
            assert("{HIGH}"@ =~= tag_high());
            assert("{MEDIUM}"@ =~= tag_medium());
            assert("{LOW}"@ =~= tag_low());
        }
        if str_contains(line, "{URGENT}") {
            Priority::Urgent
        } else if str_contains(line, "{HIGH}") {
            Priority::High
        } else if str_contains(line, "{MEDIUM}") {
            Priority::Medium
        } else if str_contains(line, "{LOW}") {
            Priority::Low
        } else {
            Priority::Medium
        }
    }
}

/// Whether a task's status passes a filter.
pub open spec fn spec_passes(f: StatusFilter, status: bool) -> bool {
    match f {
        StatusFilter::All => true,
        StatusFilter::Completed => status,
        StatusFilter::Pending => !status,
    }
}

/// The mathematical value of a task.
pub ghost struct SpecItem {
    pub item: Seq<char>,
    pub status: bool,
    pub priority: Priority,
}

/// The mathematical value of a task space.
pub ghost struct SpecSpace {
    pub name: Seq<char>,
    pub todos: Seq<SpecItem>,
}

/// A task: its description, completion status, and priority.
#[derive(Debug)]
pub struct TodoItem {
    pub item: String,
    pub status: bool,
    pub priority: Priority,
}

impl View for TodoItem {
    type V = SpecItem;

    open spec fn view(&self) -> SpecItem {
        SpecItem { item: self.item@, status: self.status, priority: self.priority }
    }
}

/// A named group of tasks, in insertion order.
#[derive(Debug)]
pub struct TodoSpace {
    pub name: String,
    pub todos: Vec<TodoItem>,
}

impl View for TodoSpace {
    type V = SpecSpace;

    open spec fn view(&self) -> SpecSpace {
        SpecSpace { name: self.name@, todos: self.todos@.map_values(|t: TodoItem| t@) }
    }
}

/// The view of a whole store: the views of its spaces, in order.
pub open spec fn spaces_view(spaces: Seq<TodoSpace>) -> Seq<SpecSpace> {
    spaces.map_values(|s: TodoSpace| s@)
}

/// The name of the implicit space.
pub open spec fn default_name() -> Seq<char> {
    seq!['D', 'e', 'f', 'a', 'u', 'l', 't']
}

/// A freshly allocated `"Default"`.
pub fn default_name_string() -> (r: String)
    ensures
        r@ == default_name(),
{
    proof {
        reveal_strlit("Default");
        assert("Default"@ =~= default_name());
    }
    "Default".to_owned()
}

/// Whether a space name is the implicit one.
pub fn is_default_name(s: &String) -> (r: bool)
    ensures
        r == (s@ == default_name()),
{
    let d = default_name_string();
    s.eq(&d)
}

} // verus!
