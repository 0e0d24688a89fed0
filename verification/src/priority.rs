//! Priority levels and their text form: the names "low", "medium" and
//! "high", matched without regard to ASCII case.

use vstd::prelude::*;
use crate::text::{eq_ignore_case, str_eq_ignore_case};

verus! {

/// Importance of a task.
#[derive(Clone, Copy, PartialEq, Eq, Structural, Debug)]
pub enum Priority {
    Low,
    Medium,
    High,
}

/// The priority named by `s`, up to ASCII case; anything but "low",
/// "medium" and "high" names none.
pub open spec fn priority_of_text(s: Seq<char>) -> Option<Priority> {
    if eq_ignore_case(s, "low"@) {
        Some(Priority::Low)
    } else if eq_ignore_case(s, "medium"@) {
        Some(Priority::Medium)
    } else if eq_ignore_case(s, "high"@) {
        Some(Priority::High)
    } else {
        None
    }
}

impl Priority {
    /// Display name of the level.
    pub open spec fn spec_label(self) -> Seq<char> {
        match self {
            Priority::Low => seq!['L', 'o', 'w'],
            Priority::Medium => seq!['M', 'e', 'd', 'i', 'u', 'm'],
            Priority::High => seq!['H', 'i', 'g', 'h'],
        }
    }

    /// The display name of the level as text.
    pub fn label(&self) -> (r: &'static str)
        ensures
            r@ == self.spec_label(),
    {
        match self {
            Priority::Low => {
                proof {
                    reveal_strlit("Low");
                    assert("Low"@ =~= seq!['L', 'o', 'w']);
                }
                "Low"
            },
            Priority::Medium => {
                proof {
                    reveal_strlit("Medium");
                    assert("Medium"@ =~= seq!['M', 'e', 'd', 'i', 'u', 'm']);
                }
                "Medium"
            },
            Priority::High => {
                proof {
                    reveal_strlit("High");
                    assert("High"@ =~= seq!['H', 'i', 'g', 'h']);
                }
                "High"
            },
        }
    }
}

/// Reads a priority name, ignoring ASCII case: exactly one of "low",
/// "medium" and "high" is accepted.
pub fn parse_priority(s: &str) -> (r: Option<Priority>)
    ensures
        r == priority_of_text(s@),
{
    proof {
        reveal_strlit("low");
        reveal_strlit("medium");
        reveal_strlit("high");
    }
    if str_eq_ignore_case(s, "low") {
        Some(Priority::Low)
    } else if str_eq_ignore_case(s, "medium") {
        Some(Priority::Medium)
    } else if str_eq_ignore_case(s, "high") {
        Some(Priority::High)
    } else {
        None
    }
}

} // verus!
