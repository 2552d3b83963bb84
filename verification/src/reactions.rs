//! What the orchestrator does about what happens to a session.

use vstd::prelude::*;

use crate::scm::MergeMethod;
use crate::number::{digits, law_decimal_reads_back, number, parse_digits};
use crate::text::{chars_of, clone_opt, decimal, opt_text};

verus! {

/// What is done when a reaction fires.
#[derive(Clone, Copy, Debug, PartialEq, Eq, Structural)]
pub enum ReactionAction {
    SendToAgent,
    Notify,
    AutoMerge,
}

/// When a reaction that keeps failing is handed to a person.
#[derive(Debug, PartialEq, Eq)]
pub enum EscalateAfter {
    Attempts(u32),
    Duration(String),
}

impl Clone for EscalateAfter {
    fn clone(&self) -> (r: Self)
        ensures
            r == *self,
    {
        match self {
            EscalateAfter::Attempts(n) => EscalateAfter::Attempts(*n),
            EscalateAfter::Duration(s) => EscalateAfter::Duration(s.clone()),
        }
    }
}

/// How urgent a notification is.
#[derive(Clone, Copy, Debug, PartialEq, Eq, Structural)]
pub enum EventPriority {
    Urgent,
    Action,
    Warning,
    Info,
}

impl EventPriority {
    /// The name under which the priority stands in the configuration file.
    pub open spec fn name(self) -> Seq<char> {
        match self {
            EventPriority::Urgent => "urgent"@,
            EventPriority::Action => "action"@,
            EventPriority::Warning => "warning"@,
            EventPriority::Info => "info"@,
        }
    }

    /// The name under which the priority stands in the configuration file.
    pub fn as_str(self) -> (r: &'static str)
        ensures
            r@ == self.name(),
    {
        match self {
            EventPriority::Urgent => "urgent",
            EventPriority::Action => "action",
            EventPriority::Warning => "warning",
            EventPriority::Info => "info",
        }
    }
}

/// The configuration of one reaction.
#[derive(Debug, PartialEq, Eq)]
pub struct ReactionConfig {
    pub auto: bool,
    pub action: ReactionAction,
    pub message: Option<String>,
    pub priority: Option<EventPriority>,
    pub retries: Option<u32>,
    pub escalate_after: Option<EscalateAfter>,
    pub threshold: Option<String>,
    pub include_summary: bool,
    pub merge_method: Option<MergeMethod>,
}

/// The contents of an `EscalateAfter`.
pub enum EscalateView {
    Attempts(u32),
    Duration(Seq<char>),
}

impl View for EscalateAfter {
    type V = EscalateView;

    open spec fn view(&self) -> EscalateView {
        match self {
            EscalateAfter::Attempts(n) => EscalateView::Attempts(*n),
            EscalateAfter::Duration(s) => EscalateView::Duration(s@),
        }
    }
}

/// The contents of a `ReactionConfig`.
pub struct ReactionConfigView {
    pub auto: bool,
    pub action: ReactionAction,
    pub message: Option<Seq<char>>,
    pub priority: Option<EventPriority>,
    pub retries: Option<u32>,
    pub escalate_after: Option<EscalateView>,
    pub threshold: Option<Seq<char>>,
    pub include_summary: bool,
    pub merge_method: Option<MergeMethod>,
}

impl View for ReactionConfig {
    type V = ReactionConfigView;

    open spec fn view(&self) -> ReactionConfigView {
        ReactionConfigView {
            auto: self.auto,
            action: self.action,
            message: opt_text(self.message),
            priority: self.priority,
            retries: self.retries,
            escalate_after: match self.escalate_after {
                Some(e) => Some(e@),
                None => None,
            },
            threshold: opt_text(self.threshold),
            include_summary: self.include_summary,
            merge_method: self.merge_method,
        }
    }
}

impl Clone for ReactionConfig {
    fn clone(&self) -> (r: Self)
        ensures
            r == *self,
    {
        ReactionConfig {
            auto: self.auto,
            action: self.action,
            message: clone_opt(&self.message),
            priority: self.priority,
            retries: self.retries,
            escalate_after: match &self.escalate_after {
                Some(e) => Some(e.clone()),
                None => None,
            },
            threshold: clone_opt(&self.threshold),
            include_summary: self.include_summary,
            merge_method: self.merge_method,
        }
    }
}

/// How a reaction that fired went.
#[derive(Clone, Copy, Debug, PartialEq, Eq, Structural)]
pub struct ReactionOutcome {
    /// What was actually done; an escalated reaction only notifies.
    pub action: ReactionAction,
    pub success: bool,
    pub escalated: bool,
}

/// How many seconds a unit of time has.
pub open spec fn unit_secs(unit: char) -> Option<nat> {
    if unit == 's' {
        Some(1)
    } else if unit == 'm' {
        Some(60)
    } else if unit == 'h' {
        Some(3600)
    } else {
        None
    }
}

/// The seconds that a duration such as `10s`, `5m` or `2h` stands for.
pub open spec fn duration_secs(s: Seq<char>) -> Option<nat> {
    if s.len() == 0 {
        None
    } else {
        match unit_secs(s.last()) {
            Some(unit) => if digits(s.drop_last()) {
                Some(number(s.drop_last()) * unit)
            } else {
                None
            },
            None => None,
        }
    }
}

/// The duration can be read, and is at most `u64::MAX` seconds.
pub open spec fn readable(raw: Seq<char>) -> bool {
    duration_secs(raw) matches Some(n) && n <= u64::MAX
}

/// Reads a duration such as `10s`, `5m` or `2h`, in seconds.
pub fn parse_duration(raw: &str) -> (r: Option<u64>)
    ensures
        match (duration_secs(raw@), r) {
            (Some(n), Some(m)) => n == m && n <= u64::MAX,
            (Some(n), None) => n > u64::MAX,
            (None, m) => m is None,
        },
{
    let v = chars_of(raw);
    if v.len() == 0 {
        return None;
    }
    let last: usize = v.len() - 1;
    let unit: u128 = match v[last] {
        's' => 1,
        'm' => 60,
        'h' => 3600,
        _ => {
            return None;
        },
    };
    assert(raw@.drop_last() =~= v@.subrange(0, last as int));
    match parse_digits(&v, 0, last) {
        Some(n) => {
            if n > (u64::MAX as u128) / unit {
                assert(n * unit > u64::MAX) by (nonlinear_arith)
                    requires
                        n > (u64::MAX as u128) / unit,
                        1 <= unit <= 3600,
                ;
                None
            } else {
                assert(n * unit <= u64::MAX) by (nonlinear_arith)
                    requires
                        n <= (u64::MAX as u128) / unit,
                        1 <= unit <= 3600,
                ;
                Some((n * unit) as u64)
            }
        },
        None => {
            proof {
                if digits(raw@.drop_last()) {
                    let n = number(raw@.drop_last());
                    assert(n * unit >= n) by (nonlinear_arith)
                        requires
                            1 <= unit,
                    ;
                }
            }
            None
        },
    }
}

/// A number and a unit make a duration: seconds after `s`, minutes after `m`, hours after `h`. No
/// other unit counts, and nothing but digits before it.
pub proof fn law_durations_count_seconds(n: nat, s: Seq<char>, unit: char)
    ensures
        duration_secs(decimal(n) + "s"@) == Some(n),
        duration_secs(decimal(n) + "m"@) == Some(60 * n),
        duration_secs(decimal(n) + "h"@) == Some(3600 * n),
        unit != 's' && unit != 'm' && unit != 'h' ==> duration_secs(s.push(unit)) is None,
        !digits(s) ==> duration_secs(s.push(unit)) is None,
        duration_secs(Seq::empty()) is None,
{
    law_decimal_reads_back(n);
    reveal_strlit("s");
    reveal_strlit("m");
    reveal_strlit("h");
    let d = decimal(n);
    assert((d + "s"@).drop_last() =~= d && (d + "s"@).last() == 's');
    assert((d + "m"@).drop_last() =~= d && (d + "m"@).last() == 'm');
    assert((d + "h"@).drop_last() =~= d && (d + "h"@).last() == 'h');
    assert(s.push(unit).drop_last() =~= s && s.push(unit).last() == unit);
    assert(duration_secs(d + "s"@) == Some(number(d) * 1));
    assert(duration_secs(d + "m"@) == Some(number(d) * 60));
    assert(duration_secs(d + "h"@) == Some(number(d) * 3600));
    assert(number(d) * 1 == n) by (nonlinear_arith)
        requires
            number(d) == n,
    ;
}

/// Priorities are called what they are.
pub proof fn law_priorities_have_names(p: EventPriority)
    ensures
        match p {
            EventPriority::Urgent => p.name() == "urgent"@,
            EventPriority::Action => p.name() == "action"@,
            EventPriority::Warning => p.name() == "warning"@,
            EventPriority::Info => p.name() == "info"@,
        },
{
}

} // verus!
