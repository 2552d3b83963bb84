//! Who is told of what.

use vstd::prelude::*;

use crate::reactions::EventPriority;

verus! {

/// Which notifiers are told of events of each priority. A priority without an entry is left to
/// whoever sends the notification.
#[derive(Debug, PartialEq, Eq)]
pub struct NotificationRouting {
    pub urgent: Option<Vec<String>>,
    pub action: Option<Vec<String>>,
    pub warning: Option<Vec<String>>,
    pub info: Option<Vec<String>>,
}

/// 1 for an entry, 0 for none.
pub open spec fn entry(names: Option<Vec<String>>) -> nat {
    if names is Some {
        1
    } else {
        0
    }
}

impl NotificationRouting {
    /// The entry of a priority.
    pub open spec fn names(self, priority: EventPriority) -> Option<Vec<String>> {
        match priority {
            EventPriority::Urgent => self.urgent,
            EventPriority::Action => self.action,
            EventPriority::Warning => self.warning,
            EventPriority::Info => self.info,
        }
    }

    /// The notifiers that are told of events of the given priority.
    pub fn names_for(&self, priority: EventPriority) -> (r: Option<&Vec<String>>)
        ensures
            match r {
                Some(names) => self.names(priority) == Some(*names),
                None => self.names(priority) is None,
            },
    {
        match priority {
            EventPriority::Urgent => self.urgent.as_ref(),
            EventPriority::Action => self.action.as_ref(),
            EventPriority::Warning => self.warning.as_ref(),
            EventPriority::Info => self.info.as_ref(),
        }
    }

    /// How many priorities have an entry.
    pub fn len(&self) -> (r: usize)
        ensures
            r == entry(self.urgent) + entry(self.action) + entry(self.warning) + entry(self.info),
    {
        let mut n: usize = 0;
        if self.urgent.is_some() {
            n += 1;
        }
        if self.action.is_some() {
            n += 1;
        }
        if self.warning.is_some() {
            n += 1;
        }
        if self.info.is_some() {
            n += 1;
        }
        n
    }

    /// Whether no priority has an entry.
    pub fn is_empty(&self) -> (r: bool)
        ensures
            r == forall|p: EventPriority| self.names(p) is None,
    {
        let none = self.urgent.is_none() && self.action.is_none() && self.warning.is_none()
            && self.info.is_none();
        assert(self.names(EventPriority::Urgent) == self.urgent);
        assert(self.names(EventPriority::Action) == self.action);
        assert(self.names(EventPriority::Warning) == self.warning);
        assert(self.names(EventPriority::Info) == self.info);
        none
    }
}

impl Default for NotificationRouting {
    fn default() -> (r: Self)
        ensures
            forall|p: EventPriority| r.names(p) is None,
    {
        NotificationRouting { urgent: None, action: None, warning: None, info: None }
    }
}

/// Every priority has its own entry.
pub proof fn law_priorities_have_their_own_entries(r: NotificationRouting, p: EventPriority)
    ensures
        match p {
            EventPriority::Urgent => r.names(p) == r.urgent,
            EventPriority::Action => r.names(p) == r.action,
            EventPriority::Warning => r.names(p) == r.warning,
            EventPriority::Info => r.names(p) == r.info,
        },
{
}

} // verus!
