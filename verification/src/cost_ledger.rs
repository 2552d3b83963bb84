//! The ledger in which the cost of every session is kept: one file a month, under
//! `.ao-rs/cost-ledger` of the home directory. A session stays in the file of the month in
//! which it was created.

use vstd::prelude::*;
use vstd::string::*;

use crate::calendar::{day_number, days_to_ymd, is_date, law_day_numbers_are_unique};
use crate::paths::{join_path, path_join};
use crate::text::{padded, padded_text, same_text};
use crate::types::CostEstimate;

verus! {

/// One row of a ledger.
#[derive(Debug, PartialEq, Eq)]
pub struct CostEntry {
    pub session_id: String,
    pub project_id: String,
    pub branch: String,
    pub cost: CostEstimate,
    /// Milliseconds since the epoch.
    pub created_at: u64,
    /// Milliseconds since the epoch.
    pub updated_at: u64,
}

/// The ledger of one month.
#[derive(Debug, PartialEq, Eq)]
pub struct CostLedger {
    pub entries: Vec<CostEntry>,
}

/// The contents of a `CostEntry`.
#[verifier::ext_equal]
pub struct EntryView {
    pub session_id: Seq<char>,
    pub project_id: Seq<char>,
    pub branch: Seq<char>,
    pub cost: CostEstimate,
    pub created_at: u64,
    pub updated_at: u64,
}

impl View for CostEntry {
    type V = EntryView;

    open spec fn view(&self) -> EntryView {
        EntryView {
            session_id: self.session_id@,
            project_id: self.project_id@,
            branch: self.branch@,
            cost: self.cost,
            created_at: self.created_at,
            updated_at: self.updated_at,
        }
    }
}

impl View for CostLedger {
    type V = Seq<EntryView>;

    open spec fn view(&self) -> Seq<EntryView> {
        self.entries@.map_values(|e: CostEntry| e@)
    }
}

impl Default for CostLedger {
    fn default() -> (r: Self)
        ensures
            r@ == Seq::<EntryView>::empty(),
    {
        let r = CostLedger { entries: Vec::new() };
        assert(r@ =~= Seq::<EntryView>::empty());
        r
    }
}

/// The directory of the ledgers.
pub open spec fn ledgers(home: Seq<char>) -> Seq<char> {
    join_path(join_path(home, ".ao-rs"@), "cost-ledger"@)
}

/// The directory of the ledgers, in the home directory `home`.
pub fn ledger_dir(home: &str) -> (r: String)
    ensures
        r@ == ledgers(home@),
{
    let data = path_join(home, ".ao-rs");
    path_join(data.as_str(), "cost-ledger")
}

/// `y` and `m` are the year and the month in which a second falls.
pub open spec fn falls_in(secs: int, y: int, m: int) -> bool {
    exists|d: int| #[trigger] is_date(y, m, d) && day_number(y, m, d) == secs / 86400
}

/// The year and the month, as `YYYY-MM`.
pub open spec fn month_name(y: int, m: int) -> Seq<char> {
    padded(y as nat, 4) + "-"@ + padded(m as nat, 2)
}

/// The year and the month in which a second falls, as `YYYY-MM`.
pub fn time_from_epoch_secs(secs: u64) -> (r: String)
    ensures
        forall|y: int, m: int| #[trigger] falls_in(secs as int, y, m) ==> r@ == month_name(y, m),
        exists|y: int, m: int| #[trigger] falls_in(secs as int, y, m),
{
    let (year, month, day) = days_to_ymd(secs / 86400);
    let mut out = padded_text(year, 4);
    out.append("-");
    let m = padded_text(month, 2);
    out.append(m.as_str());
    proof {
        assert(is_date(year as int, month as int, day as int));
        assert(falls_in(secs as int, year as int, month as int));
        assert forall|y: int, m: int| #[trigger] falls_in(secs as int, y, m) implies out@
            == month_name(y, m) by {
            let d = choose|d: int| #[trigger]
                is_date(y, m, d) && day_number(y, m, d) == secs as int / 86400;
            law_day_numbers_are_unique(y, m, d, year as int, month as int, day as int);
        }
    }
    out
}

/// The ledger of a session that was created at the given time, in milliseconds since the
/// epoch.
pub fn ledger_path_for(home: &str, created_at_ms: u64) -> (r: String)
    ensures
        forall|y: int, m: int| #[trigger]
            falls_in(created_at_ms as int / 1000, y, m) ==> r@ == join_path(
                ledgers(home@),
                month_name(y, m) + ".yaml"@,
            ),
        exists|y: int, m: int| #[trigger] falls_in(created_at_ms as int / 1000, y, m),
{
    let dir = ledger_dir(home);
    let mut file = time_from_epoch_secs(created_at_ms / 1000);
    file.append(".yaml");
    path_join(dir.as_str(), file.as_str())
}

/// The entries of a session.
pub open spec fn entry_of(ledger: Seq<EntryView>, id: Seq<char>, i: int) -> bool {
    &&& 0 <= i < ledger.len()
    &&& ledger[i].session_id == id
    &&& forall|j: int| 0 <= j < i ==> (#[trigger] ledger[j]).session_id != id
}

/// The session has an entry.
pub open spec fn listed(ledger: Seq<EntryView>, id: Seq<char>) -> bool {
    exists|i: int| entry_of(ledger, id, i)
}

/// The ledger with the cost of a session in it: in its first entry, or else in a new one.
pub open spec fn recorded(
    ledger: Seq<EntryView>,
    new: EntryView,
) -> Seq<EntryView> {
    if listed(ledger, new.session_id) {
        let i = choose|i: int| entry_of(ledger, new.session_id, i);
        ledger.update(i, EntryView { cost: new.cost, updated_at: new.updated_at, ..ledger[i] })
    } else {
        ledger.push(new)
    }
}

/// Records what a session has cost by `now`, in milliseconds since the epoch. A session
/// that is listed keeps its entry.
pub fn record_cost(
    ledger: &mut CostLedger,
    session_id: &str,
    project_id: &str,
    branch: &str,
    cost: &CostEstimate,
    created_at: u64,
    now: u64,
)
    ensures
        final(ledger)@ == recorded(
            old(ledger)@,
            (EntryView {
                session_id: session_id@,
                project_id: project_id@,
                branch: branch@,
                cost: *cost,
                created_at,
                updated_at: now,
            }),
        ),
{
    let ghost had = ledger@;
    let mut i: usize = 0;
    while i < ledger.entries.len()
        invariant
            i <= ledger.entries.len(),
            ledger@ == had,
            had == old(ledger)@,
            forall|j: int| 0 <= j < i ==> (#[trigger] had[j]).session_id != session_id@,
        decreases ledger.entries.len() - i,
    {
        assert(had[i as int] == ledger.entries@[i as int]@);
        if same_text(ledger.entries[i].session_id.as_str(), session_id) {
            let ghost at = i as int;
            let e = &ledger.entries[i];
            let updated = CostEntry {
                session_id: e.session_id.clone(),
                project_id: e.project_id.clone(),
                branch: e.branch.clone(),
                cost: *cost,
                created_at: e.created_at,
                updated_at: now,
            };
            ledger.entries.set(i, updated);
            proof {
                assert(entry_of(had, session_id@, at));
                let k = choose|k: int| entry_of(had, session_id@, k);
                assert(k == at) by {
                    if k < at {
                        assert(had[k].session_id != session_id@);
                    } else if at < k {
                        assert(had[at].session_id != session_id@);
                    }
                }
                assert(ledger@ =~= had.update(
                    at,
                    EntryView { cost: *cost, updated_at: now, ..had[at] },
                ));
            }
            return ;
        }
        i += 1;
    }
    ledger.entries.push(
        CostEntry {
            session_id: session_id.to_string(),
            project_id: project_id.to_string(),
            branch: branch.to_string(),
            cost: *cost,
            created_at,
            updated_at: now,
        },
    );
    assert(!listed(had, session_id@));
    assert(ledger@ =~= recorded(
        had,
        (EntryView {
            session_id: session_id@,
            project_id: project_id@,
            branch: branch@,
            cost: *cost,
            created_at,
            updated_at: now,
        }),
    ));
}

/// No session has two entries.
pub open spec fn one_each(ledger: Seq<EntryView>) -> bool {
    forall|i: int, j: int|
        0 <= i < j < ledger.len() ==> (#[trigger] ledger[i]).session_id != (
        #[trigger] ledger[j]).session_id
}

/// A ledger in which no session has two entries stays one, however often costs are recorded.
pub proof fn law_one_entry_each(ledger: Seq<EntryView>, new: EntryView)
    requires
        one_each(ledger),
    ensures
        one_each(recorded(ledger, new)),
{
    let after = recorded(ledger, new);
    if listed(ledger, new.session_id) {
        let k = choose|k: int| entry_of(ledger, new.session_id, k);
        assert(after[k].session_id == ledger[k].session_id);
    } else {
        assert forall|i: int, j: int| 0 <= i < j < after.len() implies (
        #[trigger] after[i]).session_id != (#[trigger] after[j]).session_id by {
            if j == ledger.len() && ledger[i].session_id == new.session_id {
                lemma_listed(ledger, new.session_id, i);
            }
        }
    }
}

proof fn lemma_listed(ledger: Seq<EntryView>, id: Seq<char>, i: int)
    requires
        0 <= i < ledger.len(),
        ledger[i].session_id == id,
    ensures
        listed(ledger, id),
    decreases i,
{
    if exists|j: int| 0 <= j < i && (#[trigger] ledger[j]).session_id == id {
        let j = choose|j: int| 0 <= j < i && (#[trigger] ledger[j]).session_id == id;
        lemma_listed(ledger, id, j);
    } else {
        assert(entry_of(ledger, id, i));
    }
}

/// Recording the cost of a session leaves the entries of the others as they are, and keeps
/// when and where the session was created.
pub proof fn law_recording_keeps_the_rest(ledger: Seq<EntryView>, new: EntryView, i: int)
    requires
        0 <= i < ledger.len(),
    ensures
        ({
            let after = recorded(ledger, new);
            &&& ledger.len() <= after.len() <= ledger.len() + 1
            &&& ledger[i].session_id != new.session_id ==> after[i] == ledger[i]
            &&& after[i] == (EntryView {
                cost: after[i].cost,
                updated_at: after[i].updated_at,
                ..ledger[i]
            })
        }),
{
    if listed(ledger, new.session_id) {
        let k = choose|k: int| entry_of(ledger, new.session_id, k);
        assert(entry_of(ledger, new.session_id, k));
    }
}

/// What was recorded last is what the ledger holds: recording twice is the same as recording
/// the second cost in the first place.
pub proof fn law_last_cost_counts(ledger: Seq<EntryView>, first: EntryView, second: EntryView)
    requires
        first.session_id == second.session_id,
        first.project_id == second.project_id,
        first.branch == second.branch,
        first.created_at == second.created_at,
    ensures
        recorded(recorded(ledger, first), second) == recorded(ledger, second),
{
    let id = first.session_id;
    let once = recorded(ledger, first);
    if listed(ledger, id) {
        let k = choose|k: int| entry_of(ledger, id, k);
        assert(entry_of(once, id, k)) by {
            assert(once[k].session_id == id);
            assert forall|j: int| 0 <= j < k implies (#[trigger] once[j]).session_id != id by {
                assert(ledger[j].session_id != id);
            }
        }
        let n = choose|n: int| entry_of(once, id, n);
        assert(n == k) by {
            if n < k {
                assert(once[n].session_id != id);
            } else if k < n {
                assert(once[k].session_id != id);
            }
        }
        assert(recorded(once, second) =~= recorded(ledger, second));
    } else {
        let k = ledger.len() as int;
        assert(once[k].session_id == id);
        assert(entry_of(once, id, k)) by {
            assert forall|j: int| 0 <= j < k implies (#[trigger] once[j]).session_id != id by {
                if ledger[j].session_id == id {
                    lemma_listed(ledger, id, j);
                }
            }
        }
        let n = choose|n: int| entry_of(once, id, n);
        assert(n == k) by {
            if n < k {
                assert(once[n].session_id != id) by {
                    if ledger[n].session_id == id {
                        lemma_listed(ledger, id, n);
                    }
                }
            }
        }
        assert(recorded(once, second) =~= recorded(ledger, second));
    }
}

/// The ledgers are in a directory of their own, in that of the orchestrator, and one is called after
/// its month.
pub proof fn law_ledgers_have_their_place(home: Seq<char>, y: int, m: int)
    ensures
        ledgers(home) == join_path(join_path(home, ".ao-rs"@), "cost-ledger"@),
        month_name(y, m) == padded(y as nat, 4) + "-"@ + padded(m as nat, 2),
{
}

} // verus!
