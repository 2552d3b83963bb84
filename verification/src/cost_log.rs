//! The log in which agents report the tokens that they use: one entry per turn and line, in
//! `.ao/usage.jsonl` of the worktree.

use vstd::prelude::*;

use crate::paths::{join_path, path_join};
use crate::types::CostEstimate;

verus! {

/// One entry of the log.
#[derive(Debug, PartialEq, Eq)]
pub struct UsageLogEntry {
    pub ts: Option<String>,
    pub input_tokens: u64,
    pub output_tokens: u64,
    pub cache_read_tokens: u64,
    pub cache_creation_tokens: u64,
    /// The bits of a floating-point number.
    pub cost_usd_bits: u64,
}

/// Where the log of a worktree is.
pub fn usage_log_path(workspace_path: &str) -> (r: String)
    ensures
        r@ == join_path(join_path(workspace_path@, ".ao"@), "usage.jsonl"@),
{
    let dir = path_join(workspace_path, ".ao");
    path_join(dir.as_str(), "usage.jsonl")
}

/// The sum of a field over all entries.
pub open spec fn total(entries: Seq<UsageLogEntry>, field: spec_fn(UsageLogEntry) -> u64) -> nat
    decreases entries.len(),
{
    if entries.len() == 0 {
        0
    } else {
        total(entries.drop_last(), field) + field(entries.last()) as nat
    }
}

/// A number of tokens, as far as it can be counted.
pub open spec fn capped(n: nat) -> u64 {
    if n <= u64::MAX {
        n as u64
    } else {
        u64::MAX
    }
}

/// The input tokens of an entry.
pub open spec fn input() -> spec_fn(UsageLogEntry) -> u64 {
    |e: UsageLogEntry| e.input_tokens
}

/// The output tokens of an entry.
pub open spec fn output() -> spec_fn(UsageLogEntry) -> u64 {
    |e: UsageLogEntry| e.output_tokens
}

/// The tokens of an entry that were read from the cache.
pub open spec fn cache_read() -> spec_fn(UsageLogEntry) -> u64 {
    |e: UsageLogEntry| e.cache_read_tokens
}

/// The tokens of an entry that were written to the cache.
pub open spec fn cache_creation() -> spec_fn(UsageLogEntry) -> u64 {
    |e: UsageLogEntry| e.cache_creation_tokens
}

/// What all turns together have cost: the tokens are added up, and a log without any input
/// or output gives no estimate.
pub open spec fn usage(entries: Seq<UsageLogEntry>, cost_usd_bits: Option<u64>) -> Option<
    CostEstimate,
> {
    if total(entries, input()) == 0 && total(entries, output()) == 0 {
        None
    } else {
        Some(
            CostEstimate {
                input_tokens: capped(total(entries, input())),
                output_tokens: capped(total(entries, output())),
                cache_read_tokens: capped(total(entries, cache_read())),
                cache_creation_tokens: capped(total(entries, cache_creation())),
                cost_usd_bits,
            },
        )
    }
}

/// What all turns together have cost. `entries` are the lines of the log that could be read;
/// `cost_usd_bits` is the sum of their costs, where it is positive.
pub fn parse_usage_jsonl(entries: &Vec<UsageLogEntry>, cost_usd_bits: Option<u64>) -> (r: Option<
    CostEstimate,
>)
    ensures
        r == usage(entries@, cost_usd_bits),
{
    let mut input_tokens: u64 = 0;
    let mut output_tokens: u64 = 0;
    let mut cache_read_tokens: u64 = 0;
    let mut cache_creation_tokens: u64 = 0;
    assert(entries@.take(0) =~= Seq::empty());
    for i in 0..entries.len()
        invariant
            input_tokens == capped(total(entries@.take(i as int), input())),
            output_tokens == capped(total(entries@.take(i as int), output())),
            cache_read_tokens == capped(total(entries@.take(i as int), cache_read())),
            cache_creation_tokens == capped(total(entries@.take(i as int), cache_creation())),
    {
        let e = &entries[i];
        assert(entries@.take(i + 1).drop_last() =~= entries@.take(i as int));
        assert(entries@.take(i + 1).last() == *e);
        input_tokens = input_tokens.saturating_add(e.input_tokens);
        output_tokens = output_tokens.saturating_add(e.output_tokens);
        cache_read_tokens = cache_read_tokens.saturating_add(e.cache_read_tokens);
        cache_creation_tokens = cache_creation_tokens.saturating_add(e.cache_creation_tokens);
    }
    assert(entries@.take(entries@.len() as int) =~= entries@);
    if input_tokens == 0 && output_tokens == 0 {
        return None;
    }
    Some(
        CostEstimate {
            input_tokens,
            output_tokens,
            cache_read_tokens,
            cache_creation_tokens,
            cost_usd_bits,
        },
    )
}

/// The sum of two numbers of tokens, as far as it can be counted.
pub open spec fn plus(a: u64, b: u64) -> u64 {
    if a + b <= u64::MAX {
        (a + b) as u64
    } else {
        u64::MAX
    }
}

/// Every turn adds its tokens, each kind to its own. A log has an estimate as soon as one of its
/// turns has input or output.
pub proof fn law_turns_add_up(
    entries: Seq<UsageLogEntry>,
    e: UsageLogEntry,
    bits: Option<u64>,
    more: Option<u64>,
)
    ensures
        usage(Seq::empty(), bits) is None,
        match usage(entries, bits) {
            Some(c) => usage(entries.push(e), more) == Some(
                CostEstimate {
                    input_tokens: plus(c.input_tokens, e.input_tokens),
                    output_tokens: plus(c.output_tokens, e.output_tokens),
                    cache_read_tokens: plus(c.cache_read_tokens, e.cache_read_tokens),
                    cache_creation_tokens: plus(c.cache_creation_tokens, e.cache_creation_tokens),
                    cost_usd_bits: more,
                },
            ),
            None => usage(entries.push(e), more) is Some <==> e.input_tokens > 0 || e.output_tokens
                > 0,
        },
{
    assert(entries.push(e).drop_last() =~= entries);
    assert(entries.push(e).last() == e);
}

} // verus!
