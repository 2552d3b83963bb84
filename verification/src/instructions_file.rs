//! The file in which an agent finds its prompt. What people have written into it stays.

use vstd::prelude::*;
use vstd::string::*;

use crate::text::{
    chars_of, find, first_at, occurs, occurs_at, same_text, trim_end, trim_start, trimmed_end,
    trimmed_start, white_space,
};

verus! {

/// The line before the prompt.
pub const SENTINEL_START: &'static str = "<!-- AO_PROMPT_START -->";

/// The line after the prompt.
pub const SENTINEL_END: &'static str = "<!-- AO_PROMPT_END -->";

/// The agent that runs unless the configuration names another. It has a file of its own.
#[derive(Debug, PartialEq, Eq)]
pub struct NativeAgent {
    /// Its name in the configuration.
    pub name: String,
    /// The file that it reads by itself.
    pub file: String,
    /// Its name among the environments that skills can be installed for.
    pub environment: String,
}

/// The file that the given agent reads by itself.
pub fn instructions_file_name<'a>(agent: &str, native: &'a NativeAgent) -> (r: &'a str)
    ensures
        r@ == if agent@ == native.name@ {
            native.file@
        } else {
            "AGENTS.md"@
        },
{
    if same_text(agent, native.name.as_str()) {
        native.file.as_str()
    } else {
        "AGENTS.md"
    }
}

/// The prompt between its two lines.
pub open spec fn block(prompt: Seq<char>) -> Seq<char> {
    SENTINEL_START@ + "\n"@ + prompt + "\n"@ + SENTINEL_END@ + "\n"@
}

/// The least index at which `n` stands in `s`.
pub open spec fn index_of(s: Seq<char>, n: Seq<char>) -> Option<int> {
    if occurs(s, n) {
        Some(choose|i: int| first_at(s, n, i))
    } else {
        None
    }
}

/// Where the prompt stands in a file: from the first line that starts one to the first that
/// ends one, if they come in that order.
pub open spec fn prompt_at(s: Seq<char>) -> Option<(int, int)> {
    match (index_of(s, SENTINEL_START@), index_of(s, SENTINEL_END@)) {
        (Some(i), Some(j)) => if j > i {
            Some((i, j + SENTINEL_END@.len()))
        } else {
            None
        },
        _ => None,
    }
}

/// The prompt between what comes before and after it, with blank lines between them.
pub open spec fn framed(before: Seq<char>, prompt: Seq<char>, after: Seq<char>) -> Seq<char> {
    let front = if before.len() == 0 {
        Seq::empty()
    } else {
        before + "\n\n"@
    };
    let back = if after.len() == 0 {
        Seq::empty()
    } else {
        "\n"@ + after
    };
    front + block(prompt) + back
}

/// A file with a new prompt in it: in the place of the old one, or else at its end.
pub open spec fn rewritten(existing: Seq<char>, prompt: Seq<char>) -> Seq<char> {
    match prompt_at(existing) {
        Some((i, j)) => framed(
            trim_end(existing.take(i)),
            prompt,
            trim_start(existing.skip(j)),
        ),
        None => if existing.len() == 0 {
            block(prompt)
        } else {
            trim_end(existing) + "\n\n"@ + block(prompt)
        },
    }
}

/// Where `n` stands first in `s`.
fn place(s: &Vec<char>, n: &str) -> (r: Option<usize>)
    ensures
        match (index_of(s@, n@), r) {
            (Some(i), Some(j)) => i == j && first_at(s@, n@, i),
            (None, None) => true,
            _ => false,
        },
{
    let needle = chars_of(n);
    let r = find(s, &needle);
    proof {
        if let Some(i) = r {
            lemma_first(s@, n@, i as int);
        }
    }
    r
}

proof fn lemma_first(s: Seq<char>, n: Seq<char>, i: int)
    requires
        first_at(s, n, i),
    ensures
        index_of(s, n) == Some(i),
{
    assert(occurs_at(s, n, i));
    let k = choose|k: int| first_at(s, n, k);
    assert(first_at(s, n, k));
    if k < i {
        assert(!occurs_at(s, n, k));
    } else if i < k {
        assert(!occurs_at(s, n, i));
    }
}

/// The prompt between its two lines.
fn prompt_block(prompt: &str) -> (r: String)
    ensures
        r@ == block(prompt@),
{
    let mut out: String = SENTINEL_START.to_string();
    out.append("\n");
    out.append(prompt);
    out.append("\n");
    out.append(SENTINEL_END);
    out.append("\n");
    out
}

/// What the instructions of an agent say with `prompt` in them, where the file held
/// `existing` before; a file that is not there holds nothing. An old prompt is replaced where
/// it stands, and what is written around it stays. Without one the prompt comes at the end.
pub fn write_instructions_file(existing: &str, prompt: &str) -> (r: String)
    ensures
        r@ == rewritten(existing@, prompt@),
{
    let new_block = prompt_block(prompt);
    let text = chars_of(existing);
    let start = place(&text, SENTINEL_START);
    let end = place(&text, SENTINEL_END);
    let n: usize = existing.unicode_len();
    if let (Some(i), Some(j)) = (start, end) {
        if j > i {
            let len: usize = SENTINEL_END.unicode_len();
            let before = trimmed_end(existing.substring_char(0, i));
            let after = trimmed_start(existing.substring_char(j + len, n));
            assert(existing@.subrange(0, i as int) =~= existing@.take(i as int));
            assert(existing@.subrange(j + len, n as int) =~= existing@.skip(j + len));
            let mut out: String = String::new();
            if !before.as_str().is_empty() {
                out.append(before.as_str());
                out.append("\n\n");
            }
            out.append(new_block.as_str());
            if !after.as_str().is_empty() {
                out.append("\n");
                out.append(after.as_str());
            }
            assert(out@ =~= framed(before@, prompt@, after@));
            return out;
        }
    }
    if existing.is_empty() {
        return new_block;
    }
    let mut out = trimmed_end(existing);
    out.append("\n\n");
    out.append(new_block.as_str());
    assert(out@ =~= trim_end(existing@) + "\n\n"@ + block(prompt@));
    out
}

/// The prompt that was written last stands in the file, between its two lines.
pub proof fn law_prompt_is_written(existing: Seq<char>, prompt: Seq<char>)
    ensures
        occurs(rewritten(existing, prompt), block(prompt)),
{
    let r = rewritten(existing, prompt);
    match prompt_at(existing) {
        Some((i, j)) => {
            let before = trim_end(existing.take(i));
            let at = if before.len() == 0 {
                0int
            } else {
                (before + "\n\n"@).len() as int
            };
            assert(r.subrange(at, at + block(prompt).len()) =~= block(prompt));
            assert(occurs_at(r, block(prompt), at));
        },
        None => {
            let at = if existing.len() == 0 {
                0int
            } else {
                (trim_end(existing) + "\n\n"@).len() as int
            };
            assert(r.subrange(at, at + block(prompt).len()) =~= block(prompt));
            assert(occurs_at(r, block(prompt), at));
        },
    }
}

proof fn lemma_trim_end(s: Seq<char>)
    ensures
        trim_end(s).len() <= s.len(),
        trim_end(s) == s.take(trim_end(s).len() as int),
        trim_end(trim_end(s)) == trim_end(s),
    decreases s.len(),
{
    if s.len() > 0 && white_space(s.last()) {
        lemma_trim_end(s.drop_last());
        let n = trim_end(s).len() as int;
        assert(s.drop_last().take(n) =~= s.take(n));
    } else {
        assert(s.take(s.len() as int) =~= s);
    }
}

proof fn lemma_trim_start(s: Seq<char>)
    ensures
        trim_start(trim_start(s)) == trim_start(s),
    decreases s.len(),
{
    if s.len() > 0 && white_space(s[0]) {
        lemma_trim_start(s.skip(1));
    }
}

/// What does not stand in a text does not stand in a beginning of it.
proof fn lemma_not_in_front(s: Seq<char>, n: Seq<char>, i: int)
    requires
        0 <= i <= s.len(),
        occurs(s.take(i), n),
    ensures
        exists|k: int| k + n.len() <= i && #[trigger] occurs_at(s, n, k),
{
    let k = choose|k: int| occurs_at(s.take(i), n, k);
    assert(s.take(i).subrange(k, k + n.len()) =~= s.subrange(k, k + n.len()));
    assert(occurs_at(s, n, k));
}

/// What is written in one line, and nowhere in a part of a text that ends with a line feed,
/// does not begin there.
proof fn lemma_not_in_line(s: Seq<char>, a: int, b: int, n: Seq<char>)
    requires
        0 <= a <= b < s.len(),
        s[b] == '\n',
        n.len() > 0,
        forall|k: int| 0 <= k < n.len() ==> n[k] != '\n',
        !occurs(s.subrange(a, b), n),
    ensures
        forall|k: int| a <= k <= b ==> !#[trigger] occurs_at(s, n, k),
{
    assert forall|k: int| a <= k <= b implies !#[trigger] occurs_at(s, n, k) by {
        if occurs_at(s, n, k) {
            if k + n.len() <= b {
                assert(s.subrange(a, b).subrange(k - a, k - a + n.len()) =~= s.subrange(
                    k,
                    k + n.len(),
                ));
                assert(occurs_at(s.subrange(a, b), n, k - a));
            } else {
                assert(s.subrange(k, k + n.len())[b - k] == s[b]);
            }
        }
    }
}

/// The lines that start and end a prompt.
proof fn lemma_marks()
    ensures
        SENTINEL_START@.len() == 24,
        SENTINEL_END@.len() == 22,
        forall|k: int| 0 <= k < 24 ==> SENTINEL_START@[k] != '\n',
        forall|k: int| 0 <= k < 22 ==> SENTINEL_END@[k] != '\n',
        !occurs(SENTINEL_START@, SENTINEL_END@),
        "\n"@ == seq!['\n'],
        "\n\n"@ == seq!['\n', '\n'],
        white_space('\n'),
{
    reveal_strlit("<!-- AO_PROMPT_START -->");
    reveal_strlit("<!-- AO_PROMPT_END -->");
    reveal_strlit("\n");
    reveal_strlit("\n\n");
    assert("\n"@ =~= seq!['\n']);
    assert("\n\n"@ =~= seq!['\n', '\n']);
    let start = SENTINEL_START@;
    let end = SENTINEL_END@;
    assert forall|k: int| !#[trigger] occurs_at(start, end, k) by {
        if occurs_at(start, end, k) {
            let here = start.subrange(k, k + 22);
            assert(here[0] == start[k]);
            assert(here[15] == start[k + 15]);
        }
    }
}

/// In a file that was written around a prompt, that prompt is found.
proof fn lemma_found(before: Seq<char>, prompt: Seq<char>, after: Seq<char>)
    requires
        !occurs(before, SENTINEL_START@),
        !occurs(before, SENTINEL_END@),
        !occurs(prompt, SENTINEL_END@),
    ensures
        ({
            let p = if before.len() == 0 {
                0int
            } else {
                before.len() as int + 2
            };
            prompt_at(framed(before, prompt, after)) == Some((p, p + 24 + 1 + prompt.len() + 1 + 22))
        }),
{
    lemma_marks();
    let start = SENTINEL_START@;
    let end = SENTINEL_END@;
    let s = framed(before, prompt, after);
    let p = if before.len() == 0 {
        0int
    } else {
        before.len() as int + 2
    };
    let q = p + 25 + prompt.len() + 1;
    assert(s.subrange(p, p + 24) =~= start);
    assert(s.subrange(p + 25, q - 1) =~= prompt);
    assert(s.subrange(q, q + 22) =~= end);
    assert(s[p + 24] == '\n');
    assert(s[q - 1] == '\n');
    if before.len() > 0 {
        let n = before.len() as int;
        assert(s[n] == '\n');
        assert(s[n + 1] == '\n');
        assert(s.subrange(0, n) =~= before);
        lemma_not_in_line(s, 0, n, start);
        lemma_not_in_line(s, 0, n, end);
        assert(s.subrange(n + 1, n + 1).len() == 0);
        lemma_not_in_line(s, n + 1, n + 1, start);
        lemma_not_in_line(s, n + 1, n + 1, end);
    }
    lemma_not_in_line(s, p, p + 24, end);
    lemma_not_in_line(s, p + 25, q - 1, end);
    assert(occurs_at(s, start, p));
    assert(first_at(s, start, p));
    lemma_first(s, start, p);
    assert(occurs_at(s, end, q));
    assert(first_at(s, end, q));
    lemma_first(s, end, q);
}

proof fn lemma_rewritten_again(
    before: Seq<char>,
    prompt: Seq<char>,
    after: Seq<char>,
    next: Seq<char>,
)
    requires
        !occurs(before, SENTINEL_START@),
        !occurs(before, SENTINEL_END@),
        !occurs(prompt, SENTINEL_END@),
        trim_end(before) == before,
        trim_start(after) == after,
    ensures
        rewritten(framed(before, prompt, after), next) == framed(before, next, after),
{
    lemma_found(before, prompt, after);
    lemma_marks();
    let s = framed(before, prompt, after);
    let p = if before.len() == 0 {
        0int
    } else {
        before.len() as int + 2
    };
    let e = p + 24 + 1 + prompt.len() + 1 + 22;
    assert(trim_end(s.take(p)) == before) by {
        if before.len() == 0 {
            assert(s.take(p) =~= before);
        } else {
            assert(s.take(p) =~= before.push('\n').push('\n'));
            assert(s.take(p).drop_last() =~= before.push('\n'));
            assert(before.push('\n').drop_last() =~= before);
            assert(trim_end(before.push('\n')) == before);
        }
    }
    assert(trim_start(s.skip(e)) == after) by {
        if after.len() == 0 {
            assert(s.skip(e) =~= seq!['\n']);
            assert(s.skip(e).skip(1) =~= after);
            assert(trim_start(s.skip(e).skip(1)) == after);
        } else {
            assert(s.skip(e) =~= seq!['\n', '\n'] + after);
            assert(s.skip(e).skip(1) =~= seq!['\n'] + after);
            assert(s.skip(e).skip(1).skip(1) =~= after);
            assert(trim_start(s.skip(e).skip(1)) == after);
        }
    }
}

/// A file in which a new prompt finds its place: it holds a prompt already, or no line that
/// starts or ends one, and then not only white space.
pub open spec fn tidy(existing: Seq<char>) -> bool {
    ||| prompt_at(existing) is Some
    ||| {
        &&& !occurs(existing, SENTINEL_START@)
        &&& !occurs(existing, SENTINEL_END@)
        &&& existing.len() == 0 || trim_end(existing).len() > 0
    }
}

/// The prompt that is written last is the one that counts: a file into which two prompts are
/// written one after the other is the same as if only the second had been written. Writing
/// the same prompt again changes nothing.
pub proof fn law_last_prompt_counts(existing: Seq<char>, first: Seq<char>, second: Seq<char>)
    requires
        tidy(existing),
        !occurs(first, SENTINEL_END@),
    ensures
        rewritten(rewritten(existing, first), second) == rewritten(existing, second),
{
    match prompt_at(existing) {
        Some((i, j)) => {
            let front = existing.take(i);
            let before = trim_end(front);
            let after = trim_start(existing.skip(j));
            lemma_places(existing);
            lemma_marks();
            lemma_trim_end(front);
            lemma_trim_start(existing.skip(j));
            assert(before =~= existing.take(before.len() as int));
            if occurs(before, SENTINEL_START@) {
                lemma_not_in_front(existing, SENTINEL_START@, before.len() as int);
            }
            if occurs(before, SENTINEL_END@) {
                lemma_not_in_front(existing, SENTINEL_END@, before.len() as int);
            }
            lemma_rewritten_again(before, first, after, second);
        },
        None => {
            let before = trim_end(existing);
            lemma_trim_end(existing);
            assert(before =~= existing.take(before.len() as int));
            if occurs(before, SENTINEL_START@) {
                lemma_not_in_front(existing, SENTINEL_START@, before.len() as int);
            }
            if occurs(before, SENTINEL_END@) {
                lemma_not_in_front(existing, SENTINEL_END@, before.len() as int);
            }
            lemma_rewritten_again(before, first, Seq::empty(), second);
            assert(rewritten(existing, first) =~= framed(before, first, Seq::empty()));
            assert(rewritten(existing, second) =~= framed(before, second, Seq::empty()));
        },
    }
}

/// No line that starts or ends a prompt stands before the one that is found.
proof fn lemma_places(s: Seq<char>)
    requires
        prompt_at(s) is Some,
    ensures
        ({
            let (i, j) = prompt_at(s)->0;
            &&& 0 <= i < j <= s.len()
            &&& forall|k: int| k < i ==> !#[trigger] occurs_at(s, SENTINEL_START@, k)
            &&& forall|k: int| k < i ==> !#[trigger] occurs_at(s, SENTINEL_END@, k)
        }),
{
    lemma_least(s, SENTINEL_START@);
    lemma_least(s, SENTINEL_END@);
}

proof fn lemma_least(s: Seq<char>, n: Seq<char>)
    requires
        occurs(s, n),
    ensures
        first_at(s, n, index_of(s, n)->0),
{
    let i = choose|i: int| occurs_at(s, n, i);
    lemma_least_below(s, n, i);
}

proof fn lemma_least_below(s: Seq<char>, n: Seq<char>, i: int)
    requires
        occurs_at(s, n, i),
    ensures
        exists|k: int| first_at(s, n, k),
    decreases i,
{
    if exists|k: int| 0 <= k < i && #[trigger] occurs_at(s, n, k) {
        let k = choose|k: int| 0 <= k < i && #[trigger] occurs_at(s, n, k);
        lemma_least_below(s, n, k);
    } else {
        assert(first_at(s, n, i));
    }
}

/// What people have written before and after the prompt stays, but for white space next to
/// it; and so does a file without a prompt.
pub proof fn law_written_text_is_kept(existing: Seq<char>, prompt: Seq<char>)
    ensures
        match prompt_at(existing) {
            Some((i, j)) => {
                let before = trim_end(existing.take(i));
                let after = trim_start(existing.skip(j));
                let r = rewritten(existing, prompt);
                &&& before.is_prefix_of(r)
                &&& r.len() >= before.len() + after.len()
                &&& r.skip(r.len() - after.len()) == after
            },
            None => trim_end(existing).is_prefix_of(rewritten(existing, prompt)),
        },
{
    let r = rewritten(existing, prompt);
    match prompt_at(existing) {
        Some((i, j)) => {
            let before = trim_end(existing.take(i));
            let after = trim_start(existing.skip(j));
            assert(r.skip(r.len() - after.len()) =~= after);
        },
        None => {
            lemma_trim_end(existing);
        },
    }
}

} // verus!
