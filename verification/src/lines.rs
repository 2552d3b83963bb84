//! The lines of a file that may be cut short or damaged.

use vstd::prelude::*;
use vstd::utf8::{decode_utf8, length_of_first_scalar, pop_first_scalar, valid_utf8};

use crate::decode::text_of;
use crate::text::{texts, trim, trimmed};

verus! {

/// How many bytes come before the first line feed.
pub open spec fn line_end(bytes: Seq<u8>) -> nat
    decreases bytes.len(),
{
    if bytes.len() == 0 || bytes[0] == 10 {
        0
    } else {
        1 + line_end(bytes.skip(1))
    }
}

/// What comes after the first line.
pub open spec fn after_line(bytes: Seq<u8>) -> Seq<u8> {
    if line_end(bytes) < bytes.len() {
        bytes.skip(line_end(bytes) as int + 1)
    } else {
        Seq::empty()
    }
}

/// The first line, without the line feed that ends it and a carriage return before that.
pub open spec fn first_line(bytes: Seq<u8>) -> Seq<u8> {
    let line = bytes.take(line_end(bytes) as int);
    if line_end(bytes) < bytes.len() && line.len() > 0 && line.last() == 13 {
        line.drop_last()
    } else {
        line
    }
}

/// The lines, up to the first that is not UTF-8.
pub open spec fn lines(bytes: Seq<u8>) -> Seq<Seq<char>>
    decreases bytes.len(),
{
    if bytes.len() == 0 || !valid_utf8(first_line(bytes)) {
        Seq::empty()
    } else {
        seq![decode_utf8(first_line(bytes))] + lines(after_line(bytes))
    }
}

/// There is something to read in a line.
pub open spec fn written(line: Seq<char>) -> bool {
    trim(line).len() > 0
}

/// The lines with something to read, up to the first line that is not UTF-8. Where the file
/// is cut off at the front, what is left of its first line does not count.
pub open spec fn written_lines(bytes: Seq<u8>, cut: bool) -> Seq<Seq<char>> {
    lines(
        if cut {
            after_line(bytes)
        } else {
            bytes
        },
    ).filter(|l: Seq<char>| written(l))
}

/// The bytes from `from` to `to`.
fn cut_out(bytes: &Vec<u8>, from: usize, to: usize) -> (r: Vec<u8>)
    requires
        from <= to <= bytes.len(),
    ensures
        r@ == bytes@.subrange(from as int, to as int),
{
    let mut out: Vec<u8> = Vec::new();
    for i in from..to
        invariant
            to <= bytes.len(),
            out@ == bytes@.subrange(from as int, i as int),
    {
        out.push(bytes[i]);
    }
    out
}

/// The place of the first line feed from `from` on, or the end.
fn end_of_line(bytes: &Vec<u8>, from: usize) -> (r: usize)
    requires
        from <= bytes.len(),
    ensures
        r == from + line_end(bytes@.skip(from as int)),
        r <= bytes.len(),
{
    let mut i: usize = from;
    while i < bytes.len() && bytes[i] != 10
        invariant
            from <= i <= bytes.len(),
            line_end(bytes@.skip(from as int)) == (i - from) + line_end(bytes@.skip(i as int)),
        decreases bytes.len() - i,
    {
        assert(bytes@.skip(i as int).skip(1) =~= bytes@.skip(i + 1));
        i += 1;
    }
    i
}

/// The lines with something to read, up to the first line that is not UTF-8. Where the file
/// is cut off at the front, what is left of its first line does not count.
pub fn read_lines(bytes: &Vec<u8>, cut: bool) -> (r: Vec<String>)
    ensures
        texts(r@) == written_lines(bytes@, cut),
{
    broadcast use vstd::seq_lib::group_filter_ensures;

    let mut at: usize = 0;
    assert(bytes@.skip(0) =~= bytes@);
    if cut {
        let end = end_of_line(bytes, 0);
        at = if end < bytes.len() {
            end + 1
        } else {
            end
        };
        assert(bytes@.skip(at as int) =~= after_line(bytes@));
    }
    let ghost start = bytes@.skip(at as int);
    let ghost keep = |l: Seq<char>| written(l);
    let ghost mut done: Seq<Seq<char>> = Seq::empty();
    let mut out: Vec<String> = Vec::new();
    assert(texts(out@) =~= done.filter(keep));
    assert(lines(start) =~= done + lines(bytes@.skip(at as int)));
    while at < bytes.len()
        invariant
            at <= bytes.len(),
            keep == (|l: Seq<char>| written(l)),
            lines(start) == done + lines(bytes@.skip(at as int)),
            texts(out@) == done.filter(keep),
            start == if cut {
                after_line(bytes@)
            } else {
                bytes@
            },
        decreases bytes.len() - at,
    {
        let ghost rest = bytes@.skip(at as int);
        let end = end_of_line(bytes, at);
        let ended = end < bytes.len();
        let stop: usize = if ended && end > at && bytes[end - 1] == 13 {
            end - 1
        } else {
            end
        };
        let raw = cut_out(bytes, at, stop);
        assert(raw@ =~= first_line(rest));
        let next: usize = if ended {
            end + 1
        } else {
            end
        };
        assert(bytes@.skip(next as int) =~= after_line(rest));
        match text_of(raw) {
            None => {
                assert(lines(start) =~= done);
                return out;
            },
            Some(line) => {
                let t = trimmed(line.as_str());
                let ghost had = out@;
                let ghost before = done;
                proof {
                    done = done.push(line@);
                    assert(lines(start) =~= done + lines(bytes@.skip(next as int)));
                    assert(done.drop_last() =~= before);
                    reveal(Seq::filter);
                }
                if !t.as_str().is_empty() {
                    out.push(line);
                    assert(texts(out@) =~= texts(had).push(line@));
                }
            },
        }
        at = next;
    }
    assert(lines(start) =~= done);
    out
}

proof fn lemma_line_end(bytes: Seq<u8>)
    ensures
        line_end(bytes) <= bytes.len(),
        line_end(bytes) < bytes.len() ==> bytes[line_end(bytes) as int] == 10,
        bytes.contains(10) ==> line_end(bytes) < bytes.len(),
    decreases bytes.len(),
{
    if bytes.len() > 0 && bytes[0] != 10 {
        lemma_line_end(bytes.skip(1));
        if bytes.contains(10) {
            let k = bytes.index_of(10);
            assert(bytes.skip(1)[k - 1] == 10);
        }
    }
}

proof fn lemma_line_end_of_more(bytes: Seq<u8>, more: Seq<u8>)
    requires
        line_end(bytes) < bytes.len(),
    ensures
        line_end(bytes + more) == line_end(bytes),
    decreases bytes.len(),
{
    if bytes[0] != 10 {
        assert((bytes + more).skip(1) =~= bytes.skip(1) + more);
        lemma_line_end_of_more(bytes.skip(1), more);
    }
}

/// UTF-8 can be parted at any byte that is a character by itself.
proof fn lemma_utf8_parts(bytes: Seq<u8>, i: int)
    requires
        valid_utf8(bytes),
        0 <= i < bytes.len(),
        bytes[i] < 0x80,
    ensures
        valid_utf8(bytes.take(i)),
        valid_utf8(bytes.skip(i + 1)),
    decreases bytes.len(),
{
    let n = length_of_first_scalar(bytes);
    let rest = pop_first_scalar(bytes);
    assert(rest =~= bytes.skip(n));
    if i < n {
        assert(i == 0);
        assert(bytes.take(0) =~= Seq::empty());
    } else {
        lemma_utf8_parts(rest, i - n);
        assert(rest.skip(i - n + 1) =~= bytes.skip(i + 1));
        let front = bytes.take(i);
        assert(front[0] == bytes[0]);
        assert(n > 1 ==> front[1] == bytes[1]);
        assert(n > 2 ==> front[2] == bytes[2]);
        assert(n > 3 ==> front[3] == bytes[3]);
        assert(pop_first_scalar(front) =~= rest.take(i - n));
    }
}

/// All that was written ends with a line feed, or there is nothing.
pub open spec fn ends_a_line(bytes: Seq<u8>) -> bool {
    bytes.len() == 0 || bytes.last() == 10
}

proof fn lemma_first_line(bytes: Seq<u8>, more: Seq<u8>)
    requires
        valid_utf8(bytes),
        bytes.len() > 0,
        bytes.last() == 10,
    ensures
        valid_utf8(first_line(bytes)),
        first_line(bytes + more) == first_line(bytes),
        after_line(bytes + more) == after_line(bytes) + more,
        valid_utf8(after_line(bytes)),
        ends_a_line(after_line(bytes)),
        after_line(bytes).len() < bytes.len(),
{
    assert(bytes[bytes.len() - 1] == 10);
    assert(bytes.contains(10));
    lemma_line_end(bytes);
    lemma_line_end_of_more(bytes, more);
    let n = line_end(bytes) as int;
    lemma_utf8_parts(bytes, n);
    let line = bytes.take(n);
    assert((bytes + more).take(n) =~= line);
    assert((bytes + more).skip(n + 1) =~= bytes.skip(n + 1) + more);
    if line.len() > 0 && line.last() == 13 {
        lemma_utf8_parts(line, line.len() - 1);
        assert(line.take(line.len() - 1) =~= line.drop_last());
    }
}

/// The line that was written last.
proof fn lemma_last_line(bytes: Seq<u8>, line: Seq<u8>)
    requires
        valid_utf8(bytes),
        ends_a_line(bytes),
        valid_utf8(line),
        !line.contains(10),
        line.len() > 0 ==> line.last() != 13,
    ensures
        lines(bytes + line.push(10)) == lines(bytes).push(decode_utf8(line)),
    decreases bytes.len(),
{
    let more = line.push(10);
    if bytes.len() == 0 {
        assert(bytes + more =~= more);
        assert(line + seq![10u8] =~= more);
        lemma_ends_at(line);
        assert(more.take(line.len() as int) =~= line);
        assert(after_line(more) =~= Seq::empty());
        assert(lines(more) =~= seq![decode_utf8(line)] + lines(Seq::empty()));
        assert(lines(Seq::empty()) =~= Seq::empty());
    } else {
        lemma_first_line(bytes, more);
        lemma_last_line(after_line(bytes), line);
        assert(lines(bytes + more) =~= lines(bytes).push(decode_utf8(line)));
    }
}

proof fn lemma_ends_at(line: Seq<u8>)
    requires
        !line.contains(10),
    ensures
        line_end(line.push(10)) == line.len(),
    decreases line.len(),
{
    let more = line.push(10);
    if line.len() > 0 {
        assert(line.contains(line[0]));
        assert(more.skip(1) =~= line.skip(1).push(10));
        assert forall|i: int| 0 <= i < line.len() - 1 implies line.skip(1)[i] != 10 by {
            assert(line.contains(line[i + 1]));
        }
        lemma_ends_at(line.skip(1));
    }
}

/// A line that is added to a text is the last that is read of it, also where the text is read
/// from `from` on only, as long as that is not within the line or right at its beginning.
pub proof fn law_added_line_is_read_last(bytes: Seq<u8>, line: Seq<u8>, from: int)
    requires
        valid_utf8(bytes),
        ends_a_line(bytes),
        valid_utf8(line),
        !line.contains(10),
        line.len() > 0 ==> line.last() != 13,
        written(decode_utf8(line)),
        from == 0 || 0 < from < bytes.len(),
    ensures
        ({
            let all = written_lines((bytes + line.push(10)).skip(from), from > 0);
            all.len() > 0 && all.last() == decode_utf8(line)
        }),
{
    broadcast use vstd::seq_lib::group_filter_ensures;

    let more = line.push(10);
    let tail = (bytes + more).skip(from);
    let keep = |l: Seq<char>| written(l);
    let whole = if from > 0 {
        let p = bytes.skip(from);
        assert(tail =~= p + more);
        assert(p[p.len() - 1] == 10);
        assert(p.contains(10));
        lemma_line_end(p);
        lemma_line_end_of_more(p, more);
        let n = line_end(p) as int;
        lemma_utf8_parts(bytes, from + n);
        assert(bytes.skip(from + n + 1) =~= p.skip(n + 1));
        assert(tail.skip(n + 1) =~= p.skip(n + 1) + more);
        p.skip(n + 1)
    } else {
        assert(tail =~= bytes + more);
        bytes
    };
    lemma_last_line(whole, line);
    let all = lines(whole).push(decode_utf8(line));
    assert(all.drop_last() =~= lines(whole));
    reveal(Seq::filter);
    assert(all.filter(keep) == lines(whole).filter(keep).push(decode_utf8(line)));
}

} // verus!
