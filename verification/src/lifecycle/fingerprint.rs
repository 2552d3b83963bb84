//! Fingerprints by which a set of comments is recognised.

use std::collections::hash_map::DefaultHasher;
use std::hash::{BuildHasher, BuildHasherDefault};
use vstd::prelude::*;
use vstd::relations::*;
use vstd::string::*;

use crate::order::{
    lemma_text_orders, lex_le, ranks, row_order, sort_ranked, text_le, text_order, Ranked,
};
use crate::scm::{AutomatedComment, ReviewComment};
use crate::text::{decimal, decimal_text, same_text};

verus! {

/// What `DefaultHasher` makes of a text.
pub uninterp spec fn text_hash(text: Seq<char>) -> u64;

/// `BuildHasher::hash_one` with a `DefaultHasher`. All hashers of this kind start out
/// alike, so that the number depends on the text alone; which number it is, nobody
/// promises.
#[verifier::external_body]
fn hash_text(text: &String) -> (r: u64)
    ensures
        r == text_hash(text@),
{
    BuildHasherDefault::<DefaultHasher>::default().hash_one(text)
}

/// By what a comment is recognised.
pub struct CommentKey {
    pub first: String,
    pub second: String,
    pub third: String,
}

impl Ranked for CommentKey {
    type Rank = Seq<Seq<char>>;

    open spec fn rank(&self) -> Seq<Seq<char>> {
        seq![self.first@, self.second@, self.third@]
    }

    open spec fn order() -> spec_fn(Seq<Seq<char>>, Seq<Seq<char>>) -> bool {
        row_order()
    }

    proof fn order_is_total() {
        lemma_text_orders();
    }

    fn rank_le(&self, other: &Self) -> (r: bool) {
        proof {
            let a = self.rank();
            let b = other.rank();
            lemma_text_orders();
            reveal_with_fuel(lex_le, 4);
            assert(a.skip(1) =~= seq![self.second@, self.third@]);
            assert(b.skip(1) =~= seq![other.second@, other.third@]);
            assert(a.skip(1).skip(1) =~= seq![self.third@]);
            assert(b.skip(1).skip(1) =~= seq![other.third@]);
            assert(a.skip(1).skip(1).skip(1) =~= Seq::<Seq<char>>::empty());
            assert(b.skip(1).skip(1).skip(1) =~= Seq::<Seq<char>>::empty());
            assert(reflexive(text_order()));
            assert(text_order()(self.third@, self.third@));
        }
        if !same_text(self.first.as_str(), other.first.as_str()) {
            text_le(self.first.as_str(), other.first.as_str())
        } else if !same_text(self.second.as_str(), other.second.as_str()) {
            text_le(self.second.as_str(), other.second.as_str())
        } else {
            text_le(self.third.as_str(), other.third.as_str())
        }
    }
}

/// A text with its length before it.
pub open spec fn framed(cell: Seq<char>) -> Seq<char> {
    decimal(cell.len()) + ":"@ + cell
}

/// Rows of texts as one text.
pub open spec fn framed_rows(rows: Seq<Seq<Seq<char>>>) -> Seq<char>
    decreases rows.len(),
{
    if rows.len() == 0 {
        Seq::empty()
    } else {
        framed_rows(rows.drop_last()) + framed(rows.last()[0]) + framed(rows.last()[1]) + framed(
            rows.last()[2],
        )
    }
}

/// The fingerprint of a set of rows.
pub open spec fn fingerprint(rows: Seq<Seq<Seq<char>>>) -> u64 {
    text_hash(framed_rows(rows.sort_by(row_order())))
}

/// Adds a text with its length before it.
fn append_framed(out: &mut String, cell: &str)
    ensures
        final(out)@ == old(out)@ + framed(cell@),
{
    let ghost had = out@;
    let n: usize = cell.unicode_len();
    let count = decimal_text(n as u64);
    out.append(count.as_str());
    out.append(":");
    out.append(cell);
    assert(out@ =~= had + framed(cell@));
}

/// The fingerprint of a set of keys. It does not depend on their order.
pub fn fingerprint_keys(keys: Vec<CommentKey>) -> (r: u64)
    ensures
        r == fingerprint(ranks(keys@)),
{
    let sorted = sort_ranked(keys);
    let ghost rows = ranks(sorted@);
    let mut out: String = String::new();
    let mut i: usize = 0;
    assert(rows.take(0) =~= Seq::empty());
    while i < sorted.len()
        invariant
            i <= sorted.len(),
            rows == ranks(sorted@),
            out@ == framed_rows(rows.take(i as int)),
        decreases sorted.len() - i,
    {
        let ghost upto = rows.take(i + 1);
        assert(upto.drop_last() =~= rows.take(i as int));
        assert(upto.last() == sorted@[i as int].rank());
        append_framed(&mut out, sorted[i].first.as_str());
        append_framed(&mut out, sorted[i].second.as_str());
        append_framed(&mut out, sorted[i].third.as_str());
        i += 1;
    }
    assert(rows.take(rows.len() as int) =~= rows);
    hash_text(&out)
}

/// By what review comments are recognised: author, body and address.
pub open spec fn comment_rows(s: Seq<ReviewComment>) -> Seq<Seq<Seq<char>>> {
    s.map_values(|c: ReviewComment| seq![c.author@, c.body@, c.url@])
}

/// By what the comments of bots are recognised: id, name of the bot and address.
pub open spec fn automated_rows(s: Seq<AutomatedComment>) -> Seq<Seq<Seq<char>>> {
    s.map_values(|c: AutomatedComment| seq![c.id@, c.bot_name@, c.url@])
}

/// The fingerprint of a set of review comments.
pub fn fingerprint_comments(comments: &Vec<ReviewComment>) -> (r: u64)
    ensures
        r == fingerprint(comment_rows(comments@)),
{
    let mut keys: Vec<CommentKey> = Vec::new();
    let mut i: usize = 0;
    assert(ranks(keys@) =~= comment_rows(comments@).take(0));
    while i < comments.len()
        invariant
            i <= comments.len(),
            ranks(keys@) == comment_rows(comments@).take(i as int),
        decreases comments.len() - i,
    {
        let ghost had = keys@;
        keys.push(
            CommentKey {
                first: comments[i].author.clone(),
                second: comments[i].body.clone(),
                third: comments[i].url.clone(),
            },
        );
        assert(ranks(keys@) =~= ranks(had).push(keys@[i as int].rank()));
        assert(ranks(keys@) =~= comment_rows(comments@).take(i + 1));
        i += 1;
    }
    assert(comment_rows(comments@).take(comments@.len() as int) =~= comment_rows(comments@));
    fingerprint_keys(keys)
}

/// The fingerprint of a set of comments of bots.
pub fn fingerprint_automated_comments(comments: &Vec<AutomatedComment>) -> (r: u64)
    ensures
        r == fingerprint(automated_rows(comments@)),
{
    let mut keys: Vec<CommentKey> = Vec::new();
    let mut i: usize = 0;
    assert(ranks(keys@) =~= automated_rows(comments@).take(0));
    while i < comments.len()
        invariant
            i <= comments.len(),
            ranks(keys@) == automated_rows(comments@).take(i as int),
        decreases comments.len() - i,
    {
        let ghost had = keys@;
        keys.push(
            CommentKey {
                first: comments[i].id.clone(),
                second: comments[i].bot_name.clone(),
                third: comments[i].url.clone(),
            },
        );
        assert(ranks(keys@) =~= ranks(had).push(keys@[i as int].rank()));
        assert(ranks(keys@) =~= automated_rows(comments@).take(i + 1));
        i += 1;
    }
    assert(automated_rows(comments@).take(comments@.len() as int) =~= automated_rows(comments@));
    fingerprint_keys(keys)
}

/// A fingerprint does not depend on the order in which the rows come.
pub proof fn law_fingerprint_ignores_order(a: Seq<Seq<Seq<char>>>, b: Seq<Seq<Seq<char>>>)
    requires
        a.to_multiset() == b.to_multiset(),
    ensures
        fingerprint(a) == fingerprint(b),
{
    lemma_text_orders();
    a.lemma_sort_by_ensures(row_order());
    b.lemma_sort_by_ensures(row_order());
    vstd::seq_lib::lemma_sorted_unique(
        a.sort_by(row_order()),
        b.sort_by(row_order()),
        row_order(),
    );
}

/// Review comments are recognised by their author, what they say and their address, and comments of
/// bots by their id, their bot and their address; by nothing else.
pub proof fn law_comments_are_recognised(
    a: ReviewComment,
    b: ReviewComment,
    c: AutomatedComment,
    d: AutomatedComment,
)
    ensures
        comment_rows(seq![a]) == comment_rows(seq![b]) <==> a.author@ == b.author@ && a.body@
            == b.body@ && a.url@ == b.url@,
        automated_rows(seq![c]) == automated_rows(seq![d]) <==> c.id@ == d.id@ && c.bot_name@
            == d.bot_name@ && c.url@ == d.url@,
{
    let x = comment_rows(seq![a]);
    let y = comment_rows(seq![b]);
    assert(x[0][0] == a.author@ && x[0][1] == a.body@ && x[0][2] == a.url@);
    assert(y[0][0] == b.author@ && y[0][1] == b.body@ && y[0][2] == b.url@);
    if a.author@ == b.author@ && a.body@ == b.body@ && a.url@ == b.url@ {
        assert(x[0] =~= y[0]);
        assert(x =~= y);
    }
    let v = automated_rows(seq![c]);
    let w = automated_rows(seq![d]);
    assert(v[0][0] == c.id@ && v[0][1] == c.bot_name@ && v[0][2] == c.url@);
    assert(w[0][0] == d.id@ && w[0][1] == d.bot_name@ && w[0][2] == d.url@);
    if c.id@ == d.id@ && c.bot_name@ == d.bot_name@ && c.url@ == d.url@ {
        assert(v[0] =~= w[0]);
        assert(v =~= w);
    }
}

} // verus!
