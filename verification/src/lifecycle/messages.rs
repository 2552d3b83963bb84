//! What agents are told about checks and comments.

use vstd::prelude::*;
use vstd::string::*;
use vstd::utf8::encode_utf8;

use crate::scm::{
    check_views, AutomatedComment, AutomatedCommentSeverity, CheckRun, CheckStatus, CheckView,
    ReviewComment,
};
use crate::text::{decimal, decimal_text, first_chars, head, occurs, occurs_at};

verus! {

/// How many characters of a bot's comment are passed on.
pub const EXCERPT: usize = 200;

/// One line about a failing check.
pub open spec fn check_line(c: CheckView) -> Seq<char> {
    match c.url {
        Some(url) => "- "@ + c.name + " — "@ + url + "\n"@,
        None => "- "@ + c.name + "\n"@,
    }
}

/// One line about each failing check.
pub open spec fn check_lines(s: Seq<CheckView>) -> Seq<char>
    decreases s.len(),
{
    if s.len() == 0 {
        Seq::empty()
    } else if s.last().status == CheckStatus::Failed {
        check_lines(s.drop_last()) + check_line(s.last())
    } else {
        check_lines(s.drop_last())
    }
}

/// Some check failed.
pub open spec fn any_failed(s: Seq<CheckView>) -> bool {
    exists|i: int| 0 <= i < s.len() && (#[trigger] s[i]).status == CheckStatus::Failed
}

/// What an agent is told when checks fail.
pub open spec fn checks_message(s: Seq<CheckView>) -> Seq<char> {
    "CI failed. Failing checks:\n"@ + check_lines(s)
        + "\nFix the failures, push, and wait for CI to re-run."@
}

/// What an agent is told when checks fail; nothing, where none of them did.
pub fn format_failed_checks(checks: &Vec<CheckRun>) -> (r: Option<String>)
    ensures
        match r {
            Some(m) => any_failed(check_views(checks@)) && m@ == checks_message(
                check_views(checks@),
            ),
            None => !any_failed(check_views(checks@)),
        },
{
    let mut out: String = "CI failed. Failing checks:\n".to_string();
    let mut found = false;
    let mut i: usize = 0;
    let ghost all = check_views(checks@);
    let ghost intro = out@;
    assert(all.take(0) =~= Seq::empty());
    assert(out@ =~= intro + check_lines(all.take(0)));
    while i < checks.len()
        invariant
            i <= checks.len(),
            all == check_views(checks@),
            out@ == intro + check_lines(all.take(i as int)),
            found <==> exists|j: int| 0 <= j < i && (#[trigger] all[j]).status == CheckStatus::Failed,
        decreases checks.len() - i,
    {
        let ghost upto = all.take(i + 1);
        let ghost had = out@;
        assert(upto.drop_last() =~= all.take(i as int));
        assert(upto.last() == all[i as int]);
        let check = &checks[i];
        if check.status == CheckStatus::Failed {
            found = true;
            out.append("- ");
            out.append(check.name.as_str());
            if let Some(url) = &check.url {
                out.append(" — ");
                out.append(url.as_str());
            }
            out.append("\n");
            assert(all[i as int].status == CheckStatus::Failed);
            assert(out@ =~= had + check_line(all[i as int]));
            assert(out@ =~= intro + check_lines(upto));
        }
        i += 1;
    }
    assert(all.take(all.len() as int) =~= all);
    if found {
        out.append("\nFix the failures, push, and wait for CI to re-run.");
        Some(out)
    } else {
        None
    }
}

/// One line about a review comment.
pub open spec fn comment_line(c: ReviewComment) -> Seq<char> {
    match c.path {
        Some(path) => "- "@ + c.author@ + " ("@ + path@ + "): "@ + c.body@ + "\n"@,
        None => "- "@ + c.author@ + ": "@ + c.body@ + "\n"@,
    }
}

/// One line about each review comment.
pub open spec fn comment_lines(s: Seq<ReviewComment>) -> Seq<char>
    decreases s.len(),
{
    if s.len() == 0 {
        Seq::empty()
    } else {
        comment_lines(s.drop_last()) + comment_line(s.last())
    }
}

/// What an agent is told when there are new review comments.
pub open spec fn comments_message(s: Seq<ReviewComment>) -> Seq<char> {
    "New review comments on your PR:\n"@ + comment_lines(s)
        + "\nCheck with `gh pr view --comments`, address the feedback, and push."@
}

/// What an agent is told when there are new review comments.
pub fn format_comments_message(comments: &Vec<ReviewComment>) -> (r: String)
    ensures
        r@ == comments_message(comments@),
{
    let mut out: String = "New review comments on your PR:\n".to_string();
    let mut i: usize = 0;
    let ghost all = comments@;
    let ghost intro = out@;
    assert(all.take(0) =~= Seq::empty());
    assert(out@ =~= intro + comment_lines(all.take(0)));
    while i < comments.len()
        invariant
            i <= comments.len(),
            all == comments@,
            out@ == intro + comment_lines(all.take(i as int)),
        decreases comments.len() - i,
    {
        let ghost upto = all.take(i + 1);
        let ghost had = out@;
        assert(upto.drop_last() =~= all.take(i as int));
        assert(upto.last() == all[i as int]);
        let c = &comments[i];
        out.append("- ");
        out.append(c.author.as_str());
        match &c.path {
            Some(path) => {
                out.append(" (");
                out.append(path.as_str());
                out.append("): ");
            },
            None => {
                out.append(": ");
            },
        }
        out.append(c.body.as_str());
        out.append("\n");
        assert(out@ =~= had + comment_line(all[i as int]));
        assert(out@ =~= intro + comment_lines(upto));
        i += 1;
    }
    assert(all.take(all.len() as int) =~= all);
    out.append("\nCheck with `gh pr view --comments`, address the feedback, and push.");
    out
}

/// How grave a finding is, in words.
pub open spec fn severity_label(s: AutomatedCommentSeverity) -> Seq<char> {
    match s {
        AutomatedCommentSeverity::Error => "ERROR"@,
        AutomatedCommentSeverity::Warning => "WARNING"@,
        AutomatedCommentSeverity::Info => "INFO"@,
    }
}

/// To what a bot's comment belongs.
pub open spec fn location(c: AutomatedComment) -> Seq<char> {
    match (c.path, c.line) {
        (Some(path), Some(line)) => " "@ + path@ + ":"@ + decimal(line as nat),
        (Some(path), None) => " "@ + path@,
        (None, _) => Seq::empty(),
    }
}

/// The beginning of a bot's comment. One that takes more than 200 bytes ends in dots.
pub open spec fn excerpt(body: Seq<char>) -> Seq<char> {
    head(body, EXCERPT as nat) + if encode_utf8(body).len() > EXCERPT {
        "…"@
    } else {
        Seq::empty()
    }
}

/// What an agent is told about the comment of a bot that comes as number `n`.
pub open spec fn automated_entry(n: nat, c: AutomatedComment) -> Seq<char> {
    decimal(n) + ". ["@ + severity_label(c.severity) + "] "@ + c.bot_name@ + location(c)
        + "\n   "@ + excerpt(c.body@) + "\n   "@ + c.url@ + "\n\n"@
}

/// What an agent is told about each comment of a bot.
pub open spec fn automated_entries(s: Seq<AutomatedComment>) -> Seq<char>
    decreases s.len(),
{
    if s.len() == 0 {
        Seq::empty()
    } else {
        automated_entries(s.drop_last()) + automated_entry(s.len(), s.last())
    }
}

/// What an agent is told when bots have commented on its pull request.
pub open spec fn automated_message(s: Seq<AutomatedComment>) -> Seq<char> {
    "Automated bot review comments on your PR (fetched at reaction time — verify via API before acting):\n\n"@
        + automated_entries(s)
        + "To verify this data is current and complete, use the GitHub API directly:\n- GET /repos/{owner}/{repo}/pulls/{pr}/reviews\n- GET /repos/{owner}/{repo}/pulls/{pr}/reviews/{review_id}/comments\n- GET /repos/{owner}/{repo}/pulls/{pr}/comments?per_page=100&page=N (paginate; check in_reply_to_id for reply threads)\nFix each issue, push, and confirm the bot re-checks pass."@
}

/// What an agent is told about one comment of a bot.
fn format_automated_entry(n: u64, c: &AutomatedComment) -> (r: String)
    ensures
        r@ == automated_entry(n as nat, *c),
{
    let mut out: String = decimal_text(n);
    out.append(". [");
    out.append(
        match c.severity {
            AutomatedCommentSeverity::Error => "ERROR",
            AutomatedCommentSeverity::Warning => "WARNING",
            AutomatedCommentSeverity::Info => "INFO",
        },
    );
    out.append("] ");
    out.append(c.bot_name.as_str());
    let ghost titled = out@;
    if let Some(path) = &c.path {
        out.append(" ");
        out.append(path.as_str());
        if let Some(line) = c.line {
            out.append(":");
            let number = decimal_text(line as u64);
            out.append(number.as_str());
        }
    }
    assert(out@ =~= titled + location(*c));
    out.append("\n   ");
    let ghost placed = out@;
    out.append(first_chars(c.body.as_str(), EXCERPT));
    if c.body.as_str().as_bytes().len() > EXCERPT {
        out.append("…");
    }
    assert(out@ =~= placed + excerpt(c.body@));
    out.append("\n   ");
    out.append(c.url.as_str());
    out.append("\n\n");
    out
}

/// What an agent is told when bots have commented on its pull request: how grave each
/// comment is, to what it belongs, its beginning and its address, and how to fetch the
/// comments anew.
pub fn format_automated_comments_message(comments: &Vec<AutomatedComment>) -> (r: String)
    ensures
        r@ == automated_message(comments@),
{
    let mut out: String =
        "Automated bot review comments on your PR (fetched at reaction time — verify via API before acting):\n\n".to_string();
    let mut i: usize = 0;
    let ghost all = comments@;
    let ghost intro = out@;
    assert(all.take(0) =~= Seq::empty());
    assert(out@ =~= intro + automated_entries(all.take(0)));
    while i < comments.len()
        invariant
            i <= comments.len(),
            all == comments@,
            out@ == intro + automated_entries(all.take(i as int)),
        decreases comments.len() - i,
    {
        let ghost upto = all.take(i + 1);
        let ghost had = out@;
        assert(upto.drop_last() =~= all.take(i as int));
        assert(upto.last() == all[i as int]);
        let entry = format_automated_entry((i + 1) as u64, &comments[i]);
        out.append(entry.as_str());
        assert(out@ =~= intro + automated_entries(upto));
        i += 1;
    }
    assert(all.take(all.len() as int) =~= all);
    out.append(
        "To verify this data is current and complete, use the GitHub API directly:\n- GET /repos/{owner}/{repo}/pulls/{pr}/reviews\n- GET /repos/{owner}/{repo}/pulls/{pr}/reviews/{review_id}/comments\n- GET /repos/{owner}/{repo}/pulls/{pr}/comments?per_page=100&page=N (paginate; check in_reply_to_id for reply threads)\nFix each issue, push, and confirm the bot re-checks pass.",
    );
    out
}

/// What stands in the middle of three texts occurs in them.
proof fn lemma_middle(a: Seq<char>, b: Seq<char>, c: Seq<char>)
    ensures
        occurs(a + b + c, b),
{
    let s = a + b + c;
    assert(s.subrange(a.len() as int, (a.len() + b.len()) as int) =~= b);
    assert(occurs_at(s, b, a.len() as int));
}

/// What occurs in a text occurs in one that holds it.
proof fn lemma_occurs_within(a: Seq<char>, b: Seq<char>, c: Seq<char>, n: Seq<char>)
    requires
        occurs(b, n),
    ensures
        occurs(a + b + c, n),
{
    let i = choose|i: int| occurs_at(b, n, i);
    let s = a + b + c;
    assert(s.subrange(a.len() + i, a.len() + i + n.len()) =~= b.subrange(i, i + n.len()));
    assert(occurs_at(s, n, a.len() + i));
}

proof fn lemma_comment_occurs(s: Seq<ReviewComment>, i: int)
    requires
        0 <= i < s.len(),
    ensures
        occurs(comment_lines(s), comment_line(s[i])),
    decreases s.len(),
{
    let rest = s.drop_last();
    let none = Seq::<char>::empty();
    if i == s.len() - 1 {
        lemma_middle(comment_lines(rest), comment_line(s.last()), none);
        assert(comment_lines(rest) + comment_line(s.last()) + none =~= comment_lines(s));
    } else {
        lemma_comment_occurs(rest, i);
        assert(rest[i] == s[i]);
        lemma_occurs_within(none, comment_lines(rest), comment_line(s.last()), comment_line(s[i]));
        assert(none + comment_lines(rest) + comment_line(s.last()) =~= comment_lines(s));
    }
}

/// An agent is told of every review comment: who wrote it, of which file if of one, and all that it
/// says.
pub proof fn law_every_review_comment_is_told(s: Seq<ReviewComment>, i: int)
    requires
        0 <= i < s.len(),
    ensures
        s[i].path is Some ==> occurs(
            comments_message(s),
            "- "@ + s[i].author@ + " ("@ + s[i].path->0@ + "): "@ + s[i].body@ + "\n"@,
        ),
        s[i].path is None ==> occurs(
            comments_message(s),
            "- "@ + s[i].author@ + ": "@ + s[i].body@ + "\n"@,
        ),
{
    lemma_comment_occurs(s, i);
    lemma_occurs_within(
        "New review comments on your PR:\n"@,
        comment_lines(s),
        "\nCheck with `gh pr view --comments`, address the feedback, and push."@,
        comment_line(s[i]),
    );
}

proof fn lemma_check_occurs(s: Seq<CheckView>, i: int)
    requires
        0 <= i < s.len(),
        s[i].status == CheckStatus::Failed,
    ensures
        occurs(check_lines(s), check_line(s[i])),
    decreases s.len(),
{
    let rest = s.drop_last();
    let none = Seq::<char>::empty();
    if i == s.len() - 1 {
        lemma_middle(check_lines(rest), check_line(s.last()), none);
        assert(check_lines(rest) + check_line(s.last()) + none =~= check_lines(s));
    } else {
        lemma_check_occurs(rest, i);
        assert(rest[i] == s[i]);
        if s.last().status == CheckStatus::Failed {
            lemma_occurs_within(none, check_lines(rest), check_line(s.last()), check_line(s[i]));
            assert(none + check_lines(rest) + check_line(s.last()) =~= check_lines(s));
        }
    }
}

/// An agent is told of every check that failed, with its address if it has one. Checks that did not
/// fail change nothing about what it is told.
pub proof fn law_every_failing_check_is_told(s: Seq<CheckView>, i: int)
    requires
        0 <= i < s.len(),
    ensures
        s[i].status == CheckStatus::Failed && s[i].url is Some ==> occurs(
            checks_message(s),
            "- "@ + s[i].name + " — "@ + s[i].url->0 + "\n"@,
        ),
        s[i].status == CheckStatus::Failed && s[i].url is None ==> occurs(
            checks_message(s),
            "- "@ + s[i].name + "\n"@,
        ),
        s[i].status != CheckStatus::Failed ==> checks_message(s.remove(i)) == checks_message(s),
        s[i].status == CheckStatus::Failed ==> any_failed(s),
{
    if s[i].status == CheckStatus::Failed {
        lemma_check_occurs(s, i);
        lemma_occurs_within(
            "CI failed. Failing checks:\n"@,
            check_lines(s),
            "\nFix the failures, push, and wait for CI to re-run."@,
            check_line(s[i]),
        );
    } else {
        lemma_check_left_out(s, i);
    }
}

proof fn lemma_check_left_out(s: Seq<CheckView>, i: int)
    requires
        0 <= i < s.len(),
        s[i].status != CheckStatus::Failed,
    ensures
        check_lines(s.remove(i)) == check_lines(s),
    decreases s.len(),
{
    let rest = s.drop_last();
    if i == s.len() - 1 {
        assert(s.remove(i) =~= rest);
    } else {
        lemma_check_left_out(rest, i);
        assert(s.remove(i).drop_last() =~= rest.remove(i));
        assert(s.remove(i).last() == s.last());
    }
}

proof fn lemma_automated_occurs(s: Seq<AutomatedComment>, i: int)
    requires
        0 <= i < s.len(),
    ensures
        occurs(automated_entries(s), automated_entry((i + 1) as nat, s[i])),
    decreases s.len(),
{
    let rest = s.drop_last();
    let none = Seq::<char>::empty();
    let last = automated_entry(s.len(), s.last());
    if i == s.len() - 1 {
        lemma_middle(automated_entries(rest), last, none);
        assert(automated_entries(rest) + last + none =~= automated_entries(s));
    } else {
        lemma_automated_occurs(rest, i);
        assert(rest[i] == s[i]);
        lemma_occurs_within(
            none,
            automated_entries(rest),
            last,
            automated_entry((i + 1) as nat, s[i]),
        );
        assert(none + automated_entries(rest) + last =~= automated_entries(s));
    }
}

/// An agent is told of every comment of a bot, numbered from one: how grave it is, which bot has
/// made it, where, what it says, and its address. Of a comment of up to two hundred bytes it is told
/// all, and of a longer one the first two hundred characters and that it goes on.
pub proof fn law_every_bot_comment_is_told(s: Seq<AutomatedComment>, i: int)
    requires
        0 <= i < s.len(),
    ensures
        ({
            let c = s[i];
            let grave = match c.severity {
                AutomatedCommentSeverity::Error => "ERROR"@,
                AutomatedCommentSeverity::Warning => "WARNING"@,
                AutomatedCommentSeverity::Info => "INFO"@,
            };
            let place = if c.path is None {
                Seq::<char>::empty()
            } else if c.line is None {
                " "@ + c.path->0@
            } else {
                " "@ + c.path->0@ + ":"@ + decimal(c.line->0 as nat)
            };
            let text = if encode_utf8(c.body@).len() > 200 {
                head(c.body@, 200) + "…"@
            } else {
                head(c.body@, 200) + Seq::<char>::empty()
            };
            occurs(
                automated_message(s),
                decimal((i + 1) as nat) + ". ["@ + grave + "] "@ + c.bot_name@ + place + "\n   "@
                    + text + "\n   "@ + c.url@ + "\n\n"@,
            )
        }),
{
    lemma_automated_occurs(s, i);
    lemma_occurs_within(
        "Automated bot review comments on your PR (fetched at reaction time — verify via API before acting):\n\n"@,
        automated_entries(s),
        "To verify this data is current and complete, use the GitHub API directly:\n- GET /repos/{owner}/{repo}/pulls/{pr}/reviews\n- GET /repos/{owner}/{repo}/pulls/{pr}/reviews/{review_id}/comments\n- GET /repos/{owner}/{repo}/pulls/{pr}/comments?per_page=100&page=N (paginate; check in_reply_to_id for reply threads)\nFix each issue, push, and confirm the bot re-checks pass."@,
        automated_entry((i + 1) as nat, s[i]),
    );
}

} // verus!
