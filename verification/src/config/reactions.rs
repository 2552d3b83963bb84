//! The reactions and the notifiers that there are, and what applies without a configuration.

use vstd::prelude::*;

use crate::keyed::KeyedMap;
use crate::notifier::NotificationRouting;
use crate::reactions::{
    EscalateAfter, EscalateView, EventPriority, ReactionAction, ReactionConfig,
    ReactionConfigView,
};
use crate::text::{same_text, texts};

verus! {

/// The reactions that there are.
pub open spec fn reaction_keys() -> Seq<Seq<char>> {
    seq![
        "ci-failed"@,
        "changes-requested"@,
        "merge-conflicts"@,
        "approved-and-green"@,
        "agent-idle"@,
        "agent-stuck"@,
        "agent-needs-input"@,
        "agent-exited"@,
        "all-complete"@,
    ]
}

/// The notifiers that there are.
pub open spec fn notifier_names() -> Seq<Seq<char>> {
    seq!["stdout"@, "desktop"@, "ntfy"@, "discord"@, "slack"@]
}

/// The reactions that there are.
pub fn supported_reaction_keys() -> (r: Vec<String>)
    ensures
        texts(r@) == reaction_keys(),
{
    let mut out: Vec<String> = Vec::new();
    out.push("ci-failed".to_string());
    out.push("changes-requested".to_string());
    out.push("merge-conflicts".to_string());
    out.push("approved-and-green".to_string());
    out.push("agent-idle".to_string());
    out.push("agent-stuck".to_string());
    out.push("agent-needs-input".to_string());
    out.push("agent-exited".to_string());
    out.push("all-complete".to_string());
    assert(texts(out@) =~= reaction_keys());
    out
}

/// The notifiers that there are.
pub fn supported_notifier_names() -> (r: Vec<String>)
    ensures
        texts(r@) == notifier_names(),
{
    let mut out: Vec<String> = Vec::new();
    out.push("stdout".to_string());
    out.push("desktop".to_string());
    out.push("ntfy".to_string());
    out.push("discord".to_string());
    out.push("slack".to_string());
    assert(texts(out@) =~= notifier_names());
    out
}

/// Whether a text is one of those in a list.
pub fn is_listed(list: &Vec<String>, s: &str) -> (r: bool)
    ensures
        r == texts(list@).contains(s@),
{
    for i in 0..list.len()
        invariant
            forall|j: int| 0 <= j < i ==> #[trigger] texts(list@)[j] != s@,
    {
        if same_text(list[i].as_str(), s) {
            assert(texts(list@)[i as int] == s@);
            return true;
        }
        assert(texts(list@)[i as int] == list@[i as int]@);
    }
    false
}

/// A reaction with the given settings, and nothing else configured.
pub open spec fn plain(
    action: ReactionAction,
    message: Option<Seq<char>>,
    retries: Option<u32>,
    escalate_after: Option<EscalateView>,
    threshold: Option<Seq<char>>,
    include_summary: bool,
) -> ReactionConfigView {
    ReactionConfigView {
        auto: true,
        action,
        message,
        priority: None,
        retries,
        escalate_after,
        threshold,
        include_summary,
        merge_method: None,
    }
}

/// What each reaction does where the configuration is silent.
pub open spec fn default_reaction(key: Seq<char>) -> Option<ReactionConfigView> {
    if key == "ci-failed"@ {
        Some(
            plain(
                ReactionAction::SendToAgent,
                Some(
                    "CI is failing on your PR. Run `gh pr checks` to see the failures, fix them, and push."@,
                ),
                Some(2),
                Some(EscalateView::Attempts(2)),
                None,
                false,
            ),
        )
    } else if key == "changes-requested"@ {
        Some(
            plain(
                ReactionAction::SendToAgent,
                Some(
                    "There are review comments on your PR. Check with `gh pr view --comments`, address them, and push."@,
                ),
                None,
                Some(EscalateView::Duration("30m"@)),
                None,
                false,
            ),
        )
    } else if key == "merge-conflicts"@ {
        Some(
            plain(
                ReactionAction::SendToAgent,
                Some(
                    "Your branch has merge conflicts. Rebase on the default branch and resolve them."@,
                ),
                None,
                Some(EscalateView::Duration("15m"@)),
                None,
                false,
            ),
        )
    } else if key == "approved-and-green"@ {
        Some(plain(ReactionAction::AutoMerge, None, None, None, None, false))
    } else if key == "agent-idle"@ {
        Some(
            plain(
                ReactionAction::SendToAgent,
                Some(
                    "You appear to be idle. If your task is not complete, continue working or explain blockers."@,
                ),
                Some(2),
                Some(EscalateView::Duration("15m"@)),
                None,
                false,
            ),
        )
    } else if key == "agent-stuck"@ {
        Some(plain(ReactionAction::Notify, None, None, None, Some("10m"@), false))
    } else if key == "agent-needs-input"@ || key == "agent-exited"@ {
        Some(plain(ReactionAction::Notify, None, None, None, None, false))
    } else if key == "all-complete"@ {
        Some(plain(ReactionAction::Notify, None, None, None, None, true))
    } else {
        None
    }
}

/// A reaction with the given settings, and nothing else configured.
fn reaction(
    action: ReactionAction,
    message: Option<&str>,
    retries: Option<u32>,
    escalate_after: Option<EscalateAfter>,
    threshold: Option<&str>,
    include_summary: bool,
) -> (r: ReactionConfig)
    ensures
        r@ == plain(
            action,
            match message {
                Some(m) => Some(m@),
                None => None,
            },
            retries,
            match escalate_after {
                Some(e) => Some(e@),
                None => None,
            },
            match threshold {
                Some(t) => Some(t@),
                None => None,
            },
            include_summary,
        ),
{
    ReactionConfig {
        auto: true,
        action,
        message: match message {
            Some(m) => Some(m.to_string()),
            None => None,
        },
        priority: None,
        retries,
        escalate_after,
        threshold: match threshold {
            Some(t) => Some(t.to_string()),
            None => None,
        },
        include_summary,
        merge_method: None,
    }
}

/// No two reactions have the same name.
pub(crate) proof fn lemma_keys_differ(s: Seq<Seq<char>>)
    requires
        s == reaction_keys(),
    ensures
        s[0] != s[1] && s[0] != s[2] && s[0] != s[3] && s[0] != s[4] && s[0] != s[5] && s[0] != s[6] && s[0] != s[7] && s[0] != s[8],
        s[1] != s[2] && s[1] != s[3] && s[1] != s[4] && s[1] != s[5] && s[1] != s[6] && s[1] != s[7] && s[1] != s[8],
        s[2] != s[3] && s[2] != s[4] && s[2] != s[5] && s[2] != s[6] && s[2] != s[7] && s[2] != s[8],
        s[3] != s[4] && s[3] != s[5] && s[3] != s[6] && s[3] != s[7] && s[3] != s[8],
        s[4] != s[5] && s[4] != s[6] && s[4] != s[7] && s[4] != s[8],
        s[5] != s[6] && s[5] != s[7] && s[5] != s[8],
        s[6] != s[7] && s[6] != s[8],
        s[7] != s[8],
{
    reveal_strlit("ci-failed");
    reveal_strlit("changes-requested");
    reveal_strlit("merge-conflicts");
    reveal_strlit("approved-and-green");
    reveal_strlit("agent-idle");
    reveal_strlit("agent-stuck");
    reveal_strlit("agent-needs-input");
    reveal_strlit("agent-exited");
    reveal_strlit("all-complete");
    assert(s[0].len() == 9);
    assert(s[1].len() == 17);
    assert(s[2].len() == 15);
    assert(s[3].len() == 18);
    assert(s[4].len() == 10);
    assert(s[5].len() == 11);
    assert(s[6].len() == 17);
    assert(s[7].len() == 12);
    assert(s[8].len() == 12);
    assert(s[1][0] != s[6][0]);
    assert(s[7][1] != s[8][1]);
}

/// What the reactions do where the configuration is silent.
pub fn default_reactions() -> (r: KeyedMap<ReactionConfig>)
    ensures
        r.key_order() == reaction_keys(),
        forall|k: Seq<char>| #[trigger] r@.dom().contains(k) <==> default_reaction(k) is Some,
        forall|k: Seq<char>| #[trigger]
            r@.dom().contains(k) ==> Some(r@[k]@) == default_reaction(k),
{
    proof {
        lemma_keys_differ(reaction_keys());
    }
    let mut m: KeyedMap<ReactionConfig> = KeyedMap::new();
    m.insert(
        "ci-failed".to_string(),
        reaction(
            ReactionAction::SendToAgent,
            Some(
                "CI is failing on your PR. Run `gh pr checks` to see the failures, fix them, and push.",
            ),
            Some(2),
            Some(EscalateAfter::Attempts(2)),
            None,
            false,
        ),
    );
    m.insert(
        "changes-requested".to_string(),
        reaction(
            ReactionAction::SendToAgent,
            Some(
                "There are review comments on your PR. Check with `gh pr view --comments`, address them, and push.",
            ),
            None,
            Some(EscalateAfter::Duration("30m".to_string())),
            None,
            false,
        ),
    );
    m.insert(
        "merge-conflicts".to_string(),
        reaction(
            ReactionAction::SendToAgent,
            Some(
                "Your branch has merge conflicts. Rebase on the default branch and resolve them.",
            ),
            None,
            Some(EscalateAfter::Duration("15m".to_string())),
            None,
            false,
        ),
    );
    m.insert(
        "approved-and-green".to_string(),
        reaction(ReactionAction::AutoMerge, None, None, None, None, false),
    );
    m.insert(
        "agent-idle".to_string(),
        reaction(
            ReactionAction::SendToAgent,
            Some(
                "You appear to be idle. If your task is not complete, continue working or explain blockers.",
            ),
            Some(2),
            Some(EscalateAfter::Duration("15m".to_string())),
            None,
            false,
        ),
    );
    m.insert(
        "agent-stuck".to_string(),
        reaction(ReactionAction::Notify, None, None, None, Some("10m"), false),
    );
    m.insert(
        "agent-needs-input".to_string(),
        reaction(ReactionAction::Notify, None, None, None, None, false),
    );
    m.insert(
        "agent-exited".to_string(),
        reaction(ReactionAction::Notify, None, None, None, None, false),
    );
    m.insert(
        "all-complete".to_string(),
        reaction(ReactionAction::Notify, None, None, None, None, true),
    );
    assert(m.key_order() =~= reaction_keys());
    m
}

/// The notifier that is told where the configuration is silent.
fn only_stdout() -> (r: Vec<String>)
    ensures
        texts(r@) == seq!["stdout"@],
{
    let mut out: Vec<String> = Vec::new();
    out.push("stdout".to_string());
    assert(texts(out@) =~= seq!["stdout"@]);
    out
}

/// Who is told of what where the configuration is silent: everything is printed.
pub fn default_routing() -> (r: NotificationRouting)
    ensures
        forall|p: EventPriority|
            (#[trigger] r.names(p)) matches Some(names) && texts(names@) == seq!["stdout"@],
{
    NotificationRouting {
        urgent: Some(only_stdout()),
        action: Some(only_stdout()),
        warning: Some(only_stdout()),
        info: Some(only_stdout()),
    }
}

} // verus!
