//! What holds of configurations.

use vstd::prelude::*;

use crate::config::clash::{basenames, law_projects_get_along, prefixes};
use crate::config::discovery::nearest;
use crate::config::project::ProjectConfig;
use crate::config::reactions::{default_reaction, notifier_names, reaction_keys};
use crate::config::validation::{
    defaults_fault, duration_fault, durations_fault, fault, is_slug, keys_fault, names_fault,
    project_fault, projects_fault, route_fault, routing_fault, slug_at,
};
use crate::config::{blank, fresh, AoConfig};
use crate::notifier::NotificationRouting;
use crate::paths::join_path;
use crate::reactions::{EscalateAfter, EscalateView, EventPriority, ReactionAction, ReactionConfig};
use crate::text::{texts, trim};

verus! {

/// There is such a reaction.
pub open spec fn known_reaction(key: Seq<char>) -> bool {
    ||| key == "ci-failed"@
    ||| key == "changes-requested"@
    ||| key == "merge-conflicts"@
    ||| key == "approved-and-green"@
    ||| key == "agent-idle"@
    ||| key == "agent-stuck"@
    ||| key == "agent-needs-input"@
    ||| key == "agent-exited"@
    ||| key == "all-complete"@
}

/// There is such a notifier.
pub open spec fn known_notifier(name: Seq<char>) -> bool {
    ||| name == "stdout"@
    ||| name == "desktop"@
    ||| name == "ntfy"@
    ||| name == "discord"@
    ||| name == "slack"@
}

/// A duration that can be read: a number in decimal digits, and then `s`, `m` or `h`.
pub open spec fn reads_as_duration(raw: Seq<char>) -> bool {
    &&& raw.len() > 1
    &&& raw.last() == 's' || raw.last() == 'm' || raw.last() == 'h'
    &&& forall|i: int| 0 <= i < raw.len() - 1 ==> 0x30 <= (#[trigger] raw[i]) as u32 <= 0x39
    &&& crate::reactions::duration_secs(raw)->0 <= u64::MAX
}

proof fn lemma_readable(raw: Seq<char>)
    ensures
        crate::reactions::readable(raw) <==> reads_as_duration(raw),
{
    let d = raw.drop_last();
    if crate::reactions::readable(raw) {
        assert forall|i: int| 0 <= i < raw.len() - 1 implies 0x30 <= (
        #[trigger] raw[i]) as u32 <= 0x39 by {
            assert(d[i] == raw[i]);
            assert(crate::number::is_digit(d[i]));
        }
    }
    if reads_as_duration(raw) {
        assert forall|i: int| 0 <= i < d.len() implies crate::number::is_digit(
            #[trigger] d[i],
        ) by {
            assert(d[i] == raw[i]);
        }
    }
}

/// The reactions and the notifiers that there are.
pub proof fn law_reactions_and_notifiers_are_known(name: Seq<char>)
    ensures
        reaction_keys().contains(name) <==> known_reaction(name),
        notifier_names().contains(name) <==> known_notifier(name),
{
    let k = reaction_keys();
    assert(k[0] == "ci-failed"@ && k[1] == "changes-requested"@ && k[2] == "merge-conflicts"@);
    assert(k[3] == "approved-and-green"@ && k[4] == "agent-idle"@ && k[5] == "agent-stuck"@);
    assert(k[6] == "agent-needs-input"@ && k[7] == "agent-exited"@ && k[8] == "all-complete"@);
    let n = notifier_names();
    assert(n[0] == "stdout"@ && n[1] == "desktop"@ && n[2] == "ntfy"@ && n[3] == "discord"@ && n[4]
        == "slack"@);
}

proof fn lemma_keys(path: Seq<char>, keys: Seq<Seq<char>>)
    ensures
        keys_fault(path, keys) is None <==> forall|i: int|
            0 <= i < keys.len() ==> known_reaction(#[trigger] keys[i]),
    decreases keys.len(),
{
    if keys.len() > 0 {
        let rest = keys.drop_last();
        lemma_keys(path, rest);
        law_reactions_and_notifiers_are_known(keys.last());
        if keys_fault(path, keys) is None {
            assert forall|i: int| 0 <= i < keys.len() implies known_reaction(
                #[trigger] keys[i],
            ) by {
                if i < rest.len() {
                    assert(rest[i] == keys[i]);
                }
            }
        } else if forall|i: int| 0 <= i < keys.len() ==> known_reaction(#[trigger] keys[i]) {
            assert forall|i: int| 0 <= i < rest.len() implies known_reaction(
                #[trigger] rest[i],
            ) by {
                assert(rest[i] == keys[i]);
            }
            assert(keys[keys.len() - 1] == keys.last());
        }
    }
}

/// The durations of a reaction can be read.
pub open spec fn timely(c: ReactionConfig) -> bool {
    &&& c.threshold matches Some(raw) ==> reads_as_duration(raw@)
    &&& c.escalate_after matches Some(EscalateAfter::Duration(raw)) ==> reads_as_duration(raw@)
}

proof fn lemma_durations(
    path: Seq<char>,
    keys: Seq<Seq<char>>,
    reactions: Map<Seq<char>, ReactionConfig>,
)
    ensures
        durations_fault(path, keys, reactions) is None <==> forall|i: int|
            0 <= i < keys.len() ==> timely(reactions[#[trigger] keys[i]]),
    decreases keys.len(),
{
    if keys.len() > 0 {
        let rest = keys.drop_last();
        lemma_durations(path, rest, reactions);
        let c = reactions[keys.last()];
        if let Some(raw) = c.threshold {
            lemma_readable(raw@);
        }
        if let Some(EscalateAfter::Duration(raw)) = c.escalate_after {
            lemma_readable(raw@);
        }
        assert(duration_fault(path, keys.last(), c) is None <==> timely(c));
        if durations_fault(path, keys, reactions) is None {
            assert forall|i: int| 0 <= i < keys.len() implies timely(
                reactions[#[trigger] keys[i]],
            ) by {
                if i < rest.len() {
                    assert(rest[i] == keys[i]);
                }
            }
        } else if forall|i: int| 0 <= i < keys.len() ==> timely(reactions[#[trigger] keys[i]]) {
            assert forall|i: int| 0 <= i < rest.len() implies timely(
                reactions[#[trigger] rest[i]],
            ) by {
                assert(rest[i] == keys[i]);
            }
            assert(keys[keys.len() - 1] == keys.last());
        }
    }
}

proof fn lemma_names(path: Seq<char>, place: Seq<char>, names: Seq<Seq<char>>)
    ensures
        names_fault(path, place, names) is None <==> forall|i: int|
            0 <= i < names.len() ==> known_notifier(#[trigger] names[i]),
    decreases names.len(),
{
    if names.len() > 0 {
        let rest = names.drop_last();
        lemma_names(path, place, rest);
        law_reactions_and_notifiers_are_known(names.last());
        if names_fault(path, place, names) is None {
            assert forall|i: int| 0 <= i < names.len() implies known_notifier(
                #[trigger] names[i],
            ) by {
                if i < rest.len() {
                    assert(rest[i] == names[i]);
                }
            }
        } else if forall|i: int| 0 <= i < names.len() ==> known_notifier(#[trigger] names[i]) {
            assert forall|i: int| 0 <= i < rest.len() implies known_notifier(
                #[trigger] rest[i],
            ) by {
                assert(rest[i] == names[i]);
            }
            assert(names[names.len() - 1] == names.last());
        }
    }
}

/// All the notifiers that are named exist.
pub open spec fn all_known(names: Option<Vec<String>>) -> bool {
    names matches Some(v) ==> all_are_known(texts(v@))
}

/// All the notifiers in the list exist.
pub open spec fn all_are_known(names: Seq<Seq<char>>) -> bool {
    forall|i: int| 0 <= i < names.len() ==> known_notifier(#[trigger] names[i])
}

/// A project is where it says: its repository is `owner/repo`, and its path is absolute.
pub open spec fn locatable(p: ProjectConfig) -> bool {
    &&& exists|i: int| #[trigger] slug_at(p.repo@, i)
    &&& trim(p.path@).len() > 0
    &&& trim(p.path@)[0] == '/'
}

proof fn lemma_projects(
    path: Seq<char>,
    ids: Seq<Seq<char>>,
    projects: Map<Seq<char>, ProjectConfig>,
)
    ensures
        projects_fault(path, ids, projects) is None <==> forall|i: int|
            0 <= i < ids.len() ==> locatable(projects[#[trigger] ids[i]]),
    decreases ids.len(),
{
    if ids.len() > 0 {
        let rest = ids.drop_last();
        lemma_projects(path, rest, projects);
        assert(project_fault(path, ids.last(), projects[ids.last()]) is None <==> locatable(
            projects[ids.last()],
        ));
        if projects_fault(path, ids, projects) is None {
            assert forall|i: int| 0 <= i < ids.len() implies locatable(
                projects[#[trigger] ids[i]],
            ) by {
                if i < rest.len() {
                    assert(rest[i] == ids[i]);
                }
            }
        } else if forall|i: int| 0 <= i < ids.len() ==> locatable(projects[#[trigger] ids[i]]) {
            assert forall|i: int| 0 <= i < rest.len() implies locatable(
                projects[#[trigger] rest[i]],
            ) by {
                assert(rest[i] == ids[i]);
            }
            assert(ids[ids.len() - 1] == ids.last());
        }
    }
}

/// A configuration is accepted if and only if every reaction that it names exists and has durations
/// that can be read, every notifier that it names exists, every project can be located, and no two
/// projects have paths that end alike or the same session prefix.
pub proof fn law_accepted_configurations_make_sense(c: AoConfig, path: Seq<char>)
    ensures
        fault(c, path) is None <==> {
            &&& forall|i: int|
                #![trigger c.reactions.key_order()[i]]
                0 <= i < c.reactions.key_order().len() ==> known_reaction(
                    c.reactions.key_order()[i],
                ) && timely(c.reactions@[c.reactions.key_order()[i]])
            &&& c.defaults matches Some(d) ==> all_known(Some(d.notifiers))
            &&& all_known(c.notification_routing.urgent)
            &&& all_known(c.notification_routing.action)
            &&& all_known(c.notification_routing.warning)
            &&& all_known(c.notification_routing.info)
            &&& forall|i: int|
                #![trigger c.projects.key_order()[i]]
                0 <= i < c.projects.key_order().len() ==> locatable(
                    c.projects@[c.projects.key_order()[i]],
                )
            &&& basenames(c.projects.key_order(), c.projects@).no_duplicates()
            &&& prefixes(c.projects.key_order(), c.projects@).no_duplicates()
        },
{
    let keys = c.reactions.key_order();
    lemma_keys(path, keys);
    lemma_durations(path, keys, c.reactions@);
    if let Some(d) = c.defaults {
        lemma_names(path, "defaults.notifiers"@, texts(d.notifiers@));
    }
    let routing = c.notification_routing;
    lemma_route(path, routing, EventPriority::Urgent);
    lemma_route(path, routing, EventPriority::Action);
    lemma_route(path, routing, EventPriority::Warning);
    lemma_route(path, routing, EventPriority::Info);
    lemma_projects(path, c.projects.key_order(), c.projects@);
    law_projects_get_along(c.projects.key_order(), c.projects@);
    if let Some(d) = c.defaults {
        assert(defaults_fault(path, c.defaults) is None <==> all_known(Some(d.notifiers)));
    }
    assert(routing_fault(path, routing) is None <==> all_known(routing.urgent) && all_known(
        routing.action,
    ) && all_known(routing.warning) && all_known(routing.info));
    let both = forall|i: int|
        #![trigger keys[i]]
        0 <= i < keys.len() ==> known_reaction(keys[i]) && timely(c.reactions@[keys[i]]);
    assert(both <==> keys_fault(path, keys) is None && durations_fault(path, keys, c.reactions@)
        is None) by {
        if both {
            assert forall|i: int| 0 <= i < keys.len() implies known_reaction(
                #[trigger] keys[i],
            ) by {}
            assert forall|i: int| 0 <= i < keys.len() implies timely(
                c.reactions@[#[trigger] keys[i]],
            ) by {}
        }
    }
}

proof fn lemma_route(path: Seq<char>, routing: NotificationRouting, p: EventPriority)
    ensures
        route_fault(path, routing, p) is None <==> all_known(
            match p {
                EventPriority::Urgent => routing.urgent,
                EventPriority::Action => routing.action,
                EventPriority::Warning => routing.warning,
                EventPriority::Info => routing.info,
            },
        ),
{
    if let Some(names) = routing.names(p) {
        lemma_names(path, "notification_routing."@ + p.name() + "[]"@, texts(names@));
    }
}

/// The repository `owner/repo` is one, as long as neither part is blank or holds a slash. Nothing
/// else is.
pub proof fn law_slugs_have_two_parts(owner: Seq<char>, repo: Seq<char>)
    requires
        !owner.contains('/'),
        !repo.contains('/'),
    ensures
        is_slug(owner + "/"@ + repo) <==> trim(owner).len() > 0 && trim(repo).len() > 0,
        !is_slug(owner),
{
    reveal_strlit("/");
    let s = owner + "/"@ + repo;
    let n = owner.len() as int;
    assert(s[n] == '/');
    assert(s.take(n) =~= owner);
    assert(s.skip(n + 1) =~= repo);
    assert forall|j: int| 0 <= j < s.len() && j != n implies s[j] != '/' by {
        if j < n {
            assert(owner.contains(owner[j]));
            assert(s[j] == owner[j]);
        } else {
            assert(repo.contains(repo[j - n - 1]));
            assert(s[j] == repo[j - n - 1]);
        }
    }
    if trim(owner).len() > 0 && trim(repo).len() > 0 {
        assert(slug_at(s, n));
    }
    if is_slug(s) {
        let i = choose|i: int| slug_at(s, i);
        assert(i == n);
    }
    if is_slug(owner) {
        let i = choose|i: int| slug_at(owner, i);
        assert(owner.contains(owner[i]));
    }
}

/// What each reaction does where the configuration is silent. Failing checks, requested changes,
/// conflicts and an idle agent are passed on to the agent; an approved pull request that passes is
/// merged; of all else people are notified.
pub proof fn law_reactions_have_defaults(key: Seq<char>)
    ensures
        default_reaction(key) is Some <==> known_reaction(key),
        key == "ci-failed"@ ==> (default_reaction(key) matches Some(c) && c.action
            == ReactionAction::SendToAgent && c.retries == Some(2u32) && c.escalate_after == Some(
            EscalateView::Attempts(2),
        ) && c.threshold is None && c.message is Some && !c.include_summary),
        key == "changes-requested"@ ==> (default_reaction(key) matches Some(c) && c.action
            == ReactionAction::SendToAgent && c.retries is None && c.escalate_after == Some(
            EscalateView::Duration("30m"@),
        ) && c.threshold is None && c.message is Some && !c.include_summary),
        key == "merge-conflicts"@ ==> (default_reaction(key) matches Some(c) && c.action
            == ReactionAction::SendToAgent && c.retries is None && c.escalate_after == Some(
            EscalateView::Duration("15m"@),
        ) && c.threshold is None && c.message is Some && !c.include_summary),
        key == "approved-and-green"@ ==> (default_reaction(key) matches Some(c) && c.action
            == ReactionAction::AutoMerge && c.retries is None && c.escalate_after is None
            && c.threshold is None && c.message is None && !c.include_summary),
        key == "agent-idle"@ ==> (default_reaction(key) matches Some(c) && c.action
            == ReactionAction::SendToAgent && c.retries == Some(2u32) && c.escalate_after == Some(
            EscalateView::Duration("15m"@),
        ) && c.threshold is None && c.message is Some && !c.include_summary),
        key == "agent-stuck"@ ==> (default_reaction(key) matches Some(c) && c.action
            == ReactionAction::Notify && c.retries is None && c.escalate_after is None && c.threshold
            == Some("10m"@) && c.message is None && !c.include_summary),
        key == "agent-needs-input"@ || key == "agent-exited"@ ==> (default_reaction(key) matches Some(
            c,
        ) && c.action == ReactionAction::Notify && c.retries is None && c.escalate_after is None
            && c.threshold is None && c.message is None && !c.include_summary),
        key == "all-complete"@ ==> (default_reaction(key) matches Some(c) && c.action
            == ReactionAction::Notify && c.retries is None && c.escalate_after is None && c.threshold
            is None && c.message is None && c.include_summary),
        default_reaction(key) matches Some(c) ==> c.auto && c.priority is None && c.merge_method
            is None,
{
    crate::config::reactions::lemma_keys_differ(reaction_keys());
    let s = reaction_keys();
    assert(s[0] == "ci-failed"@ && s[1] == "changes-requested"@ && s[2] == "merge-conflicts"@);
    assert(s[3] == "approved-and-green"@ && s[4] == "agent-idle"@ && s[5] == "agent-stuck"@);
    assert(s[6] == "agent-needs-input"@ && s[7] == "agent-exited"@ && s[8] == "all-complete"@);
}

/// The configuration file is the one in the innermost directory that has one; where none has, it is
/// the one that the directory where the search began would have.
pub proof fn law_nearest_file_counts(
    start: Seq<char>,
    dirs: Seq<Seq<char>>,
    are_files: Seq<bool>,
    i: int,
)
    requires
        dirs.len() == are_files.len(),
        0 <= i <= dirs.len(),
        forall|j: int| 0 <= j < i ==> !#[trigger] are_files[j],
        i < dirs.len() ==> are_files[i],
    ensures
        nearest(start, dirs, are_files) == if i < dirs.len() {
            join_path(dirs[i], "ao-rs.yaml"@)
        } else {
            join_path(start, "ao-rs.yaml"@)
        },
    decreases i,
{
    if i > 0 {
        assert(!are_files[0]);
        let rest = are_files.skip(1);
        assert forall|j: int| 0 <= j < i - 1 implies !#[trigger] rest[j] by {
            assert(rest[j] == are_files[j + 1]);
        }
        law_nearest_file_counts(start, dirs.skip(1), rest, i - 1);
    }
}

/// Where the configuration is silent the dashboard is on port 3000, sessions count as idle after
/// five minutes, and are polled every ten seconds. So it is in a configuration that was just
/// written for a project, which besides holds the project under its name, all reactions, and every
/// notification on the standard output.
pub proof fn law_silence_has_a_meaning(
    c: AoConfig,
    d: AoConfig,
    repo: Seq<char>,
    name: Seq<char>,
    branch: Seq<char>,
    path: Seq<char>,
    agent: Seq<char>,
)
    requires
        blank(c),
        fresh(d, repo, name, branch, path, agent),
    ensures
        c.port == 3000 && d.port == 3000,
        c.ready_threshold_ms == 300_000 && d.ready_threshold_ms == 300_000,
        c.poll_interval == 10 && d.poll_interval == 10,
        c.projects.key_order().len() == 0 && c.reactions.key_order().len() == 0,
        c.defaults is None && c.power is None && d.power is None,
        d.projects.key_order() == seq![name],
        d.projects@[name].repo@ == repo,
        d.projects@[name].path@ == path,
        d.projects@[name].default_branch@ == branch,
        d.projects@[name].session_prefix is None,
        d.projects@[name].agent_config is Some,
        d.reactions@.dom().contains("agent-stuck"@),
        d.reactions@.dom().contains("approved-and-green"@),
        d.defaults matches Some(x) && x.agent@ == agent && x.runtime@ == "tmux"@ && x.workspace@
            == "worktree"@ && x.tracker@ == "github"@ && x.notifiers@.len() == 0
            && x.orchestrator is Some && x.worker is Some,
        d.notification_routing.urgent matches Some(v) && texts(v@) == seq!["stdout"@],
        d.notification_routing.action matches Some(v) && texts(v@) == seq!["stdout"@],
        d.notification_routing.warning matches Some(v) && texts(v@) == seq!["stdout"@],
        d.notification_routing.info matches Some(v) && texts(v@) == seq!["stdout"@],
{
    law_reactions_have_defaults("agent-stuck"@);
    law_reactions_have_defaults("approved-and-green"@);
    let r = d.notification_routing;
    assert(r.names(EventPriority::Urgent) is Some);
    assert(r.names(EventPriority::Action) is Some);
    assert(r.names(EventPriority::Warning) is Some);
    assert(r.names(EventPriority::Info) is Some);
}

} // verus!
