//! What a configuration has to meet besides being well-formed.

use vstd::prelude::*;
use vstd::string::*;

use crate::config::clash::{
    basenames, clash, law_projects_get_along, prefixes, validate_project_uniqueness,
};
use crate::config::power::DefaultsConfig;
use crate::config::project::ProjectConfig;
use crate::config::reactions::{
    default_reaction, is_listed, notifier_names, reaction_keys, supported_notifier_names,
    supported_reaction_keys,
};
use crate::config::{
    blank, fresh, unknown_field, unknown_field_warning, AoConfig, ConfigFile, ConfigWarning, LoadedConfig,
};
use crate::error::AoError;
use crate::keyed::KeyedMap;
use crate::notifier::NotificationRouting;
use crate::number::number;
use crate::order::{ranks, sort_ranked, text_order};
use crate::reactions::{parse_duration, readable, EscalateAfter, EventPriority, ReactionConfig};
use crate::text::{
    chars_of, join, joined, texts, trim, trim_end, trim_start, trimmed, white_space,
};

verus! {

/// How `Debug` shows a text: in quotation marks, and with special characters escaped.
pub uninterp spec fn debug_text(s: Seq<char>) -> Seq<char>;

/// `<str as Debug>::fmt`, through `format!`: the text in quotation marks, with special
/// characters escaped. Which characters are escaped, and how, is not stated.
#[verifier::external_body]
fn debug_of(s: &str) -> (r: String)
    ensures
        r@ == debug_text(s@),
{
    format!("{:?}", s)
}

/// What is said of a reaction that there is not.
pub open spec fn unknown_reaction(path: Seq<char>, key: Seq<char>) -> Seq<char> {
    path + ": unknown reaction key `reactions."@ + key + "` (supported: "@ + joined(
        reaction_keys().sort_by(text_order()),
        ", "@,
    ) + ")"@
}

/// What is said of a reaction that there is not.
pub fn unknown_reaction_message(path: &str, key: &str) -> (r: String)
    ensures
        r@ == unknown_reaction(path@, key@),
{
    let keys = supported_reaction_keys();
    assert(ranks(keys@) =~= texts(keys@));
    let keys = sort_ranked(keys);
    assert(ranks(keys@) =~= texts(keys@));
    let list = join(&keys, ", ");
    let mut out: String = path.to_string();
    out.append(": unknown reaction key `reactions.");
    out.append(key);
    out.append("` (supported: ");
    out.append(list.as_str());
    out.append(")");
    out
}

/// What is said of a duration that cannot be read; it is shown as `shown`.
pub open spec fn bad_duration(
    path: Seq<char>,
    key: Seq<char>,
    field: Seq<char>,
    shown: Seq<char>,
) -> Seq<char> {
    path + ": invalid duration at `reactions."@ + key + "."@ + field + "`: "@ + shown
        + " (expected like \"10s\", \"5m\", \"2h\")"@
}

/// What is said of a duration that cannot be read; it is shown as `shown`.
pub fn bad_duration_message(path: &str, key: &str, field: &str, shown: &str) -> (r: String)
    ensures
        r@ == bad_duration(path@, key@, field@, shown@),
{
    let mut out: String = path.to_string();
    out.append(": invalid duration at `reactions.");
    out.append(key);
    out.append(".");
    out.append(field);
    out.append("`: ");
    out.append(shown);
    out.append(" (expected like \"10s\", \"5m\", \"2h\")");
    out
}

/// What is said of a notifier that there is not; it is shown as `shown`.
pub open spec fn unknown_notifier(
    path: Seq<char>,
    place: Seq<char>,
    shown: Seq<char>,
) -> Seq<char> {
    path + ": unknown notifier name at `"@ + place + "`: "@ + shown + " (supported: "@ + joined(
        notifier_names(),
        ", "@,
    ) + ")"@
}

/// What is said of a notifier that there is not; it is shown as `shown`.
pub fn unknown_notifier_message(path: &str, place: &str, shown: &str) -> (r: String)
    ensures
        r@ == unknown_notifier(path@, place@, shown@),
{
    let names = supported_notifier_names();
    let list = join(&names, ", ");
    let mut out: String = path.to_string();
    out.append(": unknown notifier name at `");
    out.append(place);
    out.append("`: ");
    out.append(shown);
    out.append(" (supported: ");
    out.append(list.as_str());
    out.append(")");
    out
}

/// What is wrong with a project.
#[derive(Clone, Copy, Debug, PartialEq, Eq, Structural)]
pub enum ProjectFault {
    /// Its repository is not `owner/repo`.
    Slug,
    NoPath,
    /// Its path begins with the sign for the home directory.
    HomePath,
    RelativePath,
}

/// What is said of a project with the given fault; the repository or the path is shown as
/// `shown`.
pub open spec fn bad_project(
    path: Seq<char>,
    id: Seq<char>,
    fault: ProjectFault,
    shown: Seq<char>,
) -> Seq<char> {
    match fault {
        ProjectFault::Slug => path + ": invalid repo slug at `projects."@ + id + ".repo`: "@ + shown
            + " (expected \"owner/repo\")"@,
        ProjectFault::NoPath => path + ": empty path at `projects."@ + id + ".path`"@,
        ProjectFault::HomePath => path + ": `projects."@ + id
            + ".path` must be an absolute path (found "@ + shown
            + "; `~` is not supported here)"@,
        ProjectFault::RelativePath => path + ": `projects."@ + id
            + ".path` must be an absolute path (found "@ + shown + ")"@,
    }
}

/// What is said of a project with the given fault.
pub fn bad_project_message(path: &str, id: &str, fault: ProjectFault, shown: &str) -> (r: String)
    ensures
        r@ == bad_project(path@, id@, fault, shown@),
{
    let mut out: String = path.to_string();
    match fault {
        ProjectFault::Slug => {
            out.append(": invalid repo slug at `projects.");
            out.append(id);
            out.append(".repo`: ");
            out.append(shown);
            out.append(" (expected \"owner/repo\")");
        },
        ProjectFault::NoPath => {
            out.append(": empty path at `projects.");
            out.append(id);
            out.append(".path`");
        },
        ProjectFault::HomePath => {
            out.append(": `projects.");
            out.append(id);
            out.append(".path` must be an absolute path (found ");
            out.append(shown);
            out.append("; `~` is not supported here)");
        },
        ProjectFault::RelativePath => {
            out.append(": `projects.");
            out.append(id);
            out.append(".path` must be an absolute path (found ");
            out.append(shown);
            out.append(")");
        },
    }
    out
}

/// The first of two faults that there is.
pub open spec fn first_of(a: Option<Seq<char>>, b: Option<Seq<char>>) -> Option<Seq<char>> {
    if a is Some {
        a
    } else {
        b
    }
}

/// The first reaction that there is not.
pub open spec fn keys_fault(path: Seq<char>, keys: Seq<Seq<char>>) -> Option<Seq<char>>
    decreases keys.len(),
{
    if keys.len() == 0 {
        None
    } else {
        first_of(
            keys_fault(path, keys.drop_last()),
            if reaction_keys().contains(keys.last()) {
                None
            } else {
                Some(unknown_reaction(path, keys.last()))
            },
        )
    }
}

/// What is wrong with the durations of a reaction.
pub open spec fn duration_fault(path: Seq<char>, key: Seq<char>, c: ReactionConfig) -> Option<
    Seq<char>,
> {
    first_of(
        match c.threshold {
            Some(raw) => if readable(raw@) {
                None
            } else {
                Some(bad_duration(path, key, "threshold"@, debug_text(raw@)))
            },
            None => None,
        },
        match c.escalate_after {
            Some(EscalateAfter::Duration(raw)) => if readable(raw@) {
                None
            } else {
                Some(bad_duration(path, key, "escalate_after"@, debug_text(raw@)))
            },
            _ => None,
        },
    )
}

/// What is wrong with the durations of the reactions in `keys`.
pub open spec fn durations_fault(
    path: Seq<char>,
    keys: Seq<Seq<char>>,
    reactions: Map<Seq<char>, ReactionConfig>,
) -> Option<Seq<char>>
    decreases keys.len(),
{
    if keys.len() == 0 {
        None
    } else {
        first_of(
            durations_fault(path, keys.drop_last(), reactions),
            duration_fault(path, keys.last(), reactions[keys.last()]),
        )
    }
}

/// The first notifier that there is not.
pub open spec fn names_fault(
    path: Seq<char>,
    place: Seq<char>,
    names: Seq<Seq<char>>,
) -> Option<Seq<char>>
    decreases names.len(),
{
    if names.len() == 0 {
        None
    } else {
        first_of(
            names_fault(path, place, names.drop_last()),
            if notifier_names().contains(names.last()) {
                None
            } else {
                Some(unknown_notifier(path, place, debug_text(names.last())))
            },
        )
    }
}

/// What is wrong with the notifiers that are told of everything.
pub open spec fn defaults_fault(path: Seq<char>, defaults: Option<DefaultsConfig>) -> Option<
    Seq<char>,
> {
    match defaults {
        Some(d) => names_fault(path, "defaults.notifiers"@, texts(d.notifiers@)),
        None => None,
    }
}

/// What is wrong with the notifiers that are told of events of one priority.
pub open spec fn route_fault(path: Seq<char>, routing: NotificationRouting, p: EventPriority) -> Option<
    Seq<char>,
> {
    match routing.names(p) {
        Some(names) => names_fault(
            path,
            "notification_routing."@ + p.name() + "[]"@,
            texts(names@),
        ),
        None => None,
    }
}

/// What is wrong with the notifiers that are told of events.
pub open spec fn routing_fault(path: Seq<char>, routing: NotificationRouting) -> Option<
    Seq<char>,
> {
    first_of(
        first_of(
            first_of(
                route_fault(path, routing, EventPriority::Urgent),
                route_fault(path, routing, EventPriority::Action),
            ),
            route_fault(path, routing, EventPriority::Warning),
        ),
        route_fault(path, routing, EventPriority::Info),
    )
}

/// `s` is `owner/repo`: it has one slash, and something on both sides of it.
pub open spec fn is_slug(s: Seq<char>) -> bool {
    exists|i: int| slug_at(s, i)
}

/// `s` is `owner/repo`, with the slash at `i`.
pub open spec fn slug_at(s: Seq<char>, i: int) -> bool {
    &&& 0 <= i < s.len()
    &&& s[i] == '/'
    &&& forall|j: int| 0 <= j < s.len() && j != i ==> s[j] != '/'
    &&& trim(s.take(i)).len() > 0
    &&& trim(s.skip(i + 1)).len() > 0
}

/// What is wrong with a project.
pub open spec fn fault_of(repo: Seq<char>, dir: Seq<char>) -> Option<ProjectFault> {
    let p = trim(dir);
    if !is_slug(repo) {
        Some(ProjectFault::Slug)
    } else if p.len() == 0 {
        Some(ProjectFault::NoPath)
    } else if p[0] == '~' {
        Some(ProjectFault::HomePath)
    } else if p[0] != '/' {
        Some(ProjectFault::RelativePath)
    } else {
        None
    }
}

/// What is said of a project, if there is something wrong with it.
pub open spec fn project_fault(path: Seq<char>, id: Seq<char>, p: ProjectConfig) -> Option<
    Seq<char>,
> {
    match fault_of(p.repo@, p.path@) {
        Some(fault) => Some(
            bad_project(
                path,
                id,
                fault,
                debug_text(
                    if fault == ProjectFault::Slug {
                        p.repo@
                    } else {
                        p.path@
                    },
                ),
            ),
        ),
        None => None,
    }
}

/// What is wrong with the projects in `ids`.
pub open spec fn projects_fault(
    path: Seq<char>,
    ids: Seq<Seq<char>>,
    projects: Map<Seq<char>, ProjectConfig>,
) -> Option<Seq<char>>
    decreases ids.len(),
{
    if ids.len() == 0 {
        None
    } else {
        first_of(
            projects_fault(path, ids.drop_last(), projects),
            project_fault(path, ids.last(), projects[ids.last()]),
        )
    }
}

/// What is said of projects that get in each other's way.
pub open spec fn clash_fault(
    path: Seq<char>,
    ids: Seq<Seq<char>>,
    projects: Map<Seq<char>, ProjectConfig>,
) -> Option<Seq<char>> {
    match clash(ids, projects) {
        Some(reason) => Some(path + ": "@ + reason),
        None => None,
    }
}

/// The first thing that is wrong with a configuration, in words. The reactions come first,
/// then the notifiers, then the projects; each in the order in which they stand. Last comes
/// why two projects get in each other's way.
pub open spec fn fault(c: AoConfig, path: Seq<char>) -> Option<Seq<char>> {
    first_of(
        keys_fault(path, c.reactions.key_order()),
        first_of(
            durations_fault(path, c.reactions.key_order(), c.reactions@),
            first_of(
                defaults_fault(path, c.defaults),
                first_of(
                    routing_fault(path, c.notification_routing),
                    first_of(
                        projects_fault(path, c.projects.key_order(), c.projects@),
                        clash_fault(path, c.projects.key_order(), c.projects@),
                    ),
                ),
            ),
        ),
    )
}

/// The contents of an optional text.
pub open spec fn said(s: Option<String>) -> Option<Seq<char>> {
    crate::text::opt_text(s)
}

fn check_keys(path: &str, reactions: &KeyedMap<ReactionConfig>) -> (r: Option<String>)
    ensures
        said(r) == keys_fault(path@, reactions.key_order()),
{
    let keys = reactions.keys();
    let supported = supported_reaction_keys();
    let ghost order = texts(keys@);
    assert(order.take(0) =~= Seq::empty());
    for i in 0..keys.len()
        invariant
            order == texts(keys@),
            order == reactions.key_order(),
            texts(supported@) == reaction_keys(),
            keys_fault(path@, order.take(i as int)) is None,
    {
        let ghost upto = order.take(i + 1);
        assert(upto.drop_last() =~= order.take(i as int));
        assert(upto.last() == keys@[i as int]@);
        if !is_listed(&supported, keys[i].as_str()) {
            proof {
                lemma_keys_fault(path@, order, i + 1);
            }
            return Some(unknown_reaction_message(path, keys[i].as_str()));
        }
    }
    assert(order.take(order.len() as int) =~= order);
    None
}

proof fn lemma_keys_fault(path: Seq<char>, keys: Seq<Seq<char>>, i: int)
    requires
        0 <= i <= keys.len(),
        keys_fault(path, keys.take(i)) is Some,
    ensures
        keys_fault(path, keys) == keys_fault(path, keys.take(i)),
    decreases keys.len() - i,
{
    if i == keys.len() {
        assert(keys.take(i) =~= keys);
    } else {
        assert(keys.take(i + 1).drop_last() =~= keys.take(i));
        lemma_keys_fault(path, keys, i + 1);
    }
}

fn check_duration(path: &str, key: &str, c: &ReactionConfig) -> (r: Option<String>)
    ensures
        said(r) == duration_fault(path@, key@, *c),
{
    if let Some(raw) = &c.threshold {
        if parse_duration(raw.as_str()).is_none() {
            let shown = debug_of(raw.as_str());
            return Some(bad_duration_message(path, key, "threshold", shown.as_str()));
        }
    }
    if let Some(EscalateAfter::Duration(raw)) = &c.escalate_after {
        if parse_duration(raw.as_str()).is_none() {
            let shown = debug_of(raw.as_str());
            return Some(bad_duration_message(path, key, "escalate_after", shown.as_str()));
        }
    }
    None
}

fn check_durations(path: &str, reactions: &KeyedMap<ReactionConfig>) -> (r: Option<String>)
    ensures
        said(r) == durations_fault(path@, reactions.key_order(), reactions@),
{
    let keys = reactions.keys();
    let ghost order = texts(keys@);
    assert(order.take(0) =~= Seq::empty());
    for i in 0..keys.len()
        invariant
            order == texts(keys@),
            order == reactions.key_order(),
            order.to_set() == reactions@.dom(),
            durations_fault(path@, order.take(i as int), reactions@) is None,
    {
        let ghost upto = order.take(i + 1);
        assert(upto.drop_last() =~= order.take(i as int));
        assert(upto.last() == keys@[i as int]@);
        assert(order[i as int] == keys@[i as int]@);
        assert(order.to_set().contains(keys@[i as int]@));
        if let Some(c) = reactions.get(keys[i].as_str()) {
            let fault = check_duration(path, keys[i].as_str(), c);
            if fault.is_some() {
                proof {
                    lemma_durations_fault(path@, order, reactions@, i + 1);
                }
                return fault;
            }
        }
    }
    assert(order.take(order.len() as int) =~= order);
    None
}

proof fn lemma_durations_fault(
    path: Seq<char>,
    keys: Seq<Seq<char>>,
    reactions: Map<Seq<char>, ReactionConfig>,
    i: int,
)
    requires
        0 <= i <= keys.len(),
        durations_fault(path, keys.take(i), reactions) is Some,
    ensures
        durations_fault(path, keys, reactions) == durations_fault(path, keys.take(i), reactions),
    decreases keys.len() - i,
{
    if i == keys.len() {
        assert(keys.take(i) =~= keys);
    } else {
        assert(keys.take(i + 1).drop_last() =~= keys.take(i));
        lemma_durations_fault(path, keys, reactions, i + 1);
    }
}

fn check_names(path: &str, place: &str, names: &Vec<String>) -> (r: Option<String>)
    ensures
        said(r) == names_fault(path@, place@, texts(names@)),
{
    let supported = supported_notifier_names();
    let ghost all = texts(names@);
    assert(all.take(0) =~= Seq::empty());
    for i in 0..names.len()
        invariant
            all == texts(names@),
            texts(supported@) == notifier_names(),
            names_fault(path@, place@, all.take(i as int)) is None,
    {
        let ghost upto = all.take(i + 1);
        assert(upto.drop_last() =~= all.take(i as int));
        assert(upto.last() == names@[i as int]@);
        if !is_listed(&supported, names[i].as_str()) {
            proof {
                lemma_names_fault(path@, place@, all, i + 1);
            }
            let shown = debug_of(names[i].as_str());
            return Some(unknown_notifier_message(path, place, shown.as_str()));
        }
    }
    assert(all.take(all.len() as int) =~= all);
    None
}

proof fn lemma_names_fault(path: Seq<char>, place: Seq<char>, names: Seq<Seq<char>>, i: int)
    requires
        0 <= i <= names.len(),
        names_fault(path, place, names.take(i)) is Some,
    ensures
        names_fault(path, place, names) == names_fault(path, place, names.take(i)),
    decreases names.len() - i,
{
    if i == names.len() {
        assert(names.take(i) =~= names);
    } else {
        assert(names.take(i + 1).drop_last() =~= names.take(i));
        lemma_names_fault(path, place, names, i + 1);
    }
}

fn check_route(path: &str, routing: &NotificationRouting, p: EventPriority) -> (r: Option<String>)
    ensures
        said(r) == route_fault(path@, *routing, p),
{
    match routing.names_for(p) {
        Some(names) => {
            let mut place: String = "notification_routing.".to_string();
            place.append(p.as_str());
            place.append("[]");
            check_names(path, place.as_str(), names)
        },
        None => None,
    }
}

fn check_routing(path: &str, routing: &NotificationRouting) -> (r: Option<String>)
    ensures
        said(r) == routing_fault(path@, *routing),
{
    let fault = check_route(path, routing, EventPriority::Urgent);
    if fault.is_some() {
        return fault;
    }
    let fault = check_route(path, routing, EventPriority::Action);
    if fault.is_some() {
        return fault;
    }
    let fault = check_route(path, routing, EventPriority::Warning);
    if fault.is_some() {
        return fault;
    }
    check_route(path, routing, EventPriority::Info)
}

/// Whether a text is `owner/repo`.
pub fn is_repo_slug(s: &str) -> (r: bool)
    ensures
        r == is_slug(s@),
{
    let v = chars_of(s);
    let mut at: Option<usize> = None;
    for i in 0..v.len()
        invariant
            v@ == s@,
            match at {
                Some(k) => k < i && v@[k as int] == '/' && forall|j: int|
                    0 <= j < i && j != k ==> v@[j] != '/',
                None => forall|j: int| 0 <= j < i ==> v@[j] != '/',
            },
    {
        if v[i] == '/' {
            if at.is_some() {
                assert(!is_slug(s@)) by {
                    if is_slug(s@) {
                        let k = choose|k: int| slug_at(s@, k);
                        assert(s@[at->0 as int] == '/');
                        assert(s@[i as int] == '/');
                    }
                }
                return false;
            }
            at = Some(i);
        }
    }
    match at {
        None => {
            assert(!is_slug(s@));
            false
        },
        Some(k) => {
            let owner = trimmed(s.substring_char(0, k));
            let repo = trimmed(s.substring_char(k + 1, v.len()));
            assert(s@.subrange(0, k as int) =~= s@.take(k as int));
            assert(s@.subrange(k + 1, s@.len() as int) =~= s@.skip(k + 1));
            let ok = !owner.as_str().is_empty() && !repo.as_str().is_empty();
            proof {
                if ok {
                    assert(slug_at(s@, k as int));
                } else if is_slug(s@) {
                    let j = choose|j: int| slug_at(s@, j);
                    assert(s@[k as int] == '/');
                    assert(j == k);
                }
            }
            ok
        },
    }
}

/// What is wrong with a project in the given repository and directory.
pub fn find_project_fault(repo: &str, dir: &str) -> (r: Option<ProjectFault>)
    ensures
        r == fault_of(repo@, dir@),
{
    if !is_repo_slug(repo) {
        return Some(ProjectFault::Slug);
    }
    let p = trimmed(dir);
    if p.as_str().is_empty() {
        return Some(ProjectFault::NoPath);
    }
    let first: char = p.as_str().get_char(0);
    if first == '~' {
        Some(ProjectFault::HomePath)
    } else if first != '/' {
        Some(ProjectFault::RelativePath)
    } else {
        None
    }
}

fn check_project(path: &str, id: &str, p: &ProjectConfig) -> (r: Option<String>)
    ensures
        said(r) == project_fault(path@, id@, *p),
{
    match find_project_fault(p.repo.as_str(), p.path.as_str()) {
        None => None,
        Some(fault) => {
            let shown = if fault == ProjectFault::Slug {
                debug_of(p.repo.as_str())
            } else {
                debug_of(p.path.as_str())
            };
            Some(bad_project_message(path, id, fault, shown.as_str()))
        },
    }
}

fn check_projects(path: &str, projects: &KeyedMap<ProjectConfig>) -> (r: Option<String>)
    ensures
        said(r) == projects_fault(path@, projects.key_order(), projects@),
{
    let ids = projects.keys();
    let ghost order = texts(ids@);
    assert(order.take(0) =~= Seq::empty());
    for i in 0..ids.len()
        invariant
            order == texts(ids@),
            order == projects.key_order(),
            order.to_set() == projects@.dom(),
            projects_fault(path@, order.take(i as int), projects@) is None,
    {
        let ghost upto = order.take(i + 1);
        assert(upto.drop_last() =~= order.take(i as int));
        assert(upto.last() == ids@[i as int]@);
        assert(order[i as int] == ids@[i as int]@);
        assert(order.to_set().contains(ids@[i as int]@));
        if let Some(p) = projects.get(ids[i].as_str()) {
            let fault = check_project(path, ids[i].as_str(), p);
            if fault.is_some() {
                proof {
                    lemma_projects_fault(path@, order, projects@, i + 1);
                }
                return fault;
            }
        }
    }
    assert(order.take(order.len() as int) =~= order);
    None
}

proof fn lemma_projects_fault(
    path: Seq<char>,
    ids: Seq<Seq<char>>,
    projects: Map<Seq<char>, ProjectConfig>,
    i: int,
)
    requires
        0 <= i <= ids.len(),
        projects_fault(path, ids.take(i), projects) is Some,
    ensures
        projects_fault(path, ids, projects) == projects_fault(path, ids.take(i), projects),
    decreases ids.len() - i,
{
    if i == ids.len() {
        assert(ids.take(i) =~= ids);
    } else {
        assert(ids.take(i + 1).drop_last() =~= ids.take(i));
        lemma_projects_fault(path, ids, projects, i + 1);
    }
}

impl AoConfig {
    /// The first thing that is wrong with the configuration, in words.
    pub fn find_fault(&self, config_path: &str) -> (r: Option<String>)
        ensures
            said(r) == fault(*self, config_path@),
    {
        let found = check_keys(config_path, &self.reactions);
        if found.is_some() {
            return found;
        }
        let found = check_durations(config_path, &self.reactions);
        if found.is_some() {
            return found;
        }
        if let Some(defaults) = &self.defaults {
            let found = check_names(config_path, "defaults.notifiers", &defaults.notifiers);
            if found.is_some() {
                return found;
            }
        }
        let found = check_routing(config_path, &self.notification_routing);
        if found.is_some() {
            return found;
        }
        let found = check_projects(config_path, &self.projects);
        if found.is_some() {
            return found;
        }
        match validate_project_uniqueness(&self.projects) {
            Some(reason) => {
                let mut out: String = config_path.to_string();
                out.append(": ");
                out.append(reason.as_str());
                Some(out)
            },
            None => None,
        }
    }

    /// Checks that the configuration makes sense, where it comes from the file at
    /// `config_path`.
    pub fn validate(&self, config_path: &str) -> (r: Result<(), AoError>)
        ensures
            match r {
                Ok(_) => fault(*self, config_path@) is None,
                Err(AoError::Config(e)) => fault(*self, config_path@) == Some(e@),
                Err(_) => false,
            },
    {
        match self.find_fault(config_path) {
            None => Ok(()),
            Some(e) => Err(AoError::Config(e)),
        }
    }

    /// The configuration that a file holds, with a warning for each field that there is no
    /// use for. One that does not make sense is an error.
    pub fn load_from_with_warnings(file: ConfigFile, path: &str) -> (r: Result<
        LoadedConfig,
        AoError,
    >)
        ensures
            loads(file, path@, r),
    {
        match file {
            ConfigFile::Missing(e) => Err(AoError::Io(e)),
            ConfigFile::Unreadable(e) => Err(AoError::Io(e)),
            ConfigFile::Malformed(e) => Err(AoError::Yaml(e)),
            ConfigFile::Parsed { config, unknown } => {
                let mut warnings: Vec<ConfigWarning> = Vec::new();
                for i in 0..unknown.len()
                    invariant
                        warnings@.len() == i,
                        forall|j: int|
                            0 <= j < i ==> unknown_field(#[trigger] warnings@[j], unknown@[j]@),
                {
                    warnings.push(unknown_field_warning(unknown[i].as_str()));
                }
                match config.validate(path) {
                    Err(e) => Err(e),
                    Ok(_) => Ok(LoadedConfig { config, warnings }),
                }
            },
        }
    }

    /// The configuration that a file holds, with warnings; without a file, one that says
    /// nothing.
    pub fn load_from_or_default_with_warnings(
        file: ConfigFile,
        path: &str,
    ) -> (r: Result<LoadedConfig, AoError>)
        ensures
            match file {
                ConfigFile::Missing(_) => r matches Ok(l) && blank(l.config) && l.warnings@.len()
                    == 0,
                _ => loads(file, path@, r),
            },
    {
        match file {
            ConfigFile::Missing(_) => Ok(
                LoadedConfig { config: AoConfig::default(), warnings: Vec::new() },
            ),
            other => AoConfig::load_from_with_warnings(other, path),
        }
    }
}

/// What comes of loading a file with warnings.
pub open spec fn loads(
    file: ConfigFile,
    path: Seq<char>,
    r: Result<LoadedConfig, AoError>,
) -> bool {
    match file {
        ConfigFile::Missing(e) => r matches Err(AoError::Io(s)) && s == e,
        ConfigFile::Unreadable(e) => r matches Err(AoError::Io(s)) && s == e,
        ConfigFile::Malformed(e) => r matches Err(AoError::Yaml(s)) && s == e,
        ConfigFile::Parsed { config, unknown } => match r {
            Ok(l) => {
                &&& fault(config, path) is None
                &&& l.config == config
                &&& l.warnings@.len() == unknown@.len()
                &&& forall|i: int|
                    0 <= i < unknown@.len() ==> unknown_field(
                        #[trigger] l.warnings@[i],
                        unknown@[i]@,
                    )
            },
            Err(AoError::Config(e)) => fault(config, path) == Some(e@),
            Err(_) => false,
        },
    }
}

/// A configuration that says nothing makes sense.
pub proof fn law_blank_config_is_valid(c: AoConfig, path: Seq<char>)
    requires
        blank(c),
    ensures
        fault(c, path) is None,
{
    law_projects_get_along(c.projects.key_order(), c.projects@);
}

proof fn lemma_default_durations()
    ensures
        readable("10m"@),
        readable("15m"@),
        readable("30m"@),
{
    reveal_strlit("10m");
    reveal_strlit("15m");
    reveal_strlit("30m");
    reveal_with_fuel(number, 3);
    assert("10m"@.drop_last() =~= seq!['1', '0']);
    assert("15m"@.drop_last() =~= seq!['1', '5']);
    assert("30m"@.drop_last() =~= seq!['3', '0']);
    assert(seq!['1', '0'].drop_last() =~= seq!['1']);
    assert(seq!['1', '5'].drop_last() =~= seq!['1']);
    assert(seq!['3', '0'].drop_last() =~= seq!['3']);
    assert(seq!['1'].drop_last() =~= Seq::empty());
    assert(seq!['3'].drop_last() =~= Seq::empty());
}

proof fn lemma_default_keys(path: Seq<char>, keys: Seq<Seq<char>>)
    requires
        forall|i: int| 0 <= i < keys.len() ==> reaction_keys().contains(#[trigger] keys[i]),
    ensures
        keys_fault(path, keys) is None,
    decreases keys.len(),
{
    if keys.len() > 0 {
        assert(reaction_keys().contains(keys[keys.len() - 1]));
        assert forall|i: int| 0 <= i < keys.drop_last().len() implies reaction_keys().contains(
            #[trigger] keys.drop_last()[i],
        ) by {
            assert(keys[i] == keys.drop_last()[i]);
        }
        lemma_default_keys(path, keys.drop_last());
    }
}

proof fn lemma_readable_durations(
    path: Seq<char>,
    keys: Seq<Seq<char>>,
    reactions: Map<Seq<char>, ReactionConfig>,
)
    requires
        forall|i: int|
            0 <= i < keys.len() ==> Some(reactions[#[trigger] keys[i]]@) == default_reaction(
                keys[i],
            ),
    ensures
        durations_fault(path, keys, reactions) is None,
    decreases keys.len(),
{
    if keys.len() > 0 {
        lemma_default_durations();
        let k = keys.last();
        assert(k == keys[keys.len() - 1]);
        let v = reactions[k]@;
        assert(v.threshold is None || v.threshold == Some("10m"@));
        assert(duration_fault(path, k, reactions[k]) is None);
        assert forall|i: int| 0 <= i < keys.drop_last().len() implies Some(
            reactions[#[trigger] keys.drop_last()[i]]@,
        ) == default_reaction(keys.drop_last()[i]) by {
            assert(keys[i] == keys.drop_last()[i]);
        }
        lemma_readable_durations(path, keys.drop_last(), reactions);
    }
}

/// The configuration that is written for a project that was found makes sense, if the project
/// is in a repository that is named `owner/repo` and at an absolute path.
pub proof fn law_generated_config_is_valid(
    c: AoConfig,
    repo: Seq<char>,
    name: Seq<char>,
    branch: Seq<char>,
    dir: Seq<char>,
    agent: Seq<char>,
    path: Seq<char>,
)
    requires
        fresh(c, repo, name, branch, dir, agent),
        is_slug(repo),
        dir.len() > 0,
        dir[0] == '/',
    ensures
        fault(c, path) is None,
{
    let keys = c.reactions.key_order();
    assert forall|i: int| 0 <= i < keys.len() implies Some(
        c.reactions@[#[trigger] keys[i]]@,
    ) == default_reaction(keys[i]) by {
        assert(default_reaction(keys[i]) is Some);
        assert(c.reactions@.dom().contains(keys[i]));
    }
    lemma_default_keys(path, keys);
    lemma_readable_durations(path, keys, c.reactions@);
    assert(notifier_names()[0] == "stdout"@);
    assert(notifier_names().contains("stdout"@));
    assert forall|place: Seq<char>| #[trigger] names_fault(path, place, seq!["stdout"@]) is None by {
        assert(seq!["stdout"@].drop_last() =~= Seq::empty());
        assert(names_fault(path, place, Seq::empty()) is None);
        assert(seq!["stdout"@].last() == "stdout"@);
    }
    assert forall|p: EventPriority| #[trigger]
        route_fault(path, c.notification_routing, p) is None by {
        assert(c.notification_routing.names(p) is Some);
    }
    assert(trim(dir)[0] == '/' && trim(dir).len() > 0) by {
        lemma_trim_keeps_front(dir);
    }
    assert(seq![name].drop_last() =~= Seq::empty());
    assert(projects_fault(path, Seq::empty(), c.projects@) is None);
    assert(seq![name].last() == name);
    assert(projects_fault(path, seq![name], c.projects@) is None);
    law_projects_get_along(seq![name], c.projects@);
    assert(basenames(seq![name], c.projects@).no_duplicates());
    assert(prefixes(Seq::empty(), c.projects@) =~= Seq::empty());
    assert(prefixes(seq![name], c.projects@).no_duplicates());
}

proof fn lemma_trim_keeps_front(s: Seq<char>)
    requires
        s.len() > 0,
        !white_space(s[0]),
    ensures
        trim(s).len() > 0,
        trim(s)[0] == s[0],
{
    assert(trim_start(s) == s);
    lemma_trim_end_keeps_front(s);
}

proof fn lemma_trim_end_keeps_front(s: Seq<char>)
    requires
        s.len() > 0,
        !white_space(s[0]),
    ensures
        trim_end(s).len() > 0,
        trim_end(s)[0] == s[0],
    decreases s.len(),
{
    if white_space(s.last()) {
        assert(s.len() > 1);
        lemma_trim_end_keeps_front(s.drop_last());
    }
}

} // verus!
