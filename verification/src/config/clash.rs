//! Projects that get in each other's way.

use vstd::prelude::*;
use vstd::string::*;

use crate::config::project::{after_last, last_part, ProjectConfig};
use crate::keyed::KeyedMap;
use crate::text::{chars_of, opt_text, same_text, texts};

verus! {

/// A path without the slashes at its end.
pub open spec fn without_slashes(s: Seq<char>) -> Seq<char>
    decreases s.len(),
{
    if s.len() > 0 && s.last() == '/' {
        without_slashes(s.drop_last())
    } else {
        s
    }
}

/// The last part of a path.
pub open spec fn basename(path: Seq<char>) -> Seq<char> {
    after_last(without_slashes(path), '/')
}

/// The last part of a path.
fn basename_of(path: &str) -> (r: String)
    ensures
        r@ == basename(path@),
{
    let v = chars_of(path);
    let mut n: usize = v.len();
    assert(v@.take(n as int) =~= v@);
    while n > 0 && v[n - 1] == '/'
        invariant
            n <= v.len(),
            v@ == path@,
            without_slashes(path@) == without_slashes(v@.take(n as int)),
        decreases n,
    {
        assert(v@.take(n as int).drop_last() =~= v@.take(n - 1));
        n -= 1;
    }
    assert(v@.take(n as int) =~= path@.subrange(0, n as int));
    last_part(path.substring_char(0, n))
}

/// The last parts of the paths of all projects.
pub open spec fn basenames(ids: Seq<Seq<char>>, projects: Map<Seq<char>, ProjectConfig>) -> Seq<
    Seq<char>,
> {
    ids.map_values(|id: Seq<char>| basename(projects[id].path@))
}

/// The session prefixes of all projects that name one.
pub open spec fn prefixes(ids: Seq<Seq<char>>, projects: Map<Seq<char>, ProjectConfig>) -> Seq<
    Seq<char>,
>
    decreases ids.len(),
{
    if ids.len() == 0 {
        Seq::empty()
    } else {
        let before = prefixes(ids.drop_last(), projects);
        match projects[ids.last()].session_prefix {
            Some(p) => before.push(p@),
            None => before,
        }
    }
}

/// The first text that has stood in the list before.
pub open spec fn first_repeat(s: Seq<Seq<char>>) -> Option<Seq<char>>
    decreases s.len(),
{
    if s.len() == 0 {
        None
    } else {
        match first_repeat(s.drop_last()) {
            Some(x) => Some(x),
            None => if s.drop_last().contains(s.last()) {
                Some(s.last())
            } else {
                None
            },
        }
    }
}

/// Why two projects get in each other's way: their paths end alike, or they use the same
/// session prefix.
pub open spec fn clash(ids: Seq<Seq<char>>, projects: Map<Seq<char>, ProjectConfig>) -> Option<
    Seq<char>,
> {
    match first_repeat(basenames(ids, projects)) {
        Some(name) => Some("Duplicate project ID: "@ + name),
        None => match first_repeat(prefixes(ids, projects)) {
            Some(prefix) => Some("Duplicate session prefix: "@ + prefix),
            None => None,
        },
    }
}

proof fn lemma_repeat_stays(s: Seq<Seq<char>>, i: int)
    requires
        0 <= i <= s.len(),
        first_repeat(s.take(i)) is Some,
    ensures
        first_repeat(s) == first_repeat(s.take(i)),
    decreases s.len() - i,
{
    if i == s.len() {
        assert(s.take(i) =~= s);
    } else {
        assert(s.take(i + 1).drop_last() =~= s.take(i));
        lemma_repeat_stays(s, i + 1);
    }
}

/// The first text that has stood in the list before.
fn find_repeat(v: &Vec<String>) -> (r: Option<String>)
    ensures
        opt_text(r) == first_repeat(texts(v@)),
{
    let ghost all = texts(v@);
    assert(all.take(0) =~= Seq::empty());
    for i in 0..v.len()
        invariant
            all == texts(v@),
            first_repeat(all.take(i as int)) is None,
    {
        let ghost upto = all.take(i + 1);
        assert(upto.drop_last() =~= all.take(i as int));
        assert(upto.last() == v@[i as int]@);
        for j in 0..i
            invariant
                i < v.len(),
                all == texts(v@),
                upto == all.take(i + 1),
                upto.drop_last() == all.take(i as int),
                upto.last() == v@[i as int]@,
                first_repeat(all.take(i as int)) is None,
                forall|k: int| 0 <= k < j ==> #[trigger] all[k] != v@[i as int]@,
        {
            if same_text(v[j].as_str(), v[i].as_str()) {
                proof {
                    assert(upto.drop_last()[j as int] == v@[j as int]@);
                    lemma_repeat_stays(all, i + 1);
                }
                return Some(v[i].clone());
            }
            assert(all[j as int] == v@[j as int]@);
        }
        assert(!upto.drop_last().contains(upto.last())) by {
            if upto.drop_last().contains(upto.last()) {
                let k = choose|k: int|
                    0 <= k < i && #[trigger] upto.drop_last()[k] == upto.last();
                assert(all[k] == upto.drop_last()[k]);
            }
        }
    }
    assert(all.take(all.len() as int) =~= all);
    None
}

/// Why two projects get in each other's way, if they do.
pub fn validate_project_uniqueness(projects: &KeyedMap<ProjectConfig>) -> (r: Option<String>)
    ensures
        opt_text(r) == clash(projects.key_order(), projects@),
{
    let ids = projects.keys();
    let ghost order = texts(ids@);
    let mut names: Vec<String> = Vec::new();
    let mut given: Vec<String> = Vec::new();
    assert(order.take(0) =~= Seq::empty());
    assert(texts(names@) =~= basenames(order.take(0), projects@));
    assert(texts(given@) =~= prefixes(order.take(0), projects@));
    for i in 0..ids.len()
        invariant
            order == texts(ids@),
            order == projects.key_order(),
            order.to_set() == projects@.dom(),
            texts(names@) == basenames(order.take(i as int), projects@),
            texts(given@) == prefixes(order.take(i as int), projects@),
    {
        let ghost upto = order.take(i + 1);
        assert(upto.drop_last() =~= order.take(i as int));
        assert(upto.last() == ids@[i as int]@);
        assert(order[i as int] == ids@[i as int]@);
        assert(order.to_set().contains(ids@[i as int]@));
        if let Some(p) = projects.get(ids[i].as_str()) {
            let ghost had = names@;
            names.push(basename_of(p.path.as_str()));
            assert(texts(names@) =~= texts(had).push(basename(p.path@)));
            assert(basenames(upto, projects@) =~= basenames(upto.drop_last(), projects@).push(
                basename(p.path@),
            ));
            if let Some(prefix) = &p.session_prefix {
                let ghost had = given@;
                given.push(prefix.clone());
                assert(texts(given@) =~= texts(had).push(prefix@));
            }
        }
    }
    assert(order.take(order.len() as int) =~= order);
    match find_repeat(&names) {
        Some(name) => Some("Duplicate project ID: ".to_string().concat(name.as_str())),
        None => match find_repeat(&given) {
            Some(prefix) => Some(
                "Duplicate session prefix: ".to_string().concat(prefix.as_str()),
            ),
            None => None,
        },
    }
}

proof fn lemma_repeats(s: Seq<Seq<char>>)
    ensures
        first_repeat(s) is None <==> s.no_duplicates(),
    decreases s.len(),
{
    if s.len() > 0 {
        let front = s.drop_last();
        lemma_repeats(front);
        if s.no_duplicates() {
            assert(front.no_duplicates());
            if front.contains(s.last()) {
                let k = choose|k: int| 0 <= k < front.len() && #[trigger] front[k] == s.last();
                assert(s[k] == s[s.len() - 1]);
            }
        } else {
            let (i, j) = choose|i: int, j: int|
                0 <= i < j < s.len() && #[trigger] s[i] == #[trigger] s[j];
            assert(front[i] == s[i]);
            if j < s.len() - 1 {
                assert(front[i] == front[j]);
            } else {
                assert(front.contains(s.last()));
            }
        }
    }
}

/// Projects get along if and only if no two of them have paths that end alike, and no two use
/// the same session prefix.
pub proof fn law_projects_get_along(
    ids: Seq<Seq<char>>,
    projects: Map<Seq<char>, ProjectConfig>,
)
    ensures
        clash(ids, projects) is None <==> basenames(ids, projects).no_duplicates() && prefixes(
            ids,
            projects,
        ).no_duplicates(),
{
    lemma_repeats(basenames(ids, projects));
    lemma_repeats(prefixes(ids, projects));
}

/// A directory is known by its last name, whatever it is in, and whether or not slashes follow it.
pub proof fn law_directories_are_known_by_their_last_name(dir: Seq<char>, name: Seq<char>)
    requires
        name.len() > 0,
        !name.contains('/'),
    ensures
        basename(dir + "/"@ + name) == name,
        basename(dir + "/"@ + name + "/"@) == name,
        basename(name) == name,
{
    reveal_strlit("/");
    let s = dir + "/"@ + name;
    assert(name.contains(name.last()));
    assert(s.last() == name.last());
    assert((s + "/"@).last() == '/');
    assert((s + "/"@).drop_last() =~= s);
    assert(without_slashes(s) == s);
    assert(without_slashes(s + "/"@) == s);
    lemma_after_last(dir, name);
    crate::config::project::lemma_not_before(name, '/');
}

proof fn lemma_after_last(dir: Seq<char>, name: Seq<char>)
    requires
        !name.contains('/'),
    ensures
        after_last(dir + "/"@ + name, '/') == name,
    decreases dir.len(),
{
    reveal_strlit("/");
    let s = dir + "/"@ + name;
    let n = crate::config::project::before(s, '/');
    crate::config::project::lemma_not_before(name, '/');
    if dir.contains('/') {
        let k = choose|k: int| 0 <= k < dir.len() && dir[k] == '/';
        lemma_before_stops(s, k);
        let rest = dir.skip(n as int + 1);
        assert(s.skip(n as int + 1) =~= rest + "/"@ + name);
        lemma_after_last(rest, name);
        assert(after_last(s, '/') == after_last(s.skip(n as int + 1), '/'));
    } else {
        crate::config::project::lemma_before(dir, '/', name);
        assert(dir.push('/') + name =~= s);
        assert(n == dir.len());
        assert(s.skip(n as int + 1) =~= name);
        assert(after_last(name, '/') == name);
        assert(after_last(s, '/') == after_last(s.skip(n as int + 1), '/'));
    }
}

proof fn lemma_before_stops(s: Seq<char>, k: int)
    requires
        0 <= k < s.len(),
        s[k] == '/',
    ensures
        crate::config::project::before(s, '/') <= k,
    decreases s.len(),
{
    if s[0] != '/' {
        assert(s.skip(1)[k - 1] == s[k]);
        lemma_before_stops(s.skip(1), k - 1);
    }
}

} // verus!
