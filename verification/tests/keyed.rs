use ao_core::keyed::KeyedMap;
use ao_core::lifecycle::fingerprint::{fingerprint_automated_comments, fingerprint_comments};
use ao_core::order::{sort_ranked, text_le};
use ao_core::scm::{AutomatedComment, AutomatedCommentSeverity, ReviewComment};
use ao_core::text::{decimal_text, first_chars, join, padded_text, trimmed};

#[test]
fn keys_keep_their_order() {
    let mut m: KeyedMap<u32> = KeyedMap::new();
    m.insert("b".into(), 1);
    m.insert("a".into(), 2);
    m.insert("b".into(), 3);
    assert_eq!(m.keys(), vec!["b", "a"]);
    assert_eq!(m.get("b"), Some(&3));
    assert_eq!(m.remove("b"), Some(3));
    assert_eq!(m.remove("b"), None);
    assert_eq!(m.keys(), vec!["a"]);
    assert_eq!(m.clone().len(), 1);
}

fn comment(author: &str, body: &str, url: &str) -> ReviewComment {
    ReviewComment {
        id: "1".into(),
        author: author.into(),
        body: body.into(),
        path: None,
        line: None,
        is_resolved: false,
        url: url.into(),
    }
}

fn bot(id: &str, name: &str, url: &str) -> AutomatedComment {
    AutomatedComment {
        id: id.into(),
        bot_name: name.into(),
        body: "b".into(),
        path: None,
        line: None,
        severity: AutomatedCommentSeverity::Info,
        url: url.into(),
    }
}

#[test]
fn fingerprints_ignore_order_and_see_everything_else() {
    let ab = fingerprint_comments(&vec![comment("a", "x", "u"), comment("b", "y", "v")]);
    let ba = fingerprint_comments(&vec![comment("b", "y", "v"), comment("a", "x", "u")]);
    assert_eq!(ab, ba);
    assert_ne!(ab, fingerprint_comments(&vec![comment("a", "x", "u")]));
    assert_ne!(
        fingerprint_comments(&vec![comment("ab", "c", "u")]),
        fingerprint_comments(&vec![comment("a", "bc", "u")])
    );
    assert_ne!(
        fingerprint_comments(&vec![comment("a", "x", "u")]),
        fingerprint_comments(&vec![comment("a", "x", "w")])
    );
    assert_ne!(fingerprint_comments(&vec![]), ab);
    let x = fingerprint_automated_comments(&vec![bot("1", "n", "u"), bot("2", "n", "u")]);
    let y = fingerprint_automated_comments(&vec![bot("2", "n", "u"), bot("1", "n", "u")]);
    assert_eq!(x, y);
    assert_ne!(x, fingerprint_automated_comments(&vec![bot("1", "n", "u")]));
}

#[test]
fn texts_are_sorted_by_their_characters() {
    let v: Vec<String> = vec!["b".into(), "".into(), "\u{e9}".into(), "ab".into(), "a".into()];
    assert_eq!(sort_ranked(v), vec!["", "a", "ab", "b", "\u{e9}"]);
    assert!(text_le("a", "a"));
    assert!(!text_le("b", "ab"));
}

#[test]
fn texts_are_written_out() {
    assert_eq!(decimal_text(0), "0");
    assert_eq!(decimal_text(u64::MAX), "18446744073709551615");
    assert_eq!(padded_text(7, 3), "007");
    assert_eq!(padded_text(1234, 3), "1234");
    assert_eq!(trimmed("\u{a0}\u{2003} x y \t"), "x y");
    assert_eq!(first_chars("\u{e9}t\u{e9}", 2), "\u{e9}t");
    assert_eq!(join(&vec!["a".into(), "b".into()], ", "), "a, b");
}

#[test]
fn what_is_taken_out_leaves_the_rest_in_order() {
    let mut m: KeyedMap<u8> = KeyedMap::new();
    for (k, v) in [("a", 1), ("b", 2), ("c", 3)] {
        m.insert(k.into(), v);
    }
    assert_eq!(m.remove("b"), Some(2));
    assert_eq!(m.keys(), vec!["a", "c"]);
    assert_eq!(m.remove("b"), None);
    m.insert("b".into(), 4);
    assert_eq!(m.keys(), vec!["a", "c", "b"]);
}
