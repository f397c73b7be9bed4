use git_cascade::decode::{Decode, DecodeError, ValueKind};
use git_cascade::document::{Document, Entry};
use git_cascade::env::{parse_count, EnvEntry, EnvOverrides};
use git_cascade::trust::{SectionName, SectionTrust, TrustAll, TrustFilter};

fn pair(key: &str, value: &str) -> EnvEntry {
    EnvEntry { key: Some(key.as_bytes().to_vec()), value: Some(value.as_bytes().to_vec()) }
}

fn entry(section: &str, subsection: Option<&str>, key: &str, value: &str) -> Entry {
    Entry {
        section: section.as_bytes().to_vec(),
        subsection: subsection.map(|s| s.as_bytes().to_vec()),
        key: key.as_bytes().to_vec(),
        value: value.as_bytes().to_vec(),
    }
}

#[test]
fn a_new_document_declares_nothing() {
    let doc = Document::new();
    assert!(doc.entries.is_empty());
    assert_eq!(doc.value("core", None, "bare"), None);
    assert_eq!(doc.values("core", None, "bare"), Vec::<Vec<u8>>::new());
}

#[test]
fn push_appends_an_entry() {
    let mut doc = Document::new();
    doc.push("remote", Some("origin"), "url", b"https://example.com/a");
    doc.push("core", None, "bare", b"true");
    assert_eq!(
        doc.entries,
        vec![
            entry("remote", Some("origin"), "url", "https://example.com/a"),
            entry("core", None, "bare", "true"),
        ]
    );
}

#[test]
fn values_come_in_declared_order_and_the_last_one_wins() {
    let mut doc = Document::new();
    doc.push("remote", Some("origin"), "fetch", b"one");
    doc.push("remote", Some("other"), "fetch", b"elsewhere");
    doc.push("remote", Some("origin"), "fetch", b"two");
    doc.push("remote", None, "fetch", b"no subsection");
    doc.push("remote", Some("origin"), "push", b"three");
    assert_eq!(
        doc.values("remote", Some("origin"), "fetch"),
        vec![b"one".to_vec(), b"two".to_vec()]
    );
    assert_eq!(doc.value("remote", Some("origin"), "fetch"), Some(b"two".to_vec()));
    assert_eq!(doc.value("remote", None, "fetch"), Some(b"no subsection".to_vec()));
    assert_eq!(doc.value("remote", Some("origin"), "url"), None);
    assert_eq!(doc.value("Remote", Some("origin"), "fetch"), None);
    assert_eq!(
        doc.values_bytes(b"remote", Some(b"other"), b"fetch"),
        vec![b"elsewhere".to_vec()]
    );
    assert_eq!(doc.value_bytes(b"remote", Some(b"origin"), b"push"), Some(b"three".to_vec()));
}

#[test]
fn entries_match_on_all_three_names() {
    let e = entry("remote", Some("origin"), "url", "x");
    assert!(e.matches(b"remote", Some(b"origin"), b"url"));
    assert!(!e.matches(b"remote", None, b"url"));
    assert!(!e.matches(b"remote", Some(b"origin"), b"pushUrl"));
    assert!(!e.matches(b"remotes", Some(b"origin"), b"url"));
    assert!(entry("core", None, "bare", "x").matches(b"core", None, b"bare"));
    assert!(!entry("core", None, "bare", "x").matches(b"core", Some(b""), b"bare"));
}

#[test]
fn parse_count_reads_decimal_digits_only() {
    assert_eq!(parse_count(b"0"), Some(0));
    assert_eq!(parse_count(b"7"), Some(7));
    assert_eq!(parse_count(b"0012"), Some(12));
    assert_eq!(parse_count(b"1234567890"), Some(1234567890));
    assert_eq!(parse_count(b""), None);
    assert_eq!(parse_count(b"+1"), None);
    assert_eq!(parse_count(b"-1"), None);
    assert_eq!(parse_count(b"1 "), None);
    assert_eq!(parse_count(b"12a"), None);
}

#[test]
fn parse_count_stops_at_the_range_of_usize() {
    let max = usize::MAX.to_string();
    assert_eq!(parse_count(max.as_bytes()), Some(usize::MAX));
    let mut beyond = max.clone().into_bytes();
    let last = beyond.len() - 1;
    beyond[last] += 1;
    assert_eq!(parse_count(&beyond), None);
    assert_eq!(parse_count(format!("{}0", max).as_bytes()), None);
    assert_eq!(parse_count(b"99999999999999999999999999999999"), None);
}

#[test]
fn the_environment_declares_a_document() {
    let env = EnvOverrides {
        count: Some(b"3".to_vec()),
        entries: vec![
            pair("core.bare", "true"),
            pair("remote.origin.url", "https://example.com/a"),
            pair("url.https://example.com/.insteadOf", "ex:"),
            pair("ignored.key", "beyond the count"),
        ],
    };
    let doc = Document::from_env(&env).expect("a document");
    assert_eq!(
        doc.entries,
        vec![
            entry("core", None, "bare", "true"),
            entry("remote", Some("origin"), "url", "https://example.com/a"),
            entry("url", Some("https://example.com/"), "insteadOf", "ex:"),
        ]
    );
}

#[test]
fn the_environment_declares_nothing_without_a_usable_count() {
    let entries = vec![pair("core.bare", "true")];
    let none = EnvOverrides { count: None, entries: entries.clone() };
    assert_eq!(Document::from_env(&none), None);
    let zero = EnvOverrides { count: Some(b"0".to_vec()), entries: entries.clone() };
    assert_eq!(Document::from_env(&zero), None);
    let garbage = EnvOverrides { count: Some(b"one".to_vec()), entries: entries.clone() };
    assert_eq!(Document::from_env(&garbage), None);
    let too_many = EnvOverrides { count: Some(b"2".to_vec()), entries };
    assert_eq!(Document::from_env(&too_many), None);
}

#[test]
fn the_environment_declares_nothing_if_a_pair_is_missing_or_malformed() {
    let with = |e: EnvEntry| EnvOverrides {
        count: Some(b"2".to_vec()),
        entries: vec![pair("core.bare", "true"), e],
    };
    assert!(Document::from_env(&with(pair("a.b", "c"))).is_some());
    assert_eq!(Document::from_env(&with(EnvEntry { key: None, value: Some(b"v".to_vec()) })), None);
    assert_eq!(Document::from_env(&with(EnvEntry { key: Some(b"a.b".to_vec()), value: None })), None);
    assert_eq!(Document::from_env(&with(pair("nodot", "v"))), None);
    assert_eq!(Document::from_env(&with(pair(".key", "v"))), None);
    assert_eq!(Document::from_env(&with(pair("section.", "v"))), None);
    assert_eq!(Document::from_env(&with(pair("", "v"))), None);
    assert_eq!(Document::from_env(&with(pair(".", "v"))), None);
}

#[test]
fn an_empty_subsection_is_kept() {
    let env = EnvOverrides { count: Some(b"1".to_vec()), entries: vec![pair("a..b", "v")] };
    assert_eq!(Document::from_env(&env).expect("a document").entries, vec![entry("a", Some(""), "b", "v")]);
}

#[test]
fn bytes_decode_as_they_are() {
    assert_eq!(<Vec<u8> as Decode>::decode(b"anything \xff"), Ok(b"anything \xff".to_vec()));
    assert_eq!(<Vec<u8> as Decode>::decode(b""), Ok(Vec::new()));
}

#[test]
fn booleans_decode_from_their_words() {
    for word in ["true", "TRUE", "True", "yes", "Yes", "on", "ON", "1"] {
        assert_eq!(<bool as Decode>::decode(word.as_bytes()), Ok(true), "{}", word);
    }
    for word in ["false", "False", "no", "NO", "off", "Off", "0", ""] {
        assert_eq!(<bool as Decode>::decode(word.as_bytes()), Ok(false), "{}", word);
    }
}

#[test]
fn other_words_are_no_booleans() {
    for word in ["2", "tru", "truee", " true", "y", "n", "-1", "nope"] {
        assert_eq!(
            <bool as Decode>::decode(word.as_bytes()),
            Err(DecodeError { raw: word.as_bytes().to_vec(), target: ValueKind::Boolean }),
            "{}",
            word
        );
    }
}

#[test]
fn trust_all_trusts_every_section() {
    let mut all = TrustAll;
    assert!(all.is_trusted(b"remote", Some(b"origin")));
    assert!(all.is_trusted(b"core", None));
}

#[test]
fn section_trust_answers_by_its_exceptions() {
    let origin = SectionName { section: b"remote".to_vec(), subsection: Some(b"origin".to_vec()) };
    let core = SectionName { section: b"core".to_vec(), subsection: None };
    let mut all_but = SectionTrust::all_but(vec![origin.clone(), core.clone()]);
    assert!(!all_but.is_trusted(b"remote", Some(b"origin")));
    assert!(!all_but.is_trusted(b"core", None));
    assert!(all_but.is_trusted(b"remote", Some(b"upstream")));
    assert!(all_but.is_trusted(b"remote", None));
    assert!(all_but.is_trusted(b"core", Some(b"origin")));
    let mut only = SectionTrust::only(vec![origin, core]);
    assert!(only.is_trusted(b"remote", Some(b"origin")));
    assert!(only.is_trusted(b"core", None));
    assert!(!only.is_trusted(b"remote", Some(b"upstream")));
    assert!(!only.is_trusted(b"user", None));
    // Asking changes no answer.
    assert!(only.is_trusted(b"remote", Some(b"origin")));
    assert!(!only.is_trusted(b"user", None));
}
