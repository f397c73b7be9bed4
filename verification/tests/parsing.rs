use git_cascade::config::{ConfigBuilder, LoadError, Sources};
use git_cascade::decode::{Decode, DecodeError, ValueKind};
use git_cascade::document::{Document, Entry};
use git_cascade::env::EnvOverrides;
use git_cascade::parse::ParseError;
use git_cascade::remote::Repository;
use git_cascade::trust::{SectionName, SectionTrust, TrustAll};
use git_cascade::url::{RewriteRule, Url, UrlRewrite};

fn entry(section: &str, subsection: Option<&str>, key: &str, value: &str) -> Entry {
    Entry {
        section: section.as_bytes().to_vec(),
        subsection: subsection.map(|s| s.as_bytes().to_vec()),
        key: key.as_bytes().to_vec(),
        value: value.as_bytes().to_vec(),
    }
}

fn integer(text: &str) -> Result<i64, DecodeError> {
    <i64 as Decode>::decode(text.as_bytes())
}

fn no_integer(text: &str) -> Result<i64, DecodeError> {
    Err(DecodeError { raw: text.as_bytes().to_vec(), target: ValueKind::Integer })
}

#[test]
fn integers_decode_with_sign_and_unit() {
    assert_eq!(integer("0"), Ok(0));
    assert_eq!(integer("42"), Ok(42));
    assert_eq!(integer("+42"), Ok(42));
    assert_eq!(integer("-42"), Ok(-42));
    assert_eq!(integer("-0"), Ok(0));
    assert_eq!(integer("007"), Ok(7));
    assert_eq!(integer("1k"), Ok(1024));
    assert_eq!(integer("1K"), Ok(1024));
    assert_eq!(integer("3m"), Ok(3 * 1024 * 1024));
    assert_eq!(integer("3M"), Ok(3 * 1024 * 1024));
    assert_eq!(integer("2g"), Ok(2 * 1024 * 1024 * 1024));
    assert_eq!(integer("-2G"), Ok(-2 * 1024 * 1024 * 1024));
}

#[test]
fn integers_decode_up_to_the_limits_of_64_bits() {
    assert_eq!(integer("9223372036854775807"), Ok(i64::MAX));
    assert_eq!(integer("-9223372036854775808"), Ok(i64::MIN));
    assert_eq!(integer("9223372036854775808"), no_integer("9223372036854775808"));
    assert_eq!(integer("-9223372036854775809"), no_integer("-9223372036854775809"));
    assert_eq!(integer("8589934591g"), Ok(8589934591 * 1024 * 1024 * 1024));
    assert_eq!(integer("8589934592g"), no_integer("8589934592g"));
    assert_eq!(integer("-8589934592g"), Ok(i64::MIN));
    assert_eq!(integer("-8589934593g"), no_integer("-8589934593g"));
    assert_eq!(integer("9007199254740992k"), no_integer("9007199254740992k"));
    assert_eq!(
        integer("99999999999999999999999999999999999999"),
        no_integer("99999999999999999999999999999999999999")
    );
}

#[test]
fn other_text_is_no_integer() {
    for text in ["", "-", "+", "k", "-k", "1kb", "1 k", "0x10", "1.5", "one", "--1", "1-", " 1", "1t"] {
        assert_eq!(integer(text), no_integer(text), "{:?}", text);
    }
}

#[test]
fn text_decodes_from_utf8() {
    assert_eq!(<String as Decode>::decode(b"plain"), Ok("plain".to_string()));
    assert_eq!(<String as Decode>::decode("grüße, 世界".as_bytes()), Ok("grüße, 世界".to_string()));
    assert_eq!(<String as Decode>::decode(b""), Ok(String::new()));
    assert_eq!(
        <String as Decode>::decode(b"broken \xff"),
        Err(DecodeError { raw: b"broken \xff".to_vec(), target: ValueKind::Text })
    );
    assert_eq!(
        <String as Decode>::decode(b"\xc3"),
        Err(DecodeError { raw: b"\xc3".to_vec(), target: ValueKind::Text })
    );
}

#[test]
fn a_document_is_read_line_by_line() {
    let text = b"\
# a comment
[core]
\tbare = false
\teditor=vim -f
; another comment

[remote \"origin\"]
  url = https://example.com/a
  fetch = +refs/heads/*:refs/remotes/origin/*
  prune
[core]
bare =
";
    assert_eq!(
        Document::parse(text).map(|doc| doc.entries),
        Ok(vec![
            entry("core", None, "bare", "false"),
            entry("core", None, "editor", "vim -f"),
            entry("remote", Some("origin"), "url", "https://example.com/a"),
            entry("remote", Some("origin"), "fetch", "+refs/heads/*:refs/remotes/origin/*"),
            entry("remote", Some("origin"), "prune", ""),
            entry("core", None, "bare", ""),
        ])
    );
}

#[test]
fn blank_text_is_an_empty_document() {
    for text in ["", "\n", "\n\n  \n", "# only a comment", "  ; comment\r\n"] {
        assert_eq!(Document::parse(text.as_bytes()), Ok(Document::new()), "{:?}", text);
    }
}

#[test]
fn line_ends_and_blanks_are_trimmed() {
    let text = b"[a]\r\n  k  =  v w  \r\n[b \"c d\"]\r\nx = = y\r\nlast=end";
    assert_eq!(
        Document::parse(text).map(|doc| doc.entries),
        Ok(vec![
            entry("a", None, "k", "v w"),
            entry("b", Some("c d"), "x", "= y"),
            entry("b", Some("c d"), "last", "end"),
        ])
    );
}

#[test]
fn an_empty_subsection_is_read() {
    assert_eq!(
        Document::parse(b"[a \"\"]\nk=v").map(|doc| doc.entries),
        Ok(vec![entry("a", Some(""), "k", "v")])
    );
}

#[test]
fn lines_that_cannot_be_read_are_reported_by_number() {
    let bad = |text: &str, line: usize| {
        assert_eq!(Document::parse(text.as_bytes()), Err(ParseError { line }), "{:?}", text);
    };
    bad("key = before any section", 1);
    bad("# ok\n\nkey = value\n[a]", 3);
    bad("[a]\n= value", 2);
    bad("[a]\nk=v\n[", 3);
    bad("[]", 1);
    bad("[a b]", 1);
    bad("[a", 1);
    bad("[a] trailing", 1);
    bad("[a \"b]", 1);
    bad("[a\"b\"]", 1);
    bad("[ \"b\"]", 1);
    bad("[a  \"b\"]", 1);
    bad("[a \"b\"c\"]", 1);
    bad("[a \"b\\\\c\"]", 1);
    bad("[a \"b\" ]", 1);
    bad("[a]\n[b]\n[c d e]\nk=v", 3);
}

fn cascade(repository: &str, system: &str) -> git_cascade::config::Config {
    let found = Sources {
        system: Document::parse(system.as_bytes()).map_err(|_| LoadError::Parse("system".into())),
        global: Err(LoadError::NotFound),
        user: Err(LoadError::NotFound),
        repository: Document::parse(repository.as_bytes()).map_err(|_| LoadError::Parse("repo".into())),
        env: EnvOverrides { count: None, entries: vec![] },
        cli: None,
    };
    ConfigBuilder::new().build(found)
}

fn rule(find: &str, with: &str) -> RewriteRule {
    RewriteRule { find: find.as_bytes().to_vec(), with: with.as_bytes().to_vec() }
}

const REPOSITORY: &str = "\
[url \"ssh://git@github.com/\"]
insteadOf = https://github.com/
insteadOf = gh:
pushInsteadOf = https://github.com/
[url]
insteadOf = no-base
[remote \"origin\"]
url = gh:byron/gitoxide
[url \"https://example.com/\"]
insteadOf = ex:
";

const SYSTEM: &str = "\
[url \"git://mirror/\"]
insteadOf = gh:
pushInsteadOf = ssh://
";

#[test]
fn rewrite_rules_are_read_from_the_cascade() {
    let config = cascade(REPOSITORY, SYSTEM);
    let mut all = TrustAll;
    assert_eq!(
        UrlRewrite::from_config(&config, &mut all),
        UrlRewrite {
            fetch: vec![
                rule("https://github.com/", "ssh://git@github.com/"),
                rule("gh:", "ssh://git@github.com/"),
                rule("ex:", "https://example.com/"),
                rule("gh:", "git://mirror/"),
            ],
            push: vec![
                rule("https://github.com/", "ssh://git@github.com/"),
                rule("ssh://", "git://mirror/"),
            ],
        }
    );
    assert_eq!(UrlRewrite::from_config(&cascade("", ""), &mut all), UrlRewrite::new());
}

#[test]
fn rewrite_rules_of_untrusted_sections_are_left_out() {
    let config = cascade(REPOSITORY, SYSTEM);
    let mut wary = SectionTrust::all_but(vec![SectionName {
        section: b"url".to_vec(),
        subsection: Some(b"ssh://git@github.com/".to_vec()),
    }]);
    assert_eq!(
        UrlRewrite::from_config(&config, &mut wary),
        UrlRewrite {
            fetch: vec![rule("ex:", "https://example.com/"), rule("gh:", "git://mirror/")],
            push: vec![rule("ssh://", "git://mirror/")],
        }
    );
}

#[test]
fn a_repository_rewrites_urls_by_the_configured_rules() {
    let mut all = TrustAll;
    let repository = Repository::from_config(cascade(REPOSITORY, SYSTEM), &mut all);
    assert_eq!(repository.config, cascade(REPOSITORY, SYSTEM));
    let parsed = |text: &str| Url::from_bytes(text.as_bytes()).expect("a url");
    let plain = repository
        .try_find_remote_without_url_rewrite("origin", &mut all)
        .expect("configured")
        .expect("valid");
    assert_eq!(plain.url, Some(parsed("gh:byron/gitoxide")));
    assert!(!plain.urls_rewritten);
    // Of the two rules for `gh:` the one of the repository applies: it comes first.
    let rewritten = repository.find_remote("origin", &mut all).expect("valid");
    assert_eq!(rewritten.url, Some(parsed("ssh://git@github.com/byron/gitoxide")));
    assert!(rewritten.urls_rewritten);
}
