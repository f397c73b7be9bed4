use git_cascade::config::{ConfigBuilder, LoadError, Sources};
use git_cascade::document::Document;
use git_cascade::env::EnvOverrides;
use git_cascade::refspec::{Operation, RefSpec};
use git_cascade::remote::{classify, lookup_fields, resolve_fields};
use git_cascade::remote::{ExistingError, Field, FindError, Outcome, Presence};
use git_cascade::remote::{Remote, RemoteFields, Repository};
use git_cascade::trust::{SectionName, SectionTrust, TrustAll};
use git_cascade::url::{RewriteRule, Url, UrlRewrite};

const HEADS: &str = "+refs/heads/*:refs/remotes/origin/*";
const TAGS: &str = "+refs/tags/*:refs/tags/*";

fn repository(entries: &[(&str, &str, &str)], rewrite: UrlRewrite) -> Repository {
    let mut doc = Document::new();
    for (name, key, value) in entries {
        doc.push("remote", Some(name), key, value.as_bytes());
    }
    let found = Sources {
        system: Err(LoadError::NotFound),
        global: Err(LoadError::NotFound),
        user: Err(LoadError::NotFound),
        repository: Ok(doc),
        env: EnvOverrides { count: None, entries: vec![] },
        cli: None,
    };
    Repository { config: ConfigBuilder::new().build(found), url_rewrite: rewrite }
}

fn rules() -> UrlRewrite {
    UrlRewrite {
        fetch: vec![RewriteRule {
            find: b"https://github.com/".to_vec(),
            with: b"ssh://git@github.com/".to_vec(),
        }],
        push: vec![RewriteRule {
            find: b"https://github.com/".to_vec(),
            with: b"ssh://push@github.com/".to_vec(),
        }],
    }
}

fn url(text: &str) -> Url {
    Url::from_bytes(text.as_bytes()).expect("a url")
}

fn fetch(pattern: &str) -> RefSpec {
    RefSpec { op: Operation::Fetch, pattern: pattern.as_bytes().to_vec() }
}

fn push(pattern: &str) -> RefSpec {
    RefSpec { op: Operation::Push, pattern: pattern.as_bytes().to_vec() }
}

fn fields(url: Option<&str>, push_url: Option<&str>, fetch: &[&str], push: &[&str]) -> RemoteFields {
    let list = |l: &[&str]| {
        if l.is_empty() {
            None
        } else {
            Some(l.iter().map(|s| s.as_bytes().to_vec()).collect())
        }
    };
    RemoteFields {
        url: url.map(|u| u.as_bytes().to_vec()),
        push_url: push_url.map(|u| u.as_bytes().to_vec()),
        fetch: list(fetch),
        push: list(push),
    }
}

#[test]
fn a_remote_without_any_key_is_absent() {
    let repo = repository(&[("upstream", "url", "https://example.com/a")], UrlRewrite::new());
    let mut all = TrustAll;
    assert_eq!(repo.resolve("origin", true, &mut all), Outcome::Absent);
    assert_eq!(repo.resolve("origin", false, &mut all), Outcome::Absent);
    assert_eq!(repo.try_find_remote("origin", &mut all), None);
    assert_eq!(repo.try_find_remote_without_url_rewrite("origin", &mut all), None);
    assert_eq!(
        repo.find_remote("origin", &mut all),
        Err(ExistingError::NotFound { name: "origin".to_string() })
    );
    assert_eq!(
        repository(&[], UrlRewrite::new()).resolve("origin", true, &mut all),
        Outcome::Absent
    );
}

#[test]
fn ref_specs_without_a_url_are_an_error() {
    let repo = repository(&[("origin", "fetch", HEADS), ("origin", "fetch", HEADS)], UrlRewrite::new());
    let mut all = TrustAll;
    assert_eq!(repo.resolve("origin", true, &mut all), Outcome::ErrorUrlMissing);
    assert_eq!(repo.try_find_remote("origin", &mut all), Some(Err(FindError::UrlMissing)));
    assert_eq!(
        repo.find_remote("origin", &mut all),
        Err(ExistingError::Find(FindError::UrlMissing))
    );
    let push_only = repository(&[("origin", "push", "refs/heads/main")], UrlRewrite::new());
    assert_eq!(push_only.resolve("origin", false, &mut all), Outcome::ErrorUrlMissing);
}

#[test]
fn a_missing_url_is_found_before_anything_is_parsed() {
    let repo = repository(&[("origin", "fetch", "not a ref-spec ::"), ("origin", "push", "")], UrlRewrite::new());
    let mut all = TrustAll;
    assert_eq!(repo.resolve("origin", true, &mut all), Outcome::ErrorUrlMissing);
}

#[test]
fn an_invalid_url_is_reported_before_any_ref_spec() {
    let repo = repository(
        &[("origin", "url", "https://"), ("origin", "fetch", HEADS), ("origin", "fetch", TAGS)],
        UrlRewrite::new(),
    );
    let mut all = TrustAll;
    let expected = Outcome::ErrorParse {
        field: Field::Url,
        raw: b"https://".to_vec(),
        cause: "empty host".to_string(),
    };
    assert_eq!(repo.resolve("origin", true, &mut all), expected);
    let also_bad_specs = repository(
        &[
            ("origin", "fetch", "refs/heads/*:refs/heads/main"),
            ("origin", "push", ""),
            ("origin", "pushUrl", "file://"),
            ("origin", "url", "https://"),
        ],
        UrlRewrite::new(),
    );
    assert_eq!(also_bad_specs.resolve("origin", false, &mut all), expected);
    assert_eq!(
        also_bad_specs.try_find_remote("origin", &mut all),
        Some(Err(FindError::Parse {
            field: Field::Url,
            raw: b"https://".to_vec(),
            cause: "empty host".to_string(),
        }))
    );
}

#[test]
fn parse_failures_come_in_the_order_of_the_fields() {
    let bad_url = "https://";
    let bad_push_url = "file://";
    let bad_fetch = "refs/heads/*:refs/heads/main";
    let bad_push = "^refs/heads/main";
    let good = "https://example.com/a";
    assert_eq!(
        resolve_fields("o", fields(Some(good), Some(bad_push_url), &[bad_fetch], &[bad_push]), None),
        Outcome::ErrorParse {
            field: Field::PushUrl,
            raw: bad_push_url.as_bytes().to_vec(),
            cause: "file urls require an absolute or relative path to the repository".to_string(),
        }
    );
    assert_eq!(
        resolve_fields("o", fields(Some(good), Some(good), &[HEADS, bad_fetch, ""], &[bad_push]), None),
        Outcome::ErrorParse {
            field: Field::Fetch,
            raw: bad_fetch.as_bytes().to_vec(),
            cause: "Both sides of the specification need a pattern, like 'a/*:b/*'".to_string(),
        }
    );
    assert_eq!(
        resolve_fields("o", fields(None, Some(good), &[HEADS], &["refs/heads/main", bad_push, ""]), None),
        Outcome::ErrorParse {
            field: Field::Push,
            raw: bad_push.as_bytes().to_vec(),
            cause: "Negative specs are only supported when fetching".to_string(),
        }
    );
    assert_eq!(
        resolve_fields("o", fields(Some(bad_url), Some(bad_push_url), &[bad_fetch], &[bad_push]), None),
        Outcome::ErrorParse {
            field: Field::Url,
            raw: bad_url.as_bytes().to_vec(),
            cause: "empty host".to_string(),
        }
    );
}

#[test]
fn presence_is_judged_from_the_fields_alone() {
    assert_eq!(classify(&fields(None, None, &[], &[])), Presence::Absent);
    assert_eq!(classify(&fields(None, None, &["x"], &[])), Presence::UrlMissing);
    assert_eq!(classify(&fields(None, None, &[], &["x"])), Presence::UrlMissing);
    assert_eq!(classify(&fields(Some("u"), None, &[], &[])), Presence::Configured);
    assert_eq!(classify(&fields(None, Some("u"), &["x"], &["y"])), Presence::Configured);
    // A list that is set counts even if it holds nothing.
    for (fetch, push) in [(Some(vec![]), None), (None, Some(vec![])), (Some(vec![]), Some(vec![]))] {
        let empty_lists = RemoteFields { url: None, push_url: None, fetch, push };
        assert_eq!(classify(&empty_lists), Presence::UrlMissing);
        assert_eq!(resolve_fields("o", empty_lists, None), Outcome::ErrorUrlMissing);
    }
    let with_url = RemoteFields { url: Some(b"/repo".to_vec()), push_url: None, fetch: Some(vec![]), push: None };
    assert_eq!(classify(&with_url), Presence::Configured);
    assert!(matches!(resolve_fields("o", with_url, None), Outcome::Present(_)));
}

#[test]
fn push_ref_specs_with_reflog_expressions_resolve() {
    let entries = ["refs/heads/a{b:refs/heads/x", "HEAD^{tree}:refs/heads/t", "HEAD@{1}:refs/heads/y"];
    match resolve_fields("origin", fields(Some("/repo"), None, &[], &entries), None) {
        Outcome::Present(remote) => assert_eq!(
            remote.push_specs,
            vec![push("HEAD@{1}:refs/heads/y"), push("HEAD^{tree}:refs/heads/t"), push("refs/heads/a{b:refs/heads/x")]
        ),
        other => panic!("{:?}", other),
    }
    // An entry that the parser turns down is reported with the parser's message.
    assert_eq!(
        resolve_fields("origin", fields(Some("/repo"), None, &[], &["a:b", "HEAD@{yesterday}:refs/heads/x", ""]), None),
        Outcome::ErrorParse {
            field: Field::Push,
            raw: b"HEAD@{yesterday}:refs/heads/x".to_vec(),
            cause: "Could not parse time \"yesterday\" for revlog lookup.".to_string(),
        }
    );
}

#[test]
fn a_remote_is_made_of_its_fields() {
    let repo = repository(
        &[
            ("origin", "url", "https://example.com/a"),
            ("origin", "pushUrl", "ssh://git@example.com/a"),
            ("origin", "fetch", TAGS),
            ("origin", "fetch", HEADS),
            ("origin", "fetch", TAGS),
            ("origin", "push", "refs/heads/main"),
            ("other", "url", "https://example.com/b"),
        ],
        UrlRewrite::new(),
    );
    let mut all = TrustAll;
    let expected = Remote {
        name: "origin".to_string(),
        url: Some(url("https://example.com/a")),
        push_url: Some(url("ssh://git@example.com/a")),
        fetch_specs: vec![fetch(HEADS), fetch(TAGS)],
        push_specs: vec![push("refs/heads/main:refs/heads/main")],
        urls_rewritten: true,
    };
    assert_eq!(repo.resolve("origin", true, &mut all), Outcome::Present(expected.clone()));
    assert_eq!(repo.try_find_remote("origin", &mut all), Some(Ok(expected.clone())));
    assert_eq!(repo.find_remote("origin", &mut all), Ok(expected));
    assert_eq!(
        repo.find_remote("other", &mut all),
        Ok(Remote {
            name: "other".to_string(),
            url: Some(url("https://example.com/b")),
            push_url: None,
            fetch_specs: vec![],
            push_specs: vec![],
            urls_rewritten: true,
        })
    );
}

#[test]
fn the_order_of_configured_ref_specs_does_not_matter() {
    let a = "+refs/heads/*:refs/remotes/origin/*";
    let b = "+refs/tags/*:refs/tags/*";
    let c = "refs/notes/*:refs/notes/*";
    let expected = vec![fetch(a), fetch(b), fetch(c)];
    let orders: [&[&str]; 7] = [
        &[a, b, c],
        &[a, c, b],
        &[b, a, c],
        &[b, c, a],
        &[c, a, b],
        &[c, b, a],
        &[b, a, b, c, c, a],
    ];
    for order in orders {
        match resolve_fields("origin", fields(Some("https://example.com/a"), None, order, &[]), None) {
            Outcome::Present(remote) => assert_eq!(remote.fetch_specs, expected),
            other => panic!("{:?}", other),
        }
    }
    match resolve_fields("origin", fields(Some("https://example.com/a"), None, &[b, a, b], &[]), None) {
        Outcome::Present(remote) => assert_eq!(remote.fetch_specs, vec![fetch(a), fetch(b)]),
        other => panic!("{:?}", other),
    }
}

#[test]
fn two_spellings_of_one_ref_spec_are_one_ref_spec() {
    match resolve_fields("origin", fields(Some("/repo"), None, &["@", "HEAD", ""], &[]), None) {
        Outcome::Present(remote) => assert_eq!(remote.fetch_specs, vec![fetch("HEAD")]),
        other => panic!("{:?}", other),
    }
}

#[test]
fn urls_are_rewritten_only_on_request() {
    let repo = repository(
        &[
            ("origin", "url", "https://github.com/byron/gitoxide"),
            ("origin", "pushUrl", "https://github.com/byron/gitoxide"),
        ],
        rules(),
    );
    let mut all = TrustAll;
    let plain = repo
        .try_find_remote_without_url_rewrite("origin", &mut all)
        .expect("configured")
        .expect("valid");
    assert_eq!(plain.url, Some(url("https://github.com/byron/gitoxide")));
    assert_eq!(plain.url.as_ref().map(|u| u.text.clone()), Some(b"https://github.com/byron/gitoxide".to_vec()));
    assert_eq!(plain.push_url, Some(url("https://github.com/byron/gitoxide")));
    assert!(!plain.urls_rewritten);

    let rewritten = repo.try_find_remote("origin", &mut all).expect("configured").expect("valid");
    assert_eq!(rewritten.url, Some(url("ssh://git@github.com/byron/gitoxide")));
    assert_eq!(rewritten.push_url, Some(url("ssh://push@github.com/byron/gitoxide")));
    assert!(rewritten.urls_rewritten);

    // Applying the rules later gives the same remote.
    assert_eq!(plain.rewrite_urls(&repo.url_rewrite), rewritten);
}

#[test]
fn from_preparsed_config_normalizes_and_rewrites() {
    let remote = Remote::from_preparsed_config(
        "origin".to_string(),
        Some(url("https://github.com/a/b")),
        None,
        vec![fetch("b"), fetch("a"), fetch("b")],
        vec![push("y"), push("x")],
        Some(&rules()),
    );
    assert_eq!(
        remote,
        Ok(Remote {
            name: "origin".to_string(),
            url: Some(url("ssh://git@github.com/a/b")),
            push_url: None,
            fetch_specs: vec![fetch("a"), fetch("b")],
            push_specs: vec![push("x"), push("y")],
            urls_rewritten: true,
        })
    );
    let plain = Remote::from_preparsed_config(
        "origin".to_string(),
        Some(url("https://github.com/a/b")),
        None,
        vec![],
        vec![],
        None,
    )
    .expect("a remote");
    assert_eq!(plain.url, Some(url("https://github.com/a/b")));
    assert!(!plain.urls_rewritten);
}

#[test]
fn from_preparsed_config_makes_no_remote_of_ref_specs_alone() {
    let make = |url: Option<Url>, push_url: Option<Url>, fetch_specs: Vec<RefSpec>, push_specs: Vec<RefSpec>| {
        Remote::from_preparsed_config("origin".to_string(), url, push_url, fetch_specs, push_specs, None)
    };
    assert_eq!(make(None, None, vec![fetch("a")], vec![]), Err(FindError::UrlMissing));
    assert_eq!(make(None, None, vec![], vec![push("a")]), Err(FindError::UrlMissing));
    assert!(make(None, Some(url("/repo")), vec![fetch("a")], vec![]).is_ok());
    assert!(make(Some(url("/repo")), None, vec![], vec![push("a")]).is_ok());
    // Without anything at all the remote is empty, which is not an error.
    assert_eq!(
        make(None, None, vec![], vec![]),
        Ok(Remote {
            name: "origin".to_string(),
            url: None,
            push_url: None,
            fetch_specs: vec![],
            push_specs: vec![],
            urls_rewritten: false,
        })
    );
}

#[test]
fn an_untrusted_section_is_absent() {
    let repo = repository(
        &[
            ("origin", "url", "https://example.com/a"),
            ("origin", "fetch", HEADS),
            ("upstream", "url", "https://example.com/b"),
        ],
        UrlRewrite::new(),
    );
    let mut wary = SectionTrust::all_but(vec![SectionName {
        section: b"remote".to_vec(),
        subsection: Some(b"origin".to_vec()),
    }]);
    assert_eq!(repo.resolve("origin", true, &mut wary), Outcome::Absent);
    assert_eq!(repo.try_find_remote("origin", &mut wary), None);
    assert!(matches!(repo.resolve("upstream", true, &mut wary), Outcome::Present(_)));
    assert_eq!(
        lookup_fields(&repo.config, "origin", &mut wary),
        RemoteFields { url: None, push_url: None, fetch: None, push: None }
    );
    let mut all = TrustAll;
    assert_eq!(
        lookup_fields(&repo.config, "origin", &mut all),
        fields(Some("https://example.com/a"), None, &[HEADS], &[])
    );
}

#[test]
fn the_highest_source_that_defines_a_field_supplies_it() {
    let mut repo_doc = Document::new();
    repo_doc.push("remote", Some("origin"), "url", b"https://example.com/repo");
    repo_doc.push("remote", Some("origin"), "fetch", HEADS.as_bytes());
    let mut cli_doc = Document::new();
    cli_doc.push("remote", Some("origin"), "url", b"https://example.com/cli");
    let mut system_doc = Document::new();
    system_doc.push("remote", Some("origin"), "fetch", TAGS.as_bytes());
    system_doc.push("remote", Some("origin"), "push", b"refs/heads/main");
    let found = Sources {
        system: Ok(system_doc),
        global: Err(LoadError::NotFound),
        user: Err(LoadError::NotFound),
        repository: Ok(repo_doc),
        env: EnvOverrides { count: None, entries: vec![] },
        cli: Some(cli_doc),
    };
    let repo = Repository { config: ConfigBuilder::new().build(found), url_rewrite: UrlRewrite::new() };
    let mut all = TrustAll;
    assert_eq!(
        repo.find_remote("origin", &mut all),
        Ok(Remote {
            name: "origin".to_string(),
            url: Some(url("https://example.com/cli")),
            push_url: None,
            fetch_specs: vec![fetch(HEADS)],
            push_specs: vec![push("refs/heads/main:refs/heads/main")],
            urls_rewritten: true,
        })
    );
}
