use git_cascade::url::{Direction, RewriteRule, Url, UrlRewrite};

fn rule(find: &str, with: &str) -> RewriteRule {
    RewriteRule { find: find.as_bytes().to_vec(), with: with.as_bytes().to_vec() }
}

fn parse(text: &str) -> Url {
    Url::from_bytes(text.as_bytes()).expect("a url")
}

#[test]
fn url_parse_takes_an_https_url_apart() {
    let url = parse("https://github.com/byron/gitoxide");
    assert_eq!(
        url,
        Url {
            scheme: "https".to_string(),
            user: None,
            host: Some("github.com".to_string()),
            port: None,
            path: b"/byron/gitoxide".to_vec(),
            text: b"https://github.com/byron/gitoxide".to_vec(),
        }
    );
}

#[test]
fn url_parse_reads_user_and_port() {
    let url = parse("ssh://git@example.com:2222/repo.git");
    assert_eq!(url.scheme, "ssh");
    assert_eq!(url.user.as_deref(), Some("git"));
    assert_eq!(url.host.as_deref(), Some("example.com"));
    assert_eq!(url.port, Some(2222));
    assert_eq!(url.path, b"/repo.git".to_vec());
    assert_eq!(url.text, b"ssh://git@example.com:2222/repo.git".to_vec());
}

#[test]
fn url_parse_reads_the_scp_form_as_ssh() {
    let url = parse("git@github.com:byron/gitoxide.git");
    assert_eq!(url.scheme, "ssh");
    assert_eq!(url.user.as_deref(), Some("git"));
    assert_eq!(url.host.as_deref(), Some("github.com"));
    assert_eq!(url.port, None);
    assert_eq!(url.path, b"byron/gitoxide.git".to_vec());
    assert_eq!(url.text, b"git@github.com:byron/gitoxide.git".to_vec());
}

#[test]
fn url_parse_reads_a_bare_path_as_a_file() {
    let url = parse("/path/to/repo");
    assert_eq!(url.scheme, "file");
    assert_eq!(url.host, None);
    assert_eq!(url.path, b"/path/to/repo".to_vec());
    assert_eq!(url.text, b"/path/to/repo".to_vec());
    let url = parse("file:///path/to/repo");
    assert_eq!(url.scheme, "file");
    assert_eq!(url.path, b"/path/to/repo".to_vec());
    assert_eq!(url.text, b"file:///path/to/repo".to_vec());
}

#[test]
fn url_parse_reports_the_parsers_message() {
    assert_eq!(
        Url::from_bytes(b""),
        Err("file urls require an absolute or relative path to the repository".to_string())
    );
    assert_eq!(
        Url::from_bytes(b"file://"),
        Err("file urls require an absolute or relative path to the repository".to_string())
    );
    assert_eq!(Url::from_bytes(b"https://"), Err("empty host".to_string()));
    assert_eq!(
        Url::from_bytes(b"ssh://host.xz"),
        Err("urls require the path to the repository".to_string())
    );
}

#[test]
fn duplicate_copies_every_part() {
    let url = parse("ssh://git@example.com:2222/repo.git");
    assert_eq!(url.duplicate(), url);
}

#[test]
fn longest_picks_the_longest_matching_rule() {
    let rewrite = UrlRewrite {
        fetch: vec![
            rule("https://", "http://"),
            rule("https://github.com/", "ssh://git@github.com/"),
            rule("https://gitlab.com/", "ssh://git@gitlab.com/"),
        ],
        push: vec![],
    };
    let url = parse("https://github.com/byron/gitoxide");
    assert_eq!(
        rewrite.longest(&url, Direction::Fetch),
        Some(b"ssh://git@github.com/byron/gitoxide".to_vec())
    );
    assert_eq!(rewrite.longest(&url, Direction::Push), None);
    let other = parse("https://example.com/x");
    assert_eq!(rewrite.longest(&other, Direction::Fetch), Some(b"http://example.com/x".to_vec()));
    let unmatched = parse("ssh://example.com/x");
    assert_eq!(rewrite.longest(&unmatched, Direction::Fetch), None);
}

#[test]
fn longest_prefers_the_first_of_equally_long_rules() {
    let rewrite = UrlRewrite {
        fetch: vec![],
        push: vec![rule("https://a/", "first://"), rule("https://a/", "second://")],
    };
    let url = parse("https://a/b");
    assert_eq!(rewrite.longest(&url, Direction::Push), Some(b"first://b".to_vec()));
}

#[test]
fn no_rules_rewrite_nothing() {
    let rewrite = UrlRewrite::new();
    let url = parse("https://github.com/byron/gitoxide");
    assert_eq!(rewrite.longest(&url, Direction::Fetch), None);
    assert_eq!(rewrite.rewrite_url(url.clone(), Direction::Fetch), url);
}

#[test]
fn rewrite_url_parses_the_rewritten_text() {
    let rewrite = UrlRewrite {
        fetch: vec![rule("https://github.com/", "ssh://git@github.com/")],
        push: vec![],
    };
    let url = parse("https://github.com/byron/gitoxide");
    let rewritten = rewrite.rewrite_url(url.clone(), Direction::Fetch);
    assert_eq!(rewritten, parse("ssh://git@github.com/byron/gitoxide"));
    assert_eq!(rewritten.scheme, "ssh");
    assert_eq!(rewritten.user.as_deref(), Some("git"));
    // The rules for the other direction do not apply.
    assert_eq!(rewrite.rewrite_url(url.clone(), Direction::Push), url);
}

#[test]
fn rewrite_url_keeps_the_url_if_the_rewritten_text_is_no_url() {
    let rewrite = UrlRewrite {
        fetch: vec![rule("https://github.com/byron/gitoxide", "https://")],
        push: vec![],
    };
    let url = parse("https://github.com/byron/gitoxide");
    assert_eq!(rewrite.longest(&url, Direction::Fetch), Some(b"https://".to_vec()));
    assert_eq!(rewrite.rewrite_url(url.clone(), Direction::Fetch), url);
}
