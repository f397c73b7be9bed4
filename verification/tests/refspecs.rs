use git_cascade::refspec::{normalize, Operation, RefSpec};
use git_cascade::text::{bytes_eq, bytes_less, starts_with};

fn fetch(pattern: &str) -> RefSpec {
    RefSpec { op: Operation::Fetch, pattern: pattern.as_bytes().to_vec() }
}

fn push(pattern: &str) -> RefSpec {
    RefSpec { op: Operation::Push, pattern: pattern.as_bytes().to_vec() }
}

#[test]
fn bytes_are_ordered_lexicographically() {
    assert!(bytes_less(b"", b"a"));
    assert!(bytes_less(b"a", b"ab"));
    assert!(bytes_less(b"ab", b"b"));
    assert!(bytes_less(b"refs/heads/a", b"refs/heads/b"));
    assert!(!bytes_less(b"b", b"ab"));
    assert!(!bytes_less(b"a", b"a"));
    assert!(!bytes_less(b"", b""));
    assert!(bytes_less(&[0x7f], &[0x80]));
}

#[test]
fn bytes_equality_and_prefixes() {
    assert!(bytes_eq(b"abc", b"abc"));
    assert!(!bytes_eq(b"abc", b"abd"));
    assert!(!bytes_eq(b"abc", b"ab"));
    assert!(bytes_eq(b"", b""));
    assert!(starts_with(b"https://example.com/x", b"https://"));
    assert!(starts_with(b"abc", b""));
    assert!(starts_with(b"abc", b"abc"));
    assert!(!starts_with(b"ab", b"abc"));
    assert!(!starts_with(b"abc", b"abd"));
}

#[test]
fn ref_specs_are_ordered_by_operation_then_pattern() {
    assert!(push("z").less_than(&fetch("a")));
    assert!(!fetch("a").less_than(&push("z")));
    assert!(fetch("a").less_than(&fetch("b")));
    assert!(!fetch("b").less_than(&fetch("a")));
    assert!(!fetch("a").less_than(&fetch("a")));
    assert!(fetch("a").same_as(&fetch("a")));
    assert!(!fetch("a").same_as(&push("a")));
    assert!(!fetch("a").same_as(&fetch("b")));
    assert_eq!(fetch("a").duplicate(), fetch("a"));
}

#[test]
fn normalize_sorts_and_removes_duplicates() {
    let a = "+refs/heads/*:refs/remotes/origin/*";
    let b = "+refs/tags/*:refs/tags/*";
    assert_eq!(normalize(vec![fetch(b), fetch(a), fetch(b)]), vec![fetch(a), fetch(b)]);
    assert_eq!(normalize(vec![]), Vec::<RefSpec>::new());
    assert_eq!(normalize(vec![fetch(a)]), vec![fetch(a)]);
    assert_eq!(normalize(vec![fetch(a), fetch(a), fetch(a)]), vec![fetch(a)]);
    assert_eq!(
        normalize(vec![fetch("c"), push("c"), fetch("a"), push("a"), fetch("b")]),
        vec![push("a"), push("c"), fetch("a"), fetch("b"), fetch("c")]
    );
}

#[test]
fn normalize_does_not_depend_on_the_order_of_its_input() {
    let expected = vec![fetch("a"), fetch("b"), fetch("c")];
    let orders: [[&str; 3]; 6] = [
        ["a", "b", "c"],
        ["a", "c", "b"],
        ["b", "a", "c"],
        ["b", "c", "a"],
        ["c", "a", "b"],
        ["c", "b", "a"],
    ];
    for order in orders {
        let input: Vec<RefSpec> = order.iter().map(|p| fetch(p)).collect();
        assert_eq!(normalize(input), expected);
    }
    assert_eq!(normalize(vec![fetch("b"), fetch("a"), fetch("b"), fetch("a")]), vec![fetch("a"), fetch("b")]);
}

#[test]
fn normalize_is_idempotent() {
    let once = normalize(vec![fetch("b"), push("x"), fetch("a"), fetch("b")]);
    assert_eq!(normalize(once.clone()), once);
}

#[test]
fn parse_keeps_a_plain_ref_spec() {
    let text = "+refs/heads/*:refs/remotes/origin/*";
    assert_eq!(RefSpec::parse(text.as_bytes(), Operation::Fetch), Ok(fetch(text)));
    assert_eq!(RefSpec::parse(b"refs/heads/main:refs/heads/main", Operation::Push), Ok(push("refs/heads/main:refs/heads/main")));
}

#[test]
fn parse_writes_the_ref_spec_in_the_parsers_form() {
    // The parser reads an empty fetch ref-spec and `@` as `HEAD`, and a push ref-spec
    // without destination as one that pushes to the same name.
    assert_eq!(RefSpec::parse(b"", Operation::Fetch), Ok(fetch("HEAD")));
    assert_eq!(RefSpec::parse(b"@", Operation::Fetch), Ok(fetch("HEAD")));
    assert_eq!(RefSpec::parse(b"@:refs/heads/x", Operation::Fetch), Ok(fetch("HEAD:refs/heads/x")));
    assert_eq!(RefSpec::parse(b"refs/heads/main", Operation::Push), Ok(push("refs/heads/main:refs/heads/main")));
    assert_eq!(RefSpec::parse(b"^refs/heads/x", Operation::Fetch), Ok(fetch("^refs/heads/x")));
}

#[test]
fn parse_reports_the_parsers_message() {
    assert_eq!(
        RefSpec::parse(b"", Operation::Push),
        Err("Empty refspecs are invalid".to_string())
    );
    assert_eq!(
        RefSpec::parse(b"refs/heads/*:refs/remotes/origin/main", Operation::Fetch),
        Err("Both sides of the specification need a pattern, like 'a/*:b/*'".to_string())
    );
    assert_eq!(
        RefSpec::parse(b"^refs/heads/a:refs/heads/b", Operation::Fetch),
        Err("Negative refspecs cannot have destinations as they exclude sources".to_string())
    );
    assert_eq!(
        RefSpec::parse(b"^refs/heads/a", Operation::Push),
        Err("Negative specs are only supported when fetching".to_string())
    );
}

#[test]
fn parse_reads_braces_in_push_ref_specs() {
    // A brace is part of a reference name unless it follows an at sign, and after a
    // caret it peels.
    for text in [
        "refs/heads/a{b",
        "refs/heads/a{b:refs/heads/x",
        "refs/heads/x:refs/heads/a{b",
        "a{b:x",
        "HEAD^{tree}:refs/heads/x",
        "+HEAD^{tree}:refs/heads/x",
        "HEAD^{}:refs/heads/x",
    ] {
        let expected = if text.contains(':') { text.to_string() } else { format!("{0}:{0}", text) };
        assert_eq!(RefSpec::parse(text.as_bytes(), Operation::Push), Ok(push(&expected)), "{}", text);
    }
}

#[test]
fn parse_reads_reflog_expressions_in_push_sources() {
    // The parser accepts these whatever the time is; the pattern is the text.
    for text in ["HEAD@{1}:refs/heads/x", "@{-1}:refs/heads/x", "@{u}:refs/heads/x", "+main@{0}:refs/heads/y"] {
        assert_eq!(RefSpec::parse(text.as_bytes(), Operation::Push), Ok(push(text)), "{}", text);
    }
    assert_eq!(
        RefSpec::parse(b"@{-9223372036854775807}:refs/heads/x", Operation::Push),
        Ok(push("@{-9223372036854775807}:refs/heads/x"))
    );
    // What the parser turns down comes back with the parser's message.
    assert_eq!(
        RefSpec::parse(b"HEAD@{yesterday}:refs/heads/x", Operation::Push),
        Err("Could not parse time \"yesterday\" for revlog lookup.".to_string())
    );
    assert_eq!(
        RefSpec::parse(b"HEAD@{-1}:refs/heads/x", Operation::Push).is_err(),
        true
    );
    assert_eq!(
        RefSpec::parse(b"@{-9223372036854775808:refs/heads/x", Operation::Push),
        Err("The opening brace in \"{-9223372036854775808\" was not matched".to_string())
    );
    // A date in braces is read against the clock: if the parser accepts the text, the
    // pattern is the text.
    for text in ["HEAD@{3 days ago}:refs/heads/x", "HEAD@{2022-01-01}:refs/heads/x"] {
        if let Ok(spec) = RefSpec::parse(text.as_bytes(), Operation::Push) {
            assert_eq!(spec, push(text));
        }
    }
}

#[test]
fn parse_turns_down_the_reflog_number_that_cannot_be_negated() {
    let least = format!("-{}", (isize::MAX as u128) + 1);
    let expected = Err("the number of the reflog entry cannot be negated".to_string());
    for text in [
        format!("@{{{}}}:refs/heads/x", least),
        format!("+@{{{}}}:refs/heads/x", least),
        format!("@{{-000{}}}:refs/heads/x", &least[1..]),
        format!("+^@{{{}}}:refs/heads/x", least),
        format!("a..@{{{}}}:refs/heads/x", least),
    ] {
        assert_eq!(RefSpec::parse(text.as_bytes(), Operation::Push), expected, "{}", text);
    }
    // Where the parser reads no reflog expression it is asked, and answers.
    assert_eq!(
        RefSpec::parse(format!("@{{{}}}", least).as_bytes(), Operation::Push),
        Err("A reference must be a valid tag name as well".to_string())
    );
    assert_eq!(
        RefSpec::parse(format!("@{{{}}}:", least).as_bytes(), Operation::Push),
        Err("Cannot push into an empty destination".to_string())
    );
    assert_eq!(
        RefSpec::parse(format!("^@{{{}}}:x", least).as_bytes(), Operation::Push),
        Err("Negative specs are only supported when fetching".to_string())
    );
    assert_eq!(
        RefSpec::parse(format!("x:@{{{}}}", least).as_bytes(), Operation::Push),
        Err("A reference must be a valid tag name as well".to_string())
    );
    assert_eq!(
        RefSpec::parse(format!("refs/heads/a@{{{}}}", least).as_bytes(), Operation::Fetch),
        Err("A reference must be a valid tag name as well".to_string())
    );
    // One more or one less is a number like any other.
    assert_eq!(
        RefSpec::parse(format!("@{{-{}}}:x", isize::MAX).as_bytes(), Operation::Push),
        Ok(push(&format!("@{{-{}}}:x", isize::MAX)))
    );
    assert!(RefSpec::parse(format!("@{{-{}}}:x", (isize::MAX as u128) + 2).as_bytes(), Operation::Push).is_err());
}

#[test]
fn parse_reads_revisions_without_braces_in_push_sources() {
    assert_eq!(RefSpec::parse(b"HEAD~1:refs/heads/x", Operation::Push), Ok(push("HEAD~1:refs/heads/x")));
    assert_eq!(RefSpec::parse(b"main^:refs/heads/x", Operation::Push), Ok(push("main^:refs/heads/x")));
}
