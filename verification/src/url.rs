//! Urls of remotes, and the rules that rewrite them.

use vstd::prelude::*;
use crate::text::{opt_view, starts_with, to_vec};

verus! {

/// The address of a remote, as the url parser took it apart.
#[derive(Clone, Debug, PartialEq, Eq, Hash)]
pub struct Url {
    /// The name of the protocol, such as `ssh` or `https`.
    pub scheme: String,
    /// The user to act as on the remote.
    pub user: Option<String>,
    /// The host to connect to; the local host if there is none.
    pub host: Option<String>,
    /// The port to connect to; the protocol's own if there is none.
    pub port: Option<u16>,
    /// Where the repository lies on the host.
    pub path: Vec<u8>,
    /// The whole url written out again, ready to be parsed.
    pub text: Vec<u8>,
}

/// A url as a mathematical value.
#[verifier::ext_equal]
pub struct UrlView {
    pub scheme: Seq<char>,
    pub user: Option<Seq<char>>,
    pub host: Option<Seq<char>>,
    pub port: Option<u16>,
    pub path: Seq<u8>,
    pub text: Seq<u8>,
}

/// The characters of an optional string.
pub open spec fn opt_chars(s: Option<String>) -> Option<Seq<char>> {
    match s {
        Some(s) => Some(s@),
        None => None,
    }
}

impl View for Url {
    type V = UrlView;

    open spec fn view(&self) -> UrlView {
        UrlView {
            scheme: self.scheme@,
            user: opt_chars(self.user),
            host: opt_chars(self.host),
            port: self.port,
            path: self.path@,
            text: self.text@,
        }
    }
}

/// The view of an optional url.
pub open spec fn opt_url_view(url: Option<Url>) -> Option<UrlView> {
    match url {
        Some(u) => Some(u@),
        None => None,
    }
}

/// What `git_url::parse` makes of `input`: the parts of the url and its written form, or
/// the parser's message.
pub uninterp spec fn url_parse_result(input: Seq<u8>) -> Result<UrlView, Seq<char>>;

/// The view of what parsing a url returns.
pub open spec fn parse_view(r: Result<Url, String>) -> Result<UrlView, Seq<char>> {
    match r {
        Ok(url) => Ok(url@),
        Err(message) => Err(message@),
    }
}

/// Calls `git_url::parse` and copies out of the url it returns the scheme's name, user,
/// host, port and path, and what `Url::to_bstring` writes for it; an error is turned into
/// its message.
///
/// Believed, not proved: the outcome depends on `input` alone (for one target platform:
/// the parser reads `file://` urls differently on Windows).
#[verifier::external_body]
fn parse_bytes(input: &[u8]) -> (r: Result<Url, String>)
    ensures
        parse_view(r) == url_parse_result(input@),
{
    match git_url::parse(input.into()) {
        Ok(url) => Ok(
            Url {
                scheme: url.scheme.as_str().to_owned(),
                user: url.user().map(str::to_owned),
                host: url.host().map(str::to_owned),
                port: url.port,
                text: url.to_bstring().into(),
                path: url.path.into(),
            },
        ),
        Err(err) => Err(err.to_string()),
    }
}

/// A copy of an optional string.
fn copy_opt_string(s: &Option<String>) -> (r: Option<String>)
    ensures
        opt_chars(r) == opt_chars(*s),
{
    match s {
        Some(s) => Some(s.clone()),
        None => None,
    }
}

impl Url {
    /// Parses `input` as the url of a git repository.
    pub fn from_bytes(input: &[u8]) -> (r: Result<Url, String>)
        ensures
            parse_view(r) == url_parse_result(input@),
    {
        parse_bytes(input)
    }

    /// A copy of this url.
    pub fn duplicate(&self) -> (r: Url)
        ensures
            r@ == self@,
    {
        Url {
            scheme: self.scheme.clone(),
            user: copy_opt_string(&self.user),
            host: copy_opt_string(&self.host),
            port: self.port,
            path: to_vec(self.path.as_slice()),
            text: to_vec(self.text.as_slice()),
        }
    }
}

/// Which of a remote's two urls is meant.
#[derive(Clone, Copy, Debug, PartialEq, Eq, Hash, Structural)]
pub enum Direction {
    /// The url that is fetched from.
    Fetch,
    /// The url that is pushed to.
    Push,
}

/// One rewrite rule: a url that begins with `find` gets `with` in its place.
#[derive(Clone, Debug, PartialEq, Eq, Hash)]
pub struct RewriteRule {
    pub find: Vec<u8>,
    pub with: Vec<u8>,
}

/// A rewrite rule as a mathematical value.
#[verifier::ext_equal]
pub struct RuleView {
    pub find: Seq<u8>,
    pub with: Seq<u8>,
}

impl View for RewriteRule {
    type V = RuleView;

    open spec fn view(&self) -> RuleView {
        RuleView { find: self.find@, with: self.with@ }
    }
}

/// The views of a list of rules, in the same order.
pub open spec fn rule_views(rules: Seq<RewriteRule>) -> Seq<RuleView> {
    rules.map_values(|r: RewriteRule| r@)
}

/// The configured rewrite rules, those for urls to fetch from and those for urls to push to.
#[derive(Clone, Debug, PartialEq, Eq, Hash)]
pub struct UrlRewrite {
    pub fetch: Vec<RewriteRule>,
    pub push: Vec<RewriteRule>,
}

/// The rewrite rules as a mathematical value.
#[verifier::ext_equal]
pub struct UrlRewriteView {
    pub fetch: Seq<RuleView>,
    pub push: Seq<RuleView>,
}

impl View for UrlRewrite {
    type V = UrlRewriteView;

    open spec fn view(&self) -> UrlRewriteView {
        UrlRewriteView { fetch: rule_views(self.fetch@), push: rule_views(self.push@) }
    }
}

impl UrlRewriteView {
    /// The rules for one direction.
    pub open spec fn rules(self, direction: Direction) -> Seq<RuleView> {
        match direction {
            Direction::Fetch => self.fetch,
            Direction::Push => self.push,
        }
    }
}

/// The rule that applies to `text` among the first `n`: the one with the longest `find`
/// that `text` begins with, and of several equally long ones the first.
pub open spec fn best_rule(rules: Seq<RuleView>, text: Seq<u8>, n: int) -> Option<int>
    decreases n,
{
    if n <= 0 {
        None
    } else {
        let earlier = best_rule(rules, text, n - 1);
        let candidate = rules[n - 1];
        let longer = earlier is None || rules[earlier.unwrap()].find.len() < candidate.find.len();
        if candidate.find.is_prefix_of(text) && longer {
            Some(n - 1)
        } else {
            earlier
        }
    }
}

/// `best_rule` said directly: it finds a rule exactly if one matches, the rule it finds
/// matches, none that matches is longer, and none before it is as long.
pub proof fn lemma_best_rule(rules: Seq<RuleView>, text: Seq<u8>, n: int)
    requires
        0 <= n <= rules.len(),
    ensures
        match best_rule(rules, text, n) {
            Some(i) => {
                &&& 0 <= i < n
                &&& rules[i].find.is_prefix_of(text)
                &&& forall|j: int|
                    0 <= j < n && (#[trigger] rules[j]).find.is_prefix_of(text)
                        ==> rules[j].find.len() <= rules[i].find.len()
                &&& forall|j: int|
                    0 <= j < i && (#[trigger] rules[j]).find.is_prefix_of(text)
                        ==> rules[j].find.len() < rules[i].find.len()
            },
            None => forall|j: int| 0 <= j < n ==> !(#[trigger] rules[j]).find.is_prefix_of(text),
        },
    decreases n,
{
    if n > 0 {
        lemma_best_rule(rules, text, n - 1);
    }
}

/// The text of a url after rewriting, if a rule applies: the rule's `with` followed by
/// what comes after `find` in the text.
pub open spec fn rewritten_text(rules: Seq<RuleView>, text: Seq<u8>) -> Option<Seq<u8>> {
    match best_rule(rules, text, rules.len() as int) {
        Some(i) => Some(rules[i].with + text.skip(rules[i].find.len() as int)),
        None => None,
    }
}

/// The url after rewriting: what the rewritten text parses to. Where no rule applies, or
/// the rewritten text is no url, it is the url itself.
pub open spec fn rewritten_url(rules: Seq<RuleView>, url: UrlView) -> UrlView {
    match rewritten_text(rules, url.text) {
        Some(text) => match url_parse_result(text) {
            Ok(rewritten) => rewritten,
            Err(_) => url,
        },
        None => url,
    }
}

/// An optional url after rewriting.
pub open spec fn rewritten_opt_url(rules: Seq<RuleView>, url: Option<UrlView>) -> Option<UrlView> {
    match url {
        Some(u) => Some(rewritten_url(rules, u)),
        None => None,
    }
}

/// The text after rewriting with one list of rules, if one of them applies.
fn longest_in(rules: &Vec<RewriteRule>, text: &[u8]) -> (r: Option<Vec<u8>>)
    ensures
        opt_view(r) == rewritten_text(rule_views(rules@), text@),
{
    let ghost views = rule_views(rules@);
    let mut best: Option<usize> = None;
    let mut n: usize = 0;
    while n < rules.len()
        invariant
            n <= rules@.len(),
            views == rule_views(rules@),
            match best {
                Some(i) => best_rule(views, text@, n as int) == Some(i as int) && i < n,
                None => best_rule(views, text@, n as int) is None,
            },
        decreases rules@.len() - n,
    {
        assert(views[n as int] == rules@[n as int]@);
        let longer = match best {
            Some(i) => {
                assert(views[i as int] == rules@[i as int]@);
                rules[i].find.len() < rules[n].find.len()
            },
            None => true,
        };
        if longer && starts_with(text, rules[n].find.as_slice()) {
            best = Some(n);
        }
        n = n + 1;
    }
    match best {
        Some(i) => {
            assert(views[i as int] == rules@[i as int]@);
            proof {
                lemma_best_rule(views, text@, views.len() as int);
            }
            let rule = &rules[i];
            let mut out = to_vec(rule.with.as_slice());
            let mut k: usize = rule.find.len();
            while k < text.len()
                invariant
                    rule.find@.len() <= k <= text@.len(),
                    out@ == rule.with@ + text@.subrange(rule.find@.len() as int, k as int),
                decreases text@.len() - k,
            {
                out.push(text[k]);
                assert(text@.subrange(rule.find@.len() as int, k + 1) == text@.subrange(
                    rule.find@.len() as int,
                    k as int,
                ).push(text@[k as int]));
                k = k + 1;
            }
            assert(text@.subrange(rule.find@.len() as int, k as int) == text@.skip(
                rule.find@.len() as int,
            ));
            Some(out)
        },
        None => None,
    }
}

impl UrlRewrite {
    /// No rules: every url stays as it is.
    pub fn new() -> (r: UrlRewrite)
        ensures
            r@.fetch.len() == 0,
            r@.push.len() == 0,
    {
        UrlRewrite { fetch: Vec::new(), push: Vec::new() }
    }

    /// The text of `url` after rewriting for `direction`, or nothing if no rule applies.
    pub fn longest(&self, url: &Url, direction: Direction) -> (r: Option<Vec<u8>>)
        ensures
            opt_view(r) == rewritten_text(self@.rules(direction), url@.text),
    {
        match direction {
            Direction::Fetch => longest_in(&self.fetch, url.text.as_slice()),
            Direction::Push => longest_in(&self.push, url.text.as_slice()),
        }
    }

    /// Rewrites `url` for `direction`. The url comes back unchanged where no rule applies
    /// and where the rewritten text does not parse as a url.
    pub fn rewrite_url(&self, url: Url, direction: Direction) -> (r: Url)
        ensures
            r@ == rewritten_url(self@.rules(direction), url@),
    {
        match self.longest(&url, direction) {
            Some(text) => match Url::from_bytes(text.as_slice()) {
                Ok(rewritten) => rewritten,
                Err(_) => url,
            },
            None => url,
        }
    }
}

} // verus!
