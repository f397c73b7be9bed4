//! Remotes: what the configuration says of one, and how that becomes a `Remote`.

use vstd::prelude::*;
use vstd::string::StringSliceAdditionalSpecFns;
use crate::config::{unsourced, Config};
use crate::refspec::{lemma_normalized, lemma_normalized_depends_on_elements_only};
use crate::refspec::lemma_normalized_is_empty;
use crate::refspec::{may_read_clock, normalize, normalized, parse_expected, strictly_sorted};
use crate::refspec::views;
use crate::refspec::{Operation, RefSpec, RefSpecView};
use crate::text::{byte_views, opt_byte_views, opt_view, to_vec};
use crate::trust::TrustFilter;
use crate::url::{opt_url_view, rewritten_opt_url, url_parse_result};
use crate::url::{Direction, Url, UrlRewrite, UrlRewriteView, UrlView};

verus! {

/// A remote repository as the configuration describes it.
#[derive(Clone, Debug, PartialEq, Eq, Hash)]
pub struct Remote {
    /// The name under which the remote is configured.
    pub name: String,
    /// The url to fetch from, and to push to where there is no push url.
    pub url: Option<Url>,
    /// The url to push to.
    pub push_url: Option<Url>,
    /// What to fetch, in normal form.
    pub fetch_specs: Vec<RefSpec>,
    /// What to push, in normal form.
    pub push_specs: Vec<RefSpec>,
    /// Whether the rewrite rules were applied to the urls.
    pub urls_rewritten: bool,
}

/// A remote as a mathematical value.
#[verifier::ext_equal]
pub struct RemoteView {
    pub name: Seq<char>,
    pub url: Option<UrlView>,
    pub push_url: Option<UrlView>,
    pub fetch_specs: Seq<RefSpecView>,
    pub push_specs: Seq<RefSpecView>,
    pub urls_rewritten: bool,
}

impl View for Remote {
    type V = RemoteView;

    open spec fn view(&self) -> RemoteView {
        RemoteView {
            name: self.name@,
            url: opt_url_view(self.url),
            push_url: opt_url_view(self.push_url),
            fetch_specs: views(self.fetch_specs@),
            push_specs: views(self.push_specs@),
            urls_rewritten: self.urls_rewritten,
        }
    }
}

impl RemoteView {
    /// What holds of every remote that the library hands out: both lists of ref-specs are
    /// strictly sorted, so that neither holds a ref-spec twice, and a remote with ref-specs
    /// has a url.
    pub open spec fn well_formed(self) -> bool {
        &&& strictly_sorted(self.fetch_specs)
        &&& strictly_sorted(self.push_specs)
        &&& self.fetch_specs.len() > 0 || self.push_specs.len() > 0 ==> self.url is Some
            || self.push_url is Some
    }
}

/// The four fields of a remote's configuration.
#[derive(Clone, Copy, Debug, PartialEq, Eq, Hash, Structural)]
pub enum Field {
    /// `url`
    Url,
    /// `pushUrl`
    PushUrl,
    /// `fetch`
    Fetch,
    /// `push`
    Push,
}

/// The values of the four fields as the configuration holds them, each absent where it
/// is not set.
#[derive(Clone, Debug, PartialEq, Eq, Hash)]
pub struct RemoteFields {
    pub url: Option<Vec<u8>>,
    pub push_url: Option<Vec<u8>>,
    pub fetch: Option<Vec<Vec<u8>>>,
    pub push: Option<Vec<Vec<u8>>>,
}

/// The values of the four fields as a mathematical value.
#[verifier::ext_equal]
pub struct FieldsView {
    pub url: Option<Seq<u8>>,
    pub push_url: Option<Seq<u8>>,
    pub fetch: Option<Seq<Seq<u8>>>,
    pub push: Option<Seq<Seq<u8>>>,
}

impl View for RemoteFields {
    type V = FieldsView;

    open spec fn view(&self) -> FieldsView {
        FieldsView {
            url: opt_view(self.url),
            push_url: opt_view(self.push_url),
            fetch: opt_byte_views(self.fetch),
            push: opt_byte_views(self.push),
        }
    }
}

/// What resolving a remote comes to.
#[derive(Clone, Debug, PartialEq, Eq, Hash)]
pub enum Outcome {
    /// Nothing is configured under the name.
    Absent,
    /// Ref-specs are configured, but neither a url nor a push url.
    ErrorUrlMissing,
    /// A field does not parse: which one, the text that was read, and what the parser said.
    ErrorParse { field: Field, raw: Vec<u8>, cause: String },
    /// The remote.
    Present(Remote),
}

/// An outcome as a mathematical value.
#[verifier::ext_equal]
pub enum OutcomeView {
    Absent,
    ErrorUrlMissing,
    ErrorParse { field: Field, raw: Seq<u8>, cause: Seq<char> },
    Present(RemoteView),
}

impl View for Outcome {
    type V = OutcomeView;

    open spec fn view(&self) -> OutcomeView {
        match self {
            Outcome::Absent => OutcomeView::Absent,
            Outcome::ErrorUrlMissing => OutcomeView::ErrorUrlMissing,
            Outcome::ErrorParse { field, raw, cause } => OutcomeView::ErrorParse {
                field: *field,
                raw: raw@,
                cause: cause@,
            },
            Outcome::Present(remote) => OutcomeView::Present(remote@),
        }
    }
}

/// Why a remote that is configured could not be made.
#[derive(Clone, Debug, PartialEq, Eq, Hash)]
pub enum FindError {
    /// Ref-specs are configured, but neither a url nor a push url.
    UrlMissing,
    /// A field does not parse: which one, the text that was read, and what the parser said.
    Parse { field: Field, raw: Vec<u8>, cause: String },
}

/// Why there is no remote of a name.
#[derive(Clone, Debug, PartialEq, Eq, Hash)]
pub enum ExistingError {
    /// Nothing is configured under the name.
    NotFound { name: String },
    /// The remote is configured but could not be made.
    Find(FindError),
}

/// The outcome that an optional result of a remote stands for.
pub open spec fn found_view(r: Option<Result<Remote, FindError>>) -> OutcomeView {
    match r {
        None => OutcomeView::Absent,
        Some(Err(FindError::UrlMissing)) => OutcomeView::ErrorUrlMissing,
        Some(Err(FindError::Parse { field, raw, cause })) => OutcomeView::ErrorParse {
            field,
            raw: raw@,
            cause: cause@,
        },
        Some(Ok(remote)) => OutcomeView::Present(remote@),
    }
}

/// The outcome that a result of a remote that must exist stands for.
pub open spec fn existing_view(r: Result<Remote, ExistingError>) -> OutcomeView {
    match r {
        Err(ExistingError::NotFound { .. }) => OutcomeView::Absent,
        Err(ExistingError::Find(e)) => found_view(Some(Err(e))),
        Ok(remote) => OutcomeView::Present(remote@),
    }
}

/// What the presence of the fields alone says of a remote.
#[derive(Clone, Copy, Debug, PartialEq, Eq, Hash, Structural)]
pub enum Presence {
    /// No field is set.
    Absent,
    /// Ref-specs are set, but neither url.
    UrlMissing,
    /// A url is set.
    Configured,
}

/// The values of a list field; none where it is not set.
pub open spec fn entries(list: Option<Seq<Seq<u8>>>) -> Seq<Seq<u8>> {
    match list {
        Some(l) => l,
        None => Seq::empty(),
    }
}

/// What the presence of the fields says: without any url a remote is absent if neither
/// list of ref-specs is set, and else lacks its url, whether or not the ref-specs would
/// parse. A list that is set counts even if it holds nothing; a cascade hands out no such
/// list, since a key that is defined has a value.
pub open spec fn presence_of(f: FieldsView) -> Presence {
    if f.url is Some || f.push_url is Some {
        Presence::Configured
    } else if f.fetch is Some || f.push is Some {
        Presence::UrlMissing
    } else {
        Presence::Absent
    }
}

/// The text and the parser's message, if the url is set and does not parse.
pub open spec fn url_failure(raw: Option<Seq<u8>>) -> Option<(Seq<u8>, Seq<char>)> {
    match raw {
        Some(raw) => match url_parse_result(raw) {
            Err(cause) => Some((raw, cause)),
            Ok(_) => None,
        },
        None => None,
    }
}

/// The parsed url, if the url is set and parses.
pub open spec fn parsed_url(raw: Option<Seq<u8>>) -> Option<UrlView> {
    match raw {
        Some(raw) => match url_parse_result(raw) {
            Ok(url) => Some(url),
            Err(_) => None,
        },
        None => None,
    }
}

/// The first entry from `from` on that is not expected to parse as a ref-spec for `op`,
/// with the reason.
pub open spec fn first_error(raws: Seq<Seq<u8>>, op: Operation, from: int) -> Option<
    (Seq<u8>, Seq<char>),
>
    decreases raws.len() - from,
{
    if from < 0 || from >= raws.len() {
        None
    } else {
        match parse_expected(raws[from], op) {
            Err(cause) => Some((raws[from], cause)),
            Ok(_) => first_error(raws, op, from + 1),
        }
    }
}

/// The ref-spec that an entry is expected to parse to.
pub open spec fn parsed_spec(raw: Seq<u8>, op: Operation) -> RefSpecView {
    match parse_expected(raw, op) {
        Ok(spec) => spec,
        Err(_) => arbitrary(),
    }
}

/// The entries parsed as ref-specs for `op`, in the same order.
pub open spec fn parsed_specs(raws: Seq<Seq<u8>>, op: Operation) -> Seq<RefSpecView> {
    raws.map_values(|raw: Seq<u8>| parsed_spec(raw, op))
}

/// No entry is expected to fail exactly if every entry is expected to parse.
pub proof fn lemma_first_error(raws: Seq<Seq<u8>>, op: Operation, from: int)
    requires
        0 <= from <= raws.len(),
    ensures
        first_error(raws, op, from) is None <==> forall|i: int|
            from <= i < raws.len() ==> parse_expected(#[trigger] raws[i], op) is Ok,
    decreases raws.len() - from,
{
    if from < raws.len() {
        lemma_first_error(raws, op, from + 1);
    }
}

/// Whether `raw` is the entry at place `i`, the parser may read the clock on it, and
/// every entry before it parses.
pub open spec fn reflog_entry_at(raws: Seq<Seq<u8>>, op: Operation, raw: Seq<u8>, i: int) -> bool {
    &&& 0 <= i < raws.len()
    &&& raws[i] == raw
    &&& may_read_clock(raw, op)
    &&& forall|k: int| 0 <= k < i ==> parse_expected(#[trigger] raws[k], op) is Ok
}

/// Whether `raw` is an entry with a reflog expression in its source that parsing can
/// get to: the parser may read the clock on it, and every entry before it parses.
pub open spec fn is_reflog_entry(raws: Seq<Seq<u8>>, op: Operation, raw: Seq<u8>) -> bool {
    exists|i: int| reflog_entry_at(raws, op, raw, i)
}

/// The first field, in the order url, push url, fetch, push, that does not parse; within
/// a list the first entry that does not.
pub open spec fn parse_failure(f: FieldsView) -> Option<(Field, Seq<u8>, Seq<char>)> {
    if url_failure(f.url) is Some {
        let e = url_failure(f.url).unwrap();
        Some((Field::Url, e.0, e.1))
    } else if url_failure(f.push_url) is Some {
        let e = url_failure(f.push_url).unwrap();
        Some((Field::PushUrl, e.0, e.1))
    } else if first_error(entries(f.fetch), Operation::Fetch, 0) is Some {
        let e = first_error(entries(f.fetch), Operation::Fetch, 0).unwrap();
        Some((Field::Fetch, e.0, e.1))
    } else if first_error(entries(f.push), Operation::Push, 0) is Some {
        let e = first_error(entries(f.push), Operation::Push, 0).unwrap();
        Some((Field::Push, e.0, e.1))
    } else {
        None
    }
}

/// An optional url after rewriting with the rules for `direction`, or as it is where no
/// rules are given.
pub open spec fn rewritten_with(
    rules: Option<UrlRewriteView>,
    direction: Direction,
    url: Option<UrlView>,
) -> Option<UrlView> {
    match rules {
        Some(rules) => rewritten_opt_url(rules.rules(direction), url),
        None => url,
    }
}

/// The remote made of parsed fields: the lists in normal form, the urls rewritten where
/// rules are given.
pub open spec fn assembled(
    name: Seq<char>,
    url: Option<UrlView>,
    push_url: Option<UrlView>,
    fetch_specs: Seq<RefSpecView>,
    push_specs: Seq<RefSpecView>,
    rules: Option<UrlRewriteView>,
) -> RemoteView {
    RemoteView {
        name,
        url: rewritten_with(rules, Direction::Fetch, url),
        push_url: rewritten_with(rules, Direction::Push, push_url),
        fetch_specs: normalized(fetch_specs),
        push_specs: normalized(push_specs),
        urls_rewritten: rules is Some,
    }
}

/// What the four fields of a remote are expected to come to.
///
/// Presence is judged first. Then the fields are parsed in the order url, push url, each
/// entry of fetch, each entry of push, and the first that fails is the outcome. If all
/// parse, the remote is made of them.
///
/// A push ref-spec whose source holds a reflog expression is expected to parse. Where no
/// push ref-spec has such a source this is what the fields come to; see
/// `reports_reflog_entry` for what else they can come to.
pub open spec fn resolved(
    name: Seq<char>,
    f: FieldsView,
    rules: Option<UrlRewriteView>,
) -> OutcomeView {
    match presence_of(f) {
        Presence::Absent => OutcomeView::Absent,
        Presence::UrlMissing => OutcomeView::ErrorUrlMissing,
        Presence::Configured => match parse_failure(f) {
            Some((field, raw, cause)) => OutcomeView::ErrorParse { field, raw, cause },
            None => OutcomeView::Present(
                assembled(
                    name,
                    parsed_url(f.url),
                    parsed_url(f.push_url),
                    parsed_specs(entries(f.fetch), Operation::Fetch),
                    parsed_specs(entries(f.push), Operation::Push),
                    rules,
                ),
            ),
        },
    }
}

/// Whether `o` reports a push ref-spec whose source holds a reflog expression. Such an
/// entry the parser may turn down, and whether it does is not decided by the text alone,
/// since it reads a date in the expression against the clock. Everything that is parsed
/// before that entry parses: the urls, the fetch ref-specs, and the push ref-specs before
/// it.
pub open spec fn reports_reflog_entry(f: FieldsView, o: OutcomeView) -> bool {
    &&& presence_of(f) == Presence::Configured
    &&& url_failure(f.url) is None
    &&& url_failure(f.push_url) is None
    &&& first_error(entries(f.fetch), Operation::Fetch, 0) is None
    &&& o matches OutcomeView::ErrorParse { field, raw, cause } && field == Field::Push
        && is_reflog_entry(entries(f.push), Operation::Push, raw)
}

/// The view of optional rewrite rules.
pub open spec fn opt_rules_view(rules: Option<&UrlRewrite>) -> Option<UrlRewriteView> {
    match rules {
        Some(r) => Some(r@),
        None => None,
    }
}

/// What the presence of the fields alone says of a remote.
pub fn classify(fields: &RemoteFields) -> (r: Presence)
    ensures
        r == presence_of(fields@),
{
    if fields.url.is_some() || fields.push_url.is_some() {
        Presence::Configured
    } else if fields.fetch.is_some() || fields.push.is_some() {
        Presence::UrlMissing
    } else {
        Presence::Absent
    }
}

/// Parses the entries of a list field in order, up to the first that fails.
fn parse_specs(raws: &Vec<Vec<u8>>, op: Operation) -> (r: Result<Vec<RefSpec>, (Vec<u8>, String)>)
    ensures
        match r {
            Ok(specs) => first_error(byte_views(raws@), op, 0) is None && views(specs@)
                == parsed_specs(byte_views(raws@), op),
            Err((raw, cause)) => first_error(byte_views(raws@), op, 0) == Some((raw@, cause@))
                || is_reflog_entry(byte_views(raws@), op, raw@),
        },
{
    let ghost all = byte_views(raws@);
    let mut specs: Vec<RefSpec> = Vec::new();
    let mut i: usize = 0;
    while i < raws.len()
        invariant
            i <= raws@.len(),
            all == byte_views(raws@),
            first_error(all, op, 0) == first_error(all, op, i as int),
            forall|k: int| 0 <= k < i ==> parse_expected(#[trigger] all[k], op) is Ok,
            views(specs@) == parsed_specs(all.take(i as int), op),
        decreases raws@.len() - i,
    {
        assert(all[i as int] == raws@[i as int]@);
        match RefSpec::parse(raws[i].as_slice(), op) {
            Ok(spec) => {
                let ghost before = views(specs@);
                specs.push(spec);
                assert(views(specs@) == before.push(spec@));
                assert(all.take(i + 1) == all.take(i as int).push(all[i as int]));
                assert(parsed_specs(all.take(i + 1), op) == parsed_specs(
                    all.take(i as int),
                    op,
                ).push(parsed_spec(all[i as int], op)));
            },
            Err(cause) => {
                proof {
                    if may_read_clock(all[i as int], op) {
                        assert(reflog_entry_at(all, op, all[i as int], i as int));
                    }
                }
                return Err((to_vec(raws[i].as_slice()), cause));
            },
        }
        i = i + 1;
    }
    assert(all.take(i as int) == all);
    Ok(specs)
}

/// Parses a url field.
fn parse_url_field(raw: &Option<Vec<u8>>) -> (r: Result<Option<Url>, (Vec<u8>, String)>)
    ensures
        match r {
            Ok(url) => url_failure(opt_view(*raw)) is None && opt_url_view(url) == parsed_url(
                opt_view(*raw),
            ),
            Err((text, cause)) => url_failure(opt_view(*raw)) == Some((text@, cause@)),
        },
{
    match raw {
        Some(raw) => match Url::from_bytes(raw.as_slice()) {
            Ok(url) => Ok(Some(url)),
            Err(cause) => Err((to_vec(raw.as_slice()), cause)),
        },
        None => Ok(None),
    }
}

/// Rewrites an optional url where rules are given.
fn rewrite_with(rules: Option<&UrlRewrite>, direction: Direction, url: Option<Url>) -> (r: Option<
    Url,
>)
    ensures
        opt_url_view(r) == rewritten_with(opt_rules_view(rules), direction, opt_url_view(url)),
{
    match (rules, url) {
        (Some(rules), Some(url)) => Some(rules.rewrite_url(url, direction)),
        (_, url) => url,
    }
}

/// Whether parsed fields hold ref-specs but neither a url nor a push url.
pub open spec fn lacks_url(
    url: Option<UrlView>,
    push_url: Option<UrlView>,
    fetch_specs: Seq<RefSpecView>,
    push_specs: Seq<RefSpecView>,
) -> bool {
    url is None && push_url is None && (fetch_specs.len() > 0 || push_specs.len() > 0)
}

impl Remote {
    /// Makes a remote of parsed fields: the lists of ref-specs are brought into normal
    /// form, and the urls are rewritten where rules are given. Ref-specs without any url
    /// make no remote.
    pub fn from_preparsed_config(
        name: String,
        url: Option<Url>,
        push_url: Option<Url>,
        fetch_specs: Vec<RefSpec>,
        push_specs: Vec<RefSpec>,
        rules: Option<&UrlRewrite>,
    ) -> (r: Result<Remote, FindError>)
        ensures
            match r {
                Ok(remote) => !lacks_url(
                    opt_url_view(url),
                    opt_url_view(push_url),
                    views(fetch_specs@),
                    views(push_specs@),
                ) && remote@ == assembled(
                    name@,
                    opt_url_view(url),
                    opt_url_view(push_url),
                    views(fetch_specs@),
                    views(push_specs@),
                    opt_rules_view(rules),
                ) && remote@.well_formed(),
                Err(e) => e == FindError::UrlMissing && lacks_url(
                    opt_url_view(url),
                    opt_url_view(push_url),
                    views(fetch_specs@),
                    views(push_specs@),
                ),
            },
    {
        if url.is_none() && push_url.is_none() && (fetch_specs.len() > 0 || push_specs.len() > 0) {
            return Err(FindError::UrlMissing);
        }
        let ghost fetch = views(fetch_specs@);
        let ghost push = views(push_specs@);
        let fetch_specs = normalize(fetch_specs);
        let push_specs = normalize(push_specs);
        proof {
            lemma_normalized_is_empty(fetch);
            lemma_normalized_is_empty(push);
        }
        Ok(
            Remote {
                name,
                url: rewrite_with(rules, Direction::Fetch, url),
                push_url: rewrite_with(rules, Direction::Push, push_url),
                fetch_specs,
                push_specs,
                urls_rewritten: rules.is_some(),
            },
        )
    }

    /// Applies the rewrite rules to the urls of a remote, leaving the rest as it is.
    pub fn rewrite_urls(self, rules: &UrlRewrite) -> (r: Remote)
        ensures
            r@ == (RemoteView {
                url: rewritten_opt_url(rules@.rules(Direction::Fetch), self@.url),
                push_url: rewritten_opt_url(rules@.rules(Direction::Push), self@.push_url),
                urls_rewritten: true,
                ..self@
            }),
            self@.well_formed() ==> r@.well_formed(),
    {
        Remote {
            name: self.name,
            url: rewrite_with(Some(rules), Direction::Fetch, self.url),
            push_url: rewrite_with(Some(rules), Direction::Push, self.push_url),
            fetch_specs: self.fetch_specs,
            push_specs: self.push_specs,
            urls_rewritten: true,
        }
    }
}

/// Turns the four fields of a remote into the remote or into the reason why there is none.
///
/// Whether the remote is absent or lacks its url is decided from the presence of the
/// fields before anything is parsed. Then the fields are parsed in the order url, push
/// url, fetch, push, and nothing is parsed after the first failure.
///
/// The outcome is `resolved`, with one exception: `resolved` takes a push ref-spec whose
/// source holds a reflog expression to parse, and where the parser turns such an entry
/// down, that entry is reported with the parser's message.
pub fn resolve_fields(name: &str, fields: RemoteFields, rules: Option<&UrlRewrite>) -> (r: Outcome)
    ensures
        r@ == resolved(name@, fields@, opt_rules_view(rules)) || reports_reflog_entry(fields@, r@),
        r matches Outcome::Present(remote) ==> remote@.well_formed(),
{
    match classify(&fields) {
        Presence::Absent => {
            return Outcome::Absent;
        },
        Presence::UrlMissing => {
            return Outcome::ErrorUrlMissing;
        },
        Presence::Configured => {},
    }
    let url = match parse_url_field(&fields.url) {
        Ok(url) => url,
        Err((raw, cause)) => {
            return Outcome::ErrorParse { field: Field::Url, raw, cause };
        },
    };
    let push_url = match parse_url_field(&fields.push_url) {
        Ok(url) => url,
        Err((raw, cause)) => {
            return Outcome::ErrorParse { field: Field::PushUrl, raw, cause };
        },
    };
    let fetch_specs = match &fields.fetch {
        Some(raws) => match parse_specs(raws, Operation::Fetch) {
            Ok(specs) => specs,
            Err((raw, cause)) => {
                return Outcome::ErrorParse { field: Field::Fetch, raw, cause };
            },
        },
        None => Vec::new(),
    };
    let push_specs = match &fields.push {
        Some(raws) => match parse_specs(raws, Operation::Push) {
            Ok(specs) => specs,
            Err((raw, cause)) => {
                return Outcome::ErrorParse { field: Field::Push, raw, cause };
            },
        },
        None => Vec::new(),
    };
    proof {
        assert(views(fetch_specs@) == parsed_specs(entries(fields@.fetch), Operation::Fetch));
        assert(views(push_specs@) == parsed_specs(entries(fields@.push), Operation::Push));
    }
    match Remote::from_preparsed_config(
        name.to_owned(),
        url,
        push_url,
        fetch_specs,
        push_specs,
        rules,
    ) {
        Ok(remote) => Outcome::Present(remote),
        Err(_) => Outcome::ErrorUrlMissing,
    }
}

/// The fields of the remote `name` as a cascade holds them under `remote.<name>`: for each
/// field what the first source, in the order of precedence, that defines it declares.
/// Nothing is set where the section is not trusted.
pub open spec fn configured_fields(config: Config, trusted: bool, name: Seq<u8>) -> FieldsView {
    if trusted {
        FieldsView {
            url: unsourced(
                config.value_spec::<Vec<u8>>("remote".spec_bytes(), Some(name), "url".spec_bytes()),
            ),
            push_url: unsourced(
                config.value_spec::<Vec<u8>>(
                    "remote".spec_bytes(),
                    Some(name),
                    "pushUrl".spec_bytes(),
                ),
            ),
            fetch: unsourced(
                config.strings_spec("remote".spec_bytes(), Some(name), "fetch".spec_bytes()),
            ),
            push: unsourced(
                config.strings_spec("remote".spec_bytes(), Some(name), "push".spec_bytes()),
            ),
        }
    } else {
        FieldsView { url: None, push_url: None, fetch: None, push: None }
    }
}

/// Looks up the four fields of the remote `name` under `remote.<name>`, through the
/// trust filter.
pub fn lookup_fields<F: TrustFilter>(config: &Config, name: &str, filter: &mut F) -> (r:
    RemoteFields)
    ensures
        r@ == configured_fields(
            *config,
            old(filter).trusts("remote".spec_bytes(), Some(name.spec_bytes())),
            name.spec_bytes(),
        ),
        forall|s: Seq<u8>, t: Option<Seq<u8>>| #[trigger]
            final(filter).trusts(s, t) == old(filter).trusts(s, t),
{
    let url = config.string_filter("remote", Some(name), "url", filter);
    let push_url = config.string_filter("remote", Some(name), "pushUrl", filter);
    let fetch = config.strings_filter("remote", Some(name), "fetch", filter);
    let push = config.strings_filter("remote", Some(name), "push", filter);
    RemoteFields { url, push_url, fetch, push }
}

/// A repository as far as its remotes go: the configuration cascade and the rules that
/// rewrite urls.
#[derive(Clone, Debug, PartialEq, Eq, Hash)]
pub struct Repository {
    pub config: Config,
    pub url_rewrite: UrlRewrite,
}

impl Repository {
    /// What resolving the remote `name` is expected to come to, given whether its section
    /// is trusted and whether urls are to be rewritten: `resolved` of the fields that the
    /// cascade holds for it.
    pub open spec fn remote_spec(
        &self,
        name: &str,
        trusted: bool,
        rewrite_urls: bool,
    ) -> OutcomeView {
        resolved(
            name@,
            configured_fields(self.config, trusted, name.spec_bytes()),
            if rewrite_urls {
                Some(self.url_rewrite@)
            } else {
                None
            },
        )
    }

    /// Whether `o` is what resolving the remote `name` may come to: what `remote_spec`
    /// names, or the report of a push ref-spec with a reflog expression in its source,
    /// which the parser may turn down.
    pub open spec fn resolves_to(
        &self,
        name: &str,
        trusted: bool,
        rewrite_urls: bool,
        o: OutcomeView,
    ) -> bool {
        o == self.remote_spec(name, trusted, rewrite_urls) || reports_reflog_entry(
            configured_fields(self.config, trusted, name.spec_bytes()),
            o,
        )
    }

    /// Resolves the remote `name`: looks up its fields through the trust filter and turns
    /// them into the remote, or says why there is none.
    pub fn resolve<F: TrustFilter>(&self, name: &str, rewrite_urls: bool, filter: &mut F) -> (r:
        Outcome)
        ensures
            self.resolves_to(
                name,
                old(filter).trusts("remote".spec_bytes(), Some(name.spec_bytes())),
                rewrite_urls,
                r@,
            ),
            r matches Outcome::Present(remote) ==> remote@.well_formed(),
            forall|s: Seq<u8>, t: Option<Seq<u8>>| #[trigger]
                final(filter).trusts(s, t) == old(filter).trusts(s, t),
    {
        let fields = lookup_fields(&self.config, name, filter);
        let rules = if rewrite_urls {
            Some(&self.url_rewrite)
        } else {
            None
        };
        resolve_fields(name, fields, rules)
    }

    /// Finds the remote `name`, or nothing if it is not configured, with or without
    /// rewriting its urls.
    fn try_find_remote_inner<F: TrustFilter>(
        &self,
        name: &str,
        rewrite_urls: bool,
        filter: &mut F,
    ) -> (r: Option<Result<Remote, FindError>>)
        ensures
            self.resolves_to(
                name,
                old(filter).trusts("remote".spec_bytes(), Some(name.spec_bytes())),
                rewrite_urls,
                found_view(r),
            ),
            r matches Some(Ok(remote)) ==> remote@.well_formed(),
            forall|s: Seq<u8>, t: Option<Seq<u8>>| #[trigger]
                final(filter).trusts(s, t) == old(filter).trusts(s, t),
    {
        match self.resolve(name, rewrite_urls, filter) {
            Outcome::Absent => None,
            Outcome::ErrorUrlMissing => Some(Err(FindError::UrlMissing)),
            Outcome::ErrorParse { field, raw, cause } => Some(
                Err(FindError::Parse { field, raw, cause }),
            ),
            Outcome::Present(remote) => Some(Ok(remote)),
        }
    }

    /// Finds the remote `name` for fetching or pushing, or nothing if it is not
    /// configured. Its urls are rewritten by the repository's rules, its ref-specs brought
    /// into normal form. Only sections that the filter trusts are read.
    pub fn try_find_remote<F: TrustFilter>(&self, name: &str, filter: &mut F) -> (r: Option<
        Result<Remote, FindError>,
    >)
        ensures
            self.resolves_to(
                name,
                old(filter).trusts("remote".spec_bytes(), Some(name.spec_bytes())),
                true,
                found_view(r),
            ),
            r matches Some(Ok(remote)) ==> remote@.well_formed(),
            forall|s: Seq<u8>, t: Option<Seq<u8>>| #[trigger]
                final(filter).trusts(s, t) == old(filter).trusts(s, t),
    {
        self.try_find_remote_inner(name, true, filter)
    }

    /// As `try_find_remote`, but the urls stay as they were parsed, so that the rules can
    /// be applied later with `Remote::rewrite_urls`.
    pub fn try_find_remote_without_url_rewrite<F: TrustFilter>(
        &self,
        name: &str,
        filter: &mut F,
    ) -> (r: Option<Result<Remote, FindError>>)
        ensures
            self.resolves_to(
                name,
                old(filter).trusts("remote".spec_bytes(), Some(name.spec_bytes())),
                false,
                found_view(r),
            ),
            r matches Some(Ok(remote)) ==> remote@.well_formed(),
            forall|s: Seq<u8>, t: Option<Seq<u8>>| #[trigger]
                final(filter).trusts(s, t) == old(filter).trusts(s, t),
    {
        self.try_find_remote_inner(name, false, filter)
    }

    /// Finds the remote `name`, or reports that it is not configured.
    pub fn find_remote<F: TrustFilter>(&self, name: &str, filter: &mut F) -> (r: Result<
        Remote,
        ExistingError,
    >)
        ensures
            r matches Err(ExistingError::NotFound { name: missing }) ==> missing@ == name@,
            self.resolves_to(
                name,
                old(filter).trusts("remote".spec_bytes(), Some(name.spec_bytes())),
                true,
                existing_view(r),
            ),
            r matches Ok(remote) ==> remote@.well_formed(),
            forall|s: Seq<u8>, t: Option<Seq<u8>>| #[trigger]
                final(filter).trusts(s, t) == old(filter).trusts(s, t),
    {
        match self.try_find_remote(name, filter) {
            None => Err(ExistingError::NotFound { name: name.to_owned() }),
            Some(Err(e)) => Err(ExistingError::Find(e)),
            Some(Ok(remote)) => Ok(remote),
        }
    }
}

/// Where no push ref-spec holds a reflog expression in its source, the outcome of
/// resolving is `resolved` and nothing else.
pub proof fn lemma_refusal_needs_reflog_source(f: FieldsView, o: OutcomeView)
    requires
        forall|i: int|
            0 <= i < entries(f.push).len() ==> !may_read_clock(
                #[trigger] entries(f.push)[i],
                Operation::Push,
            ),
    ensures
        !reports_reflog_entry(f, o),
{
    if reports_reflog_entry(f, o) {
        let raw = o->ErrorParse_raw;
        let i = choose|i: int| reflog_entry_at(entries(f.push), Operation::Push, raw, i);
        assert(may_read_clock(entries(f.push)[i], Operation::Push));
    }
}

/// A remote of which no field is set is absent.
pub proof fn lemma_unconfigured_is_absent(name: Seq<char>, rules: Option<UrlRewriteView>)
    ensures
        resolved(name, FieldsView { url: None, push_url: None, fetch: None, push: None }, rules)
            == OutcomeView::Absent,
{
}

/// A remote whose section is not trusted is absent, whatever the cascade holds for it.
pub proof fn lemma_untrusted_is_absent(
    config: Config,
    name: Seq<char>,
    section_name: Seq<u8>,
    rules: Option<UrlRewriteView>,
)
    ensures
        resolved(name, configured_fields(config, false, section_name), rules)
            == OutcomeView::Absent,
{
}

/// Ref-specs without any url are reported as a missing url, whatever the ref-specs are:
/// they are not parsed, so it does not matter whether they would parse, nor how often
/// one is repeated.
pub proof fn lemma_specs_without_url(name: Seq<char>, f: FieldsView, rules: Option<UrlRewriteView>)
    requires
        f.url is None,
        f.push_url is None,
        f.fetch is Some || f.push is Some,
    ensures
        resolved(name, f, rules) == OutcomeView::ErrorUrlMissing,
{
}

/// A url that does not parse is what is reported, whatever the other fields hold: no
/// failure of a push url or of a ref-spec takes its place.
pub proof fn lemma_invalid_url_is_reported_first(
    name: Seq<char>,
    f: FieldsView,
    rules: Option<UrlRewriteView>,
)
    requires
        f.url is Some,
        url_parse_result(f.url.unwrap()) is Err,
    ensures
        resolved(name, f, rules) == (OutcomeView::ErrorParse {
            field: Field::Url,
            raw: f.url.unwrap(),
            cause: url_parse_result(f.url.unwrap())->Err_0,
        }),
{
}

/// The ref-specs of a resolved remote are the normal form of the parsed entries: sorted,
/// with each ref-spec once.
pub proof fn lemma_resolved_specs_are_normalized(
    name: Seq<char>,
    f: FieldsView,
    rules: Option<UrlRewriteView>,
)
    requires
        resolved(name, f, rules) is Present,
    ensures
        resolved(name, f, rules)->Present_0.fetch_specs == normalized(
            parsed_specs(entries(f.fetch), Operation::Fetch),
        ),
        resolved(name, f, rules)->Present_0.push_specs == normalized(
            parsed_specs(entries(f.push), Operation::Push),
        ),
        resolved(name, f, rules)->Present_0.well_formed(),
{
    lemma_normalized(parsed_specs(entries(f.fetch), Operation::Fetch));
    lemma_normalized(parsed_specs(entries(f.push), Operation::Push));
}

/// Lists with the same entries, each as often in one as in the other, parse to lists with
/// the same ref-specs, if the entries of one all parse.
proof fn lemma_permuted_entries(a: Seq<Seq<u8>>, b: Seq<Seq<u8>>, op: Operation)
    requires
        a.to_multiset() == b.to_multiset(),
        first_error(a, op, 0) is None,
    ensures
        first_error(b, op, 0) is None,
        normalized(parsed_specs(a, op)) == normalized(parsed_specs(b, op)),
        a.len() == b.len(),
{
    lemma_first_error(a, op, 0);
    lemma_first_error(b, op, 0);
    assert forall|i: int| 0 <= i < b.len() implies parse_expected(#[trigger] b[i], op) is Ok by {
        vstd::seq_lib::to_multiset_contains(a, b[i]);
        vstd::seq_lib::to_multiset_contains(b, b[i]);
        assert(b.contains(b[i]));
        let k = choose|k: int| 0 <= k < a.len() && a[k] == b[i];
        assert(parse_expected(a[k], op) is Ok);
    }
    let pa = parsed_specs(a, op);
    let pb = parsed_specs(b, op);
    assert forall|x: RefSpecView| pa.contains(x) <==> pb.contains(x) by {
        if pa.contains(x) {
            let i = choose|i: int| 0 <= i < pa.len() && pa[i] == x;
            vstd::seq_lib::to_multiset_contains(a, a[i]);
            vstd::seq_lib::to_multiset_contains(b, a[i]);
            assert(a.contains(a[i]));
            let k = choose|k: int| 0 <= k < b.len() && b[k] == a[i];
            assert(pb[k] == x);
        }
        if pb.contains(x) {
            let i = choose|i: int| 0 <= i < pb.len() && pb[i] == x;
            vstd::seq_lib::to_multiset_contains(a, b[i]);
            vstd::seq_lib::to_multiset_contains(b, b[i]);
            assert(b.contains(b[i]));
            let k = choose|k: int| 0 <= k < a.len() && a[k] == b[i];
            assert(pa[k] == x);
        }
    }
    lemma_normalized_depends_on_elements_only(pa, pb);
    vstd::seq_lib::to_multiset_len(a);
    vstd::seq_lib::to_multiset_len(b);
}

/// Permutation invariance: the order in which the ref-specs of a remote are configured
/// does not matter. Two configurations with the same urls and the same ref-spec entries,
/// each as often in one as in the other, resolve to the same remote.
pub proof fn lemma_order_of_specs_is_irrelevant(
    name: Seq<char>,
    f: FieldsView,
    g: FieldsView,
    rules: Option<UrlRewriteView>,
)
    requires
        f.url == g.url,
        f.push_url == g.push_url,
        entries(f.fetch).to_multiset() == entries(g.fetch).to_multiset(),
        entries(f.push).to_multiset() == entries(g.push).to_multiset(),
        resolved(name, f, rules) is Present,
    ensures
        resolved(name, g, rules) == resolved(name, f, rules),
{
    lemma_permuted_entries(entries(f.fetch), entries(g.fetch), Operation::Fetch);
    lemma_permuted_entries(entries(f.push), entries(g.push), Operation::Push);
}

/// Rewriting is optional: without it the urls of a resolved remote are the urls as they
/// were parsed, whatever the rules would make of them; with it they are those urls
/// rewritten, and nothing else about the remote differs but the flag that says so.
pub proof fn lemma_rewriting_touches_urls_only(
    name: Seq<char>,
    f: FieldsView,
    rules: UrlRewriteView,
)
    requires
        resolved(name, f, None) is Present,
    ensures
        resolved(name, f, None)->Present_0.url == parsed_url(f.url),
        resolved(name, f, None)->Present_0.push_url == parsed_url(f.push_url),
        !resolved(name, f, None)->Present_0.urls_rewritten,
        resolved(name, f, Some(rules)) == OutcomeView::Present(
            RemoteView {
                url: rewritten_opt_url(rules.rules(Direction::Fetch), parsed_url(f.url)),
                push_url: rewritten_opt_url(rules.rules(Direction::Push), parsed_url(f.push_url)),
                urls_rewritten: true,
                ..resolved(name, f, None)->Present_0
            },
        ),
{
}

} // verus!
