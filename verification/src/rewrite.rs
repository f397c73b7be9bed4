//! The rewrite rules that a configuration declares under `url.<base>.insteadOf` and
//! `url.<base>.pushInsteadOf`.

use vstd::prelude::*;
use vstd::string::StringSliceAdditionalSpecFns;
use crate::config::{opt_ref_view, Config};
use crate::document::{Document, EntryView};
use crate::remote::Repository;
use crate::source::{source_at, SOURCES};
use crate::text::{bytes_eq, to_vec};
use crate::trust::TrustFilter;
use crate::url::{rule_views, RewriteRule, RuleView, UrlRewrite, UrlRewriteView};

verus! {

/// The rule that an entry declares for `key`: an entry `url.<base>.<key> = <find>` of a
/// trusted section says that `<base>` takes the place of `<find>`.
pub open spec fn rule_in<F: TrustFilter>(e: EntryView, key: Seq<u8>, filter: F) -> Option<
    RuleView,
> {
    match e.subsection {
        Some(base) => if e.section == "url".spec_bytes() && e.key == key && filter.trusts(
            e.section,
            Some(base),
        ) {
            Some(RuleView { find: e.value, with: base })
        } else {
            None
        },
        None => None,
    }
}

/// The rules that a document declares for `key`, in declared order.
pub open spec fn rules_in<F: TrustFilter>(doc: Seq<EntryView>, key: Seq<u8>, filter: F) -> Seq<
    RuleView,
>
    decreases doc.len(),
{
    if doc.len() == 0 {
        Seq::empty()
    } else {
        match rule_in(doc.last(), key, filter) {
            Some(rule) => rules_in(doc.drop_last(), key, filter).push(rule),
            None => rules_in(doc.drop_last(), key, filter),
        }
    }
}

/// The rules that the first `n` sources of a cascade, in the order of precedence, declare
/// for `key`: those of a source before those of the sources below it.
pub open spec fn rules_upto<F: TrustFilter>(config: Config, key: Seq<u8>, filter: F, n: int) -> Seq<
    RuleView,
>
    decreases n,
{
    if n <= 0 {
        Seq::empty()
    } else {
        rules_upto(config, key, filter, n - 1) + match config.document_of(source_at(n - 1)) {
            Some(doc) => rules_in(doc, key, filter),
            None => Seq::empty(),
        }
    }
}

/// The rewrite rules that a cascade declares: `insteadOf` for urls to fetch from,
/// `pushInsteadOf` for urls to push to.
pub open spec fn configured_rules<F: TrustFilter>(config: Config, filter: F) -> UrlRewriteView {
    UrlRewriteView {
        fetch: rules_upto(config, "insteadOf".spec_bytes(), filter, SOURCES as int),
        push: rules_upto(config, "pushInsteadOf".spec_bytes(), filter, SOURCES as int),
    }
}

/// Adds to `out` the rules that a document declares for `key`.
fn collect_from<F: TrustFilter>(
    doc: &Document,
    key: &[u8],
    filter: &mut F,
    out: &mut Vec<RewriteRule>,
)
    ensures
        rule_views(final(out)@) == rule_views(old(out)@) + rules_in(doc@, key@, *old(filter)),
        forall|s: Seq<u8>, t: Option<Seq<u8>>| #[trigger]
            final(filter).trusts(s, t) == old(filter).trusts(s, t),
{
    let mut i: usize = 0;
    assert(doc@.take(0) == Seq::<EntryView>::empty());
    assert(rule_views(out@) == rule_views(old(out)@) + Seq::<RuleView>::empty());
    while i < doc.entries.len()
        invariant
            i <= doc.entries@.len(),
            rule_views(out@) == rule_views(old(out)@) + rules_in(
                doc@.take(i as int),
                key@,
                *old(filter),
            ),
            forall|s: Seq<u8>, t: Option<Seq<u8>>| #[trigger]
                filter.trusts(s, t) == old(filter).trusts(s, t),
        decreases doc.entries@.len() - i,
    {
        let entry = &doc.entries[i];
        proof {
            assert(doc@.take(i + 1).drop_last() == doc@.take(i as int));
            assert(doc@.take(i + 1).last() == entry@);
        }
        if let Some(base) = &entry.subsection {
            if bytes_eq(entry.section.as_slice(), "url".as_bytes()) && bytes_eq(
                entry.key.as_slice(),
                key,
            ) && filter.is_trusted(entry.section.as_slice(), Some(base.as_slice())) {
                let rule = RewriteRule {
                    find: to_vec(entry.value.as_slice()),
                    with: to_vec(base.as_slice()),
                };
                let ghost before = rule_views(out@);
                out.push(rule);
                assert(rule_views(out@) == before.push(rule@));
            }
        }
        i = i + 1;
    }
    assert(doc@.take(i as int) == doc@);
}

/// The rules that a cascade declares for `key`.
fn collect<F: TrustFilter>(config: &Config, key: &[u8], filter: &mut F) -> (r: Vec<RewriteRule>)
    ensures
        rule_views(r@) == rules_upto(*config, key@, *old(filter), SOURCES as int),
        forall|s: Seq<u8>, t: Option<Seq<u8>>| #[trigger]
            final(filter).trusts(s, t) == old(filter).trusts(s, t),
{
    let mut out: Vec<RewriteRule> = Vec::new();
    let order = config.mapping();
    let mut n: usize = 0;
    while n < SOURCES
        invariant
            n <= SOURCES,
            forall|k: int|
                0 <= k < SOURCES ==> (#[trigger] order[k]).1 == source_at(k) && opt_ref_view(
                    order[k].0,
                ) == config.document_of(source_at(k)),
            rule_views(out@) == rules_upto(*config, key@, *old(filter), n as int),
            forall|s: Seq<u8>, t: Option<Seq<u8>>| #[trigger]
                filter.trusts(s, t) == old(filter).trusts(s, t),
        decreases SOURCES - n,
    {
        let (conf, source) = order[n];
        assert(source == source_at(n as int));
        let ghost before = rule_views(out@);
        let ghost asked = *filter;
        match conf {
            Some(doc) => {
                collect_from(doc, key, filter, &mut out);
                proof {
                    lemma_rules_in_depends_on_answers(doc@, key@, asked, *old(filter));
                }
            },
            None => {
                assert(rule_views(out@) == before + Seq::<RuleView>::empty());
            },
        }
        n = n + 1;
    }
    out
}

/// The rules that a document declares depend on the filter only through its answers.
proof fn lemma_rules_in_depends_on_answers<F: TrustFilter>(
    doc: Seq<EntryView>,
    key: Seq<u8>,
    f: F,
    g: F,
)
    requires
        forall|s: Seq<u8>, t: Option<Seq<u8>>| #[trigger] f.trusts(s, t) == g.trusts(s, t),
    ensures
        rules_in(doc, key, f) == rules_in(doc, key, g),
    decreases doc.len(),
{
    if doc.len() > 0 {
        lemma_rules_in_depends_on_answers(doc.drop_last(), key, f, g);
    }
}

impl UrlRewrite {
    /// The rewrite rules that the cascade declares in sections that the filter trusts.
    ///
    /// An entry `url.<base>.insteadOf = <find>` makes `<base>` take the place of `<find>`
    /// at the beginning of a url to fetch from, `pushInsteadOf` does the same for a url to
    /// push to. The rules of a source come before those of the sources below it, so that
    /// of two rules that match equally far the one of the higher source applies.
    pub fn from_config<F: TrustFilter>(config: &Config, filter: &mut F) -> (r: UrlRewrite)
        ensures
            r@ == configured_rules(*config, *old(filter)),
            forall|s: Seq<u8>, t: Option<Seq<u8>>| #[trigger]
                final(filter).trusts(s, t) == old(filter).trusts(s, t),
    {
        let ghost asked = *filter;
        let fetch = collect(config, "insteadOf".as_bytes(), filter);
        let ghost then = *filter;
        let push = collect(config, "pushInsteadOf".as_bytes(), filter);
        proof {
            lemma_rules_upto_depends_on_answers(
                *config,
                "pushInsteadOf".spec_bytes(),
                then,
                asked,
                SOURCES as int,
            );
        }
        UrlRewrite { fetch, push }
    }
}

/// The rules that a cascade declares depend on the filter only through its answers.
proof fn lemma_rules_upto_depends_on_answers<F: TrustFilter>(
    config: Config,
    key: Seq<u8>,
    f: F,
    g: F,
    n: int,
)
    requires
        forall|s: Seq<u8>, t: Option<Seq<u8>>| #[trigger] f.trusts(s, t) == g.trusts(s, t),
    ensures
        rules_upto(config, key, f, n) == rules_upto(config, key, g, n),
    decreases n,
{
    if n > 0 {
        lemma_rules_upto_depends_on_answers(config, key, f, g, n - 1);
        match config.document_of(source_at(n - 1)) {
            Some(doc) => lemma_rules_in_depends_on_answers(doc, key, f, g),
            None => {},
        }
    }
}

impl Repository {
    /// The repository of a cascade: its remotes are read from the cascade, and their urls
    /// are rewritten by the rules that the cascade declares in trusted sections.
    pub fn from_config<F: TrustFilter>(config: Config, filter: &mut F) -> (r: Repository)
        ensures
            r.config == config,
            r.url_rewrite@ == configured_rules(config, *old(filter)),
            forall|s: Seq<u8>, t: Option<Seq<u8>>| #[trigger]
                final(filter).trusts(s, t) == old(filter).trusts(s, t),
    {
        let url_rewrite = UrlRewrite::from_config(&config, filter);
        Repository { config, url_rewrite }
    }
}

} // verus!
