//! The sources of configuration and their precedence.

use vstd::prelude::*;

verus! {

/// Where a configuration document comes from.
#[derive(Clone, Copy, Debug, PartialEq, Eq, Hash, Structural)]
pub enum ConfigSource {
    /// The system-wide configuration, `$(prefix)/etc/gitconfig`.
    System,
    /// The user's configuration, usually `~/.gitconfig`.
    Global,
    /// The user's second configuration, `$XDG_CONFIG_HOME/git/config`.
    User,
    /// The configuration of the repository, `.git/config`.
    Repository,
    /// Values given through the environment.
    Env,
    /// Values given on the command line.
    Cli,
}

/// How many sources there are.
pub const SOURCES: usize = 6;

/// The sources in the order in which a lookup consults them, the one that wins first.
pub open spec fn source_at(i: int) -> ConfigSource {
    if i == 0 {
        ConfigSource::Cli
    } else if i == 1 {
        ConfigSource::Env
    } else if i == 2 {
        ConfigSource::Repository
    } else if i == 3 {
        ConfigSource::User
    } else if i == 4 {
        ConfigSource::Global
    } else {
        ConfigSource::System
    }
}

impl ConfigSource {
    /// The place of the source in the order of precedence; 0 wins over all others.
    pub open spec fn rank(self) -> int {
        match self {
            ConfigSource::Cli => 0,
            ConfigSource::Env => 1,
            ConfigSource::Repository => 2,
            ConfigSource::User => 3,
            ConfigSource::Global => 4,
            ConfigSource::System => 5,
        }
    }

    /// The source at place `i` of the order of precedence.
    pub fn by_rank(i: usize) -> (r: ConfigSource)
        requires
            i < SOURCES,
        ensures
            r == source_at(i as int),
            r.rank() == i,
    {
        if i == 0 {
            ConfigSource::Cli
        } else if i == 1 {
            ConfigSource::Env
        } else if i == 2 {
            ConfigSource::Repository
        } else if i == 3 {
            ConfigSource::User
        } else if i == 4 {
            ConfigSource::Global
        } else {
            ConfigSource::System
        }
    }
}

/// The first source, in the order of precedence, of which `pred` holds.
pub open spec fn first_source(pred: spec_fn(ConfigSource) -> bool) -> Option<ConfigSource> {
    if pred(ConfigSource::Cli) {
        Some(ConfigSource::Cli)
    } else if pred(ConfigSource::Env) {
        Some(ConfigSource::Env)
    } else if pred(ConfigSource::Repository) {
        Some(ConfigSource::Repository)
    } else if pred(ConfigSource::User) {
        Some(ConfigSource::User)
    } else if pred(ConfigSource::Global) {
        Some(ConfigSource::Global)
    } else if pred(ConfigSource::System) {
        Some(ConfigSource::System)
    } else {
        None
    }
}

/// `first_source` finds a source of which `pred` holds and before which, in the order of
/// precedence, it holds of none; it finds none only if `pred` holds of no source.
pub proof fn lemma_first_source(pred: spec_fn(ConfigSource) -> bool)
    ensures
        match first_source(pred) {
            Some(s) => pred(s) && forall|i: int|
                0 <= i < s.rank() ==> !pred(#[trigger] source_at(i)),
            None => forall|i: int| 0 <= i < SOURCES ==> !pred(#[trigger] source_at(i)),
        },
{
}

/// The source at place `i` is the first of which `pred` holds, if it holds of none before.
pub proof fn lemma_first_source_at(pred: spec_fn(ConfigSource) -> bool, i: int)
    requires
        0 <= i < SOURCES,
        pred(source_at(i)),
        forall|k: int| 0 <= k < i ==> !pred(#[trigger] source_at(k)),
    ensures
        first_source(pred) == Some(source_at(i)),
{
    assert(i > 0 ==> !pred(source_at(0)));
    assert(i > 1 ==> !pred(source_at(1)));
    assert(i > 2 ==> !pred(source_at(2)));
    assert(i > 3 ==> !pred(source_at(3)));
    assert(i > 4 ==> !pred(source_at(4)));
}

/// No source is the first of which `pred` holds, if it holds of none.
pub proof fn lemma_first_source_none(pred: spec_fn(ConfigSource) -> bool)
    requires
        forall|k: int| 0 <= k < SOURCES ==> !pred(#[trigger] source_at(k)),
    ensures
        first_source(pred) is None,
{
    assert(!pred(source_at(0)));
    assert(!pred(source_at(1)));
    assert(!pred(source_at(2)));
    assert(!pred(source_at(3)));
    assert(!pred(source_at(4)));
    assert(!pred(source_at(5)));
}

} // verus!
