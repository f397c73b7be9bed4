//! The configuration cascade: up to six documents, consulted in a fixed order.

use vstd::prelude::*;
use vstd::string::StringSliceAdditionalSpecFns;
use crate::decode::{Decode, DecodeError, DecodeErrorView};
use crate::document::{values_of, value_of, Document, EntryView};
use crate::env::{env_document, EnvOverrides, EnvOverridesView};
use crate::source::{first_source, source_at, ConfigSource, SOURCES};
use crate::source::{lemma_first_source_at, lemma_first_source_none};
use crate::text::{byte_views, opt_as_bytes, opt_byte_views, opt_bytes, opt_view};
use crate::trust::{TrustAll, TrustFilter};

verus! {

/// Why a document could not be had from its place.
#[derive(Clone, Debug, PartialEq, Eq, Hash)]
pub enum LoadError {
    /// There is nothing at the place.
    NotFound,
    /// The file could not be opened or read; the message says why.
    Open(String),
    /// The file is no configuration document; the message says why.
    Parse(String),
}

/// A load error as a mathematical value.
#[verifier::ext_equal]
pub enum LoadErrorView {
    NotFound,
    Open(Seq<char>),
    Parse(Seq<char>),
}

impl View for LoadError {
    type V = LoadErrorView;

    open spec fn view(&self) -> LoadErrorView {
        match self {
            LoadError::NotFound => LoadErrorView::NotFound,
            LoadError::Open(m) => LoadErrorView::Open(m@),
            LoadError::Parse(m) => LoadErrorView::Parse(m@),
        }
    }
}

/// What was found at the places that a builder names: for each file the document or the
/// reason why there is none, the environment's variables, and the command line's document.
#[derive(Debug, PartialEq, Eq)]
pub struct Sources {
    pub system: Result<Document, LoadError>,
    pub global: Result<Document, LoadError>,
    pub user: Result<Document, LoadError>,
    pub repository: Result<Document, LoadError>,
    pub env: EnvOverrides,
    pub cli: Option<Document>,
}

/// The view of a document that was loaded or not.
pub open spec fn load_view(r: Result<Document, LoadError>) -> Result<
    Seq<EntryView>,
    LoadErrorView,
> {
    match r {
        Ok(doc) => Ok(doc@),
        Err(e) => Err(e@),
    }
}

/// The view of an optional borrowed document.
pub open spec fn opt_ref_view(d: Option<&Document>) -> Option<Seq<EntryView>> {
    match d {
        Some(doc) => Some(doc@),
        None => None,
    }
}

/// The view of an optional document.
pub open spec fn opt_doc_view(d: Option<Document>) -> Option<Seq<EntryView>> {
    match d {
        Some(doc) => Some(doc@),
        None => None,
    }
}

/// What was found, as a mathematical value.
#[verifier::ext_equal]
pub struct SourcesView {
    pub system: Result<Seq<EntryView>, LoadErrorView>,
    pub global: Result<Seq<EntryView>, LoadErrorView>,
    pub user: Result<Seq<EntryView>, LoadErrorView>,
    pub repository: Result<Seq<EntryView>, LoadErrorView>,
    pub env: EnvOverridesView,
    pub cli: Option<Seq<EntryView>>,
}

impl View for Sources {
    type V = SourcesView;

    open spec fn view(&self) -> SourcesView {
        SourcesView {
            system: load_view(self.system),
            global: load_view(self.global),
            user: load_view(self.user),
            repository: load_view(self.repository),
            env: self.env@,
            cli: opt_doc_view(self.cli),
        }
    }
}

/// A file whose path was given explicitly could not be used.
#[derive(Clone, Debug, PartialEq, Eq, Hash)]
pub struct BuildError {
    pub source: ConfigSource,
    pub path: String,
    pub cause: LoadError,
}

/// A build error as a mathematical value.
#[verifier::ext_equal]
pub struct BuildErrorView {
    pub source: ConfigSource,
    pub path: Seq<char>,
    pub cause: LoadErrorView,
}

impl View for BuildError {
    type V = BuildErrorView;

    open spec fn view(&self) -> BuildErrorView {
        BuildErrorView { source: self.source, path: self.path@, cause: self.cause@ }
    }
}

/// Says which sources a cascade is built from and where their files are.
#[derive(Clone, Copy, Debug, PartialEq, Eq, Hash)]
pub struct ConfigBuilder<'system_conf_path, 'global_conf_path, 'user_conf_path> {
    no_system: bool,
    load_env_conf: bool,
    override_system_config: Option<&'system_conf_path str>,
    override_global_config: Option<&'global_conf_path str>,
    override_repo_config: Option<&'user_conf_path str>,
}

/// The settings of a builder as a mathematical value.
#[verifier::ext_equal]
pub struct ConfigBuilderView {
    pub no_system: bool,
    pub load_env_conf: bool,
    pub system_path: Option<Seq<char>>,
    pub global_path: Option<Seq<char>>,
    pub repository_path: Option<Seq<char>>,
}

/// The characters of an optional path.
pub open spec fn opt_path(path: Option<&str>) -> Option<Seq<char>> {
    match path {
        Some(p) => Some(p@),
        None => None,
    }
}

/// The document that a loaded file contributes when failures are passed over.
pub open spec fn ok_document(r: Result<Seq<EntryView>, LoadErrorView>) -> Option<Seq<EntryView>> {
    match r {
        Ok(doc) => Some(doc),
        Err(_) => None,
    }
}

/// The document of each source in a cascade built with the given settings from what was
/// found: a file that could not be had is absent, and so are the system's document and
/// the environment's where the settings leave them out.
pub open spec fn built_document(
    settings: ConfigBuilderView,
    found: SourcesView,
    source: ConfigSource,
) -> Option<Seq<EntryView>> {
    match source {
        ConfigSource::System => if settings.no_system {
            None
        } else {
            ok_document(found.system)
        },
        ConfigSource::Global => ok_document(found.global),
        ConfigSource::User => ok_document(found.user),
        ConfigSource::Repository => ok_document(found.repository),
        ConfigSource::Env => if settings.load_env_conf {
            env_document(found.env)
        } else {
            None
        },
        ConfigSource::Cli => found.cli,
    }
}

/// The failure of one file, if its path was given explicitly and it could not be had.
pub open spec fn failure_of(
    source: ConfigSource,
    path: Option<Seq<char>>,
    found: Result<Seq<EntryView>, LoadErrorView>,
) -> Option<BuildErrorView> {
    match (path, found) {
        (Some(path), Err(cause)) => Some(BuildErrorView { source, path, cause }),
        _ => None,
    }
}

/// The failure that a strict build reports: the first, in the order system, global,
/// repository, of a file whose path was given explicitly. A system file that the settings
/// leave out cannot fail, nor can a file at its default place.
pub open spec fn first_failure(settings: ConfigBuilderView, found: SourcesView) -> Option<
    BuildErrorView,
> {
    let system = if settings.no_system {
        None
    } else {
        failure_of(ConfigSource::System, settings.system_path, found.system)
    };
    if system is Some {
        system
    } else if failure_of(ConfigSource::Global, settings.global_path, found.global) is Some {
        failure_of(ConfigSource::Global, settings.global_path, found.global)
    } else {
        failure_of(ConfigSource::Repository, settings.repository_path, found.repository)
    }
}

/// The documents of up to six sources. Once built, a cascade does not change.
#[derive(Clone, Debug, PartialEq, Eq, Hash)]
pub struct Config {
    system_conf: Option<Document>,
    global_conf: Option<Document>,
    user_conf: Option<Document>,
    repository_conf: Option<Document>,
    env_conf: Option<Document>,
    cli_conf: Option<Document>,
}

/// The document of a loaded file, or nothing if it could not be had.
fn loaded(r: Result<Document, LoadError>) -> (d: Option<Document>)
    ensures
        opt_doc_view(d) == ok_document(load_view(r)),
{
    match r {
        Ok(doc) => Some(doc),
        Err(_) => None,
    }
}

/// The failure of one file, if its path was given explicitly and it could not be had.
fn failure(source: ConfigSource, path: Option<&str>, found: &Result<Document, LoadError>) -> (r:
    Option<BuildError>)
    ensures
        match r {
            Some(e) => failure_of(source, opt_path(path), load_view(*found)) == Some(e@),
            None => failure_of(source, opt_path(path), load_view(*found)) is None,
        },
{
    match (path, found) {
        (Some(path), Err(cause)) => {
            let cause = match cause {
                LoadError::NotFound => LoadError::NotFound,
                LoadError::Open(m) => LoadError::Open(m.clone()),
                LoadError::Parse(m) => LoadError::Parse(m.clone()),
            };
            Some(BuildError { source, path: path.to_owned(), cause })
        },
        _ => None,
    }
}

impl<'system_conf_path, 'global_conf_path, 'user_conf_path> View for ConfigBuilder<
    'system_conf_path,
    'global_conf_path,
    'user_conf_path,
> {
    type V = ConfigBuilderView;

    closed spec fn view(&self) -> ConfigBuilderView {
        ConfigBuilderView {
            no_system: self.no_system,
            load_env_conf: self.load_env_conf,
            system_path: opt_path(self.override_system_config),
            global_path: opt_path(self.override_global_config),
            repository_path: opt_path(self.override_repo_config),
        }
    }
}

impl<'system_conf_path, 'global_conf_path, 'user_conf_path> Default for ConfigBuilder<
    'system_conf_path,
    'global_conf_path,
    'user_conf_path,
> {
    fn default() -> (r: Self)
        ensures
            r@ == (ConfigBuilderView {
                no_system: false,
                load_env_conf: false,
                system_path: None,
                global_path: None,
                repository_path: None,
            }),
    {
        ConfigBuilder {
            no_system: false,
            load_env_conf: false,
            override_system_config: None,
            override_global_config: None,
            override_repo_config: None,
        }
    }
}

impl<'system_conf_path, 'global_conf_path, 'user_conf_path> ConfigBuilder<
    'system_conf_path,
    'global_conf_path,
    'user_conf_path,
> {
    /// The settings to start from: every source is read, each file at its default place.
    pub fn new() -> (r: Self)
        ensures
            r@ == (ConfigBuilderView {
                no_system: false,
                load_env_conf: true,
                system_path: None,
                global_path: None,
                repository_path: None,
            }),
    {
        ConfigBuilder {
            no_system: false,
            load_env_conf: true,
            override_system_config: None,
            override_global_config: None,
            override_repo_config: None,
        }
    }

    /// Whether to leave out the system-wide configuration, as `GIT_CONFIG_NOSYSTEM` does.
    pub fn no_system(&mut self, no_system: bool) -> (ret: &mut Self)
        ensures
            ret@ == (ConfigBuilderView { no_system, ..old(self)@ }),
            *final(self) == *final(ret),
    {
        self.no_system = no_system;
        self
    }

    /// Whether to read `GIT_CONFIG_COUNT`, `GIT_CONFIG_KEY_<n>` and `GIT_CONFIG_VALUE_<n>`
    /// from the environment.
    pub fn load_environment_entries(&mut self, load_conf: bool) -> (ret: &mut Self)
        ensures
            ret@ == (ConfigBuilderView { load_env_conf: load_conf, ..old(self)@ }),
            *final(self) == *final(ret),
    {
        self.load_env_conf = load_conf;
        self
    }

    /// Where the system-wide configuration file is; `None` for its default place.
    pub fn system_config_path(&mut self, path: Option<&'system_conf_path str>) -> (ret: &mut Self)
        ensures
            ret@ == (ConfigBuilderView { system_path: opt_path(path), ..old(self)@ }),
            *final(self) == *final(ret),
    {
        self.override_system_config = path;
        self
    }

    /// Where the user's configuration file is; `None` for its default place.
    pub fn global_config_path(&mut self, path: Option<&'global_conf_path str>) -> (ret: &mut Self)
        ensures
            ret@ == (ConfigBuilderView { global_path: opt_path(path), ..old(self)@ }),
            *final(self) == *final(ret),
    {
        self.override_global_config = path;
        self
    }

    /// Where the repository's configuration file is, as `GIT_CONFIG` says; `None` for its
    /// default place, `.git/config`.
    pub fn repository_config_path(&mut self, path: Option<&'user_conf_path str>) -> (ret:
        &mut Self)
        ensures
            ret@ == (ConfigBuilderView { repository_path: opt_path(path), ..old(self)@ }),
            *final(self) == *final(ret),
    {
        self.override_repo_config = path;
        self
    }

    /// Whether the system-wide configuration is left out.
    pub fn skips_system(&self) -> (r: bool)
        ensures
            r == self@.no_system,
    {
        self.no_system
    }

    /// Whether the environment's entries are read.
    pub fn loads_environment_entries(&self) -> (r: bool)
        ensures
            r == self@.load_env_conf,
    {
        self.load_env_conf
    }

    /// The path that was given for the file of `source`, if one was.
    pub fn path_override(&self, source: ConfigSource) -> (r: Option<&str>)
        ensures
            opt_path(r) == match source {
                ConfigSource::System => self@.system_path,
                ConfigSource::Global => self@.global_path,
                ConfigSource::Repository => self@.repository_path,
                _ => None,
            },
    {
        match source {
            ConfigSource::System => self.override_system_config,
            ConfigSource::Global => self.override_global_config,
            ConfigSource::Repository => self.override_repo_config,
            _ => None,
        }
    }

    /// Builds a cascade from what was found, passing over every file that could not be had.
    pub fn build(&self, found: Sources) -> (r: Config)
        ensures
            forall|source: ConfigSource| #[trigger]
                r.document_of(source) == built_document(self@, found@, source),
    {
        let system_conf = if self.no_system {
            None
        } else {
            loaded(found.system)
        };
        let env_conf = if self.load_env_conf {
            Document::from_env(&found.env)
        } else {
            None
        };
        Config {
            system_conf,
            global_conf: loaded(found.global),
            user_conf: loaded(found.user),
            repository_conf: loaded(found.repository),
            env_conf,
            cli_conf: found.cli,
        }
    }

    /// Builds a cascade from what was found, unless a file whose path was given explicitly
    /// could not be had: then the first such failure comes back, with the path and the
    /// cause. A file at its default place is passed over as `build` does.
    pub fn try_build(&self, found: Sources) -> (r: Result<Config, BuildError>)
        ensures
            match r {
                Ok(config) => first_failure(self@, found@) is None && forall|source: ConfigSource|
                 #[trigger]
                    config.document_of(source) == built_document(self@, found@, source),
                Err(e) => first_failure(self@, found@) == Some(e@),
            },
    {
        if !self.no_system {
            if let Some(e) = failure(
                ConfigSource::System,
                self.override_system_config,
                &found.system,
            ) {
                return Err(e);
            }
        }
        if let Some(e) = failure(ConfigSource::Global, self.override_global_config, &found.global) {
            return Err(e);
        }
        if let Some(e) = failure(
            ConfigSource::Repository,
            self.override_repo_config,
            &found.repository,
        ) {
            return Err(e);
        }
        Ok(self.build(found))
    }
}

impl Config {
    /// The document of a source, if the cascade has one for it.
    pub closed spec fn document_of(&self, source: ConfigSource) -> Option<Seq<EntryView>> {
        match source {
            ConfigSource::System => opt_doc_view(self.system_conf),
            ConfigSource::Global => opt_doc_view(self.global_conf),
            ConfigSource::User => opt_doc_view(self.user_conf),
            ConfigSource::Repository => opt_doc_view(self.repository_conf),
            ConfigSource::Env => opt_doc_view(self.env_conf),
            ConfigSource::Cli => opt_doc_view(self.cli_conf),
        }
    }

    /// The document of a source, if the cascade has one for it.
    pub fn get_config(&self, source: ConfigSource) -> (r: Option<&Document>)
        ensures
            match r {
                Some(doc) => self.document_of(source) == Some(doc@),
                None => self.document_of(source) is None,
            },
    {
        match source {
            ConfigSource::System => self.system_conf.as_ref(),
            ConfigSource::Global => self.global_conf.as_ref(),
            ConfigSource::User => self.user_conf.as_ref(),
            ConfigSource::Repository => self.repository_conf.as_ref(),
            ConfigSource::Env => self.env_conf.as_ref(),
            ConfigSource::Cli => self.cli_conf.as_ref(),
        }
    }
}

/// The view of a value together with the source that supplied it.
pub open spec fn sourced_view<T: View>(r: Option<(T, ConfigSource)>) -> Option<
    (T::V, ConfigSource),
> {
    match r {
        Some((v, source)) => Some((v@, source)),
        None => None,
    }
}

/// The view of an optional value.
pub open spec fn value_view<T: View>(r: Option<T>) -> Option<T::V> {
    match r {
        Some(v) => Some(v@),
        None => None,
    }
}

/// The view of what a strict lookup returns.
pub open spec fn strict_view<T: View>(r: Result<Option<(T, ConfigSource)>, DecodeError>) -> Result<
    Option<(T::V, ConfigSource)>,
    DecodeErrorView,
> {
    match r {
        Ok(found) => Ok(sourced_view(found)),
        Err(e) => Err(e@),
    }
}

/// The view of a list of values together with the source that supplied it.
pub open spec fn sourced_list_view(r: Option<(Vec<Vec<u8>>, ConfigSource)>) -> Option<
    (Seq<Seq<u8>>, ConfigSource),
> {
    match r {
        Some((list, source)) => Some((byte_views(list@), source)),
        None => None,
    }
}

/// A result without the source.
pub open spec fn unsourced<V>(r: Option<(V, ConfigSource)>) -> Option<V> {
    match r {
        Some((v, _)) => Some(v),
        None => None,
    }
}

/// A strict result without the source.
pub open spec fn strict_unsourced<V, E>(r: Result<Option<(V, ConfigSource)>, E>) -> Result<
    Option<V>,
    E,
> {
    match r {
        Ok(found) => Ok(unsourced(found)),
        Err(e) => Err(e),
    }
}

impl Config {
    /// The value that one source gives a key, if the cascade has a document for the source
    /// and the document declares the key.
    pub open spec fn raw_in(
        &self,
        source: ConfigSource,
        section: Seq<u8>,
        subsection: Option<Seq<u8>>,
        key: Seq<u8>,
    ) -> Option<Seq<u8>> {
        match self.document_of(source) {
            Some(doc) => value_of(doc, section, subsection, key),
            None => None,
        }
    }

    /// All values that one source declares for a key; none if the cascade has no document
    /// for the source.
    pub open spec fn list_in(
        &self,
        source: ConfigSource,
        section: Seq<u8>,
        subsection: Option<Seq<u8>>,
        key: Seq<u8>,
    ) -> Seq<Seq<u8>> {
        match self.document_of(source) {
            Some(doc) => values_of(doc, section, subsection, key),
            None => Seq::empty(),
        }
    }

    /// The sources that define the key.
    pub open spec fn defines(
        &self,
        section: Seq<u8>,
        subsection: Option<Seq<u8>>,
        key: Seq<u8>,
    ) -> spec_fn(ConfigSource) -> bool {
        |source: ConfigSource| self.raw_in(source, section, subsection, key) is Some
    }

    /// The sources that define the key with a value that can be read as a `T`.
    pub open spec fn decodes<T: Decode>(
        &self,
        section: Seq<u8>,
        subsection: Option<Seq<u8>>,
        key: Seq<u8>,
    ) -> spec_fn(ConfigSource) -> bool {
        |source: ConfigSource|
            self.raw_in(source, section, subsection, key) is Some && T::decoded(
                self.raw_in(source, section, subsection, key).unwrap(),
            ) is Some
    }

    /// What a best-effort lookup finds: the value of the first source, in the order of
    /// precedence, whose value for the key can be read as a `T`, and that source.
    pub open spec fn value_spec<T: Decode>(
        &self,
        section: Seq<u8>,
        subsection: Option<Seq<u8>>,
        key: Seq<u8>,
    ) -> Option<(T::V, ConfigSource)> {
        match first_source(self.decodes::<T>(section, subsection, key)) {
            Some(source) => {
                let raw = self.raw_in(source, section, subsection, key).unwrap();
                Some((T::decoded(raw).unwrap(), source))
            },
            None => None,
        }
    }

    /// What a strict lookup finds: the first source, in the order of precedence, that
    /// defines the key decides. Its value read as a `T` is the result, and if it cannot be
    /// read the error is.
    pub open spec fn try_value_spec<T: Decode>(
        &self,
        section: Seq<u8>,
        subsection: Option<Seq<u8>>,
        key: Seq<u8>,
    ) -> Result<Option<(T::V, ConfigSource)>, DecodeErrorView> {
        match first_source(self.defines(section, subsection, key)) {
            Some(source) => {
                let raw = self.raw_in(source, section, subsection, key).unwrap();
                match T::decoded(raw) {
                    Some(v) => Ok(Some((v, source))),
                    None => Err(DecodeErrorView { raw, target: T::kind() }),
                }
            },
            None => Ok(None),
        }
    }

    /// What a lookup of a list finds: all values of the first source, in the order of
    /// precedence, that defines the key, and that source.
    pub open spec fn strings_spec(
        &self,
        section: Seq<u8>,
        subsection: Option<Seq<u8>>,
        key: Seq<u8>,
    ) -> Option<(Seq<Seq<u8>>, ConfigSource)> {
        match first_source(self.defines(section, subsection, key)) {
            Some(source) => Some((self.list_in(source, section, subsection, key), source)),
            None => None,
        }
    }

    /// The documents with their sources, in the order in which lookups consult them.
    pub fn mapping(&self) -> (r: [(Option<&Document>, ConfigSource); 6])
        ensures
            forall|i: int|
                0 <= i < SOURCES ==> (#[trigger] r[i]).1 == source_at(i) && opt_ref_view(r[i].0)
                    == self.document_of(source_at(i)),
    {
        [
            (self.cli_conf.as_ref(), ConfigSource::Cli),
            (self.env_conf.as_ref(), ConfigSource::Env),
            (self.repository_conf.as_ref(), ConfigSource::Repository),
            (self.user_conf.as_ref(), ConfigSource::User),
            (self.global_conf.as_ref(), ConfigSource::Global),
            (self.system_conf.as_ref(), ConfigSource::System),
        ]
    }

    /// Best-effort lookup through a trust filter, with the source.
    ///
    /// The sources are consulted in the order of precedence. A value that cannot be read
    /// as a `T` is passed over, and so is every value if the filter does not trust the
    /// section. The filter is asked before a value is returned.
    pub fn value_with_source_filter<T: Decode, F: TrustFilter>(
        &self,
        section: &str,
        subsection: Option<&str>,
        key: &str,
        filter: &mut F,
    ) -> (r: Option<(T, ConfigSource)>)
        ensures
            sourced_view(r) == if old(filter).trusts(section.spec_bytes(), opt_bytes(subsection)) {
                self.value_spec::<T>(section.spec_bytes(), opt_bytes(subsection), key.spec_bytes())
            } else {
                None
            },
            forall|s: Seq<u8>, t: Option<Seq<u8>>| #[trigger]
                final(filter).trusts(s, t) == old(filter).trusts(s, t),
    {
        let ghost pred = self.decodes::<T>(
            section.spec_bytes(),
            opt_bytes(subsection),
            key.spec_bytes(),
        );
        let ghost trusted = filter.trusts(section.spec_bytes(), opt_bytes(subsection));
        let order = self.mapping();
        let mut i: usize = 0;
        while i < SOURCES
            invariant
                i <= SOURCES,
                forall|k: int|
                    0 <= k < SOURCES ==> (#[trigger] order[k]).1 == source_at(k) && opt_ref_view(
                        order[k].0,
                    ) == self.document_of(source_at(k)),
                pred == self.decodes::<T>(
                    section.spec_bytes(),
                    opt_bytes(subsection),
                    key.spec_bytes(),
                ),
                trusted == old(filter).trusts(section.spec_bytes(), opt_bytes(subsection)),
                trusted ==> forall|k: int| 0 <= k < i ==> !pred(#[trigger] source_at(k)),
                forall|s: Seq<u8>, t: Option<Seq<u8>>| #[trigger]
                    filter.trusts(s, t) == old(filter).trusts(s, t),
            decreases SOURCES - i,
        {
            let (conf, source) = order[i];
            assert(source == source_at(i as int));
            if let Some(conf) = conf {
                if let Some(raw) = conf.value(section, subsection, key) {
                    if let Ok(value) = T::decode(raw.as_slice()) {
                        if filter.is_trusted(section.as_bytes(), opt_as_bytes(subsection)) {
                            proof {
                                lemma_first_source_at(pred, i as int);
                            }
                            return Some((value, source));
                        }
                    }
                }
            }
            i = i + 1;
        }
        proof {
            if trusted {
                lemma_first_source_none(pred);
            }
        }
        None
    }

    /// Strict lookup through a trust filter, with the source.
    ///
    /// The first source, in the order of precedence, that defines the key decides: if its
    /// value cannot be read as a `T` the error comes back, and no other source is
    /// consulted. Where the filter does not trust the section the key counts as not defined.
    pub fn try_value_with_source_filter<T: Decode, F: TrustFilter>(
        &self,
        section: &str,
        subsection: Option<&str>,
        key: &str,
        filter: &mut F,
    ) -> (r: Result<Option<(T, ConfigSource)>, DecodeError>)
        ensures
            strict_view(r) == if old(filter).trusts(section.spec_bytes(), opt_bytes(subsection)) {
                self.try_value_spec::<T>(
                    section.spec_bytes(),
                    opt_bytes(subsection),
                    key.spec_bytes(),
                )
            } else {
                Ok(None)
            },
            forall|s: Seq<u8>, t: Option<Seq<u8>>| #[trigger]
                final(filter).trusts(s, t) == old(filter).trusts(s, t),
    {
        let ghost pred = self.defines(
            section.spec_bytes(),
            opt_bytes(subsection),
            key.spec_bytes(),
        );
        let order = self.mapping();
        let mut i: usize = 0;
        while i < SOURCES
            invariant
                i <= SOURCES,
                forall|k: int|
                    0 <= k < SOURCES ==> (#[trigger] order[k]).1 == source_at(k) && opt_ref_view(
                        order[k].0,
                    ) == self.document_of(source_at(k)),
                pred == self.defines(section.spec_bytes(), opt_bytes(subsection), key.spec_bytes()),
                forall|k: int| 0 <= k < i ==> !pred(#[trigger] source_at(k)),
                *filter == *old(filter),
            decreases SOURCES - i,
        {
            let (conf, source) = order[i];
            assert(source == source_at(i as int));
            if let Some(conf) = conf {
                if let Some(raw) = conf.value(section, subsection, key) {
                    proof {
                        lemma_first_source_at(pred, i as int);
                    }
                    if !filter.is_trusted(section.as_bytes(), opt_as_bytes(subsection)) {
                        return Ok(None);
                    }
                    return match T::decode(raw.as_slice()) {
                        Ok(value) => Ok(Some((value, source))),
                        Err(e) => Err(e),
                    };
                }
            }
            i = i + 1;
        }
        proof {
            lemma_first_source_none(pred);
        }
        Ok(None)
    }

    /// Lookup of a list through a trust filter, with the source: all values that the first
    /// source, in the order of precedence, declares for the key, in declared order. Where
    /// the filter does not trust the section the key counts as not defined.
    pub fn strings_with_source_filter<F: TrustFilter>(
        &self,
        section: &str,
        subsection: Option<&str>,
        key: &str,
        filter: &mut F,
    ) -> (r: Option<(Vec<Vec<u8>>, ConfigSource)>)
        ensures
            sourced_list_view(r) == if old(filter).trusts(
                section.spec_bytes(),
                opt_bytes(subsection),
            ) {
                self.strings_spec(section.spec_bytes(), opt_bytes(subsection), key.spec_bytes())
            } else {
                None
            },
            r matches Some((list, _)) ==> list@.len() > 0,
            forall|s: Seq<u8>, t: Option<Seq<u8>>| #[trigger]
                final(filter).trusts(s, t) == old(filter).trusts(s, t),
    {
        let ghost pred = self.defines(
            section.spec_bytes(),
            opt_bytes(subsection),
            key.spec_bytes(),
        );
        let order = self.mapping();
        let mut i: usize = 0;
        while i < SOURCES
            invariant
                i <= SOURCES,
                forall|k: int|
                    0 <= k < SOURCES ==> (#[trigger] order[k]).1 == source_at(k) && opt_ref_view(
                        order[k].0,
                    ) == self.document_of(source_at(k)),
                pred == self.defines(section.spec_bytes(), opt_bytes(subsection), key.spec_bytes()),
                forall|k: int| 0 <= k < i ==> !pred(#[trigger] source_at(k)),
                *filter == *old(filter),
            decreases SOURCES - i,
        {
            let (conf, source) = order[i];
            assert(source == source_at(i as int));
            if let Some(conf) = conf {
                let list = conf.values(section, subsection, key);
                if list.len() > 0 {
                    proof {
                        lemma_first_source_at(pred, i as int);
                    }
                    if !filter.is_trusted(section.as_bytes(), opt_as_bytes(subsection)) {
                        return None;
                    }
                    return Some((list, source));
                }
            }
            i = i + 1;
        }
        proof {
            lemma_first_source_none(pred);
        }
        None
    }

    /// Best-effort lookup, with the source that supplied the value.
    pub fn value_with_source<T: Decode>(
        &self,
        section_name: &str,
        subsection_name: Option<&str>,
        key: &str,
    ) -> (r: Option<(T, ConfigSource)>)
        ensures
            sourced_view(r) == self.value_spec::<T>(
                section_name.spec_bytes(),
                opt_bytes(subsection_name),
                key.spec_bytes(),
            ),
    {
        let mut all = TrustAll;
        self.value_with_source_filter(section_name, subsection_name, key, &mut all)
    }

    /// Best-effort lookup: the value of the key in the first source, in the order of
    /// precedence, whose value can be read as a `T`.
    pub fn value<T: Decode>(
        &self,
        section_name: &str,
        subsection_name: Option<&str>,
        key: &str,
    ) -> (r: Option<T>)
        ensures
            value_view(r) == unsourced(
                self.value_spec::<T>(
                    section_name.spec_bytes(),
                    opt_bytes(subsection_name),
                    key.spec_bytes(),
                ),
            ),
    {
        match self.value_with_source(section_name, subsection_name, key) {
            Some((value, _)) => Some(value),
            None => None,
        }
    }

    /// Strict lookup, with the source that supplied the value.
    pub fn try_value_with_source<T: Decode>(
        &self,
        section_name: &str,
        subsection_name: Option<&str>,
        key: &str,
    ) -> (r: Result<Option<(T, ConfigSource)>, DecodeError>)
        ensures
            strict_view(r) == self.try_value_spec::<T>(
                section_name.spec_bytes(),
                opt_bytes(subsection_name),
                key.spec_bytes(),
            ),
    {
        let mut all = TrustAll;
        self.try_value_with_source_filter(section_name, subsection_name, key, &mut all)
    }

    /// Strict lookup: the value of the key in the first source, in the order of
    /// precedence, that defines it, or the error if that value cannot be read as a `T`.
    pub fn try_value<T: Decode>(
        &self,
        section_name: &str,
        subsection_name: Option<&str>,
        key: &str,
    ) -> (r: Result<Option<T>, DecodeError>)
        ensures
            match r {
                Ok(v) => Ok::<Option<T::V>, DecodeErrorView>(value_view(v)),
                Err(e) => Err(e@),
            } == strict_unsourced(
                self.try_value_spec::<T>(
                    section_name.spec_bytes(),
                    opt_bytes(subsection_name),
                    key.spec_bytes(),
                ),
            ),
    {
        match self.try_value_with_source(section_name, subsection_name, key) {
            Ok(Some((value, _))) => Ok(Some(value)),
            Ok(None) => Ok(None),
            Err(e) => Err(e),
        }
    }

    /// The bytes of the key's value, through a trust filter: the value of the first source
    /// that defines the key, or nothing if none does or the section is not trusted.
    pub fn string_filter<F: TrustFilter>(
        &self,
        section: &str,
        subsection: Option<&str>,
        key: &str,
        filter: &mut F,
    ) -> (r: Option<Vec<u8>>)
        ensures
            opt_view(r) == if old(filter).trusts(section.spec_bytes(), opt_bytes(subsection)) {
                unsourced(
                    self.value_spec::<Vec<u8>>(
                        section.spec_bytes(),
                        opt_bytes(subsection),
                        key.spec_bytes(),
                    ),
                )
            } else {
                None
            },
            forall|s: Seq<u8>, t: Option<Seq<u8>>| #[trigger]
                final(filter).trusts(s, t) == old(filter).trusts(s, t),
    {
        match self.value_with_source_filter::<Vec<u8>, F>(section, subsection, key, filter) {
            Some((value, _)) => Some(value),
            None => None,
        }
    }

    /// All values of the key, through a trust filter: those of the first source that
    /// defines the key, or nothing if none does or the section is not trusted. A list that
    /// comes back is not empty.
    pub fn strings_filter<F: TrustFilter>(
        &self,
        section: &str,
        subsection: Option<&str>,
        key: &str,
        filter: &mut F,
    ) -> (r: Option<Vec<Vec<u8>>>)
        ensures
            opt_byte_views(r) == if old(filter).trusts(
                section.spec_bytes(),
                opt_bytes(subsection),
            ) {
                unsourced(
                    self.strings_spec(
                        section.spec_bytes(),
                        opt_bytes(subsection),
                        key.spec_bytes(),
                    ),
                )
            } else {
                None
            },
            r matches Some(list) ==> list@.len() > 0,
            forall|s: Seq<u8>, t: Option<Seq<u8>>| #[trigger]
                final(filter).trusts(s, t) == old(filter).trusts(s, t),
    {
        match self.strings_with_source_filter(section, subsection, key, filter) {
            Some((list, _)) => Some(list),
            None => None,
        }
    }
}

/// Precedence: where a source gives the key a value that can be read as a `T`, a
/// best-effort lookup finds a value, and it comes from that source or from one that takes
/// precedence over it; it never comes from a source below one whose value could be used.
pub proof fn lemma_value_respects_precedence<T: Decode>(
    config: Config,
    section: Seq<u8>,
    subsection: Option<Seq<u8>>,
    key: Seq<u8>,
    source: ConfigSource,
)
    requires
        config.decodes::<T>(section, subsection, key)(source),
    ensures
        config.value_spec::<T>(section, subsection, key) matches Some((value, winner))
            && winner.rank() <= source.rank() && config.decodes::<T>(section, subsection, key)(
            winner,
        ) && Some(value) == T::decoded(config.raw_in(winner, section, subsection, key).unwrap()),
{
}

/// A value on the command line that can be read as a `T` is what a best-effort lookup
/// returns, whatever the other sources hold, and the command line is reported as its source.
pub proof fn lemma_cli_value_wins<T: Decode>(
    config: Config,
    section: Seq<u8>,
    subsection: Option<Seq<u8>>,
    key: Seq<u8>,
)
    requires
        config.decodes::<T>(section, subsection, key)(ConfigSource::Cli),
    ensures
        config.value_spec::<T>(section, subsection, key) == Some(
            (
                T::decoded(
                    config.raw_in(ConfigSource::Cli, section, subsection, key).unwrap(),
                ).unwrap(),
                ConfigSource::Cli,
            ),
        ),
{
}

/// A best-effort lookup passes over sources whose value cannot be read as a `T`: it
/// returns the value of `source` if no source that takes precedence over it has a value
/// that can be read.
pub proof fn lemma_value_falls_through<T: Decode>(
    config: Config,
    section: Seq<u8>,
    subsection: Option<Seq<u8>>,
    key: Seq<u8>,
    source: ConfigSource,
)
    requires
        config.decodes::<T>(section, subsection, key)(source),
        forall|i: int|
            0 <= i < source.rank() ==> !config.decodes::<T>(section, subsection, key)(
                #[trigger] source_at(i),
            ),
    ensures
        config.value_spec::<T>(section, subsection, key) == Some(
            (T::decoded(config.raw_in(source, section, subsection, key).unwrap()).unwrap(), source),
        ),
{
    assert(source == source_at(source.rank()));
    lemma_first_source_at(config.decodes::<T>(section, subsection, key), source.rank());
}

/// A strict lookup fails on the first source that defines the key with a value that
/// cannot be read as a `T`, whatever the sources below it hold: the error names that value.
pub proof fn lemma_try_value_fails_fast<T: Decode>(
    config: Config,
    section: Seq<u8>,
    subsection: Option<Seq<u8>>,
    key: Seq<u8>,
    source: ConfigSource,
)
    requires
        config.raw_in(source, section, subsection, key) is Some,
        T::decoded(config.raw_in(source, section, subsection, key).unwrap()) is None,
        forall|i: int|
            0 <= i < source.rank() ==> config.raw_in(
                #[trigger] source_at(i),
                section,
                subsection,
                key,
            ) is None,
    ensures
        config.try_value_spec::<T>(section, subsection, key) == Err::<
            Option<(T::V, ConfigSource)>,
            DecodeErrorView,
        >(
            DecodeErrorView {
                raw: config.raw_in(source, section, subsection, key).unwrap(),
                target: T::kind(),
            },
        ),
{
    assert(source == source_at(source.rank()));
    lemma_first_source_at(config.defines(section, subsection, key), source.rank());
}

} // verus!
