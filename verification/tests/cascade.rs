use git_cascade::config::{BuildError, Config, ConfigBuilder, LoadError, Sources};
use git_cascade::decode::{DecodeError, ValueKind};
use git_cascade::document::Document;
use git_cascade::env::{EnvEntry, EnvOverrides};
use git_cascade::source::ConfigSource;
use git_cascade::trust::{SectionName, SectionTrust, TrustAll};

fn doc(entries: &[(&str, Option<&str>, &str, &str)]) -> Document {
    let mut doc = Document::new();
    for (section, subsection, key, value) in entries {
        doc.push(section, *subsection, key, value.as_bytes());
    }
    doc
}

fn nothing() -> Sources {
    Sources {
        system: Err(LoadError::NotFound),
        global: Err(LoadError::NotFound),
        user: Err(LoadError::NotFound),
        repository: Err(LoadError::NotFound),
        env: EnvOverrides { count: None, entries: vec![] },
        cli: None,
    }
}

fn build(found: Sources) -> Config {
    ConfigBuilder::new().build(found)
}

#[test]
fn a_new_builder_reads_every_source() {
    let builder = ConfigBuilder::new();
    assert!(!builder.skips_system());
    assert!(builder.loads_environment_entries());
    assert_eq!(builder.path_override(ConfigSource::System), None);
    assert_eq!(builder.path_override(ConfigSource::Global), None);
    assert_eq!(builder.path_override(ConfigSource::Repository), None);
    let default = ConfigBuilder::default();
    assert!(!default.skips_system());
    assert!(!default.loads_environment_entries());
}

#[test]
fn builder_setters_chain() {
    let mut builder = ConfigBuilder::new();
    builder
        .no_system(true)
        .load_environment_entries(false)
        .system_config_path(Some("/etc/gitconfig"))
        .global_config_path(Some("/home/me/.gitconfig"))
        .repository_config_path(Some("repo/.git/config"));
    assert!(builder.skips_system());
    assert!(!builder.loads_environment_entries());
    assert_eq!(builder.path_override(ConfigSource::System), Some("/etc/gitconfig"));
    assert_eq!(builder.path_override(ConfigSource::Global), Some("/home/me/.gitconfig"));
    assert_eq!(builder.path_override(ConfigSource::Repository), Some("repo/.git/config"));
    assert_eq!(builder.path_override(ConfigSource::User), None);
    assert_eq!(builder.path_override(ConfigSource::Env), None);
    assert_eq!(builder.path_override(ConfigSource::Cli), None);
    builder.no_system(false).system_config_path(None);
    assert!(!builder.skips_system());
    assert_eq!(builder.path_override(ConfigSource::System), None);
    assert_eq!(builder.path_override(ConfigSource::Global), Some("/home/me/.gitconfig"));
}

#[test]
fn build_keeps_what_was_found() {
    let found = Sources {
        system: Ok(doc(&[("a", None, "k", "system")])),
        global: Ok(doc(&[("a", None, "k", "global")])),
        user: Ok(doc(&[("a", None, "k", "user")])),
        repository: Ok(doc(&[("a", None, "k", "repository")])),
        env: EnvOverrides {
            count: Some(b"1".to_vec()),
            entries: vec![EnvEntry { key: Some(b"a.k".to_vec()), value: Some(b"env".to_vec()) }],
        },
        cli: Some(doc(&[("a", None, "k", "cli")])),
    };
    let config = build(found);
    for (source, value) in [
        (ConfigSource::System, "system"),
        (ConfigSource::Global, "global"),
        (ConfigSource::User, "user"),
        (ConfigSource::Repository, "repository"),
        (ConfigSource::Env, "env"),
        (ConfigSource::Cli, "cli"),
    ] {
        assert_eq!(config.get_config(source), Some(&doc(&[("a", None, "k", value)])));
    }
}

#[test]
fn build_passes_over_files_that_could_not_be_had() {
    let mut found = nothing();
    found.system = Err(LoadError::Open("permission denied".to_string()));
    found.global = Err(LoadError::Parse("line 3".to_string()));
    found.repository = Ok(doc(&[("core", None, "bare", "true")]));
    let mut builder = ConfigBuilder::new();
    builder.system_config_path(Some("/etc/gitconfig")).global_config_path(Some("/g"));
    let config = builder.build(found);
    assert_eq!(config.get_config(ConfigSource::System), None);
    assert_eq!(config.get_config(ConfigSource::Global), None);
    assert_eq!(config.get_config(ConfigSource::User), None);
    assert_eq!(config.get_config(ConfigSource::Env), None);
    assert_eq!(config.get_config(ConfigSource::Cli), None);
    assert_eq!(config.value::<bool>("core", None, "bare"), Some(true));
}

#[test]
fn build_leaves_out_the_system_and_the_environment_on_request() {
    let mut found = nothing();
    found.system = Ok(doc(&[("a", None, "k", "system")]));
    found.env = EnvOverrides {
        count: Some(b"1".to_vec()),
        entries: vec![EnvEntry { key: Some(b"a.k".to_vec()), value: Some(b"env".to_vec()) }],
    };
    let mut builder = ConfigBuilder::new();
    builder.no_system(true).load_environment_entries(false);
    let config = builder.build(found);
    assert_eq!(config.get_config(ConfigSource::System), None);
    assert_eq!(config.get_config(ConfigSource::Env), None);
    assert_eq!(config.value::<Vec<u8>>("a", None, "k"), None);
}

#[test]
fn try_build_reports_the_first_failure_of_an_explicit_path() {
    let mut found = nothing();
    found.system = Err(LoadError::Open("permission denied".to_string()));
    found.global = Err(LoadError::Parse("line 3".to_string()));
    found.repository = Err(LoadError::NotFound);
    let mut builder = ConfigBuilder::new();
    builder
        .system_config_path(Some("/etc/gitconfig"))
        .global_config_path(Some("/g"))
        .repository_config_path(Some("/r"));
    assert_eq!(
        builder.try_build(Sources { ..clone(&found) }),
        Err(BuildError {
            source: ConfigSource::System,
            path: "/etc/gitconfig".to_string(),
            cause: LoadError::Open("permission denied".to_string()),
        })
    );
    builder.no_system(true);
    assert_eq!(
        builder.try_build(clone(&found)),
        Err(BuildError {
            source: ConfigSource::Global,
            path: "/g".to_string(),
            cause: LoadError::Parse("line 3".to_string()),
        })
    );
    builder.global_config_path(None);
    assert_eq!(
        builder.try_build(clone(&found)),
        Err(BuildError {
            source: ConfigSource::Repository,
            path: "/r".to_string(),
            cause: LoadError::NotFound,
        })
    );
}

fn clone(found: &Sources) -> Sources {
    Sources {
        system: found.system.clone(),
        global: found.global.clone(),
        user: found.user.clone(),
        repository: found.repository.clone(),
        env: found.env.clone(),
        cli: found.cli.clone(),
    }
}

#[test]
fn try_build_passes_over_failures_at_default_places() {
    let mut found = nothing();
    found.system = Err(LoadError::Open("permission denied".to_string()));
    found.user = Err(LoadError::Parse("bad".to_string()));
    found.repository = Ok(doc(&[("core", None, "bare", "true")]));
    let builder = ConfigBuilder::new();
    let config = builder.try_build(clone(&found)).expect("a cascade");
    assert_eq!(config, builder.build(found));
    assert_eq!(config.get_config(ConfigSource::System), None);
    assert_eq!(config.get_config(ConfigSource::Repository), Some(&doc(&[("core", None, "bare", "true")])));
}

#[test]
fn try_build_succeeds_when_explicit_paths_load() {
    let mut found = nothing();
    found.global = Ok(doc(&[("user", None, "name", "me")]));
    let mut builder = ConfigBuilder::new();
    builder.global_config_path(Some("/g"));
    let config = builder.try_build(found).expect("a cascade");
    assert_eq!(config.value::<Vec<u8>>("user", None, "name"), Some(b"me".to_vec()));
}

#[test]
fn mapping_lists_the_documents_by_precedence() {
    let mut found = nothing();
    found.cli = Some(doc(&[("a", None, "k", "cli")]));
    found.user = Ok(doc(&[("a", None, "k", "user")]));
    let config = build(found);
    let cli = doc(&[("a", None, "k", "cli")]);
    let user = doc(&[("a", None, "k", "user")]);
    assert_eq!(
        config.mapping(),
        [
            (Some(&cli), ConfigSource::Cli),
            (None, ConfigSource::Env),
            (None, ConfigSource::Repository),
            (Some(&user), ConfigSource::User),
            (None, ConfigSource::Global),
            (None, ConfigSource::System),
        ]
    );
    for (i, (document, source)) in config.mapping().iter().enumerate() {
        assert_eq!(ConfigSource::by_rank(i), *source);
        assert_eq!(config.get_config(*source), *document);
    }
}

#[test]
fn the_command_line_wins_over_the_system() {
    let mut found = nothing();
    found.cli = Some(doc(&[("core", None, "editor", "vim")]));
    found.system = Ok(doc(&[("core", None, "editor", "ed")]));
    let config = build(found);
    assert_eq!(config.value::<Vec<u8>>("core", None, "editor"), Some(b"vim".to_vec()));
    assert_eq!(
        config.value_with_source::<Vec<u8>>("core", None, "editor"),
        Some((b"vim".to_vec(), ConfigSource::Cli))
    );
    assert_eq!(
        config.try_value_with_source::<Vec<u8>>("core", None, "editor"),
        Ok(Some((b"vim".to_vec(), ConfigSource::Cli)))
    );
}

#[test]
fn every_source_wins_over_those_below_it() {
    let order = [
        ConfigSource::Cli,
        ConfigSource::Env,
        ConfigSource::Repository,
        ConfigSource::User,
        ConfigSource::Global,
        ConfigSource::System,
    ];
    let names = ["cli", "env", "repository", "user", "global", "system"];
    for top in 0..order.len() {
        let mut found = nothing();
        for i in top..order.len() {
            let d = doc(&[("a", Some("b"), "k", names[i])]);
            match order[i] {
                ConfigSource::Cli => found.cli = Some(d),
                ConfigSource::Env => {
                    found.env = EnvOverrides {
                        count: Some(b"1".to_vec()),
                        entries: vec![EnvEntry {
                            key: Some(b"a.b.k".to_vec()),
                            value: Some(names[i].as_bytes().to_vec()),
                        }],
                    }
                }
                ConfigSource::Repository => found.repository = Ok(d),
                ConfigSource::User => found.user = Ok(d),
                ConfigSource::Global => found.global = Ok(d),
                ConfigSource::System => found.system = Ok(d),
            }
        }
        let config = build(found);
        assert_eq!(
            config.value_with_source::<Vec<u8>>("a", Some("b"), "k"),
            Some((names[top].as_bytes().to_vec(), order[top]))
        );
    }
    assert_eq!(build(nothing()).value_with_source::<Vec<u8>>("a", Some("b"), "k"), None);
}

#[test]
fn a_value_that_does_not_decode_is_passed_over_or_reported() {
    let mut found = nothing();
    found.cli = Some(doc(&[("core", None, "bare", "maybe")]));
    found.user = Ok(doc(&[("core", None, "bare", "yes")]));
    found.system = Ok(doc(&[("core", None, "bare", "no")]));
    let config = build(found);
    assert_eq!(config.value::<bool>("core", None, "bare"), Some(true));
    assert_eq!(
        config.value_with_source::<bool>("core", None, "bare"),
        Some((true, ConfigSource::User))
    );
    let error = DecodeError { raw: b"maybe".to_vec(), target: ValueKind::Boolean };
    assert_eq!(config.try_value::<bool>("core", None, "bare"), Err(error.clone()));
    assert_eq!(config.try_value_with_source::<bool>("core", None, "bare"), Err(error));
}

#[test]
fn strict_lookup_returns_the_first_definition() {
    let mut found = nothing();
    found.repository = Ok(doc(&[("core", None, "bare", "true")]));
    found.global = Ok(doc(&[("core", None, "bare", "rubbish")]));
    let config = build(found);
    assert_eq!(config.try_value::<bool>("core", None, "bare"), Ok(Some(true)));
    assert_eq!(
        config.try_value_with_source::<bool>("core", None, "bare"),
        Ok(Some((true, ConfigSource::Repository)))
    );
    assert_eq!(config.try_value::<bool>("core", None, "missing"), Ok(None));
    assert_eq!(config.value::<bool>("core", None, "missing"), None);
}

#[test]
fn no_value_decodes_nowhere() {
    let mut found = nothing();
    found.cli = Some(doc(&[("core", None, "bare", "maybe")]));
    found.system = Ok(doc(&[("core", None, "bare", "perhaps")]));
    let config = build(found);
    assert_eq!(config.value::<bool>("core", None, "bare"), None);
    assert_eq!(
        config.try_value::<bool>("core", None, "bare"),
        Err(DecodeError { raw: b"maybe".to_vec(), target: ValueKind::Boolean })
    );
}

#[test]
fn within_a_document_the_last_declaration_wins() {
    let mut found = nothing();
    found.repository = Ok(doc(&[("core", None, "bare", "true"), ("core", None, "bare", "false")]));
    let config = build(found);
    assert_eq!(config.value::<bool>("core", None, "bare"), Some(false));
}

#[test]
fn filtered_lookups_treat_untrusted_sections_as_absent() {
    let mut found = nothing();
    found.repository = Ok(doc(&[
        ("remote", Some("origin"), "url", "https://example.com/a"),
        ("remote", Some("origin"), "fetch", "one"),
        ("remote", Some("origin"), "fetch", "two"),
        ("core", None, "bare", "rubbish"),
    ]));
    found.system = Ok(doc(&[("remote", Some("origin"), "fetch", "system")]));
    let config = build(found);
    let mut all = TrustAll;
    assert_eq!(
        config.string_filter("remote", Some("origin"), "url", &mut all),
        Some(b"https://example.com/a".to_vec())
    );
    assert_eq!(
        config.strings_filter("remote", Some("origin"), "fetch", &mut all),
        Some(vec![b"one".to_vec(), b"two".to_vec()])
    );
    assert_eq!(
        config.strings_with_source_filter("remote", Some("origin"), "fetch", &mut all),
        Some((vec![b"one".to_vec(), b"two".to_vec()], ConfigSource::Repository))
    );
    assert_eq!(config.strings_filter("remote", Some("origin"), "push", &mut all), None);
    assert_eq!(
        config.try_value_with_source_filter::<bool, _>("core", None, "bare", &mut all),
        Err(DecodeError { raw: b"rubbish".to_vec(), target: ValueKind::Boolean })
    );

    let mut wary = SectionTrust::all_but(vec![
        SectionName { section: b"remote".to_vec(), subsection: Some(b"origin".to_vec()) },
        SectionName { section: b"core".to_vec(), subsection: None },
    ]);
    assert_eq!(config.string_filter("remote", Some("origin"), "url", &mut wary), None);
    assert_eq!(config.strings_filter("remote", Some("origin"), "fetch", &mut wary), None);
    assert_eq!(
        config.value_with_source_filter::<Vec<u8>, _>("remote", Some("origin"), "url", &mut wary),
        None
    );
    assert_eq!(
        config.try_value_with_source_filter::<bool, _>("core", None, "bare", &mut wary),
        Ok(None)
    );
}
