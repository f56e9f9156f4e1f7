use aerie::config::{ModelRole, Preferences};
use aerie::scope::{
    HeaderError, ScopeError, SettingsSource, UserData, models_for_run, parse_model_args,
    require_workflow_dir, select_profile, settings_source,
};

fn texts(v: &[&str]) -> Vec<String> {
    v.iter().map(|s| s.to_string()).collect()
}

#[test]
fn untagged_model_entry_is_the_default_model() {
    let m = parse_model_args(&texts(&["openrouter/openrouter/free"]));
    assert_eq!(m.len(), 1);
    assert_eq!(m.get(&ModelRole::Default), Some(&"openrouter/openrouter/free".to_string()));
}

#[test]
fn tagged_model_entry_takes_each_role() {
    let m = parse_model_args(&texts(&["openrouter/openrouter/free=default,creative"]));
    assert_eq!(m.len(), 2);
    assert_eq!(m.get(&ModelRole::Default), Some(&"openrouter/openrouter/free".to_string()));
    assert_eq!(m.get(&ModelRole::Creative), Some(&"openrouter/openrouter/free".to_string()));
}

#[test]
fn roles_are_trimmed_and_later_entries_win() {
    let m = parse_model_args(&texts(&[" a/b ", "c/d= fast , vision", "e/f=fast", "g/h=other"]));
    assert_eq!(m.get(&ModelRole::Default), Some(&"a/b".to_string()));
    assert_eq!(m.get(&ModelRole::Fast), Some(&"e/f".to_string()));
    assert_eq!(m.get(&ModelRole::Vision), Some(&"c/d".to_string()));
    assert_eq!(m.get(&ModelRole::Custom("other".to_string())), Some(&"g/h".to_string()));
    assert_eq!(m.len(), 4);
}

#[test]
fn empty_role_list_gives_an_empty_custom_role() {
    let m = parse_model_args(&texts(&["x/y="]));
    assert_eq!(m.get(&ModelRole::Custom(String::new())), Some(&"x/y".to_string()));
}

#[test]
fn models_for_run_fall_back_to_profile() {
    let mut p = Preferences::default();
    p.fill_profile_name();
    p.add_model();
    {
        let entries = p.active_entries();
        let last = entries.len() - 1;
        let mut e = entries[last].clone();
        e.name = "local/llama".to_string();
        entries.set(last, e);
    }
    let index = p.active_entries().len() - 1;
    p.toggle_role(index, ModelRole::Large);
    let m = models_for_run(&p, &Vec::new());
    assert_eq!(m.get(&ModelRole::Large), Some(&"local/llama".to_string()));
    let m = models_for_run(&p, &texts(&["x/y"]));
    assert_eq!(m.get(&ModelRole::Large), None);
    assert_eq!(m.get(&ModelRole::Default), Some(&"x/y".to_string()));
}

#[test]
fn workflow_dir_is_required() {
    assert_eq!(require_workflow_dir(None), Err(ScopeError::WorkflowDirRequired));
    assert_eq!(require_workflow_dir(Some("flows".to_string())), Ok("flows".to_string()));
}

#[test]
fn settings_come_from_an_existing_file_or_defaults() {
    assert_eq!(settings_source(None, false), Ok(SettingsSource::Defaults));
    assert_eq!(
        settings_source(Some("aerie.toml".to_string()), true),
        Ok(SettingsSource::File("aerie.toml".to_string()))
    );
    assert_eq!(
        settings_source(Some("missing.toml".to_string()), false),
        Err(ScopeError::ConfigMissing("missing.toml".to_string()))
    );
}

#[test]
fn selecting_a_missing_profile_lists_valid_ones() {
    let mut p = Preferences::default();
    p.create_profile("work".to_string());
    assert_eq!(select_profile(&mut p, "default"), Ok(()));
    assert_eq!(p.profile, "default");
    assert_eq!(
        select_profile(&mut p, "home"),
        Err(ScopeError::ProfileNotFound {
            profile: "home".to_string(),
            valid: vec!["default".to_string(), "work".to_string()],
        })
    );
    assert_eq!(p.profile, "default");
}

#[test]
fn user_from_headers() {
    assert_eq!(UserData::from_headers(None, vec![Some("A=1".to_string())]), Ok(None));
    assert_eq!(UserData::from_headers(Some(None), vec![]), Err(HeaderError::InvalidHeaderValue));
    let user = UserData::from_headers(
        Some(Some("alice".to_string())),
        vec![
            Some("API_KEY=abc=def".to_string()),
            None,
            Some("novalue".to_string()),
            Some("REGION=eu".to_string()),
        ],
    )
    .unwrap()
    .unwrap();
    assert_eq!(user.name, "alice");
    assert_eq!(
        user.env,
        vec![
            ("API_KEY".to_string(), "abc=def".to_string()),
            ("REGION".to_string(), "eu".to_string()),
        ]
    );
}

#[test]
fn user_data_builders() {
    let u = UserData::new("bob");
    assert_eq!(u.name, "bob");
    assert!(u.env.is_empty());
    let u = u.with_env(vec![("K".to_string(), "V".to_string())]);
    assert_eq!(u.name, "bob");
    assert_eq!(u.env.len(), 1);
    assert_eq!(UserData::default().name, "");
}

#[test]
fn selected_profile_error_lists_names_in_order() {
    let mut p = Preferences::default();
    p.create_profile("zed".to_string());
    p.create_profile("alpha".to_string());
    match select_profile(&mut p, "nope") {
        Err(ScopeError::ProfileNotFound { valid, .. }) => {
            assert_eq!(valid, vec!["alpha".to_string(), "default".to_string(), "zed".to_string()]);
        }
        other => panic!("unexpected {other:?}"),
    }
}

#[test]
fn repeated_env_headers_keep_the_last_value() {
    let user = UserData::from_headers(
        Some(Some("carol".to_string())),
        vec![
            Some("ZONE=a".to_string()),
            Some("KEY=1".to_string()),
            Some("ZONE=b".to_string()),
        ],
    )
    .unwrap()
    .unwrap();
    assert_eq!(
        user.env,
        vec![("KEY".to_string(), "1".to_string()), ("ZONE".to_string(), "b".to_string())]
    );
    let u = UserData::new("d").with_env(vec![
        ("B".to_string(), "1".to_string()),
        ("A".to_string(), "2".to_string()),
        ("B".to_string(), "3".to_string()),
    ]);
    assert_eq!(u.env, vec![("A".to_string(), "2".to_string()), ("B".to_string(), "3".to_string())]);
}
