use roci_core::subagents::{
    ModelCandidate, SubagentKind, SubagentOverrides, SubagentProfile, SubagentProfileRegistry,
    ToolPolicy,
};

#[test]
fn resolve_finds_builtin_developer() {
    let reg = SubagentProfileRegistry::with_builtins();
    let profile = reg.resolve("builtin:developer").unwrap();
    assert_eq!(profile.name, "builtin:developer");
    assert!(profile.system_prompt.is_some());
    assert_eq!(profile.kind, Some(SubagentKind::Developer));
}

#[test]
fn resolve_finds_builtin_planner() {
    let reg = SubagentProfileRegistry::with_builtins();
    let profile = reg.resolve("builtin:planner").unwrap();
    assert_eq!(profile.name, "builtin:planner");
    assert_eq!(profile.kind, Some(SubagentKind::Planner));
}

#[test]
fn resolve_finds_builtin_explorer() {
    let reg = SubagentProfileRegistry::with_builtins();
    let profile = reg.resolve("builtin:explorer").unwrap();
    assert_eq!(profile.name, "builtin:explorer");
    assert_eq!(profile.kind, Some(SubagentKind::Explorer));
}

#[test]
fn resolve_missing_profile_errors() {
    let reg = SubagentProfileRegistry::new();
    let err = reg.resolve("does-not-exist").unwrap_err();
    assert!(err.message().contains("not found"));
}

#[test]
fn resolve_effective_applies_all_override_fields() {
    let reg = SubagentProfileRegistry::with_builtins();
    let overrides = SubagentOverrides {
        system_prompt: Some("Override prompt".into()),
        model: Some(ModelCandidate {
            provider: "openai".into(),
            model: "gpt-4o".into(),
            reasoning_effort: None,
        }),
        tools: Some(ToolPolicy::Replace {
            tools: vec!["read".into()],
        }),
        timeout_ms: Some(30_000),
    };
    let profile = reg
        .resolve_effective("builtin:developer", &overrides)
        .unwrap();
    assert_eq!(profile.system_prompt.as_deref(), Some("Override prompt"));
    assert_eq!(profile.models.len(), 1);
    assert_eq!(profile.models[0].provider, "openai");
    assert_eq!(
        profile.tools,
        ToolPolicy::Replace {
            tools: vec!["read".into()]
        }
    );
    assert_eq!(profile.default_timeout_ms, Some(30_000));
}

#[test]
fn resolve_effective_empty_overrides_is_identity() {
    let reg = SubagentProfileRegistry::with_builtins();
    let base = reg.resolve("builtin:developer").unwrap();
    let effective = reg
        .resolve_effective("builtin:developer", &SubagentOverrides::default())
        .unwrap();
    assert_eq!(base, effective);
}

#[test]
fn circular_inheritance_detected() {
    let mut reg = SubagentProfileRegistry::new();
    reg.register(SubagentProfile {
        name: "a".into(),
        inherits: Some("b".into()),
        ..Default::default()
    });
    reg.register(SubagentProfile {
        name: "b".into(),
        inherits: Some("a".into()),
        ..Default::default()
    });
    let err = reg.resolve("a").unwrap_err();
    assert!(err.message().contains("circular"));
}

#[test]
fn three_way_circular_inheritance_detected() {
    let mut reg = SubagentProfileRegistry::new();
    reg.register(SubagentProfile {
        name: "x".into(),
        inherits: Some("y".into()),
        ..Default::default()
    });
    reg.register(SubagentProfile {
        name: "y".into(),
        inherits: Some("z".into()),
        ..Default::default()
    });
    reg.register(SubagentProfile {
        name: "z".into(),
        inherits: Some("x".into()),
        ..Default::default()
    });
    let err = reg.resolve("x").unwrap_err();
    assert!(err.message().contains("circular"));
}

#[test]
fn single_parent_inheritance_child_scalars_win() {
    let mut reg = SubagentProfileRegistry::with_builtins();
    reg.register(SubagentProfile {
        name: "child".into(),
        inherits: Some("builtin:developer".into()),
        description: Some("Child desc".into()),
        models: vec![ModelCandidate {
            provider: "openai".into(),
            model: "gpt-4o".into(),
            reasoning_effort: None,
        }],
        ..Default::default()
    });
    let resolved = reg.resolve("child").unwrap();
    assert_eq!(resolved.name, "child");
    assert_eq!(resolved.description.as_deref(), Some("Child desc"));
    assert_eq!(resolved.models.len(), 1);
    assert_eq!(resolved.models[0].provider, "openai");
    assert!(resolved.system_prompt.unwrap().contains("coding"));
    assert!(resolved.inherits.is_none());
    assert_eq!(resolved.kind, Some(SubagentKind::Developer));
}

#[test]
fn recursive_inheritance_three_levels() {
    let mut reg = SubagentProfileRegistry::with_builtins();
    reg.register(SubagentProfile {
        name: "mid".into(),
        inherits: Some("builtin:developer".into()),
        description: Some("Middle layer".into()),
        default_timeout_ms: Some(5000),
        ..Default::default()
    });
    reg.register(SubagentProfile {
        name: "leaf".into(),
        inherits: Some("mid".into()),
        models: vec![ModelCandidate {
            provider: "anthropic".into(),
            model: "large-model-4".into(),
            reasoning_effort: None,
        }],
        ..Default::default()
    });
    let resolved = reg.resolve("leaf").unwrap();
    assert_eq!(resolved.name, "leaf");
    assert_eq!(resolved.description.as_deref(), Some("Middle layer"));
    assert_eq!(resolved.models[0].model, "large-model-4");
    assert!(resolved.system_prompt.is_some());
    assert_eq!(resolved.default_timeout_ms, Some(5000));
}

#[test]
fn missing_parent_reports_not_found() {
    let mut reg = SubagentProfileRegistry::new();
    reg.register(SubagentProfile {
        name: "orphan".into(),
        inherits: Some("absent-parent".into()),
        ..Default::default()
    });
    let err = reg.resolve("orphan").unwrap_err();
    assert_eq!(err.message(), "subagent profile not found: absent-parent");
}

#[test]
fn toml_override_replaces_builtin_field() {
    let mut reg = SubagentProfileRegistry::with_builtins();
    reg.register(SubagentProfile {
        name: "builtin:developer".into(),
        description: Some("Custom developer".into()),
        system_prompt: Some("Custom prompt".into()),
        ..Default::default()
    });
    let profile = reg.resolve("builtin:developer").unwrap();
    assert_eq!(profile.description.as_deref(), Some("Custom developer"));
    assert_eq!(profile.system_prompt.as_deref(), Some("Custom prompt"));
    assert_eq!(profile.version, 1);
}

#[test]
fn profile_version_defaults_to_1() {
    let mut reg = SubagentProfileRegistry::new();
    reg.register(SubagentProfile {
        name: "v-test".into(),
        ..Default::default()
    });
    let resolved = reg.resolve("v-test").unwrap();
    assert_eq!(resolved.version, 1);
}

#[test]
fn profile_version_from_toml() {
    let mut reg = SubagentProfileRegistry::new();
    reg.register(SubagentProfile {
        name: "v2-test".into(),
        version: 2,
        ..Default::default()
    });
    let resolved = reg.resolve("v2-test").unwrap();
    assert_eq!(resolved.version, 2);
}

#[test]
fn child_version_is_its_own() {
    let mut reg = SubagentProfileRegistry::with_builtins();
    reg.register(SubagentProfile {
        name: "child".into(),
        version: 3,
        inherits: Some("builtin:planner".into()),
        ..Default::default()
    });
    let resolved = reg.resolve("child").unwrap();
    assert_eq!(resolved.version, 3);
    assert_eq!(resolved.kind, Some(SubagentKind::Planner));
}
