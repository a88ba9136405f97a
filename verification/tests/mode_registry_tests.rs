use macp_runtime::mode::{extension_mode_names, standard_mode_names};
use macp_runtime::mode_registry::{
    ModeConformanceProvider, ModeDescriptorProvider, ModeRegistry, ModeSchemaProvider, StaticModeConformanceProvider,
    StaticModeDescriptorProvider, StaticModeSchemaProvider,
};
use macp_runtime::pb::ModeDescriptor;

fn descriptor(mode: &str, message_types: &[&str], terminal: &[&str]) -> ModeDescriptor {
    ModeDescriptor {
        mode: mode.into(),
        mode_version: "1.0.0".into(),
        title: String::new(),
        description: String::new(),
        determinism_class: String::new(),
        participant_model: String::new(),
        message_types: message_types.iter().map(|s| s.to_string()).collect(),
        terminal_message_types: terminal.iter().map(|s| s.to_string()).collect(),
        schema_uris: vec![],
    }
}

#[test]
fn build_default_contains_all_standard_modes() {
    let registry = ModeRegistry::build_default();
    for name in standard_mode_names() {
        assert!(registry.get_mode(name).is_some(), "missing mode: {name}");
        assert!(registry.is_standard_mode(name));
        assert!(registry.requires_strict_session_start(name));
    }
}

#[test]
fn build_default_contains_multi_round_as_extension() {
    let registry = ModeRegistry::build_default();
    assert!(registry.get_mode("ext.multi_round.v1").is_some());
    assert!(!registry.is_standard_mode("ext.multi_round.v1"));
    assert!(registry.requires_strict_session_start("ext.multi_round.v1"));
}

#[test]
fn standard_mode_names_returns_five() {
    let registry = ModeRegistry::build_default();
    assert_eq!(registry.standard_mode_names().len(), 5);
}

#[test]
fn standard_mode_descriptors_returns_five() {
    let registry = ModeRegistry::build_default();
    assert_eq!(registry.standard_mode_descriptors().len(), 5);
}

#[test]
fn all_mode_names_returns_six() {
    let registry = ModeRegistry::build_default();
    assert_eq!(registry.all_mode_names().len(), 6);
}

#[test]
fn extension_mode_names_returns_one() {
    let registry = ModeRegistry::build_default();
    let ext = registry.extension_mode_names();
    assert_eq!(ext.len(), 1);
    assert!(ext.contains(&"ext.multi_round.v1".to_string()));
}

#[test]
fn extension_mode_descriptors_returns_one() {
    let registry = ModeRegistry::build_default();
    let descs = registry.extension_mode_descriptors();
    assert_eq!(descs.len(), 1);
    assert_eq!(descs[0].mode, "ext.multi_round.v1");
}

#[test]
fn unknown_mode_returns_none() {
    let registry = ModeRegistry::build_default();
    assert!(registry.get_mode("nonexistent").is_none());
    assert!(!registry.is_standard_mode("nonexistent"));
    assert!(!registry.requires_strict_session_start("nonexistent"));
}

#[test]
fn register_extension_mode() {
    let mut registry = ModeRegistry::build_default();
    let mut d = descriptor("ext.custom.v1", &["SessionStart", "CustomMsg", "Commitment"], &["Commitment"]);
    d.title = "Custom Mode".into();
    d.description = "Test custom mode".into();
    registry.register_extension(d).unwrap();
    assert!(registry.get_mode("ext.custom.v1").is_some());
    assert!(!registry.is_standard_mode("ext.custom.v1"));
    assert_eq!(registry.all_mode_names().len(), 7);
    assert_eq!(registry.extension_mode_names().len(), 2);
}

#[test]
fn register_rejects_macp_namespace() {
    let mut registry = ModeRegistry::build_default();
    let d = descriptor("macp.mode.evil.v1", &["SessionStart", "Commitment"], &[]);
    assert!(registry.register_extension(d).is_err());
}

#[test]
fn register_rejects_empty_message_types() {
    let mut registry = ModeRegistry::build_default();
    let d = descriptor("ext.invalid.v1", &[], &[]);
    assert!(registry.register_extension(d).is_err());
}

#[test]
fn register_rejects_terminal_not_in_message_types() {
    let mut registry = ModeRegistry::build_default();
    let d = descriptor("ext.invalid.v1", &["SessionStart", "Custom"], &["Commitment"]);
    assert!(registry.register_extension(d).is_err());
}

#[test]
fn register_rejects_duplicate() {
    let mut registry = ModeRegistry::build_default();
    let d = descriptor("ext.multi_round.v1", &["SessionStart", "Commitment"], &[]);
    assert!(registry.register_extension(d).is_err());
}

#[test]
fn unregister_extension_mode() {
    let mut registry = ModeRegistry::build_default();
    let d = descriptor("ext.temp.v1", &["SessionStart", "Commitment"], &[]);
    registry.register_extension(d).unwrap();
    assert_eq!(registry.all_mode_names().len(), 7);
    registry.unregister_extension("ext.temp.v1").unwrap();
    assert_eq!(registry.all_mode_names().len(), 6);
    assert!(registry.get_mode("ext.temp.v1").is_none());
}

#[test]
fn cannot_unregister_builtin() {
    let mut registry = ModeRegistry::build_default();
    assert!(registry.unregister_extension("ext.multi_round.v1").is_err());
    assert!(registry.unregister_extension("macp.mode.decision.v1").is_err());
}

#[test]
fn promote_extension_to_standard() {
    let mut registry = ModeRegistry::build_default();
    let d = descriptor("ext.new.v1", &["SessionStart", "Commitment"], &["Commitment"]);
    registry.register_extension(d).unwrap();
    assert!(!registry.is_standard_mode("ext.new.v1"));
    assert!(!registry.requires_strict_session_start("ext.new.v1"));
    let final_name = registry.promote_mode("ext.new.v1", Some("macp.mode.new.v1")).unwrap();
    assert_eq!(final_name, "macp.mode.new.v1");
    assert!(registry.is_standard_mode("macp.mode.new.v1"));
    assert!(registry.requires_strict_session_start("macp.mode.new.v1"));
    assert!(registry.get_mode("ext.new.v1").is_none());
    assert!(registry.get_mode("macp.mode.new.v1").is_some());
}

#[test]
fn promote_without_rename() {
    let mut registry = ModeRegistry::build_default();
    let d = descriptor("ext.keep.v1", &["SessionStart", "Commitment"], &["Commitment"]);
    registry.register_extension(d).unwrap();
    let final_name = registry.promote_mode("ext.keep.v1", None).unwrap();
    assert_eq!(final_name, "ext.keep.v1");
    assert!(registry.is_standard_mode("ext.keep.v1"));
    assert!(registry.requires_strict_session_start("ext.keep.v1"));
}

#[test]
fn promoted_mode_appears_in_standard_mode_names_and_descriptors() {
    let mut registry = ModeRegistry::build_default();
    let mut d = descriptor("ext.promoted.v1", &["SessionStart", "Commitment"], &["Commitment"]);
    d.title = "Promoted".into();
    registry.register_extension(d).unwrap();
    registry.promote_mode("ext.promoted.v1", Some("macp.mode.promoted.v1")).unwrap();
    let standard_names = registry.standard_mode_names();
    assert!(standard_names.contains(&"macp.mode.promoted.v1".to_string()));
    let standard_modes: Vec<String> =
        registry.standard_mode_descriptors().into_iter().map(|d| d.mode).collect();
    assert!(standard_modes.contains(&"macp.mode.promoted.v1".to_string()));
}

#[test]
fn promote_already_standard_fails() {
    let mut registry = ModeRegistry::build_default();
    assert!(registry.promote_mode("macp.mode.decision.v1", None).is_err());
}

#[test]
fn extension_names_constant_matches() {
    for name in extension_mode_names() {
        let registry = ModeRegistry::build_default();
        assert!(registry.get_mode(name).is_some(), "extension name missing from registry: {name}");
    }
}

#[test]
fn conformance_catalog_exposes_builtin_fixture_sets() {
    let registry = ModeRegistry::build_default();
    let catalog = registry.all_mode_conformance();
    let decision = catalog
        .into_iter()
        .find(|(name, _)| name == "macp.mode.decision.v1")
        .expect("decision catalog should exist");
    assert_eq!(decision.1.fixture_set_name, "decision");
    assert!(decision.1.conformance_fixture_paths.iter().any(|path| path.ends_with("decision_happy_path.json")));
}

#[test]
fn register_then_unregister_restores_mode_names() {
    let mut registry = ModeRegistry::build_default();
    let before = registry.all_mode_names();
    registry.register_extension(descriptor("ext.round.v1", &["SessionStart", "Commitment"], &["Commitment"])).unwrap();
    registry.unregister_extension("ext.round.v1").unwrap();
    assert_eq!(registry.all_mode_names(), before);
}

#[test]
fn unregister_unknown_mode_reports_not_found() {
    let mut registry = ModeRegistry::build_default();
    assert_eq!(registry.unregister_extension("ext.none.v1").unwrap_err(), "mode 'ext.none.v1' not found");
}

#[test]
fn static_providers_publish_what_they_hold() {
    let d = descriptor("ext.custom.v1", &["Custom", "Commitment"], &["Commitment"]);
    let provider = StaticModeDescriptorProvider::new(Some(d));
    let published = provider.descriptor().unwrap();
    assert_eq!(published.mode, "ext.custom.v1");
    assert_eq!(published.message_types, vec!["Custom".to_string(), "Commitment".to_string()]);
    assert!(StaticModeDescriptorProvider::new(None).descriptor().is_none());

    let schemas = StaticModeSchemaProvider::new(vec![("payload".into(), "https://schemas/x.json".into())]);
    assert_eq!(schemas.schema_uris(), vec![("payload".to_string(), "https://schemas/x.json".to_string())]);

    let conformance = StaticModeConformanceProvider::new("fixtures-a", vec!["golden/a.json"], vec!["conf/a.json", "conf/b.json"]);
    assert_eq!(conformance.fixture_set_name(), "fixtures-a");
    assert_eq!(conformance.golden_transcript_paths(), vec!["golden/a.json"]);
    assert_eq!(conformance.conformance_fixture_paths(), vec!["conf/a.json", "conf/b.json"]);
}

#[test]
fn unregister_extension_undoes_register() {
    let mut registry = ModeRegistry::build_default();
    let before = registry.all_mode_names();
    registry.register_extension(descriptor("ext.round_trip.v1", &["Custom", "Commitment"], &["Commitment"])).unwrap();
    assert!(registry.get_mode("ext.round_trip.v1").is_some());
    registry.unregister_extension("ext.round_trip.v1").unwrap();
    assert_eq!(registry.all_mode_names(), before);
    assert!(registry.get_mode("ext.round_trip.v1").is_none());
}

#[test]
fn all_mode_names_come_sorted() {
    let registry = ModeRegistry::build_default();
    assert_eq!(
        registry.all_mode_names(),
        vec![
            "ext.multi_round.v1".to_string(),
            "macp.mode.decision.v1".into(),
            "macp.mode.handoff.v1".into(),
            "macp.mode.proposal.v1".into(),
            "macp.mode.quorum.v1".into(),
            "macp.mode.task.v1".into(),
        ]
    );
    let mut registry = registry;
    registry.register_extension(descriptor("ext.alpha.v1", &["SessionStart", "Commitment"], &["Commitment"])).unwrap();
    let names = registry.all_mode_names();
    assert_eq!(names[0], "ext.alpha.v1");
    assert_eq!(names.len(), 7);
    registry.unregister_extension("ext.alpha.v1").unwrap();
    assert_eq!(registry.all_mode_names().len(), 6);
}

#[test]
fn standard_descriptors_are_stated_in_full() {
    let descriptors = macp_runtime::mode::standard_mode_descriptors();
    let decision = &descriptors[0];
    assert_eq!(decision.title, "Decision Mode");
    assert_eq!(decision.determinism_class, "semantic-deterministic");
    assert_eq!(decision.participant_model, "declared");
    assert_eq!(
        decision.message_types,
        vec!["SessionStart", "Proposal", "Evaluation", "Objection", "Vote", "Commitment"]
    );
    assert_eq!(descriptors[3].determinism_class, "context-frozen");
    assert_eq!(descriptors[3].participant_model, "delegated");
    for d in &descriptors {
        assert_eq!(d.mode_version, "1.0.0");
        assert_eq!(d.terminal_message_types, vec!["Commitment".to_string()]);
        assert_eq!(
            d.schema_uris,
            vec![("protobuf".to_string(), "buf.build/multiagentcoordinationprotocol/macp".to_string())]
        );
    }
}
