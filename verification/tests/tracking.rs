//! The change tracker and the confirmation diff.

use module_manager::changes::diff;
use module_manager::changes::ModificationType;
use module_manager::cmap::ConfigMap;
use module_manager::extract::build_defaults;
use module_manager::extract::extract_snapshot;
use module_manager::options::Module;
use module_manager::options::ModuleData;
use module_manager::options::ModuleOption;
use module_manager::options::OptionData;
use module_manager::options::OptionType;
use module_manager::tracker::Tracker;

fn switch_module() -> Module {
    Module {
        name: String::from("demo"),
        path: String::from("/etc/snowflakeos-modules/demo"),
        config: ModuleData {
            name: String::from("Demo"),
            id: String::from("demo"),
            description: None,
            version: String::from("1"),
            options: vec![OptionData {
                label: String::from("Enable"),
                id: String::from("a.b.enable"),
                description: None,
                op_type: OptionType::Switch { default: false },
            }],
            icon: None,
        },
    }
}

#[test]
fn new_option_enters_overlay_and_diff() {
    // Schema declares Switch a.b.enable with default false; the config
    // text has no such attribute, so the snapshot stays empty.
    let modules = vec![switch_module()];
    let snapshot = extract_snapshot("{ }\n", &modules);
    assert!(snapshot.is_empty());
    let defaults = build_defaults(&modules);
    let mut tracker = Tracker::new(snapshot, defaults);

    tracker.set(String::from("a.b.enable"), ModuleOption::Switch { value: true });
    assert_eq!(tracker.overlay.len(), 1);
    assert_eq!(
        tracker.overlay.get("a.b.enable"),
        Some(&ModuleOption::Switch { value: true })
    );
    assert!(tracker.is_dirty());

    let schemas = vec![modules[0].config.clone()];
    let groups = diff(&schemas, &tracker.snapshot, &tracker.overlay);
    assert_eq!(groups.len(), 1);
    assert_eq!(groups[0].label, "Demo");
    assert_eq!(groups[0].modifications.len(), 1);
    assert_eq!(groups[0].modifications[0].label, "Enable");
    match &groups[0].modifications[0].mod_type {
        ModificationType::New { value } => assert_eq!(value, "Enabled"),
        other => panic!("expected a new value, got {:?}", other),
    }
}

#[test]
fn setting_the_snapshot_value_is_elided() {
    // The snapshot already holds x.y = "foo"; setting the same value
    // must leave the overlay empty, not store a no-op.
    let mut snapshot = ConfigMap::new();
    snapshot.insert(String::from("x.y"), ModuleOption::Text { value: String::from("foo") });
    let mut tracker = Tracker::new(snapshot, ConfigMap::new());

    tracker.set(String::from("x.y"), ModuleOption::Text { value: String::from("foo") });
    assert!(tracker.overlay.is_empty());
    assert!(!tracker.is_dirty());
}

#[test]
fn undo_clears_the_pending_change() {
    let mut snapshot = ConfigMap::new();
    snapshot.insert(String::from("x.y"), ModuleOption::Text { value: String::from("foo") });
    let mut tracker = Tracker::new(snapshot, ConfigMap::new());

    tracker.set(String::from("x.y"), ModuleOption::Text { value: String::from("bar") });
    assert!(tracker.is_dirty());
    tracker.set(String::from("x.y"), ModuleOption::Text { value: String::from("foo") });
    assert!(!tracker.is_dirty());
    assert!(tracker.overlay.is_empty());
}

#[test]
fn setting_the_schema_default_is_elided() {
    // The attribute is absent from the snapshot; setting the schema
    // default is a no-op too.
    let modules = vec![switch_module()];
    let snapshot = extract_snapshot("{ }\n", &modules);
    let defaults = build_defaults(&modules);
    let mut tracker = Tracker::new(snapshot, defaults);

    tracker.set(String::from("a.b.enable"), ModuleOption::Switch { value: false });
    assert!(tracker.overlay.is_empty());
}

#[test]
fn diff_classifies_updates_with_both_forms() {
    let modules = vec![switch_module()];
    let mut snapshot = ConfigMap::new();
    snapshot.insert(String::from("a.b.enable"), ModuleOption::Switch { value: false });
    let defaults = build_defaults(&modules);
    let mut tracker = Tracker::new(snapshot, defaults);
    tracker.set(String::from("a.b.enable"), ModuleOption::Switch { value: true });

    let schemas = vec![modules[0].config.clone()];
    let groups = diff(&schemas, &tracker.snapshot, &tracker.overlay);
    assert_eq!(groups.len(), 1);
    match &groups[0].modifications[0].mod_type {
        ModificationType::Update { old_value, new_value } => {
            assert_eq!(old_value, "Disabled");
            assert_eq!(new_value, "Enabled");
        },
        other => panic!("expected an update, got {:?}", other),
    }
}

#[test]
fn modification_display_strings() {
    let new = ModificationType::New { value: String::from("Enabled") };
    assert_eq!(new.to_string(), "Enabled");
    let update = ModificationType::Update {
        old_value: String::from("Disabled"),
        new_value: String::from("Enabled"),
    };
    assert_eq!(update.to_string(), "Disabled → Enabled");
}

#[test]
fn config_map_keeps_one_entry_per_id() {
    let mut cm = ConfigMap::new();
    assert!(cm.is_empty());
    cm.insert(String::from("x"), ModuleOption::Switch { value: true });
    cm.insert(String::from("x"), ModuleOption::Switch { value: false });
    assert_eq!(cm.len(), 1);
    assert_eq!(cm.get("x"), Some(&ModuleOption::Switch { value: false }));
    assert!(cm.contains("x"));
    assert!(!cm.contains("y"));
    cm.remove("x");
    assert!(cm.is_empty());
    assert_eq!(cm.get("x"), None);
}

#[test]
fn pending_value_shadows_the_snapshot() {
    let mut snapshot = ConfigMap::new();
    snapshot.insert(String::from("x.y"), ModuleOption::Text { value: String::from("foo") });
    let mut tracker = Tracker::new(snapshot, ConfigMap::new());
    assert_eq!(
        tracker.pending_or_current("x.y"),
        Some(&ModuleOption::Text { value: String::from("foo") })
    );
    tracker.set(String::from("x.y"), ModuleOption::Text { value: String::from("bar") });
    assert_eq!(
        tracker.pending_or_current("x.y"),
        Some(&ModuleOption::Text { value: String::from("bar") })
    );
    assert_eq!(tracker.pending_or_current("unset"), None);
}

#[test]
fn reload_rebuilds_the_snapshot_from_scratch() {
    let modules = vec![switch_module()];
    let text = String::from("{\n  a.b.enable = true;\n}\n");
    let out = module_manager::extract::reload(text, modules);
    assert_eq!(out.moduleconfig, "{\n  a.b.enable = true;\n}\n");
    assert_eq!(out.modules.len(), 1);
    assert_eq!(
        out.current_config.get("a.b.enable"),
        Some(&ModuleOption::Switch { value: true })
    );
}

#[test]
fn diff_skips_modules_without_changes() {
    let modules = vec![switch_module()];
    let schemas = vec![modules[0].config.clone()];
    let snapshot = ConfigMap::new();
    let overlay = ConfigMap::new();
    let groups = diff(&schemas, &snapshot, &overlay);
    assert!(groups.is_empty());
}
