//! The config writer and state extractor against the real text services.

use module_manager::cmap::ConfigMap;
use module_manager::extract::extract_snapshot;
use module_manager::options::EnumChoice;
use module_manager::options::Module;
use module_manager::options::ModuleData;
use module_manager::options::ModuleOption;
use module_manager::options::OptionData;
use module_manager::options::OptionType;
use module_manager::writer::serialize_changes;
use module_manager::writer::ModifyError;

fn demo_module() -> Module {
    Module {
        name: String::from("demo"),
        path: String::from("/etc/snowflakeos-modules/demo"),
        config: ModuleData {
            name: String::from("Demo"),
            id: String::from("demo"),
            description: Some(String::from("A demo module")),
            version: String::from("1"),
            options: vec![
                OptionData {
                    label: String::from("Enable"),
                    id: String::from("services.demo.enable"),
                    description: None,
                    op_type: OptionType::Switch { default: false },
                },
                OptionData {
                    label: String::from("Greeting"),
                    id: String::from("services.demo.greeting"),
                    description: None,
                    op_type: OptionType::Text { default: String::from("hi") },
                },
                OptionData {
                    label: String::from("Flavor"),
                    id: String::from("services.demo.flavor"),
                    description: None,
                    op_type: OptionType::Enum {
                        default: String::from("plain"),
                        options: vec![
                            EnumChoice {
                                key: String::from("plain"),
                                label: String::from("Plain"),
                            },
                            EnumChoice {
                                key: String::from("fancy"),
                                label: String::from("Fancy"),
                            },
                        ],
                    },
                },
                OptionData {
                    label: String::from("Ports"),
                    id: String::from("services.demo.ports"),
                    description: None,
                    op_type: OptionType::NumberList { default: vec![] },
                },
            ],
            icon: None,
        },
    }
}

const TEXT: &str = "{\n  services.demo.enable = true;\n  services.demo.greeting = \"hello\";\n  services.demo.flavor = fancy;\n  services.demo.ports = [ 80 443 ];\n}\n";

#[test]
fn snapshot_extraction_reads_every_declared_attribute() {
    let modules = vec![demo_module()];
    let snapshot = extract_snapshot(TEXT, &modules);
    assert_eq!(
        snapshot.get("services.demo.enable"),
        Some(&ModuleOption::Switch { value: true })
    );
    assert_eq!(
        snapshot.get("services.demo.greeting"),
        Some(&ModuleOption::Text { value: String::from("hello") })
    );
    assert_eq!(
        snapshot.get("services.demo.flavor"),
        Some(&ModuleOption::Enum {
            value: String::from("fancy"),
            pretty: String::from("Fancy"),
        })
    );
    assert_eq!(
        snapshot.get("services.demo.ports"),
        Some(&ModuleOption::NumberList { value: vec![80, 443] })
    );
}

#[test]
fn snapshot_skips_absent_and_undecodable_attributes() {
    let modules = vec![demo_module()];
    let text = "{\n  services.demo.enable = maybe;\n}\n";
    let snapshot = extract_snapshot(text, &modules);
    // The switch token does not decode and the others are absent.
    assert!(snapshot.get("services.demo.enable").is_none());
    assert!(snapshot.get("services.demo.greeting").is_none());
    assert!(snapshot.get("services.demo.ports").is_none());
}

#[test]
fn setoption_writes_a_valid_value() {
    let module = demo_module();
    let option = module.config.options[0].clone();
    let out = module.setoption(&option, "false", TEXT).expect("write should succeed");
    assert!(out.contains("services.demo.enable = false;"));
    assert!(!out.contains("services.demo.enable = true;"));
}

#[test]
fn setoption_rejects_a_bad_shape_before_touching_text() {
    let module = demo_module();
    let option = module.config.options[0].clone();
    assert_eq!(module.setoption(&option, "maybe", TEXT), Err(ModifyError::InvalidValue));
    let text_option = module.config.options[1].clone();
    assert_eq!(
        module.setoption(&text_option, "unquoted", TEXT),
        Err(ModifyError::InvalidValue)
    );
    let enum_option = module.config.options[2].clone();
    assert_eq!(
        module.setoption(&enum_option, "Odd", TEXT),
        Err(ModifyError::InvalidValue)
    );
}

#[test]
fn setoption_rejects_an_undeclared_attribute() {
    let module = demo_module();
    let foreign = OptionData {
        label: String::from("Other"),
        id: String::from("services.other.enable"),
        description: None,
        op_type: OptionType::Switch { default: false },
    };
    assert_eq!(module.setoption(&foreign, "true", TEXT), Err(ModifyError::OptionNotFound));
}

#[test]
fn setoption_surfaces_a_failed_write() {
    // Writing a plain literal over an attribute set is refused by the
    // text service; the writer reports it instead of mangling the text.
    let mut module = demo_module();
    module.config.options.push(OptionData {
        label: String::from("Whole set"),
        id: String::from("services"),
        description: None,
        op_type: OptionType::Switch { default: false },
    });
    let option = module.config.options.last().unwrap().clone();
    let text = "{\n  services = { x = 1; };\n}\n";
    assert_eq!(module.setoption(&option, "true", text), Err(ModifyError::WriteFailed));
}

#[test]
fn write_past_a_non_set_value_fails_cleanly() {
    // The editor crate panics when a dotted path extends past an
    // attribute whose value is not a set; the boundary turns that into
    // a failed write instead of a crash.
    let module = Module {
        name: String::from("deep"),
        path: String::from("/etc/snowflakeos-modules/deep"),
        config: ModuleData {
            name: String::from("Deep"),
            id: String::from("deep"),
            description: None,
            version: String::from("1"),
            options: vec![OptionData {
                label: String::from("Nested"),
                id: String::from("a.b.c"),
                description: None,
                op_type: OptionType::Switch { default: false },
            }],
            icon: None,
        },
    };
    let option = module.config.options[0].clone();
    assert_eq!(
        module.setoption(&option, "true", "{ a = 1; }\n"),
        Err(ModifyError::WriteFailed)
    );
}

#[test]
fn deref_past_a_non_set_value_fails_cleanly() {
    let module = Module {
        name: String::from("deep"),
        path: String::from("/etc/snowflakeos-modules/deep"),
        config: ModuleData {
            name: String::from("Deep"),
            id: String::from("deep"),
            description: None,
            version: String::from("1"),
            options: vec![OptionData {
                label: String::from("Nested"),
                id: String::from("a.b"),
                description: None,
                op_type: OptionType::Switch { default: false },
            }],
            icon: None,
        },
    };
    let option = module.config.options[0].clone();
    assert_eq!(
        module.deref_option(&option, "{ a = 1; }\n"),
        Err(ModifyError::WriteFailed)
    );
}

#[test]
fn extraction_survives_degenerate_config_text() {
    // An `inherit` entry below the queried attribute trips the editor's
    // child-count arithmetic; the attribute is simply absent from the
    // snapshot.
    let module = Module {
        name: String::from("odd"),
        path: String::from("/etc/snowflakeos-modules/odd"),
        config: ModuleData {
            name: String::from("Odd"),
            id: String::from("odd"),
            description: None,
            version: String::from("1"),
            options: vec![OptionData {
                label: String::from("A"),
                id: String::from("a"),
                description: None,
                op_type: OptionType::Switch { default: false },
            }],
            icon: None,
        },
    };
    let snapshot = extract_snapshot("{ a = { inherit b; }; }\n", &vec![module]);
    assert!(snapshot.get("a").is_none());
}

#[test]
fn enum_labels_with_odd_openings_are_written() {
    // Any declared label that does not open an attribute-set literal
    // passes validation and is written verbatim.
    let mut module = demo_module();
    module.config.options.push(OptionData {
        label: String::from("Marker"),
        id: String::from("services.demo.marker"),
        description: None,
        op_type: OptionType::Enum {
            default: String::from("paren"),
            options: vec![EnumChoice {
                key: String::from("paren"),
                label: String::from("(x)"),
            }],
        },
    });
    let option = module.config.options.last().unwrap().clone();
    let out = module.setoption(&option, "(x)", TEXT).expect("write should succeed");
    assert!(out.contains("(x)"));
}

#[test]
fn attrset_literals_are_written_through() {
    // A declared label that opens an attribute-set literal passes the
    // shape check and is written; the result is still canonically
    // formatted, though its exact text carries no stronger promise.
    let mut module = demo_module();
    module.config.options.push(OptionData {
        label: String::from("Inline set"),
        id: String::from("services.demo.inline"),
        description: None,
        op_type: OptionType::Enum {
            default: String::from("set"),
            options: vec![EnumChoice {
                key: String::from("set"),
                label: String::from("{ x = 1; }"),
            }],
        },
    });
    let option = module.config.options.last().unwrap().clone();
    let out = module.setoption(&option, "{ x = 1; }", TEXT).expect("write should succeed");
    assert!(out.contains("x = 1"));
}

#[test]
fn serialization_never_skips_an_attrset_valued_entry() {
    let mut overlay = ConfigMap::new();
    overlay.insert(
        String::from("services.demo.extra"),
        ModuleOption::Enum {
            value: String::from("{ y = 2; }"),
            pretty: String::from("Inline"),
        },
    );
    let out = serialize_changes(TEXT, &overlay).expect("serialization should succeed");
    assert!(out.contains("y = 2"));
    assert!(out.contains("services.demo.enable = true;"));
}

#[test]
fn deref_removes_the_attribute() {
    let module = demo_module();
    let option = module.config.options[1].clone();
    let out = module.deref_option(&option, TEXT).expect("removal should succeed");
    assert!(!out.contains("services.demo.greeting"));
    assert!(out.contains("services.demo.enable = true;"));
}

#[test]
fn enable_writes_the_enable_attribute() {
    let module = demo_module();
    let out = module.enable(false, TEXT).expect("enable should succeed");
    assert!(out.contains("services.demo.enable = false;"));
}

#[test]
fn serialize_changes_writes_every_pending_value() {
    let mut overlay = ConfigMap::new();
    overlay.insert(
        String::from("services.demo.greeting"),
        ModuleOption::Text { value: String::from("bye") },
    );
    overlay.insert(
        String::from("services.demo.ports"),
        ModuleOption::NumberList { value: vec![8080, 443, 8080] },
    );
    let out = serialize_changes(TEXT, &overlay).expect("serialization should succeed");
    assert!(out.contains("services.demo.greeting = \"bye\";"));
    // The pending list is serialized canonically: ascending, without
    // the duplicate, space-separated.
    assert!(out.contains("services.demo.ports = [ 443 8080 ];"));
    assert!(out.contains("services.demo.enable = true;"));
}

#[test]
fn reformatting_is_idempotent() {
    // serialize_changes with an empty overlay only reformats; doing it
    // twice must give the same text as doing it once.
    let messy = "{   services.demo.enable   =true;\n\n\n  services.demo.ports=[ 1 2   3];}";
    let empty = ConfigMap::new();
    let once = serialize_changes(messy, &empty).expect("reformat should succeed");
    let twice = serialize_changes(&once, &empty).expect("reformat should succeed");
    assert_eq!(once, twice);
}

#[test]
fn remove_options_strips_the_whole_module() {
    let module = demo_module();
    let (out, complete) = module.remove_options(TEXT);
    assert!(complete);
    assert!(!out.contains("services.demo.enable"));
    assert!(!out.contains("services.demo.greeting"));
    assert!(!out.contains("services.demo.flavor"));
    assert!(!out.contains("services.demo.ports"));
}
