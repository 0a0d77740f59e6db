use dotstrap::action::{FileOperation, PackageOperation, ScriptOperation, SystemAction};
use dotstrap::record::{
    deserialize_action, deserialize_actions, field, field_value, serialize_action,
    serialize_actions, Field,
};

fn pairs(record: &[Field]) -> Vec<(&str, &str)> {
    record
        .iter()
        .map(|field| (field.key.as_str(), field.value.as_str()))
        .collect()
}

fn record(fields: &[(&str, &str)]) -> Vec<Field> {
    fields.iter().map(|(key, value)| field(key, value)).collect()
}

fn sample() -> Vec<SystemAction> {
    vec![
        SystemAction::Package {
            operation: PackageOperation::Install,
            source: "os".to_string(),
            name: "vim git".to_string(),
            origin: "hosts/desk".to_string(),
        },
        SystemAction::Package {
            operation: PackageOperation::Uninstall,
            source: "flatpak".to_string(),
            name: "type".to_string(),
            origin: "".to_string(),
        },
        SystemAction::Script {
            operation: ScriptOperation::Run,
            script: "echo \"hi\"\nexit 0\n".to_string(),
            origin: "packages/zsh:post_install".to_string(),
        },
        SystemAction::File {
            operation: FileOperation::Link,
            src: "zshrc".to_string(),
            dest: "/home/u/.zshrc".to_string(),
            origin: "packages/zsh".to_string(),
        },
        SystemAction::File {
            operation: FileOperation::Copy,
            src: "a".to_string(),
            dest: "b".to_string(),
            origin: "c".to_string(),
        },
        SystemAction::File {
            operation: FileOperation::Remove,
            src: "".to_string(),
            dest: "/gone".to_string(),
            origin: "packages/old".to_string(),
        },
    ]
}

#[test]
fn an_action_is_kept_under_stable_names() {
    let actions = sample();
    assert_eq!(
        pairs(&serialize_action(&actions[0])),
        vec![
            ("type", "Package"),
            ("operation", "Install"),
            ("source", "os"),
            ("name", "vim git"),
            ("origin", "hosts/desk"),
        ]
    );
    assert_eq!(
        pairs(&serialize_action(&actions[2])),
        vec![
            ("type", "Script"),
            ("operation", "Run"),
            ("script", "echo \"hi\"\nexit 0\n"),
            ("origin", "packages/zsh:post_install"),
        ]
    );
    assert_eq!(
        pairs(&serialize_action(&actions[5])),
        vec![
            ("type", "File"),
            ("operation", "Remove"),
            ("src", ""),
            ("dest", "/gone"),
            ("origin", "packages/old"),
        ]
    );
}

#[test]
fn what_is_read_back_is_what_was_kept() {
    let actions = sample();
    for action in &actions {
        assert_eq!(deserialize_action(&serialize_action(action)), Some(action.clone()));
    }
    assert_eq!(deserialize_actions(&serialize_actions(&actions)), Some(actions));
    assert_eq!(deserialize_actions(&serialize_actions(&vec![])), Some(vec![]));
}

#[test]
fn fields_are_found_by_name_in_any_order() {
    let shuffled = record(&[
        ("origin", "hosts/desk"),
        ("extra", "ignored"),
        ("name", "vim"),
        ("type", "Package"),
        ("source", "os"),
        ("operation", "Uninstall"),
        ("name", "second"),
    ]);
    assert_eq!(
        deserialize_action(&shuffled),
        Some(SystemAction::Package {
            operation: PackageOperation::Uninstall,
            source: "os".to_string(),
            name: "vim".to_string(),
            origin: "hosts/desk".to_string(),
        })
    );
    assert_eq!(field_value(&shuffled, "name"), Some(&"vim".to_string()));
    assert_eq!(field_value(&shuffled, "absent"), None);
}

#[test]
fn a_record_that_is_no_action_is_not_read() {
    let broken = [
        record(&[]),
        record(&[("type", "Package"), ("operation", "Install"), ("source", "os"), ("name", "x")]),
        record(&[("type", "Package"), ("operation", "Run"), ("source", "os"), ("name", "x"), ("origin", "o")]),
        record(&[("type", "Script"), ("operation", "Install"), ("script", "x"), ("origin", "o")]),
        record(&[("type", "File"), ("operation", "Link"), ("src", "a"), ("origin", "o")]),
        record(&[("type", "Other"), ("operation", "Run"), ("script", "x"), ("origin", "o")]),
        record(&[("operation", "Run"), ("script", "x"), ("origin", "o")]),
        record(&[("type", "package"), ("operation", "Install"), ("source", "os"), ("name", "x"), ("origin", "o")]),
    ];
    for fields in broken {
        assert_eq!(deserialize_action(&fields), None);
    }
    let mut records = serialize_actions(&sample());
    records.insert(2, record(&[("type", "Script")]));
    assert_eq!(deserialize_actions(&records), None);
}

fn to_yaml(actions: &Vec<SystemAction>) -> String {
    let mut mappings: Vec<serde_yaml::Mapping> = vec![];
    for record in serialize_actions(actions) {
        let mut mapping = serde_yaml::Mapping::new();
        for entry in record {
            mapping.insert(
                serde_yaml::Value::String(entry.key),
                serde_yaml::Value::String(entry.value),
            );
        }
        mappings.push(mapping);
    }
    serde_yaml::to_string(&mappings).unwrap()
}

fn from_yaml(text: &str) -> Option<Vec<SystemAction>> {
    let mappings: Vec<serde_yaml::Mapping> = serde_yaml::from_str(text).unwrap();
    let mut records = vec![];
    for mapping in mappings.iter() {
        let mut fields = vec![];
        for (key, value) in mapping.iter() {
            fields.push(field(key.as_str().unwrap(), value.as_str().unwrap()));
        }
        records.push(fields);
    }
    deserialize_actions(&records)
}

#[test]
fn the_records_make_a_list_of_tagged_documents() {
    let actions = vec![
        SystemAction::Package {
            operation: PackageOperation::Install,
            source: "os".to_string(),
            name: "vim git".to_string(),
            origin: "hosts/desk".to_string(),
        },
        SystemAction::File {
            operation: FileOperation::Link,
            src: "zshrc".to_string(),
            dest: "/home/u/.zshrc".to_string(),
            origin: "packages/zsh".to_string(),
        },
    ];
    assert_eq!(
        to_yaml(&actions),
        "- type: Package\n  operation: Install\n  source: os\n  name: vim git\n  origin: hosts/desk\n- type: File\n  operation: Link\n  src: zshrc\n  dest: /home/u/.zshrc\n  origin: packages/zsh\n"
    );
}

#[test]
fn the_text_of_the_records_reads_back() {
    let mut actions = sample();
    actions.push(SystemAction::Package {
        operation: PackageOperation::Install,
        source: "123".to_string(),
        name: "true".to_string(),
        origin: "~".to_string(),
    });
    actions.push(SystemAction::Script {
        operation: ScriptOperation::Run,
        script: "  # indented: yes\n\techo 'a' \"b\"\n".to_string(),
        origin: "- x".to_string(),
    });
    assert_eq!(from_yaml(&to_yaml(&actions)), Some(actions));
    assert_eq!(from_yaml(&to_yaml(&vec![])), Some(vec![]));
    assert_eq!(
        from_yaml("- operation: Run\n  origin: hosts/desk:post_install\n  type: Script\n  script: |\n    echo hi\n"),
        Some(vec![SystemAction::Script {
            operation: ScriptOperation::Run,
            script: "echo hi\n".to_string(),
            origin: "hosts/desk:post_install".to_string(),
        }])
    );
}
