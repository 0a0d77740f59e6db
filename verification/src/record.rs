//! The form in which actions are kept between runs.
//!
//! An action is kept as a list of named texts: its kind under `type`, its
//! operation under `operation`, and each of its fields under the field's name.
//! What is read back from the record of an action is that action.

use crate::action::{ActionView, FileOperation, PackageOperation, ScriptOperation, SystemAction};
use vstd::prelude::*;

verus! {

/// A named text.
#[derive(Debug)]
pub struct Field {
    pub key: String,
    pub value: String,
}

/// The mathematical value of a [`Field`].
pub ghost struct FieldView {
    pub key: Seq<char>,
    pub value: Seq<char>,
}

impl View for Field {
    type V = FieldView;

    open spec fn view(&self) -> FieldView {
        FieldView { key: self.key@, value: self.value@ }
    }
}

impl DeepView for Field {
    type V = FieldView;

    open spec fn deep_view(&self) -> FieldView {
        self@
    }
}

/// The field that names `value` by `key`.
pub open spec fn named(key: Seq<char>, value: Seq<char>) -> FieldView {
    FieldView { key, value }
}

/// The name under which a package operation is kept.
pub open spec fn package_operation_name(operation: PackageOperation) -> Seq<char> {
    match operation {
        PackageOperation::Install => "Install"@,
        PackageOperation::Uninstall => "Uninstall"@,
    }
}

/// The name under which a file operation is kept.
pub open spec fn file_operation_name(operation: FileOperation) -> Seq<char> {
    match operation {
        FileOperation::Link => "Link"@,
        FileOperation::Copy => "Copy"@,
        FileOperation::Remove => "Remove"@,
    }
}

/// The record of an action.
pub open spec fn record_of(action: ActionView) -> Seq<FieldView> {
    match action {
        ActionView::Package { operation, source, name, origin } => seq![
            named("type"@, "Package"@),
            named("operation"@, package_operation_name(operation)),
            named("source"@, source),
            named("name"@, name),
            named("origin"@, origin),
        ],
        ActionView::Script { operation, script, origin } => seq![
            named("type"@, "Script"@),
            named("operation"@, "Run"@),
            named("script"@, script),
            named("origin"@, origin),
        ],
        ActionView::File { operation, src, dest, origin } => seq![
            named("type"@, "File"@),
            named("operation"@, file_operation_name(operation)),
            named("src"@, src),
            named("dest"@, dest),
            named("origin"@, origin),
        ],
    }
}

/// The text that the first field of this name holds, if there is such a field.
pub open spec fn value_of(record: Seq<FieldView>, key: Seq<char>) -> Option<Seq<char>>
    decreases record.len(),
{
    if record.len() == 0 {
        None
    } else if record[0].key == key {
        Some(record[0].value)
    } else {
        value_of(record.skip(1), key)
    }
}

/// The package operation kept under `name`, if it is the name of one.
pub open spec fn package_operation_of(name: Option<Seq<char>>) -> Option<PackageOperation> {
    if name == Some("Install"@) {
        Some(PackageOperation::Install)
    } else if name == Some("Uninstall"@) {
        Some(PackageOperation::Uninstall)
    } else {
        None
    }
}

/// The script operation kept under `name`, if it is the name of one.
pub open spec fn script_operation_of(name: Option<Seq<char>>) -> Option<ScriptOperation> {
    if name == Some("Run"@) {
        Some(ScriptOperation::Run)
    } else {
        None
    }
}

/// The file operation kept under `name`, if it is the name of one.
pub open spec fn file_operation_of(name: Option<Seq<char>>) -> Option<FileOperation> {
    if name == Some("Link"@) {
        Some(FileOperation::Link)
    } else if name == Some("Copy"@) {
        Some(FileOperation::Copy)
    } else if name == Some("Remove"@) {
        Some(FileOperation::Remove)
    } else {
        None
    }
}

/// The action that a record stands for: the kind that `type` names, with the
/// operation and the fields that this kind has. A record that lacks one of
/// them, or names a kind or an operation that does not exist, stands for none.
/// Fields of other names are passed over.
pub open spec fn action_of(record: Seq<FieldView>) -> Option<ActionView> {
    let kind = value_of(record, "type"@);
    let operation = value_of(record, "operation"@);
    let origin = value_of(record, "origin"@);
    if kind == Some("Package"@) {
        let source = value_of(record, "source"@);
        let name = value_of(record, "name"@);
        if package_operation_of(operation) is Some && source is Some && name is Some
            && origin is Some {
            Some(
                ActionView::Package {
                    operation: package_operation_of(operation).unwrap(),
                    source: source.unwrap(),
                    name: name.unwrap(),
                    origin: origin.unwrap(),
                },
            )
        } else {
            None
        }
    } else if kind == Some("Script"@) {
        let script = value_of(record, "script"@);
        if script_operation_of(operation) is Some && script is Some && origin is Some {
            Some(
                ActionView::Script {
                    operation: script_operation_of(operation).unwrap(),
                    script: script.unwrap(),
                    origin: origin.unwrap(),
                },
            )
        } else {
            None
        }
    } else if kind == Some("File"@) {
        let src = value_of(record, "src"@);
        let dest = value_of(record, "dest"@);
        if file_operation_of(operation) is Some && src is Some && dest is Some && origin is Some {
            Some(
                ActionView::File {
                    operation: file_operation_of(operation).unwrap(),
                    src: src.unwrap(),
                    dest: dest.unwrap(),
                    origin: origin.unwrap(),
                },
            )
        } else {
            None
        }
    } else {
        None
    }
}

/// The records of a list of actions, in order.
pub open spec fn records_of(actions: Seq<ActionView>) -> Seq<Seq<FieldView>> {
    actions.map_values(|action: ActionView| record_of(action))
}

/// The actions that a list of records stands for, in order; none if one of the
/// records stands for no action.
pub open spec fn actions_of(records: Seq<Seq<FieldView>>) -> Option<Seq<ActionView>>
    decreases records.len(),
{
    if records.len() == 0 {
        Some(Seq::empty())
    } else {
        match (actions_of(records.drop_last()), action_of(records.last())) {
            (Some(before), Some(action)) => Some(before.push(action)),
            _ => None,
        }
    }
}

/// What the names of fields, kinds and operations spell. No two names that
/// stand side by side are the same.
pub proof fn lemma_names_differ()
    ensures
        "type"@ != "operation"@,
        "type"@ != "source"@,
        "type"@ != "name"@,
        "type"@ != "origin"@,
        "type"@ != "script"@,
        "type"@ != "src"@,
        "type"@ != "dest"@,
        "operation"@ != "source"@,
        "operation"@ != "name"@,
        "operation"@ != "origin"@,
        "operation"@ != "script"@,
        "operation"@ != "src"@,
        "operation"@ != "dest"@,
        "source"@ != "name"@,
        "source"@ != "origin"@,
        "name"@ != "origin"@,
        "script"@ != "origin"@,
        "src"@ != "dest"@,
        "src"@ != "origin"@,
        "dest"@ != "origin"@,
        "Package"@ != "Script"@,
        "Package"@ != "File"@,
        "Script"@ != "File"@,
        "Install"@ != "Uninstall"@,
        "Link"@ != "Copy"@,
        "Link"@ != "Remove"@,
        "Copy"@ != "Remove"@,
{
    reveal_strlit("type");
    reveal_strlit("operation");
    reveal_strlit("source");
    reveal_strlit("name");
    reveal_strlit("origin");
    reveal_strlit("script");
    reveal_strlit("src");
    reveal_strlit("dest");
    reveal_strlit("Package");
    reveal_strlit("Script");
    reveal_strlit("File");
    reveal_strlit("Install");
    reveal_strlit("Uninstall");
    reveal_strlit("Link");
    reveal_strlit("Copy");
    reveal_strlit("Remove");
    assert("operation"@.len() == 9);
    assert("origin"@.len() == 6);
    assert("source"@.len() == 6);
    assert("script"@.len() == 6);
    assert("type"@.len() == 4);
    assert("name"@.len() == 4);
    assert("dest"@.len() == 4);
    assert("src"@.len() == 3);
    assert("Package"@.len() == 7);
    assert("Script"@.len() == 6);
    assert("File"@.len() == 4);
    assert("Install"@.len() == 7);
    assert("Uninstall"@.len() == 9);
    assert("Link"@.len() == 4);
    assert("Copy"@.len() == 4);
    assert("Remove"@.len() == 6);
    assert("type"@[0] != "name"@[0]);
    assert("type"@[0] != "dest"@[0]);
    assert("source"@[0] != "origin"@[0]);
    assert("script"@[0] != "origin"@[0]);
    assert("name"@[0] != "dest"@[0]);
    assert("Link"@[0] != "Copy"@[0]);
    assert("Link"@[0] != "File"@[0]);
    assert("Copy"@[0] != "File"@[0]);
    assert("Script"@[0] != "Remove"@[0]);
}

/// What is read back from the record of an action is that action.
pub proof fn lemma_record_round_trip(action: ActionView)
    ensures
        action_of(record_of(action)) == Some(action),
{
    lemma_names_differ();
    reveal_with_fuel(value_of, 6);
    let record = record_of(action);
    assert(record.skip(1).skip(1) =~= record.skip(2));
    assert(record.skip(2).skip(1) =~= record.skip(3));
    assert(record.skip(3).skip(1) =~= record.skip(4));
    assert(value_of(record, "type"@) == Some(record[0].value));
    assert(value_of(record, "operation"@) == Some(record[1].value));
    match action {
        ActionView::Package { operation, source, name, origin } => {
            assert(value_of(record, "source"@) == Some(source));
            assert(value_of(record, "name"@) == Some(name));
            assert(value_of(record, "origin"@) == Some(origin));
        },
        ActionView::Script { operation, script, origin } => {
            assert(value_of(record, "script"@) == Some(script));
            assert(value_of(record, "origin"@) == Some(origin));
        },
        ActionView::File { operation, src, dest, origin } => {
            assert(value_of(record, "src"@) == Some(src));
            assert(value_of(record, "dest"@) == Some(dest));
            assert(value_of(record, "origin"@) == Some(origin));
        },
    }
}

/// Keeping actions is faithful: what is read back from the records of a list of
/// actions is that list.
pub proof fn lemma_records_round_trip(actions: Seq<ActionView>)
    ensures
        actions_of(records_of(actions)) == Some(actions),
    decreases actions.len(),
{
    if actions.len() > 0 {
        lemma_records_round_trip(actions.drop_last());
        lemma_record_round_trip(actions.last());
        assert(records_of(actions).drop_last() =~= records_of(actions.drop_last()));
        assert(actions.drop_last().push(actions.last()) =~= actions);
    } else {
        assert(actions =~= Seq::empty());
    }
}


/// The view of an optional action.
pub open spec fn action_view(action: Option<SystemAction>) -> Option<ActionView> {
    match action {
        Some(present) => Some(present@),
        None => None,
    }
}

/// The view of an optional list of actions.
pub open spec fn actions_view(actions: Option<Vec<SystemAction>>) -> Option<Seq<ActionView>> {
    match actions {
        Some(present) => Some(present.deep_view()),
        None => None,
    }
}

/// The view of an optional text.
pub open spec fn value_view(value: Option<&String>) -> Option<Seq<char>> {
    match value {
        Some(present) => Some(present@),
        None => None,
    }
}

/// The field that names `value` by `key`.
pub fn field(key: &str, value: &str) -> (made: Field)
    ensures
        made@ == named(key@, value@),
{
    Field { key: key.to_owned(), value: value.to_owned() }
}

/// Writes the record of an action.
pub fn serialize_action(action: &SystemAction) -> (record: Vec<Field>)
    ensures
        record.deep_view() == record_of(action@),
{
    let mut record: Vec<Field> = Vec::new();
    match action {
        SystemAction::Package { operation, source, name, origin } => {
            record.push(field("type", "Package"));
            record.push(
                match operation {
                    PackageOperation::Install => field("operation", "Install"),
                    PackageOperation::Uninstall => field("operation", "Uninstall"),
                },
            );
            record.push(field("source", source.as_str()));
            record.push(field("name", name.as_str()));
            record.push(field("origin", origin.as_str()));
        },
        SystemAction::Script { operation: _, script, origin } => {
            record.push(field("type", "Script"));
            record.push(field("operation", "Run"));
            record.push(field("script", script.as_str()));
            record.push(field("origin", origin.as_str()));
        },
        SystemAction::File { operation, src, dest, origin } => {
            record.push(field("type", "File"));
            record.push(
                match operation {
                    FileOperation::Link => field("operation", "Link"),
                    FileOperation::Copy => field("operation", "Copy"),
                    FileOperation::Remove => field("operation", "Remove"),
                },
            );
            record.push(field("src", src.as_str()));
            record.push(field("dest", dest.as_str()));
            record.push(field("origin", origin.as_str()));
        },
    }
    assert(record.deep_view() =~= record_of(action@));
    record
}

/// The text that the first field of this name holds.
pub fn field_value<'a>(record: &'a Vec<Field>, key: &str) -> (value: Option<&'a String>)
    ensures
        value_view(value) == value_of(record.deep_view(), key@),
{
    let sought = key.to_owned();
    let mut index: usize = 0;
    assert(record.deep_view().skip(0) =~= record.deep_view());
    while index < record.len()
        invariant
            index <= record.len(),
            sought@ == key@,
            value_of(record.deep_view().skip(index as int), key@) == value_of(
                record.deep_view(),
                key@,
            ),
        decreases record.len() - index,
    {
        let ghost rest = record.deep_view().skip(index as int);
        assert(rest[0] == record[index as int]@);
        if record[index].key == sought {
            return Some(&record[index].value);
        }
        assert(rest.skip(1) =~= record.deep_view().skip(index as int + 1));
        index += 1;
    }
    None
}

/// Whether `value` is there and spells `literal`.
fn spells(value: Option<&String>, literal: &str) -> (same: bool)
    ensures
        same == (value_view(value) == Some(literal@)),
{
    match value {
        Some(text) => *text == literal.to_owned(),
        None => false,
    }
}

/// A copy of a text that may be missing.
fn copied(value: Option<&String>) -> (copy: Option<String>)
    ensures
        crate::package::text_view(copy) == value_view(value),
{
    match value {
        Some(text) => Some(text.clone()),
        None => None,
    }
}

/// Reads the action that a record stands for.
pub fn deserialize_action(record: &Vec<Field>) -> (action: Option<SystemAction>)
    ensures
        action_view(action) == action_of(record.deep_view()),
{
    let kind = field_value(record, "type");
    let operation = field_value(record, "operation");
    let origin = copied(field_value(record, "origin"));
    if spells(kind, "Package") {
        let operation = if spells(operation, "Install") {
            Some(PackageOperation::Install)
        } else if spells(operation, "Uninstall") {
            Some(PackageOperation::Uninstall)
        } else {
            None
        };
        let source = copied(field_value(record, "source"));
        let name = copied(field_value(record, "name"));
        match (operation, source, name, origin) {
            (Some(operation), Some(source), Some(name), Some(origin)) => Some(
                SystemAction::Package { operation, source, name, origin },
            ),
            _ => None,
        }
    } else if spells(kind, "Script") {
        let script = copied(field_value(record, "script"));
        match (spells(operation, "Run"), script, origin) {
            (true, Some(script), Some(origin)) => Some(
                SystemAction::Script { operation: ScriptOperation::Run, script, origin },
            ),
            _ => None,
        }
    } else if spells(kind, "File") {
        let operation = if spells(operation, "Link") {
            Some(FileOperation::Link)
        } else if spells(operation, "Copy") {
            Some(FileOperation::Copy)
        } else if spells(operation, "Remove") {
            Some(FileOperation::Remove)
        } else {
            None
        };
        let src = copied(field_value(record, "src"));
        let dest = copied(field_value(record, "dest"));
        match (operation, src, dest, origin) {
            (Some(operation), Some(src), Some(dest), Some(origin)) => Some(
                SystemAction::File { operation, src, dest, origin },
            ),
            _ => None,
        }
    } else {
        None
    }
}

/// Writes the records of a list of actions: the form in which the list is kept
/// between runs.
pub fn serialize_actions(actions: &Vec<SystemAction>) -> (records: Vec<Vec<Field>>)
    ensures
        records.deep_view() == records_of(actions.deep_view()),
{
    let mut records: Vec<Vec<Field>> = Vec::new();
    let mut index: usize = 0;
    while index < actions.len()
        invariant
            index <= actions.len(),
            records.deep_view() == records_of(actions.deep_view()).take(index as int),
        decreases actions.len() - index,
    {
        let ghost written = records.deep_view();
        let record = serialize_action(&actions[index]);
        let ghost added = record.deep_view();
        assert(added == records_of(actions.deep_view())[index as int]);
        records.push(record);
        assert(records.deep_view() =~= written.push(added));
        index += 1;
        assert(records.deep_view() =~= records_of(actions.deep_view()).take(index as int));
    }
    assert(records_of(actions.deep_view()).take(index as int) =~= records_of(actions.deep_view()));
    records
}

/// Reads the list of actions that a list of records stands for. There is none
/// if one of the records stands for no action.
pub fn deserialize_actions(records: &Vec<Vec<Field>>) -> (actions: Option<Vec<SystemAction>>)
    ensures
        actions_view(actions) == actions_of(records.deep_view()),
{
    let mut actions: Vec<SystemAction> = Vec::new();
    let mut index: usize = 0;
    assert(records.deep_view().take(0) =~= Seq::empty());
    while index < records.len()
        invariant
            index <= records.len(),
            actions_of(records.deep_view().take(index as int)) == Some(actions.deep_view()),
        decreases records.len() - index,
    {
        let ghost read = actions.deep_view();
        let ghost seen = records.deep_view().take(index as int + 1);
        assert(seen.drop_last() =~= records.deep_view().take(index as int));
        assert(seen.last() == records[index as int].deep_view());
        match deserialize_action(&records[index]) {
            Some(action) => {
                let ghost added = action@;
                actions.push(action);
                assert(actions.deep_view() =~= read.push(added));
            },
            None => {
                proof {
                    lemma_unreadable_record(records.deep_view(), index as int + 1);
                }
                return None;
            },
        }
        index += 1;
    }
    assert(records.deep_view().take(index as int) =~= records.deep_view());
    Some(actions)
}

/// Where the first records of a list stand for no list of actions, the whole
/// list stands for none.
pub proof fn lemma_unreadable_record(records: Seq<Seq<FieldView>>, count: int)
    requires
        0 <= count <= records.len(),
        actions_of(records.take(count)) is None,
    ensures
        actions_of(records) is None,
    decreases records.len() - count,
{
    if count < records.len() {
        assert(records.take(count + 1).drop_last() =~= records.take(count));
        lemma_unreadable_record(records, count + 1);
    } else {
        assert(records.take(count) =~= records);
    }
}

} // verus!
