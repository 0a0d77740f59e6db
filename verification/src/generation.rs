//! The shell script that carries out a list of actions.
//!
//! The script opens with a title line. Each action gives one command line; a
//! comment line that names where the action comes from stands before it, unless
//! the action before it gave the same comment.

use crate::action::{ActionView, FileOperation, PackageOperation, SystemAction};
use crate::compaction::{all_sources_known, reports_first_unknown, unknown_at};
use crate::error::Error;
use crate::host::{HostConfiguration, PackageManager};
use crate::text::{join_path, joined_path, replace_all, replaced};
use vstd::prelude::*;
use vstd::string::StringExecFns;

verus! {

/// The first line of every script.
pub open spec fn title() -> Seq<char> {
    "# Shell Generation"@
}

/// The token of a command template for which the package names are put.
pub open spec fn placeholder() -> Seq<char> {
    "<package>"@
}

/// The comment that names where `action` comes from.
pub open spec fn comment_of(action: ActionView) -> Seq<char> {
    match action {
        ActionView::Package { origin, .. } => "# "@ + origin + ":dependencies"@,
        ActionView::Script { origin, .. } => "# "@ + origin,
        ActionView::File { origin, .. } => "# "@ + origin + ":links"@,
    }
}

/// The command template of `manager` for `operation`.
pub open spec fn template_of(manager: PackageManager, operation: PackageOperation) -> Seq<char> {
    match operation {
        PackageOperation::Install => manager.commands.install@,
        PackageOperation::Uninstall => manager.commands.uninstall@,
    }
}

/// The command line that carries out a file operation; `source` is the file of
/// the package, seen from the repository.
pub open spec fn file_command(operation: FileOperation, source: Seq<char>, dest: Seq<char>) -> Seq<
    char,
> {
    match operation {
        FileOperation::Link => "ln -sf "@ + dest + " "@ + source,
        FileOperation::Copy => "cp "@ + source + " "@ + dest,
        FileOperation::Remove => "rm "@ + dest,
    }
}

/// The command line that carries out `action`: for a package, the template of
/// its manager with the package names in place of the placeholder; for a script,
/// its text; for a file, the linking, copying or removing command.
pub open spec fn command_of(action: ActionView, managers: Map<Seq<char>, PackageManager>) -> Seq<
    char,
> {
    match action {
        ActionView::Package { operation, source, name, .. } => replaced(
            template_of(managers[source], operation),
            placeholder(),
            name,
        ),
        ActionView::Script { script, .. } => script,
        ActionView::File { operation, src, dest, origin } => file_command(
            operation,
            joined_path(origin, src),
            dest,
        ),
    }
}

/// The lines of the script for `actions`.
pub open spec fn script_lines(
    actions: Seq<ActionView>,
    managers: Map<Seq<char>, PackageManager>,
) -> Seq<Seq<char>>
    decreases actions.len(),
{
    if actions.len() == 0 {
        seq![title()]
    } else {
        let before = script_lines(actions.drop_last(), managers);
        let action = actions.last();
        let commented = if actions.len() > 1 && comment_of(actions[actions.len() - 2])
            == comment_of(action) {
            before
        } else {
            before.push(comment_of(action))
        };
        commented.push(command_of(action, managers))
    }
}

/// Writes `new_comment` to `output` unless it repeats `last_comment`, and hands
/// back the comment that now stands last.
pub fn add_comment(new_comment: String, last_comment: &String, output: &mut Vec<String>) -> (current:
    String)
    ensures
        current@ == new_comment@,
        final(output).deep_view() == if new_comment@ != last_comment@ {
            old(output).deep_view().push(new_comment@)
        } else {
            old(output).deep_view()
        },
{
    if new_comment != *last_comment {
        output.push(new_comment.clone());
        assert(output.deep_view() =~= old(output).deep_view().push(new_comment@));
        return new_comment;
    }
    assert(output.deep_view() =~= old(output).deep_view());
    last_comment.clone()
}

/// The comment that names where an action with `origin` and the given kind comes from.
fn comment_line(origin: &String, kind: &str) -> (comment: String)
    ensures
        comment@ == "# "@ + origin@ + kind@,
{
    let mut comment = "# ".to_owned();
    comment.append(origin.as_str());
    comment.append(kind);
    comment
}

/// The command line that carries out a file operation.
pub fn file_command_line(operation: FileOperation, source: &String, dest: &String) -> (line: String)
    ensures
        line@ == file_command(operation, source@, dest@),
{
    match operation {
        FileOperation::Link => {
            let mut line = "ln -sf ".to_owned();
            line.append(dest.as_str());
            line.append(" ");
            line.append(source.as_str());
            line
        },
        FileOperation::Copy => {
            let mut line = "cp ".to_owned();
            line.append(source.as_str());
            line.append(" ");
            line.append(dest.as_str());
            line
        },
        FileOperation::Remove => {
            let mut line = "rm ".to_owned();
            line.append(dest.as_str());
            line
        },
    }
}

/// Writes the shell script that carries out `system_actions`, line by line.
///
/// Fails when a package action names a source that `config` does not describe,
/// reporting the first such action.
pub fn generate_shell_script(system_actions: &Vec<SystemAction>, config: &HostConfiguration) -> (result:
    Result<Vec<String>, Error>)
    ensures
        match result {
            Ok(lines) => {
                &&& all_sources_known(system_actions.deep_view(), config@)
                &&& lines.deep_view() == script_lines(system_actions.deep_view(), config@)
            },
            Err(error) => reports_first_unknown(system_actions.deep_view(), config@, error@),
        },
{
    let ghost actions = system_actions.deep_view();
    let mut last_comment = String::new();
    let mut output: Vec<String> = Vec::new();
    output.push("# Shell Generation".to_owned());
    let mut index: usize = 0;
    assert(output.deep_view() =~= script_lines(actions.take(0), config@));
    while index < system_actions.len()
        invariant
            actions == system_actions.deep_view(),
            index <= system_actions.len(),
            forall|earlier: int| 0 <= earlier < index ==> !unknown_at(actions, config@, earlier),
            output.deep_view() == script_lines(actions.take(index as int), config@),
            last_comment@ == if index == 0 {
                Seq::empty()
            } else {
                comment_of(actions[index - 1])
            },
        decreases system_actions.len() - index,
    {
        let sysaction = &system_actions[index];
        let ghost action = actions[index as int];
        let ghost seen = actions.take(index as int + 1);
        let ghost before = output.deep_view();
        proof {
            assert(action == sysaction@);
            assert(seen.drop_last() =~= actions.take(index as int));
            assert(seen.last() == action);
            if index > 0 {
                assert(seen[seen.len() - 2] == actions[index - 1]);
            }
            reveal_strlit("# ");
            assert(comment_of(action).len() >= 2);
        }
        match sysaction {
            SystemAction::Package { operation, source, name, origin } => {
                let pm = match config.get(source) {
                    Some(manager) => manager,
                    None => {
                        assert(unknown_at(actions, config@, index as int));
                        return Err(
                            Error::UnknownPackageManager {
                                source: source.clone(),
                                origin: origin.clone(),
                            },
                        );
                    },
                };
                last_comment = add_comment(
                    comment_line(origin, ":dependencies"),
                    &last_comment,
                    &mut output,
                );
                let ghost commented = output.deep_view();
                let command = match operation {
                    PackageOperation::Install => replace_all(&pm.commands.install, "<package>", name),
                    PackageOperation::Uninstall => replace_all(
                        &pm.commands.uninstall,
                        "<package>",
                        name,
                    ),
                };
                assert(command@ == command_of(action, config@));
                output.push(command);
                assert(output.deep_view() =~= commented.push(command_of(action, config@)));
            },
            SystemAction::Script { operation: _, script, origin } => {
                last_comment = add_comment(comment_line(origin, ""), &last_comment, &mut output);
                proof {
                    reveal_strlit("");
                    assert("# "@ + origin@ + ""@ =~= "# "@ + origin@);
                }
                let ghost commented = output.deep_view();
                output.push(script.clone());
                assert(output.deep_view() =~= commented.push(command_of(action, config@)));
            },
            SystemAction::File { operation, src, dest, origin } => {
                last_comment = add_comment(
                    comment_line(origin, ":links"),
                    &last_comment,
                    &mut output,
                );
                let ghost commented = output.deep_view();
                let src_path = join_path(origin, src);
                let command = file_command_line(*operation, &src_path, dest);
                output.push(command);
                assert(output.deep_view() =~= commented.push(command_of(action, config@)));
            },
        }
        index += 1;
    }
    assert(actions.take(index as int) =~= actions);
    Ok(output)
}

} // verus!
