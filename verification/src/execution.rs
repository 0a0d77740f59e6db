//! What carrying out an action comes to: the line that announces it, the
//! command line of a package manager, and the steps that put a file in place.
//!
//! Nothing here touches the system. The caller runs the commands and the steps,
//! and tells what it found at the destination of a file.

use crate::action::{ActionView, FileOperation, PackageOperation, SystemAction};
use crate::error::{Error, ErrorView};
use crate::generation::{placeholder, template_of};
use crate::host::HostConfiguration;
use crate::text::{
    join_path,
    joined_path,
    split,
    split_on,
    to_uppercase,
    trim,
    trimmed,
    uppercased,
};
use vstd::prelude::*;
use vstd::string::StringExecFns;

verus! {

/// The colour in which the kind of an action is announced.
#[derive(Debug, Clone, Copy, PartialEq, Eq, Structural)]
pub enum TagColor {
    Green,
    Red,
    BrightPurple,
    Blue,
    BrightRed,
}

/// The line that announces an action: its kind, and what it works on.
#[derive(Debug)]
pub struct LogEntry {
    pub tag: String,
    pub color: TagColor,
    pub message: String,
}

/// The mathematical value of a [`LogEntry`].
pub ghost struct LogEntryView {
    pub tag: Seq<char>,
    pub color: TagColor,
    pub message: Seq<char>,
}

impl View for LogEntry {
    type V = LogEntryView;

    open spec fn view(&self) -> LogEntryView {
        LogEntryView { tag: self.tag@, color: self.color, message: self.message@ }
    }
}

/// The name by which a package is announced: the bare name for the package
/// manager of the system, and the name after its source for any other.
pub open spec fn long_name(source: Seq<char>, name: Seq<char>) -> Seq<char> {
    if source == "os"@ {
        name
    } else {
        source + ":"@ + name
    }
}

/// The file of a package, seen from the directory the program runs in.
pub open spec fn source_path_of(current_dir: Seq<char>, origin: Seq<char>, src: Seq<char>) -> Seq<
    char,
> {
    joined_path(joined_path(current_dir, origin), src)
}

/// The line that announces `action`, for a program run in `current_dir`.
pub open spec fn announced(action: ActionView, current_dir: Seq<char>) -> LogEntryView {
    match action {
        ActionView::Package { operation: PackageOperation::Install, source, name, .. } => LogEntryView {
            tag: "INSTALL"@,
            color: TagColor::Green,
            message: long_name(source, name),
        },
        ActionView::Package { operation: PackageOperation::Uninstall, source, name, .. } => LogEntryView {
            tag: "REMOVE"@,
            color: TagColor::Red,
            message: long_name(source, name),
        },
        ActionView::Script { script, origin, .. } => LogEntryView {
            tag: uppercased(split_on(origin, ':').last()),
            color: TagColor::BrightPurple,
            message: trimmed(script),
        },
        ActionView::File { operation: FileOperation::Link, src, dest, origin } => LogEntryView {
            tag: "LINK"@,
            color: TagColor::Blue,
            message: source_path_of(current_dir, origin, src) + " "@ + dest,
        },
        ActionView::File { operation: FileOperation::Copy, src, dest, origin } => LogEntryView {
            tag: "COPY"@,
            color: TagColor::Blue,
            message: source_path_of(current_dir, origin, src) + " "@ + dest,
        },
        ActionView::File { operation: FileOperation::Remove, dest, .. } => LogEntryView {
            tag: "DELETE"@,
            color: TagColor::BrightRed,
            message: dest,
        },
    }
}

/// The name by which a package is announced.
pub fn long_package_name(source: &String, name: &String) -> (long: String)
    ensures
        long@ == long_name(source@, name@),
{
    if *source == "os".to_owned() {
        name.clone()
    } else {
        let mut long = source.clone();
        long.append(":");
        long.append(name.as_str());
        long
    }
}

/// The file of a package, seen from the directory the program runs in.
pub fn source_path(current_dir: &String, origin: &String, src: &String) -> (path: String)
    ensures
        path@ == source_path_of(current_dir@, origin@, src@),
{
    join_path(&join_path(current_dir, origin), src)
}

/// The line that announces `action`.
pub fn log_entry(action: &SystemAction, current_dir: &String) -> (entry: LogEntry)
    ensures
        entry@ == announced(action@, current_dir@),
{
    match action {
        SystemAction::Package { operation, source, name, origin: _ } => match operation {
            PackageOperation::Install => LogEntry {
                tag: "INSTALL".to_owned(),
                color: TagColor::Green,
                message: long_package_name(source, name),
            },
            PackageOperation::Uninstall => LogEntry {
                tag: "REMOVE".to_owned(),
                color: TagColor::Red,
                message: long_package_name(source, name),
            },
        },
        SystemAction::Script { operation: _, script, origin } => {
            let pieces = split(origin.as_str(), ':');
            LogEntry {
                tag: to_uppercase(&pieces[pieces.len() - 1]),
                color: TagColor::BrightPurple,
                message: trim(script.as_str()),
            }
        },
        SystemAction::File { operation, src, dest, origin } => match operation {
            FileOperation::Remove => LogEntry {
                tag: "DELETE".to_owned(),
                color: TagColor::BrightRed,
                message: dest.clone(),
            },
            _ => {
                let mut message = source_path(current_dir, origin, src);
                message.append(" ");
                message.append(dest.as_str());
                LogEntry {
                    tag: if *operation == FileOperation::Link {
                        "LINK".to_owned()
                    } else {
                        "COPY".to_owned()
                    },
                    color: TagColor::Blue,
                    message,
                }
            },
        },
    }
}

/// The package in whose name a script runs: its origin up to the first colon.
pub fn script_package(origin: &String) -> (package: String)
    ensures
        package@ == split_on(origin@, ':')[0],
{
    let pieces = split(origin.as_str(), ':');
    pieces[0].clone()
}

/// The command template of the package manager that `source` names, for `operation`.
pub fn command_template<'a>(
    config: &'a HostConfiguration,
    source: &String,
    origin: &String,
    operation: PackageOperation,
) -> (result: Result<&'a String, Error>)
    ensures
        match result {
            Ok(template) => config@.contains_key(source@) && template@ == template_of(
                config@[source@],
                operation,
            ),
            Err(error) => !config@.contains_key(source@) && error@
                == (ErrorView::UnknownPackageManager { source: source@, origin: origin@ }),
        },
{
    match config.get(source) {
        None => Err(Error::UnknownPackageManager { source: source.clone(), origin: origin.clone() }),
        Some(manager) => match operation {
            PackageOperation::Install => Ok(&manager.commands.install),
            PackageOperation::Uninstall => Ok(&manager.commands.uninstall),
        },
    }
}

/// The arguments that one piece of a command template gives: none if it is
/// blank, the package names one by one if it is the placeholder, and the piece
/// itself otherwise.
pub open spec fn arguments_of_piece(piece: Seq<char>, names: Seq<char>) -> Seq<Seq<char>> {
    let inner = trimmed(piece);
    if inner.len() == 0 {
        Seq::empty()
    } else if inner == placeholder() {
        split_on(names, ' ')
    } else {
        seq![inner]
    }
}

/// The arguments that the pieces of a command template give, in order.
pub open spec fn arguments_of(pieces: Seq<Seq<char>>, names: Seq<char>) -> Seq<Seq<char>>
    decreases pieces.len(),
{
    if pieces.len() == 0 {
        Seq::empty()
    } else {
        arguments_of(pieces.drop_last(), names) + arguments_of_piece(pieces.last(), names)
    }
}

/// The command line that a template gives for package names separated by
/// spaces: the program, which is the template up to its first space, and then
/// the arguments, with each package name as an argument of its own.
pub open spec fn command_line(command: Seq<char>, names: Seq<char>) -> Seq<Seq<char>> {
    let pieces = split_on(trimmed(command), ' ');
    seq![pieces[0]] + arguments_of(pieces.skip(1), names)
}

/// Builds the command line of a package manager from its template: the program
/// first, then its arguments.
pub fn pm_command_line(command: &String, package_name: &String) -> (line: Vec<String>)
    ensures
        line.deep_view() == command_line(command@, package_name@),
{
    let inner = trim(command.as_str());
    let args = split(inner.as_str(), ' ');
    let ghost pieces = args.deep_view();
    let mut line: Vec<String> = Vec::new();
    line.push(args[0].clone());
    let mut index: usize = 1;
    assert(pieces.skip(1).take(0) =~= Seq::empty());
    assert(line.deep_view() =~= seq![pieces[0]] + arguments_of(pieces.skip(1).take(0), package_name@));
    while index < args.len()
        invariant
            1 <= index <= args.len(),
            pieces == args.deep_view(),
            line.deep_view() == seq![pieces[0]] + arguments_of(
                pieces.skip(1).take(index - 1),
                package_name@,
            ),
        decreases args.len() - index,
    {
        let ghost before = line.deep_view();
        let ghost seen = pieces.skip(1).take(index as int);
        assert(seen.drop_last() =~= pieces.skip(1).take(index - 1));
        assert(seen.last() == pieces[index as int]);
        let part = trim(args[index].as_str());
        proof {
            if part@.len() == 0 {
                assert(part@ =~= Seq::<char>::empty());
            }
        }
        if part == String::new() {
            assert(part@.len() == 0);
            assert(line.deep_view() =~= before + arguments_of_piece(pieces[index as int], package_name@));
        } else if part == "<package>".to_owned() {
            let mut names = split(package_name.as_str(), ' ');
            let ghost added = names.deep_view();
            line.append(&mut names);
            assert(line.deep_view() =~= before + added);
        } else {
            line.push(part);
            assert(line.deep_view() =~= before + seq![trimmed(pieces[index as int])]);
        }
        index += 1;
        assert(line.deep_view() =~= seq![pieces[0]] + arguments_of(seen, package_name@));
    }
    assert(pieces.skip(1).take(index - 1) =~= pieces.skip(1));
    line
}

/// What the caller found at the destination of a file.
pub struct Observed {
    /// Whether the directory of the destination exists.
    pub directory_exists: bool,
    /// Whether something can be read at the destination, links followed.
    pub destination_exists: bool,
    /// Whether the destination is a symbolic link, broken or not.
    pub destination_is_link: bool,
}

/// One step on the file system.
#[derive(Debug, Clone, Copy, PartialEq, Eq, Structural)]
pub enum FileStep {
    /// Make the directory of the destination, and the directories above it.
    CreateDirectory,
    /// Remove what is at the destination.
    RemoveDestination,
    /// Make the destination a symbolic link to the source.
    LinkSource,
    /// Copy the source to the destination.
    CopySource,
}

/// The part of the steps that is taken only when `wanted` holds.
pub open spec fn when(wanted: bool, step: FileStep) -> Seq<FileStep> {
    if wanted {
        seq![step]
    } else {
        Seq::empty()
    }
}

/// The steps that carry out a file operation, given what is at the destination.
///
/// The directory of the destination is made if it is missing. A link replaces
/// whatever can be read at the destination. A copy replaces a symbolic link, and
/// never overwrites anything else. A removal removes what can be read there.
pub open spec fn steps_of(operation: FileOperation, observed: Observed) -> Seq<FileStep> {
    match operation {
        FileOperation::Link => when(!observed.directory_exists, FileStep::CreateDirectory) + when(
            observed.destination_exists,
            FileStep::RemoveDestination,
        ) + seq![FileStep::LinkSource],
        FileOperation::Copy => when(!observed.directory_exists, FileStep::CreateDirectory) + when(
            observed.destination_is_link,
            FileStep::RemoveDestination,
        ) + when(
            observed.destination_is_link || !observed.destination_exists,
            FileStep::CopySource,
        ),
        FileOperation::Remove => when(observed.destination_exists, FileStep::RemoveDestination),
    }
}

/// The steps that carry out a file operation, in order.
pub fn file_steps(operation: FileOperation, observed: &Observed) -> (steps: Vec<FileStep>)
    ensures
        steps@ == steps_of(operation, *observed),
{
    let mut steps: Vec<FileStep> = Vec::new();
    match operation {
        FileOperation::Link => {
            if !observed.directory_exists {
                steps.push(FileStep::CreateDirectory);
            }
            if observed.destination_exists {
                steps.push(FileStep::RemoveDestination);
            }
            steps.push(FileStep::LinkSource);
        },
        FileOperation::Copy => {
            if !observed.directory_exists {
                steps.push(FileStep::CreateDirectory);
            }
            if observed.destination_is_link {
                steps.push(FileStep::RemoveDestination);
            }
            if observed.destination_is_link || !observed.destination_exists {
                steps.push(FileStep::CopySource);
            }
        },
        FileOperation::Remove => {
            if observed.destination_exists {
                steps.push(FileStep::RemoveDestination);
            }
        },
    }
    assert(steps@ =~= steps_of(operation, *observed));
    steps
}

} // verus!
