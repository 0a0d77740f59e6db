//! The files that a new repository starts with.

use crate::host::{DEFAULT_HOST_CONFIG_CONTENT, DEFAULT_HOST_PACKAGE_CONTENT};
use crate::package::{
    DEFAULT_PACKAGE_EXAMPLE_FLATPAK,
    DEFAULT_PACKAGE_EXAMPLE_TMUX,
    DEFAULT_PACKAGE_EXAMPLE_TMUX_CONFIG,
};
use crate::text::{join_path, joined_path};
use vstd::prelude::*;

verus! {

/// The options of the command that sets up a repository.
pub struct RunInitOptions {}

/// A file to write: its path from the root of the repository, and its content.
#[derive(Debug)]
pub struct InitialFile {
    pub path: String,
    pub content: String,
}

/// The mathematical value of an [`InitialFile`].
pub ghost struct InitialFileView {
    pub path: Seq<char>,
    pub content: Seq<char>,
}

impl View for InitialFile {
    type V = InitialFileView;

    open spec fn view(&self) -> InitialFileView {
        InitialFileView { path: self.path@, content: self.content@ }
    }
}

impl DeepView for InitialFile {
    type V = InitialFileView;

    open spec fn deep_view(&self) -> InitialFileView {
        self@
    }
}

/// The path of `file` in the directory `name` under `kind`.
pub open spec fn path_in(kind: Seq<char>, name: Seq<char>, file: Seq<char>) -> Seq<char> {
    joined_path(joined_path(kind, name), file)
}

/// The directories of a new repository for the host `hostname`.
pub open spec fn initial_directories_of(hostname: Seq<char>) -> Seq<Seq<char>> {
    seq![
        joined_path("packages"@, "flatpak"@),
        joined_path("packages"@, "tmux"@),
        joined_path("hosts"@, hostname),
    ]
}

/// The files of a new repository for the host `hostname`.
pub open spec fn initial_files_of(hostname: Seq<char>) -> Seq<InitialFileView> {
    seq![
        InitialFileView {
            path: path_in("hosts"@, hostname, "package.yml"@),
            content: DEFAULT_HOST_PACKAGE_CONTENT@,
        },
        InitialFileView {
            path: path_in("hosts"@, hostname, "config.yml"@),
            content: DEFAULT_HOST_CONFIG_CONTENT@,
        },
        InitialFileView {
            path: path_in("packages"@, "flatpak"@, "package.yml"@),
            content: DEFAULT_PACKAGE_EXAMPLE_FLATPAK@,
        },
        InitialFileView {
            path: path_in("packages"@, "tmux"@, "package.yml"@),
            content: DEFAULT_PACKAGE_EXAMPLE_TMUX@,
        },
        InitialFileView {
            path: path_in("packages"@, "tmux"@, "tmux.conf"@),
            content: DEFAULT_PACKAGE_EXAMPLE_TMUX_CONFIG@,
        },
    ]
}

/// One file of a new repository.
fn initial_file(kind: &str, name: &String, file: &str, content: &str) -> (made: InitialFile)
    ensures
        made@ == (InitialFileView { path: path_in(kind@, name@, file@), content: content@ }),
{
    let directory = join_path(&kind.to_owned(), name);
    InitialFile { path: join_path(&directory, &file.to_owned()), content: content.to_owned() }
}

/// The directories to make for a new repository, from its root.
pub fn initial_directories(hostname: &String, options: &RunInitOptions) -> (directories: Vec<String>)
    ensures
        directories.deep_view() == initial_directories_of(hostname@),
{
    let packages = "packages".to_owned();
    let mut directories: Vec<String> = Vec::new();
    directories.push(join_path(&packages, &"flatpak".to_owned()));
    directories.push(join_path(&packages, &"tmux".to_owned()));
    directories.push(join_path(&"hosts".to_owned(), hostname));
    assert(directories.deep_view() =~= initial_directories_of(hostname@));
    directories
}

/// The files to write for a new repository: the definition and the
/// configuration of the host, and two sample packages. A file that exists is
/// meant to be left as it is.
pub fn initial_files(hostname: &String, options: &RunInitOptions) -> (files: Vec<InitialFile>)
    ensures
        files.deep_view() == initial_files_of(hostname@),
{
    let flatpak = "flatpak".to_owned();
    let tmux = "tmux".to_owned();
    let mut files: Vec<InitialFile> = Vec::new();
    files.push(initial_file("hosts", hostname, "package.yml", DEFAULT_HOST_PACKAGE_CONTENT));
    files.push(initial_file("hosts", hostname, "config.yml", DEFAULT_HOST_CONFIG_CONTENT));
    files.push(initial_file("packages", &flatpak, "package.yml", DEFAULT_PACKAGE_EXAMPLE_FLATPAK));
    files.push(initial_file("packages", &tmux, "package.yml", DEFAULT_PACKAGE_EXAMPLE_TMUX));
    files.push(initial_file("packages", &tmux, "tmux.conf", DEFAULT_PACKAGE_EXAMPLE_TMUX_CONFIG));
    assert(files.deep_view() =~= initial_files_of(hostname@));
    files
}

} // verus!
