//! What a host says about its package managers.

use crate::package::PackageDefinition;
use vstd::hash_map::StringHashMap;
use vstd::prelude::*;

verus! {

/// The command templates of one package manager; each holds the token `<package>`.
#[derive(Debug)]
pub struct PackageManagerCommands {
    pub install: String,
    pub uninstall: String,
    pub clean: Option<String>,
}

/// One package manager of a host.
#[derive(Debug)]
pub struct PackageManager {
    /// Whether one invocation takes several package names, separated by spaces.
    pub multiple: bool,
    pub commands: PackageManagerCommands,
}

/// The package managers of a host, by the source name that dependencies use for them.
pub struct HostConfiguration {
    pub package_managers: StringHashMap<PackageManager>,
}

impl View for HostConfiguration {
    type V = Map<Seq<char>, PackageManager>;

    open spec fn view(&self) -> Map<Seq<char>, PackageManager> {
        self.package_managers@
    }
}

/// A host: what it wants installed, and how its package managers are called.
pub struct HostDefinition {
    pub package: PackageDefinition,
    pub config: HostConfiguration,
}

/// The package definition that a new host starts with.
pub const DEFAULT_HOST_PACKAGE_CONTENT: &'static str = "dependencies:
  # You can add host dependencies
  # by default, it is prefixed by \"os\" which means this dependency
  # will be added with the OS package manager described
  # in hosts/<hostname>/config.yml
  - firefox # same as os:firefox
  - dot:flatpak # install flatpak from packages directory
  - flatpak:net.lutris.Lutris # Install lutris from \"flatpak\" package manager described in config.yml
post_install: |
  # You can add custom shell commands
  sudo systemctl enable wallpapers.timer
  echo \"Hello\"
links:
  # You can label symlinks as a string source:destination
  # - init.vim:~/.config/nvim/init.vim
  # or via an object (you can specify also if you want to copy it or link it)
  # - src: init.vim
  #   dest: ~/.config/nvim/init.vim
  #   copy: false
";

/// The configuration that a new host starts with.
pub const DEFAULT_HOST_CONFIG_CONTENT: &'static str = "package_managers:
  os:
    # indicate that the package manager supports multiple packages at once
    multiple: true
    commands:
      install: paru --needed -S <package>
      uninstall: paru -Runs <package>
  flatpak:
    multiple: false
    commands:
      install: sudo flatpak install <package>
      uninstall: sudo flatpak uninstall <package>
      clean: sudo flatpak uninstall --unused
";

impl HostConfiguration {
    /// A configuration that describes no package manager.
    pub fn new() -> (config: Self)
        ensures
            config@ == Map::<Seq<char>, PackageManager>::empty(),
    {
        HostConfiguration { package_managers: StringHashMap::new() }
    }

    /// Describes `source`, replacing what was said of it before.
    pub fn insert(&mut self, source: String, manager: PackageManager)
        ensures
            final(self)@ == old(self)@.insert(source@, manager),
    {
        self.package_managers.insert(source, manager);
    }

    /// The package manager that `source` names, if the host describes one.
    pub fn get(&self, source: &String) -> (found: Option<&PackageManager>)
        ensures
            match found {
                Some(manager) => self@.contains_key(source@) && *manager == self@[source@],
                None => !self@.contains_key(source@),
            },
    {
        self.package_managers.get(source.as_str())
    }
}

} // verus!
