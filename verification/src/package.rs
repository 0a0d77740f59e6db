//! Package definitions: what a package depends on, runs and links.

use crate::error::{Error, ErrorView};
use crate::text::{split, split_on};
use vstd::hash_map::StringHashMap;
use vstd::prelude::*;
use vstd::std_specs::cmp::PartialEqSpecImpl;
use vstd::std_specs::convert::FromSpecImpl;
use vstd::string::StringExecFns;

verus! {

/// What satisfies a dependency.
#[derive(Debug, Clone, Copy, PartialEq, Eq, Structural)]
pub enum PackageSource {
    /// A package manager of the host.
    System,
    /// Another package of the repository.
    Local,
}

impl Default for PackageSource {
    fn default() -> (source: Self)
        ensures
            source == PackageSource::System,
    {
        PackageSource::System
    }
}

impl From<&str> for PackageSource {
    /// The source `dot` is local; any other names a package manager.
    fn from(value: &str) -> (source: Self) {
        if value.to_owned() == "dot".to_owned() {
            PackageSource::Local
        } else {
            PackageSource::System
        }
    }
}

impl FromSpecImpl<&str> for PackageSource {
    open spec fn obeys_from_spec() -> bool {
        true
    }

    open spec fn from_spec(value: &str) -> Self {
        if value@ == "dot"@ {
            PackageSource::Local
        } else {
            PackageSource::System
        }
    }
}

/// The source of a dependency that names none.
pub fn dependency_default_source() -> (source: String)
    ensures
        source@ == "os"@,
{
    "os".to_owned()
}

/// One dependency of a package: `name` as `source` knows it. The source `dot`
/// stands for another package of the repository, any other for a package manager.
#[derive(Debug)]
pub struct DependencyDefinition {
    pub source: String,
    pub name: String,
}

/// The mathematical value of a [`DependencyDefinition`].
pub ghost struct DependencyView {
    pub source: Seq<char>,
    pub name: Seq<char>,
}

impl View for DependencyDefinition {
    type V = DependencyView;

    open spec fn view(&self) -> DependencyView {
        DependencyView { source: self.source@, name: self.name@ }
    }
}

impl DeepView for DependencyDefinition {
    type V = DependencyView;

    open spec fn deep_view(&self) -> DependencyView {
        self@
    }
}

impl PartialEq for DependencyDefinition {
    fn eq(&self, other: &Self) -> (equal: bool) {
        self.source == other.source && self.name == other.name
    }
}

impl PartialEqSpecImpl for DependencyDefinition {
    open spec fn obeys_eq_spec() -> bool {
        true
    }

    open spec fn eq_spec(&self, other: &Self) -> bool {
        self@ == other@
    }
}

impl Eq for DependencyDefinition {

}

impl Clone for DependencyDefinition {
    fn clone(&self) -> (copy: Self)
        ensures
            copy == *self,
    {
        DependencyDefinition { source: self.source.clone(), name: self.name.clone() }
    }
}

impl DependencyDefinition {
    /// What the short form `value` stands for. Cut at each colon, its last piece
    /// is the name; its first piece is the source if there are several pieces,
    /// and the source is `os` if there is one.
    pub open spec fn parsed(value: Seq<char>) -> DependencyView {
        let pieces = split_on(value, ':');
        DependencyView {
            source: if pieces.len() == 1 {
                "os"@
            } else {
                pieces[0]
            },
            name: pieces.last(),
        }
    }

    /// Reads the short form of a dependency: `name`, or `source:name`.
    pub fn parse(value: &str) -> (dependency: Self)
        ensures
            dependency@ == Self::parsed(value@),
    {
        let pieces = split(value, ':');
        let source = if pieces.len() == 1 {
            dependency_default_source()
        } else {
            pieces[0].clone()
        };
        let name = pieces[pieces.len() - 1].clone();
        DependencyDefinition { source, name }
    }

    /// The short form of the dependency: `source:name`.
    pub fn to_string(&self) -> (text: String)
        ensures
            text@ == self.source@ + ":"@ + self.name@,
    {
        let mut text = self.source.clone();
        text.append(":");
        text.append(self.name.as_str());
        text
    }
}

impl std::str::FromStr for DependencyDefinition {
    type Err = Error;

    fn from_str(value: &str) -> (result: Result<Self, Error>)
        ensures
            result is Ok,
            result.unwrap()@ == Self::parsed(value@),
    {
        Ok(Self::parse(value))
    }
}

/// One file that a package puts in place: `src`, relative to the package, is
/// linked or copied to `dest`.
#[derive(Debug)]
pub struct LinkFileDefinition {
    pub src: String,
    pub dest: String,
    pub copy: bool,
}

/// The mathematical value of a [`LinkFileDefinition`].
pub ghost struct LinkView {
    pub src: Seq<char>,
    pub dest: Seq<char>,
    pub copy: bool,
}

impl View for LinkFileDefinition {
    type V = LinkView;

    open spec fn view(&self) -> LinkView {
        LinkView { src: self.src@, dest: self.dest@, copy: self.copy }
    }
}

impl DeepView for LinkFileDefinition {
    type V = LinkView;

    open spec fn deep_view(&self) -> LinkView {
        self@
    }
}

impl PartialEq for LinkFileDefinition {
    fn eq(&self, other: &Self) -> (equal: bool) {
        self.src == other.src && self.dest == other.dest && self.copy == other.copy
    }
}

impl PartialEqSpecImpl for LinkFileDefinition {
    open spec fn obeys_eq_spec() -> bool {
        true
    }

    open spec fn eq_spec(&self, other: &Self) -> bool {
        self@ == other@
    }
}

impl Eq for LinkFileDefinition {

}

impl Clone for LinkFileDefinition {
    fn clone(&self) -> (copy: Self)
        ensures
            copy == *self,
    {
        LinkFileDefinition { src: self.src.clone(), dest: self.dest.clone(), copy: self.copy }
    }
}

impl LinkFileDefinition {
    /// The reason given for a short form without a colon.
    pub open spec fn wrong_format() -> Seq<char> {
        "Wrong format, needing {src}:{dest}"@
    }

    /// What the short form `value` stands for. Cut at each colon, it needs at
    /// least two pieces: the first is the source, the second the destination,
    /// and the file is linked.
    pub open spec fn parsed(value: Seq<char>) -> Result<LinkView, ErrorView> {
        let pieces = split_on(value, ':');
        if pieces.len() < 2 {
            Err(ErrorView::ParseError { reason: Self::wrong_format() })
        } else {
            Ok(LinkView { src: pieces[0], dest: pieces[1], copy: false })
        }
    }

    /// Reads the short form of a link: `src:dest`.
    pub fn parse(value: &str) -> (result: Result<Self, Error>)
        ensures
            match result {
                Ok(link) => Self::parsed(value@) == Ok::<LinkView, ErrorView>(link@),
                Err(error) => Self::parsed(value@) == Err::<LinkView, ErrorView>(error@),
            },
    {
        let pieces = split(value, ':');
        if pieces.len() < 2 {
            return Err(
                Error::ParseError { reason: "Wrong format, needing {src}:{dest}".to_owned() },
            );
        }
        Ok(LinkFileDefinition { src: pieces[0].clone(), dest: pieces[1].clone(), copy: false })
    }

    /// The short form of the link: `src:dest`.
    pub fn to_string(&self) -> (text: String)
        ensures
            text@ == self.src@ + ":"@ + self.dest@,
    {
        let mut text = self.src.clone();
        text.append(":");
        text.append(self.dest.as_str());
        text
    }
}

impl std::str::FromStr for LinkFileDefinition {
    type Err = Error;

    fn from_str(value: &str) -> (result: Result<Self, Error>)
        ensures
            match result {
                Ok(link) => Self::parsed(value@) == Ok::<LinkView, ErrorView>(link@),
                Err(error) => Self::parsed(value@) == Err::<LinkView, ErrorView>(error@),
            },
    {
        Self::parse(value)
    }
}

/// The declarative description of one package.
///
/// `path` is where the package lives in the repository, such as `packages/zsh`;
/// the actions planned for the package carry it as their origin.
#[derive(Debug)]
pub struct PackageDefinition {
    pub name: String,
    pub description: Option<String>,
    pub path: String,
    pub dependencies: Vec<DependencyDefinition>,
    pub pre_install: Option<String>,
    pub post_install: Option<String>,
    pub links: Vec<LinkFileDefinition>,
    pub post_links: Option<String>,
}

/// The mathematical value of a [`PackageDefinition`].
pub ghost struct PackageView {
    pub name: Seq<char>,
    pub description: Option<Seq<char>>,
    pub path: Seq<char>,
    pub dependencies: Seq<DependencyView>,
    pub pre_install: Option<Seq<char>>,
    pub post_install: Option<Seq<char>>,
    pub links: Seq<LinkView>,
    pub post_links: Option<Seq<char>>,
}

/// The characters of an optional text.
pub open spec fn text_view(text: Option<String>) -> Option<Seq<char>> {
    match text {
        Some(present) => Some(present@),
        None => None,
    }
}

impl View for PackageDefinition {
    type V = PackageView;

    open spec fn view(&self) -> PackageView {
        PackageView {
            name: self.name@,
            description: text_view(self.description),
            path: self.path@,
            dependencies: self.dependencies.deep_view(),
            pre_install: text_view(self.pre_install),
            post_install: text_view(self.post_install),
            links: self.links.deep_view(),
            post_links: text_view(self.post_links),
        }
    }
}

/// A copy of an optional text.
fn clone_text(text: &Option<String>) -> (copy: Option<String>)
    ensures
        copy == *text,
{
    match text {
        Some(present) => Some(present.clone()),
        None => None,
    }
}

impl Clone for PackageDefinition {
    fn clone(&self) -> (copy: Self)
        ensures
            copy@ == self@,
    {
        let mut dependencies: Vec<DependencyDefinition> = Vec::new();
        let mut index: usize = 0;
        while index < self.dependencies.len()
            invariant
                index <= self.dependencies.len(),
                dependencies.deep_view() == self.dependencies.deep_view().take(index as int),
            decreases self.dependencies.len() - index,
        {
            let ghost copied = dependencies.deep_view();
            let dependency = self.dependencies[index].clone();
            dependencies.push(dependency);
            assert(dependencies.deep_view() =~= copied.push(self.dependencies[index as int]@));
            index += 1;
            assert(dependencies.deep_view() =~= self.dependencies.deep_view().take(index as int));
        }
        assert(self.dependencies.deep_view().take(index as int) =~= self.dependencies.deep_view());
        let mut links: Vec<LinkFileDefinition> = Vec::new();
        let mut index: usize = 0;
        while index < self.links.len()
            invariant
                index <= self.links.len(),
                links.deep_view() == self.links.deep_view().take(index as int),
            decreases self.links.len() - index,
        {
            let ghost copied = links.deep_view();
            let link = self.links[index].clone();
            links.push(link);
            assert(links.deep_view() =~= copied.push(self.links[index as int]@));
            index += 1;
            assert(links.deep_view() =~= self.links.deep_view().take(index as int));
        }
        assert(self.links.deep_view().take(index as int) =~= self.links.deep_view());
        PackageDefinition {
            name: self.name.clone(),
            description: clone_text(&self.description),
            path: self.path.clone(),
            dependencies,
            pre_install: clone_text(&self.pre_install),
            post_install: clone_text(&self.post_install),
            links,
            post_links: clone_text(&self.post_links),
        }
    }
}

/// A sample package that sets up a package manager.
pub const DEFAULT_PACKAGE_EXAMPLE_FLATPAK: &'static str = "description: Flatpak is a system for building, distributing and running sandboxed desktop applications on Linux.
source: https://github.com/flatpak/flatpak
dependencies:
  - flatpak
post_install: |
  flatpak remote-add --if-not-exists flathub https://flathub.org/repo/flathub.flatpakrepo
";

/// A sample package that links a configuration file.
pub const DEFAULT_PACKAGE_EXAMPLE_TMUX: &'static str = "description: \"tmux is a terminal multiplexer\"
source: https://github.com/tmux/tmux
dependencies:
  - tmux
links:
  - src: tmux.conf
    dest: ~/.tmux.conf
";

/// The configuration file of the sample package.
pub const DEFAULT_PACKAGE_EXAMPLE_TMUX_CONFIG: &'static str = "## split panes using | and -
bind | split-window -h
bind - split-window -v
unbind \'\"\'
unbind %
## switch panes using Alt-arrow without prefix
bind -n M-Left select-pane -L
bind -n M-Right select-pane -R
bind -n M-Up select-pane -U
bind -n M-Down select-pane -D
## switch window using Alt-Page(Up|Down) without prefix
bind -n M-PageUp previous-window
bind -n M-PageDown next-window
";

/// The packages of a repository, by name.
pub struct PackageCollection {
    packages: StringHashMap<PackageDefinition>,
}

impl View for PackageCollection {
    type V = Map<Seq<char>, PackageView>;

    closed spec fn view(&self) -> Map<Seq<char>, PackageView> {
        self.packages@.map_values(|package: PackageDefinition| package@)
    }
}

impl PackageCollection {
    /// A collection holds finitely many packages.
    #[verifier::type_invariant]
    pub closed spec fn is_finite(self) -> bool {
        self.packages@.dom().finite()
    }

    /// What [`PackageCollection::is_finite`] means for the view.
    pub proof fn lemma_finite(self)
        requires
            self.is_finite(),
        ensures
            self@.dom().finite(),
    {
        assert(self@.dom() =~= self.packages@.dom());
    }

    /// A collection without packages.
    pub fn new() -> (collection: Self)
        ensures
            collection@ == Map::<Seq<char>, PackageView>::empty(),
    {
        let collection = PackageCollection { packages: StringHashMap::new() };
        assert(collection@ =~= Map::<Seq<char>, PackageView>::empty());
        collection
    }

    /// Files `package` under `name`, in place of what stood there.
    pub fn insert(&mut self, name: String, package: PackageDefinition)
        ensures
            final(self)@ == old(self)@.insert(name@, package@),
    {
        proof {
            use_type_invariant(&*self);
        }
        let mut packages = StringHashMap::new();
        std::mem::swap(&mut self.packages, &mut packages);
        packages.insert(name, package);
        std::mem::swap(&mut self.packages, &mut packages);
        assert(self@ =~= old(self)@.insert(name@, package@));
    }

    /// The package filed under `name`, if there is one.
    pub fn get(&self, name: &String) -> (found: Option<&PackageDefinition>)
        ensures
            match found {
                Some(package) => self@.contains_key(name@) && package@ == self@[name@],
                None => !self@.contains_key(name@),
            },
    {
        self.packages.get(name.as_str())
    }

    /// Whether a package is filed under `name`.
    pub fn contains_key(&self, name: &String) -> (found: bool)
        ensures
            found == self@.contains_key(name@),
    {
        self.packages.contains_key(name.as_str())
    }

    /// How many packages the collection holds.
    pub fn len(&self) -> (count: usize)
        ensures
            count == self@.len(),
    {
        assert(self@.dom() =~= self.packages@.dom());
        self.packages.len()
    }
}

} // verus!
