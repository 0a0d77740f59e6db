//! Adding dependencies to a host.

use crate::package::{DependencyDefinition, DependencyView, PackageDefinition, PackageView};
use crate::text::{join, joined_by};
use vstd::prelude::*;
use vstd::string::StringExecFns;

verus! {

/// The options of the command that adds dependencies to a host.
pub struct RunAddOptions {
    /// The dependencies to add, in their short form.
    pub package_names: Vec<String>,
    /// Whether to install them at once.
    pub install: bool,
    /// Whether to commit the changed definition.
    pub commit: bool,
    /// Whether to push the commit.
    pub push: bool,
}

/// What the short forms stand for, in order.
pub open spec fn all_parsed(names: Seq<Seq<char>>) -> Seq<DependencyView> {
    names.map_values(|name: Seq<char>| DependencyDefinition::parsed(name))
}

/// `package` with other dependencies.
pub open spec fn with_dependencies(package: PackageView, dependencies: Seq<DependencyView>) -> PackageView {
    PackageView {
        name: package.name,
        description: package.description,
        path: package.path,
        dependencies,
        pre_install: package.pre_install,
        post_install: package.post_install,
        links: package.links,
        post_links: package.post_links,
    }
}

/// Reads the dependencies from their short forms.
pub fn parse_dependencies(names: &Vec<String>) -> (dependencies: Vec<DependencyDefinition>)
    ensures
        dependencies.deep_view() == all_parsed(names.deep_view()),
{
    let mut dependencies: Vec<DependencyDefinition> = Vec::new();
    let mut index: usize = 0;
    while index < names.len()
        invariant
            index <= names.len(),
            dependencies.deep_view() == all_parsed(names.deep_view()).take(index as int),
        decreases names.len() - index,
    {
        let ghost read = dependencies.deep_view();
        let dependency = DependencyDefinition::parse(names[index].as_str());
        assert(dependency@ == all_parsed(names.deep_view())[index as int]);
        dependencies.push(dependency);
        assert(dependencies.deep_view() =~= read.push(all_parsed(names.deep_view())[index as int]));
        index += 1;
        assert(dependencies.deep_view() =~= all_parsed(names.deep_view()).take(index as int));
    }
    assert(all_parsed(names.deep_view()).take(index as int) =~= all_parsed(names.deep_view()));
    dependencies
}

/// Adds the dependencies that `options` names at the end of those of
/// `definition`, and says how many were added.
pub fn add_dependencies(definition: &mut PackageDefinition, options: &RunAddOptions) -> (added: usize)
    ensures
        final(definition)@ == with_dependencies(
            old(definition)@,
            old(definition)@.dependencies + all_parsed(options.package_names.deep_view()),
        ),
        added == options.package_names.len(),
{
    let ghost before = definition.dependencies.deep_view();
    let mut new_dependencies = parse_dependencies(&options.package_names);
    let ghost parsed = new_dependencies.deep_view();
    let added = new_dependencies.len();
    definition.dependencies.append(&mut new_dependencies);
    assert(definition.dependencies.deep_view() =~= before + parsed);
    added
}

/// The message of the commit that records the addition.
pub open spec fn commit_message(hostname: Seq<char>, package_names: Seq<Seq<char>>) -> Seq<char> {
    if package_names.len() == 1 {
        "Add "@ + package_names[0] + " to "@ + hostname
    } else {
        "Add packages to "@ + hostname + "\n- "@ + joined_by(package_names, "\n- "@)
    }
}

/// Writes the message of the commit that records the addition of `package_names`
/// to the host `hostname`.
pub fn build_commit_message(hostname: &String, package_names: &Vec<String>) -> (message: String)
    ensures
        message@ == commit_message(hostname@, package_names.deep_view()),
{
    if package_names.len() == 1 {
        let mut message = "Add ".to_owned();
        message.append(package_names[0].as_str());
        message.append(" to ");
        message.append(hostname.as_str());
        return message;
    }
    let mut message = "Add packages to ".to_owned();
    message.append(hostname.as_str());
    message.append("\n- ");
    message.append(join(package_names, "\n- ").as_str());
    message
}

} // verus!
