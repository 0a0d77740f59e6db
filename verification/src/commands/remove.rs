//! Removing dependencies from a host.

use crate::commands::add::{all_parsed, parse_dependencies, with_dependencies};
use crate::package::{DependencyDefinition, DependencyView, PackageDefinition};
use crate::text::{join, joined_by};
use vstd::prelude::*;
use vstd::string::StringExecFns;

verus! {

/// The options of the command that removes dependencies from a host.
pub struct RunRemoveOptions {
    /// The dependencies to remove, in their short form.
    pub package_names: Vec<String>,
    /// Whether to uninstall them at once.
    pub install: bool,
    /// Whether to commit the changed definition.
    pub commit: bool,
    /// Whether to push the commit.
    pub push: bool,
}

/// The test for a dependency that is not among `removed`.
pub open spec fn stays(removed: Seq<DependencyView>) -> spec_fn(DependencyView) -> bool {
    |dependency: DependencyView| !removed.contains(dependency)
}

/// Whether `dependency` is among `dependencies`.
pub fn contains_dependency(
    dependencies: &Vec<DependencyDefinition>,
    dependency: &DependencyDefinition,
) -> (found: bool)
    ensures
        found == dependencies.deep_view().contains(dependency@),
{
    let mut index: usize = 0;
    while index < dependencies.len()
        invariant
            index <= dependencies.len(),
            forall|earlier: int|
                0 <= earlier < index ==> dependencies.deep_view()[earlier] != dependency@,
        decreases dependencies.len() - index,
    {
        if dependencies[index] == *dependency {
            assert(dependencies.deep_view()[index as int] == dependency@);
            return true;
        }
        index += 1;
    }
    false
}

/// Takes the dependencies that `options` names out of those of `definition`,
/// wherever they stand, and says how many were taken out.
pub fn remove_dependencies(definition: &mut PackageDefinition, options: &RunRemoveOptions) -> (removed:
    usize)
    ensures
        final(definition)@ == with_dependencies(
            old(definition)@,
            old(definition)@.dependencies.filter(
                stays(all_parsed(options.package_names.deep_view())),
            ),
        ),
        removed == old(definition)@.dependencies.len() - final(definition)@.dependencies.len(),
{
    let old_dependencies = parse_dependencies(&options.package_names);
    let ghost before = definition.dependencies.deep_view();
    let ghost keep = stays(old_dependencies.deep_view());
    let mut kept: Vec<DependencyDefinition> = Vec::new();
    let mut index: usize = 0;
    assert(before.take(0).filter(keep) =~= Seq::empty()) by {
        reveal(Seq::filter);
    }
    while index < definition.dependencies.len()
        invariant
            index <= definition.dependencies.len(),
            before == definition.dependencies.deep_view(),
            keep == stays(old_dependencies.deep_view()),
            kept.deep_view() == before.take(index as int).filter(keep),
        decreases definition.dependencies.len() - index,
    {
        let dependency = &definition.dependencies[index];
        let ghost seen = before.take(index as int);
        let ghost written = kept.deep_view();
        proof {
            assert(before.take(index as int + 1) =~= seen.push(dependency@));
            seen.lemma_filter_push(dependency@, keep);
        }
        if !contains_dependency(&old_dependencies, dependency) {
            kept.push(dependency.clone());
            assert(kept.deep_view() =~= written.push(dependency@));
        }
        index += 1;
    }
    proof {
        assert(before.take(index as int) =~= before);
        before.lemma_filter_len(keep);
    }
    let removed = definition.dependencies.len() - kept.len();
    definition.dependencies = kept;
    removed
}

/// The message of the commit that records the removal.
pub open spec fn commit_message(hostname: Seq<char>, package_names: Seq<Seq<char>>) -> Seq<char> {
    if package_names.len() == 1 {
        "Remove "@ + package_names[0] + " from "@ + hostname
    } else {
        "Remove packages from "@ + hostname + "\n- "@ + joined_by(package_names, "\n- "@)
    }
}

/// Writes the message of the commit that records the removal of `package_names`
/// from the host `hostname`.
pub fn build_commit_message(hostname: &String, package_names: &Vec<String>) -> (message: String)
    ensures
        message@ == commit_message(hostname@, package_names.deep_view()),
{
    if package_names.len() == 1 {
        let mut message = "Remove ".to_owned();
        message.append(package_names[0].as_str());
        message.append(" from ");
        message.append(hostname.as_str());
        return message;
    }
    let mut message = "Remove packages from ".to_owned();
    message.append(hostname.as_str());
    message.append("\n- ");
    message.append(join(package_names, "\n- ").as_str());
    message
}

} // verus!
