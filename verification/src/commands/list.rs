//! The listing of what a host depends on.

use crate::package::{DependencyView, PackageDefinition};
use crate::text::{join, joined_by};
use vstd::prelude::*;

verus! {

/// The options of the command that lists the dependencies of a host.
pub struct RunListOptions {}

/// The short form of a dependency: `source:name`.
pub open spec fn shown(dependency: DependencyView) -> Seq<char> {
    dependency.source + ":"@ + dependency.name
}

/// The short forms of the dependencies, in order.
pub open spec fn all_shown(dependencies: Seq<DependencyView>) -> Seq<Seq<char>> {
    dependencies.map_values(|dependency: DependencyView| shown(dependency))
}

/// The dependencies of `definition` in their short form, one on each line.
pub fn list_dependencies(definition: &PackageDefinition, options: &RunListOptions) -> (listing: String)
    ensures
        listing@ == joined_by(all_shown(definition@.dependencies), "\n"@),
{
    let mut lines: Vec<String> = Vec::new();
    let mut index: usize = 0;
    while index < definition.dependencies.len()
        invariant
            index <= definition.dependencies.len(),
            lines.deep_view() == all_shown(definition@.dependencies).take(index as int),
        decreases definition.dependencies.len() - index,
    {
        let ghost written = lines.deep_view();
        let line = definition.dependencies[index].to_string();
        assert(line@ == shown(definition@.dependencies[index as int]));
        lines.push(line);
        assert(lines.deep_view() =~= written.push(shown(definition@.dependencies[index as int])));
        index += 1;
        assert(lines.deep_view() =~= all_shown(definition@.dependencies).take(index as int));
    }
    assert(all_shown(definition@.dependencies).take(index as int) =~= all_shown(
        definition@.dependencies,
    ));
    join(&lines, "\n")
}

} // verus!
