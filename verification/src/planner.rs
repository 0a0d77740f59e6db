//! From a package and the packages it depends on to an ordered list of actions.
//!
//! A package is planned in a fixed order: its pre-install script, its
//! dependencies in the order of their declaration, its post-install script, its
//! links, its post-links script. A dependency on another package of the
//! repository is planned in full where it is first met, and skipped wherever it
//! is met again; the names already met are threaded through the whole traversal.

use crate::action::{ActionView, FileOperation, PackageOperation, ScriptOperation, SystemAction};
use crate::error::{Error, ErrorView};
use crate::package::{
    LinkFileDefinition,
    LinkView,
    PackageCollection,
    PackageDefinition,
    PackageSource,
    PackageView,
};
use vstd::prelude::*;
use vstd::string::StringExecFns;

verus! {

/// The source that stands for another package of the repository.
pub open spec fn dot() -> Seq<char> {
    "dot"@
}

/// What follows the path in the origin of a pre-install script.
pub open spec fn pre_install_phase() -> Seq<char> {
    ":pre_install"@
}

/// What follows the path in the origin of a post-install script.
pub open spec fn post_install_phase() -> Seq<char> {
    ":post_install"@
}

/// What follows the path in the origin of a post-links script.
pub open spec fn post_links_phase() -> Seq<char> {
    ":post_links"@
}

/// Whether `input` starts with a tilde that stands alone or before a separator.
pub open spec fn starts_at_home(input: Seq<char>) -> bool {
    input.len() > 0 && input[0] == '~' && (input.len() == 1 || input[1] == '/' || input[1]
        == '\\')
}

/// Whether `output` may come of the tilde expansion of `input`: either the two
/// are the same, or `input` starts at home and `output` has some home directory
/// in place of the tilde.
pub open spec fn tilde_expansion(input: Seq<char>, output: Seq<char>) -> bool {
    output == input || (starts_at_home(input) && exists|home: Seq<char>|
        output == #[trigger] (home + input.skip(1)))
}

/// Tilde expansion by `shellexpand::tilde`, with the home directory of the
/// current user as the system tells it.
///
/// A path that does not start with a tilde, or whose tilde is followed by
/// anything but a separator, comes back as it is. Otherwise the tilde is
/// replaced by the home directory, if the system knows one that is valid
/// Unicode, and the path comes back as it is if not. The home directory is not
/// an argument, so nothing is claimed of it.
#[verifier::external_body]
fn expand_tilde(path: &String) -> (expanded: String)
    ensures
        tilde_expansion(path@, expanded@),
{
    shellexpand::tilde(path).to_string()
}

/// Whether `actual` may come of `planned` by tilde expansion of the paths of a
/// file action; any other action is unchanged.
pub open spec fn expands(planned: ActionView, actual: ActionView) -> bool {
    match planned {
        ActionView::File { operation, src, dest, origin } => match actual {
            ActionView::File { operation: o, src: s, dest: d, origin: g } => {
                &&& o == operation
                &&& g == origin
                &&& tilde_expansion(src, s)
                &&& tilde_expansion(dest, d)
            },
            _ => false,
        },
        other => actual == other,
    }
}

/// Whether `actual` may come of `planned`, action by action.
pub open spec fn expanded_from(planned: Seq<ActionView>, actual: Seq<ActionView>) -> bool {
    &&& actual.len() == planned.len()
    &&& forall|index: int| 0 <= index < planned.len() ==> expands(planned[index], actual[index])
}

/// What planning yields: the actions before tilde expansion, the names newly
/// visited in the order of their visit, and the first dependency that the
/// repository lacks, if there is one. Planning stops at that dependency.
pub ghost struct Planned {
    pub actions: Seq<ActionView>,
    pub visited: Seq<Seq<char>>,
    pub missing: Option<Seq<char>>,
}

/// How many packages of the repository have not been visited.
pub open spec fn unvisited(repo: Map<Seq<char>, PackageView>, visited: Seq<Seq<char>>) -> nat {
    repo.dom().difference(visited.to_set()).len()
}

/// The action that runs `script`, if there is one, for the given phase of the package at `path`.
pub open spec fn script_actions(script: Option<Seq<char>>, path: Seq<char>, phase: Seq<char>) -> Seq<
    ActionView,
> {
    match script {
        Some(text) => seq![
            ActionView::Script { operation: ScriptOperation::Run, script: text, origin: path + phase },
        ],
        None => Seq::empty(),
    }
}

/// The action that puts one file of the package at `path` in place.
pub open spec fn link_action(link: LinkView, path: Seq<char>) -> ActionView {
    ActionView::File {
        operation: if link.copy {
            FileOperation::Copy
        } else {
            FileOperation::Link
        },
        src: link.src,
        dest: link.dest,
        origin: path,
    }
}

/// The actions that put the files of the package at `path` in place.
pub open spec fn link_actions(links: Seq<LinkView>, path: Seq<char>) -> Seq<ActionView> {
    links.map_values(|link: LinkView| link_action(link, path))
}

/// The action that installs a dependency from a package manager.
pub open spec fn install_action(source: Seq<char>, name: Seq<char>, path: Seq<char>) -> ActionView {
    ActionView::Package { operation: PackageOperation::Install, source, name, origin: path }
}

/// Visiting a new package of the repository leaves fewer packages unvisited,
/// and visiting more after it leaves no more.
pub proof fn lemma_unvisited_shrinks(
    repo: Map<Seq<char>, PackageView>,
    visited: Seq<Seq<char>>,
    name: Seq<char>,
    more: Seq<Seq<char>>,
)
    requires
        repo.dom().finite(),
        repo.contains_key(name),
        !visited.contains(name),
    ensures
        unvisited(repo, visited.push(name) + more) <= unvisited(repo, visited.push(name)),
        unvisited(repo, visited.push(name)) < unvisited(repo, visited),
{
    let open = repo.dom().difference(visited.to_set());
    let after = repo.dom().difference(visited.push(name).to_set());
    let least = repo.dom().difference((visited.push(name) + more).to_set());
    assert(open.subset_of(repo.dom()));
    vstd::set_lib::lemma_len_subset(open, repo.dom());
    assert(after =~= open.remove(name)) by {
        assert forall|other: Seq<char>| after.contains(other) <==> open.remove(name).contains(
            other,
        ) by {
            if visited.push(name).contains(other) {
                let at = choose|at: int|
                    0 <= at < visited.push(name).len() && visited.push(name)[at] == other;
                if at < visited.len() {
                    assert(visited[at] == other);
                }
            }
            if visited.contains(other) {
                let at = choose|at: int| 0 <= at < visited.len() && visited[at] == other;
                assert(visited.push(name)[at] == other);
            }
            assert(visited.push(name)[visited.len() as int] == name);
        }
    }
    assert(open.contains(name));
    assert(least.subset_of(after)) by {
        assert forall|other: Seq<char>| least.contains(other) implies after.contains(other) by {
            if visited.push(name).contains(other) {
                let at = choose|at: int|
                    0 <= at < visited.push(name).len() && visited.push(name)[at] == other;
                assert((visited.push(name) + more)[at] == other);
            }
        }
    }
    vstd::set_lib::lemma_len_subset(least, after);
}

/// The plan of a package, given the repository and the names already visited.
pub open spec fn plan_package(
    package: PackageView,
    repo: Map<Seq<char>, PackageView>,
    visited: Seq<Seq<char>>,
) -> Planned
    decreases unvisited(repo, visited), 1nat, 0nat,
    when repo.dom().finite()
{
    let dependencies = plan_dependencies(package, 0, repo, visited);
    Planned {
        actions: script_actions(package.pre_install, package.path, pre_install_phase())
            + dependencies.actions + script_actions(
            package.post_install,
            package.path,
            post_install_phase(),
        ) + link_actions(package.links, package.path) + script_actions(
            package.post_links,
            package.path,
            post_links_phase(),
        ),
        visited: dependencies.visited,
        missing: dependencies.missing,
    }
}

/// The plan of the dependencies of `package` from the one at `from` on.
///
/// A dependency on a package manager becomes one installation. A dependency on
/// a package of the repository that was visited before is skipped; one that was
/// not is marked as visited and planned in full, its own dependencies first.
pub open spec fn plan_dependencies(
    package: PackageView,
    from: int,
    repo: Map<Seq<char>, PackageView>,
    visited: Seq<Seq<char>>,
) -> Planned
    decreases unvisited(repo, visited), 0nat, package.dependencies.len() - from,
    when repo.dom().finite()
{
    if from < 0 || from >= package.dependencies.len() {
        Planned { actions: Seq::empty(), visited: Seq::empty(), missing: None }
    } else {
        let dependency = package.dependencies[from];
        if dependency.source != dot() {
            let rest = plan_dependencies(package, from + 1, repo, visited);
            Planned {
                actions: seq![install_action(dependency.source, dependency.name, package.path)]
                    + rest.actions,
                visited: rest.visited,
                missing: rest.missing,
            }
        } else if visited.contains(dependency.name) {
            plan_dependencies(package, from + 1, repo, visited)
        } else if !repo.contains_key(dependency.name) {
            Planned {
                actions: Seq::empty(),
                visited: Seq::empty(),
                missing: Some(dependency.name),
            }
        } else {
            let marked = visited.push(dependency.name);
            proof {
                lemma_unvisited_shrinks(repo, visited, dependency.name, Seq::empty());
            }
            let first = plan_package(repo[dependency.name], repo, marked);
            if first.missing is Some {
                Planned {
                    actions: first.actions,
                    visited: seq![dependency.name] + first.visited,
                    missing: first.missing,
                }
            } else {
                proof {
                    lemma_unvisited_shrinks(repo, visited, dependency.name, first.visited);
                }
                let rest = plan_dependencies(package, from + 1, repo, marked + first.visited);
                Planned {
                    actions: first.actions + rest.actions,
                    visited: seq![dependency.name] + first.visited + rest.visited,
                    missing: rest.missing,
                }
            }
        }
    }
}


/// Whether `result` and the names in `after` are what `planned` asks for, given
/// the names in `before`: the names newly visited are appended; on success the
/// actions are the planned ones after tilde expansion; and planning fails exactly
/// when a dependency is missing, reporting the first.
pub open spec fn carries_out(
    planned: Planned,
    before: Seq<Seq<char>>,
    after: Seq<Seq<char>>,
    result: Result<Vec<SystemAction>, Error>,
) -> bool {
    &&& after == before + planned.visited
    &&& match result {
        Ok(actions) => planned.missing is None && expanded_from(
            planned.actions,
            actions.deep_view(),
        ),
        Err(error) => planned.missing is Some && error@ == (ErrorView::MissingPackage {
            name: planned.missing.unwrap(),
        }),
    }
}

/// Expansion goes action by action, so it goes through concatenation.
pub proof fn lemma_expanded_concat(
    planned: Seq<ActionView>,
    actual: Seq<ActionView>,
    more_planned: Seq<ActionView>,
    more_actual: Seq<ActionView>,
)
    requires
        expanded_from(planned, actual),
        expanded_from(more_planned, more_actual),
    ensures
        expanded_from(planned + more_planned, actual + more_actual),
{
    assert forall|index: int| 0 <= index < (planned + more_planned).len() implies expands(
        (planned + more_planned)[index],
        (actual + more_actual)[index],
    ) by {
        if index >= planned.len() {
            assert(expands(more_planned[index - planned.len()], more_actual[index - planned.len()]));
        }
    }
}

/// Whether `source` stands for a package of the repository.
pub fn is_local(source: &String) -> (local: bool)
    ensures
        local == (source@ == dot()),
{
    match PackageSource::from(source.as_str()) {
        PackageSource::Local => true,
        PackageSource::System => false,
    }
}

/// Whether `name` is among `names`.
pub fn contains_name(names: &Vec<String>, name: &String) -> (found: bool)
    ensures
        found == names.deep_view().contains(name@),
{
    let mut index: usize = 0;
    while index < names.len()
        invariant
            index <= names.len(),
            forall|earlier: int| 0 <= earlier < index ==> names.deep_view()[earlier] != name@,
        decreases names.len() - index,
    {
        if names[index] == *name {
            assert(names.deep_view()[index as int] == name@);
            return true;
        }
        index += 1;
    }
    false
}

/// The origin of a script: the path of its package, followed by the phase.
pub fn phase_origin(path: &String, phase: &str) -> (origin: String)
    ensures
        origin@ == path@ + phase@,
{
    let mut origin = path.clone();
    origin.append(phase);
    origin
}

/// Appends the action that runs `script` for a phase, if there is a script.
fn push_script(actions: &mut Vec<SystemAction>, script: &Option<String>, path: &String, phase: &str)
    ensures
        final(actions).deep_view() == old(actions).deep_view() + script_actions(
            crate::package::text_view(*script),
            path@,
            phase@,
        ),
{
    match script {
        Some(text) => {
            actions.push(
                SystemAction::Script {
                    operation: ScriptOperation::Run,
                    script: text.clone(),
                    origin: phase_origin(path, phase),
                },
            );
            assert(actions.deep_view() =~= old(actions).deep_view() + script_actions(
                crate::package::text_view(*script),
                path@,
                phase@,
            ));
        },
        None => {
            assert(actions.deep_view() =~= old(actions).deep_view() + Seq::empty());
        },
    }
}

/// The action that puts one file in place, once its two paths are expanded.
pub fn link_to_action(link: &LinkFileDefinition, src: String, dest: String, path: &String) -> (action:
    SystemAction)
    ensures
        action@ == (ActionView::File {
            operation: if link.copy {
                FileOperation::Copy
            } else {
                FileOperation::Link
            },
            src: src@,
            dest: dest@,
            origin: path@,
        }),
{
    SystemAction::File {
        operation: if link.copy {
            FileOperation::Copy
        } else {
            FileOperation::Link
        },
        src,
        dest,
        origin: path.clone(),
    }
}

/// The actions that put the files of a package in place, with the tilde at the
/// start of a path expanded to the home directory.
pub fn transform_links_to_actions(package: &PackageDefinition) -> (actions: Vec<SystemAction>)
    ensures
        expanded_from(link_actions(package@.links, package@.path), actions.deep_view()),
{
    let mut actions: Vec<SystemAction> = Vec::new();
    let ghost planned = link_actions(package@.links, package@.path);
    let mut index: usize = 0;
    while index < package.links.len()
        invariant
            index <= package.links.len(),
            planned == link_actions(package@.links, package@.path),
            expanded_from(planned.take(index as int), actions.deep_view()),
        decreases package.links.len() - index,
    {
        let link = &package.links[index];
        let ghost written = actions.deep_view();
        let src = expand_tilde(&link.src);
        let dest = expand_tilde(&link.dest);
        let action = link_to_action(link, src, dest, &package.path);
        proof {
            assert(planned[index as int] == link_action(link@, package@.path));
            assert(expands(planned[index as int], action@));
            assert(planned.take(index as int + 1) =~= planned.take(index as int) + seq![
                planned[index as int],
            ]);
            lemma_expanded_concat(
                planned.take(index as int),
                written,
                seq![planned[index as int]],
                seq![action@],
            );
        }
        actions.push(action);
        assert(actions.deep_view() =~= written + seq![action@]);
        index += 1;
    }
    assert(planned.take(index as int) =~= planned);
    actions
}

/// Plans the dependencies of `package`, in the order of their declaration.
///
/// A dependency on a package manager becomes one installation with the path of
/// `package` as its origin. A dependency on a package of the repository whose
/// name is in `loaded` is skipped; otherwise its name is added to `loaded` and
/// its whole plan is put in its place. Fails at the first such dependency that
/// `repo` does not hold.
pub fn transform_package_deps_to_actions(
    package: &PackageDefinition,
    repo: &PackageCollection,
    loaded: &mut Vec<String>,
) -> (result: Result<Vec<SystemAction>, Error>)
    ensures
        carries_out(
            plan_dependencies(package@, 0, repo@, old(loaded).deep_view()),
            old(loaded).deep_view(),
            final(loaded).deep_view(),
            result,
        ),
    decreases unvisited(repo@, old(loaded).deep_view()), 0nat, package@.dependencies.len(),
{
    proof {
        use_type_invariant(repo);
        repo.lemma_finite();
    }
    let ghost start = loaded.deep_view();
    let ghost total = plan_dependencies(package@, 0, repo@, start);
    let ghost mut planned: Seq<ActionView> = Seq::empty();
    let ghost mut added: Seq<Seq<char>> = Seq::empty();
    let mut system_actions: Vec<SystemAction> = Vec::new();
    let mut index: usize = 0;
    proof {
        assert(start + added =~= start);
        assert(planned + total.actions =~= total.actions);
        assert(added + total.visited =~= total.visited);
    }
    while index < package.dependencies.len()
        invariant
            index <= package.dependencies.len(),
            repo@.dom().finite(),
            start == old(loaded).deep_view(),
            total == plan_dependencies(package@, 0, repo@, start),
            loaded.deep_view() == start + added,
            expanded_from(planned, system_actions.deep_view()),
            ({
                let rest = plan_dependencies(package@, index as int, repo@, loaded.deep_view());
                &&& total.actions == planned + rest.actions
                &&& total.visited == added + rest.visited
                &&& total.missing == rest.missing
            }),
        decreases package.dependencies.len() - index,
    {
        let dependency = &package.dependencies[index];
        let ghost visited = loaded.deep_view();
        let ghost here = plan_dependencies(package@, index as int, repo@, visited);
        let ghost written = system_actions.deep_view();
        assert(dependency@ == package@.dependencies[index as int]);
        if is_local(&dependency.source) {
            if !contains_name(loaded, &dependency.name) {
                match repo.get(&dependency.name) {
                    None => {
                        assert(added + here.visited =~= added);
                        return Err(Error::MissingPackage { name: dependency.name.clone() });
                    },
                    Some(sub_package) => {
                        loaded.push(dependency.name.clone());
                        let ghost marked = visited.push(dependency.name@);
                        assert(loaded.deep_view() =~= marked);
                        proof {
                            lemma_unvisited_shrinks(repo@, visited, dependency.name@, Seq::empty());
                            lemma_unvisited_grown(repo@, start, added);
                        }
                        let sub_result = transform_package_to_actions(sub_package, repo, loaded);
                        let ghost first = plan_package(sub_package@, repo@, marked);
                        match sub_result {
                            Err(error) => {
                                assert(start + (added + here.visited) =~= marked + first.visited);
                                return Err(error);
                            },
                            Ok(mut sub_actions) => {
                                let ghost sub_view = sub_actions.deep_view();
                                system_actions.append(&mut sub_actions);
                                proof {
                                    assert(system_actions.deep_view() =~= written + sub_view);
                                    lemma_expanded_concat(
                                        planned,
                                        written,
                                        first.actions,
                                        sub_view,
                                    );
                                    let rest = plan_dependencies(
                                        package@,
                                        index as int + 1,
                                        repo@,
                                        marked + first.visited,
                                    );
                                    assert(total.actions =~= (planned + first.actions)
                                        + rest.actions);
                                    assert(total.visited =~= (added + (seq![dependency.name@]
                                        + first.visited)) + rest.visited);
                                    assert(start + (added + (seq![dependency.name@]
                                        + first.visited)) =~= marked + first.visited);
                                    planned = planned + first.actions;
                                    added = added + (seq![dependency.name@] + first.visited);
                                }
                            },
                        }
                    },
                }
            }
        } else {
            let action = SystemAction::Package {
                operation: PackageOperation::Install,
                source: dependency.source.clone(),
                name: dependency.name.clone(),
                origin: package.path.clone(),
            };
            proof {
                let planned_action = install_action(
                    dependency.source@,
                    dependency.name@,
                    package@.path,
                );
                assert(action@ == planned_action);
                lemma_expanded_concat(planned, written, seq![planned_action], seq![action@]);
                let rest = plan_dependencies(package@, index as int + 1, repo@, visited);
                assert(total.actions =~= (planned + seq![planned_action]) + rest.actions);
                planned = planned + seq![planned_action];
            }
            system_actions.push(action);
            assert(system_actions.deep_view() =~= written + seq![action@]);
        }
        index += 1;
    }
    proof {
        let rest = plan_dependencies(package@, index as int, repo@, loaded.deep_view());
        assert(planned + rest.actions =~= planned);
        assert(added + rest.visited =~= added);
    }
    Ok(system_actions)
}

/// Visiting more leaves no more unvisited.
pub proof fn lemma_unvisited_grown(
    repo: Map<Seq<char>, PackageView>,
    visited: Seq<Seq<char>>,
    more: Seq<Seq<char>>,
)
    requires
        repo.dom().finite(),
    ensures
        unvisited(repo, visited + more) <= unvisited(repo, visited),
{
    let open = repo.dom().difference(visited.to_set());
    let least = repo.dom().difference((visited + more).to_set());
    assert(open.subset_of(repo.dom()));
    vstd::set_lib::lemma_len_subset(open, repo.dom());
    assert(least.subset_of(open)) by {
        assert forall|other: Seq<char>| least.contains(other) implies open.contains(other) by {
            if visited.contains(other) {
                let at = choose|at: int| 0 <= at < visited.len() && visited[at] == other;
                assert((visited + more)[at] == other);
            }
        }
    }
    vstd::set_lib::lemma_len_subset(least, open);
}

/// Plans `package`: its pre-install script, its dependencies in the order of
/// their declaration, its post-install script, its links and its post-links
/// script, each only if the package has it.
///
/// `loaded` holds the names of the repository's packages that were planned
/// before; each package planned on the way is added to it, so that a package on
/// which several others depend is planned once, where it is first met. Fails at
/// the first dependency on a package that `repo` does not hold.
pub fn transform_package_to_actions(
    package: &PackageDefinition,
    repo: &PackageCollection,
    loaded: &mut Vec<String>,
) -> (result: Result<Vec<SystemAction>, Error>)
    ensures
        carries_out(
            plan_package(package@, repo@, old(loaded).deep_view()),
            old(loaded).deep_view(),
            final(loaded).deep_view(),
            result,
        ),
    decreases unvisited(repo@, old(loaded).deep_view()), 1nat, 0nat,
{
    proof {
        use_type_invariant(repo);
        repo.lemma_finite();
    }
    let ghost visited = loaded.deep_view();
    let ghost dependencies = plan_dependencies(package@, 0, repo@, visited);
    let mut package_actions: Vec<SystemAction> = Vec::new();
    push_script(&mut package_actions, &package.pre_install, &package.path, ":pre_install");
    let ghost before = package_actions.deep_view();
    let mut dependency_actions = match transform_package_deps_to_actions(package, repo, loaded) {
        Ok(actions) => actions,
        Err(error) => {
            return Err(error);
        },
    };
    let ghost planned_dependencies = dependency_actions.deep_view();
    package_actions.append(&mut dependency_actions);
    assert(package_actions.deep_view() =~= before + planned_dependencies);
    push_script(&mut package_actions, &package.post_install, &package.path, ":post_install");
    let ghost installed = package_actions.deep_view();
    let mut links = transform_links_to_actions(package);
    let ghost linked = links.deep_view();
    package_actions.append(&mut links);
    assert(package_actions.deep_view() =~= installed + linked);
    push_script(&mut package_actions, &package.post_links, &package.path, ":post_links");
    proof {
        let pre = script_actions(package@.pre_install, package@.path, pre_install_phase());
        let post = script_actions(package@.post_install, package@.path, post_install_phase());
        let last = script_actions(package@.post_links, package@.path, post_links_phase());
        let planned_links = link_actions(package@.links, package@.path);
        assert(expanded_from(pre, pre));
        assert(expanded_from(post, post));
        assert(expanded_from(last, last));
        lemma_expanded_concat(pre, pre, dependencies.actions, planned_dependencies);
        lemma_expanded_concat(
            pre + dependencies.actions,
            pre + planned_dependencies,
            post,
            post,
        );
        lemma_expanded_concat(
            pre + dependencies.actions + post,
            pre + planned_dependencies + post,
            planned_links,
            linked,
        );
        lemma_expanded_concat(
            pre + dependencies.actions + post + planned_links,
            pre + planned_dependencies + post + linked,
            last,
            last,
        );
        assert(package_actions.deep_view() =~= pre + planned_dependencies + post + linked + last);
    }
    Ok(package_actions)
}


/// Whether the names newly visited are visited once each: none of them occurs
/// twice, none was visited before, and each names a package of the repository.
pub open spec fn visited_once(
    planned: Planned,
    repo: Map<Seq<char>, PackageView>,
    visited: Seq<Seq<char>>,
) -> bool {
    &&& planned.visited.no_duplicates()
    &&& forall|name: Seq<char>| #[trigger]
        planned.visited.contains(name) ==> repo.contains_key(name) && !visited.contains(name)
}

/// Whether, after a plan that succeeded, every package of the repository that
/// `package` depends on from the dependency at `from` on has been visited.
pub open spec fn dependencies_visited(
    planned: Planned,
    package: PackageView,
    from: int,
    visited: Seq<Seq<char>>,
) -> bool {
    planned.missing is None ==> forall|index: int|
        from <= index < package.dependencies.len() && (#[trigger] package.dependencies[index]).source
            == dot() ==> (visited + planned.visited).contains(package.dependencies[index].name)
}

/// A package on which several packages depend is planned exactly once, where it
/// is first met. Whatever was visited before a plan is not visited by it again,
/// no package is visited twice within it, and once the plan has succeeded every
/// package of the repository that `package` depends on is among the visited, so
/// that a later dependency on it, from this package or from a sibling, is skipped.
pub proof fn lemma_planned_once(
    package: PackageView,
    repo: Map<Seq<char>, PackageView>,
    visited: Seq<Seq<char>>,
)
    requires
        repo.dom().finite(),
    ensures
        visited_once(plan_package(package, repo, visited), repo, visited),
        dependencies_visited(plan_package(package, repo, visited), package, 0, visited),
    decreases unvisited(repo, visited), 1nat, 0nat,
{
    lemma_dependencies_planned_once(package, 0, repo, visited);
}

/// [`lemma_planned_once`] for the dependencies of a package from the one at `from` on.
pub proof fn lemma_dependencies_planned_once(
    package: PackageView,
    from: int,
    repo: Map<Seq<char>, PackageView>,
    visited: Seq<Seq<char>>,
)
    requires
        repo.dom().finite(),
        0 <= from,
    ensures
        visited_once(plan_dependencies(package, from, repo, visited), repo, visited),
        dependencies_visited(plan_dependencies(package, from, repo, visited), package, from, visited),
    decreases unvisited(repo, visited), 0nat, package.dependencies.len() - from,
{
    let planned = plan_dependencies(package, from, repo, visited);
    if from < package.dependencies.len() {
        let dependency = package.dependencies[from];
        if dependency.source != dot() {
            lemma_dependencies_planned_once(package, from + 1, repo, visited);
        } else if visited.contains(dependency.name) {
            lemma_dependencies_planned_once(package, from + 1, repo, visited);
            let at = choose|at: int| 0 <= at < visited.len() && visited[at] == dependency.name;
            assert((visited + planned.visited)[at] == dependency.name);
        } else if repo.contains_key(dependency.name) {
            let name = dependency.name;
            let marked = visited.push(name);
            lemma_unvisited_shrinks(repo, visited, name, Seq::empty());
            let first = plan_package(repo[name], repo, marked);
            lemma_planned_once(repo[name], repo, marked);
            assert(marked[visited.len() as int] == name);
            assert forall|other: Seq<char>| marked.contains(other) <==> (other == name
                || visited.contains(other)) by {
                if visited.contains(other) {
                    let at = choose|at: int| 0 <= at < visited.len() && visited[at] == other;
                    assert(marked[at] == other);
                }
                if marked.contains(other) {
                    let at = choose|at: int| 0 <= at < marked.len() && marked[at] == other;
                    if at < visited.len() {
                        assert(visited[at] == other);
                    }
                }
            }
            let head = seq![name] + first.visited;
            lemma_prepend_new(name, first.visited);
            assert forall|other: Seq<char>| head.contains(other) <==> (other == name
                || first.visited.contains(other)) by {
                lemma_concat_contains(seq![name], first.visited, other);
                if seq![name].contains(other) {
                    let at = choose|at: int| 0 <= at < 1 && seq![name][at] == other;
                }
                assert(seq![name][0] == name);
            }
            if first.missing is Some {
                assert(planned.visited == head);
                assert(visited_once(planned, repo, visited));
            } else {
                let further = marked + first.visited;
                lemma_unvisited_shrinks(repo, visited, name, first.visited);
                let rest = plan_dependencies(package, from + 1, repo, further);
                lemma_dependencies_planned_once(package, from + 1, repo, further);
                assert(visited + head =~= further);
                assert forall|other: Seq<char>| further.contains(other) <==> (marked.contains(other)
                    || first.visited.contains(other)) by {
                    lemma_concat_contains(marked, first.visited, other);
                }
                assert((head + rest.visited).no_duplicates()) by {
                    assert forall|i: int, j: int|
                        0 <= i < head.len() && 0 <= j < rest.visited.len() implies head[i]
                        != rest.visited[j] by {
                        assert(head.contains(head[i]));
                        assert(rest.visited.contains(rest.visited[j]));
                    }
                    vstd::seq_lib::lemma_no_dup_in_concat(head, rest.visited);
                }
                assert(planned.visited == head + rest.visited);
                assert forall|other: Seq<char>| #[trigger]
                    planned.visited.contains(other) implies repo.contains_key(other)
                    && !visited.contains(other) by {
                    lemma_concat_contains(head, rest.visited, other);
                }
                assert(visited_once(planned, repo, visited));
                assert(visited + planned.visited =~= further + rest.visited);
                if planned.missing is None {
                    assert((visited + planned.visited)[visited.len() as int] == name);
                }
            }
        } else {
            assert(planned.visited =~= Seq::empty());
            assert(visited_once(planned, repo, visited));
        }
    } else {
        assert(planned.visited =~= Seq::empty());
        assert(visited_once(planned, repo, visited));
    }
}

/// Where an element of a concatenation comes from.
pub proof fn lemma_concat_contains(
    first: Seq<Seq<char>>,
    second: Seq<Seq<char>>,
    name: Seq<char>,
)
    ensures
        (first + second).contains(name) <==> (first.contains(name) || second.contains(name)),
{
    if first.contains(name) {
        let at = choose|at: int| 0 <= at < first.len() && first[at] == name;
        assert((first + second)[at] == name);
    }
    if second.contains(name) {
        let at = choose|at: int| 0 <= at < second.len() && second[at] == name;
        assert((first + second)[first.len() + at] == name);
    }
    if (first + second).contains(name) {
        let at = choose|at: int| 0 <= at < (first + second).len() && (first + second)[at] == name;
        if at < first.len() {
            assert(first[at] == name);
        } else {
            assert(second[at - first.len()] == name);
        }
    }
}

/// A name put before names that do not hold it makes no duplicate.
pub proof fn lemma_prepend_new(name: Seq<char>, names: Seq<Seq<char>>)
    requires
        names.no_duplicates(),
        !names.contains(name),
    ensures
        (seq![name] + names).no_duplicates(),
{
    let all = seq![name] + names;
    assert forall|i: int, j: int| 0 <= i < all.len() && 0 <= j < all.len() && i != j implies all[i]
        != all[j] by {
        if i > 0 {
            assert(names.contains(names[i - 1]));
        }
        if j > 0 {
            assert(names.contains(names[j - 1]));
        }
    }
}

/// A dependency on a package that was visited before adds nothing to the plan.
pub proof fn lemma_visited_dependency_is_skipped(
    package: PackageView,
    from: int,
    repo: Map<Seq<char>, PackageView>,
    visited: Seq<Seq<char>>,
)
    requires
        repo.dom().finite(),
        0 <= from < package.dependencies.len(),
        package.dependencies[from].source == dot(),
        visited.contains(package.dependencies[from].name),
    ensures
        plan_dependencies(package, from, repo, visited) == plan_dependencies(
            package,
            from + 1,
            repo,
            visited,
        ),
{
}


/// Whether `repo` holds every package of the repository that one of the first
/// `count` dependencies of `package` names.
pub open spec fn covers(repo: Map<Seq<char>, PackageView>, package: PackageView, count: int) -> bool {
    forall|index: int|
        0 <= index < count && index < package.dependencies.len() && (
        #[trigger] package.dependencies[index]).source == dot() ==> repo.contains_key(
            package.dependencies[index].name,
        )
}

/// Whether `repo` holds everything that `package` depends on in the repository.
pub open spec fn covers_all(repo: Map<Seq<char>, PackageView>, package: PackageView) -> bool {
    covers(repo, package, package.dependencies.len() as int)
}

/// Whether `repo` holds everything that its own packages depend on in the repository.
pub open spec fn is_closed(repo: Map<Seq<char>, PackageView>) -> bool {
    forall|name: Seq<char>| #[trigger] repo.contains_key(name) ==> covers_all(repo, repo[name])
}

/// Where the repository holds everything that is depended on, no package is
/// missing from a plan.
pub proof fn lemma_closed_repository_plans(
    package: PackageView,
    repo: Map<Seq<char>, PackageView>,
    visited: Seq<Seq<char>>,
)
    requires
        repo.dom().finite(),
        is_closed(repo),
        covers_all(repo, package),
    ensures
        plan_package(package, repo, visited).missing is None,
    decreases unvisited(repo, visited), 1nat, 0nat,
{
    lemma_closed_repository_plans_dependencies(package, 0, repo, visited);
}

/// [`lemma_closed_repository_plans`] for the dependencies of a package from the
/// one at `from` on.
pub proof fn lemma_closed_repository_plans_dependencies(
    package: PackageView,
    from: int,
    repo: Map<Seq<char>, PackageView>,
    visited: Seq<Seq<char>>,
)
    requires
        repo.dom().finite(),
        is_closed(repo),
        covers_all(repo, package),
        0 <= from,
    ensures
        plan_dependencies(package, from, repo, visited).missing is None,
    decreases unvisited(repo, visited), 0nat, package.dependencies.len() - from,
{
    if from < package.dependencies.len() {
        let dependency = package.dependencies[from];
        if dependency.source != dot() || visited.contains(dependency.name) {
            lemma_closed_repository_plans_dependencies(package, from + 1, repo, visited);
        } else {
            let name = dependency.name;
            assert(repo.contains_key(name));
            let marked = visited.push(name);
            lemma_unvisited_shrinks(repo, visited, name, Seq::empty());
            let first = plan_package(repo[name], repo, marked);
            lemma_closed_repository_plans(repo[name], repo, marked);
            lemma_unvisited_shrinks(repo, visited, name, first.visited);
            lemma_closed_repository_plans_dependencies(
                package,
                from + 1,
                repo,
                marked + first.visited,
            );
        }
    }
}

} // verus!
