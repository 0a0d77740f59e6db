//! Merging of adjacent package actions into batched invocations.
//!
//! Consecutive package actions that share source, operation and origin, and whose
//! package manager takes several names at once, form a run; a run becomes one
//! action whose name is the names of the run joined by spaces.

use crate::action::{ActionView, PackageOperation, SystemAction};
use crate::error::{Error, ErrorView};
use crate::host::{HostConfiguration, PackageManager};
use crate::text::{join, joined_by};
use vstd::prelude::*;

verus! {

/// Whether `action` may be merged with its neighbours: a package action whose
/// manager is known and takes several names in one invocation.
pub open spec fn is_mergeable(action: ActionView, managers: Map<Seq<char>, PackageManager>) -> bool {
    match action {
        ActionView::Package { source, .. } => managers.contains_key(source)
            && managers[source].multiple,
        _ => false,
    }
}

/// Whether two actions are package actions with the same source, operation and origin.
pub open spec fn same_key(first: ActionView, second: ActionView) -> bool {
    match (first, second) {
        (
            ActionView::Package { operation: o1, source: s1, origin: g1, .. },
            ActionView::Package { operation: o2, source: s2, origin: g2, .. },
        ) => o1 == o2 && s1 == s2 && g1 == g2,
        _ => false,
    }
}

/// Whether `action`, coming directly after `run`, belongs to it.
pub open spec fn joins(
    run: Seq<ActionView>,
    action: ActionView,
    managers: Map<Seq<char>, PackageManager>,
) -> bool {
    run.len() > 0 && is_mergeable(action, managers) && same_key(run.last(), action)
}

/// The actions cut into runs, in order: an action joins the run before it when
/// [`joins`] holds, and starts a run of its own otherwise.
pub open spec fn runs(actions: Seq<ActionView>, managers: Map<Seq<char>, PackageManager>) -> Seq<
    Seq<ActionView>,
>
    decreases actions.len(),
{
    if actions.len() == 0 {
        Seq::empty()
    } else {
        let before = runs(actions.drop_last(), managers);
        let action = actions.last();
        if before.len() > 0 && joins(before.last(), action, managers) {
            before.drop_last().push(before.last().push(action))
        } else {
            before.push(seq![action])
        }
    }
}

/// The package name of a package action; empty for the other kinds.
pub open spec fn name_of(action: ActionView) -> Seq<char> {
    match action {
        ActionView::Package { name, .. } => name,
        _ => Seq::empty(),
    }
}

/// The package names of a run, in order.
pub open spec fn names_of(run: Seq<ActionView>) -> Seq<Seq<char>> {
    run.map_values(|action: ActionView| name_of(action))
}

/// The names with one space between each two neighbours.
pub open spec fn joined(names: Seq<Seq<char>>) -> Seq<char> {
    joined_by(names, seq![' '])
}

/// The one action that stands for a run: a run of package actions becomes the
/// package action of their common key with the joined names; any other action
/// stands for itself.
pub open spec fn merged_action(run: Seq<ActionView>) -> ActionView {
    match run[0] {
        ActionView::Package { operation, source, origin, .. } => ActionView::Package {
            operation,
            source,
            name: joined(names_of(run)),
            origin,
        },
        other => other,
    }
}

/// Each run replaced by the action that stands for it.
pub open spec fn merge_all(groups: Seq<Seq<ActionView>>) -> Seq<ActionView> {
    groups.map_values(|run: Seq<ActionView>| merged_action(run))
}

/// What compaction makes of `actions`.
pub open spec fn compacted(
    actions: Seq<ActionView>,
    managers: Map<Seq<char>, PackageManager>,
) -> Seq<ActionView> {
    merge_all(runs(actions, managers))
}

/// Whether the action at `index` is a package action whose source no manager answers to.
pub open spec fn unknown_at(
    actions: Seq<ActionView>,
    managers: Map<Seq<char>, PackageManager>,
    index: int,
) -> bool {
    0 <= index < actions.len() && match actions[index] {
        ActionView::Package { source, .. } => !managers.contains_key(source),
        _ => false,
    }
}

/// Whether every package action names a source that some manager answers to.
pub open spec fn all_sources_known(
    actions: Seq<ActionView>,
    managers: Map<Seq<char>, PackageManager>,
) -> bool {
    forall|index: int| !unknown_at(actions, managers, index)
}

/// The error that reports a package action whose source is unknown.
pub open spec fn unknown_manager(action: ActionView) -> ErrorView {
    match action {
        ActionView::Package { source, origin, .. } => ErrorView::UnknownPackageManager {
            source,
            origin,
        },
        _ => arbitrary(),
    }
}

/// Whether `error` reports the first action of `actions` whose source is unknown.
pub open spec fn reports_first_unknown(
    actions: Seq<ActionView>,
    managers: Map<Seq<char>, PackageManager>,
    error: ErrorView,
) -> bool {
    exists|first: int|
        {
            &&& #[trigger] unknown_at(actions, managers, first)
            &&& forall|earlier: int| 0 <= earlier < first ==> !unknown_at(actions, managers, earlier)
            &&& error == unknown_manager(actions[first])
        }
}

/// How [`runs`] grows when one action is added at the end.
pub proof fn lemma_runs_push(
    actions: Seq<ActionView>,
    action: ActionView,
    managers: Map<Seq<char>, PackageManager>,
)
    ensures
        ({
            let before = runs(actions, managers);
            let after = runs(actions.push(action), managers);
            if before.len() > 0 && joins(before.last(), action, managers) {
                after == before.drop_last().push(before.last().push(action))
            } else {
                after == before.push(seq![action])
            }
        }),
{
    assert(actions.push(action).drop_last() =~= actions);
}

/// Joins `names` with single spaces.
pub fn join_names(names: &Vec<String>) -> (text: String)
    ensures
        text@ == joined(names.deep_view()),
{
    proof {
        reveal_strlit(" ");
    }
    assert(" "@ =~= seq![' ']);
    join(names, " ")
}

/// Closes the pending run: appends to `merged_actions` the one package action
/// that stands for it, and empties `pending_packages`.
pub fn flush_pending_actions(
    merged_actions: &mut Vec<SystemAction>,
    last_source: &String,
    pending_packages: &mut Vec<String>,
    last_operation: &PackageOperation,
    last_origin: &String,
)
    ensures
        final(merged_actions).deep_view() == old(merged_actions).deep_view().push(
            ActionView::Package {
                operation: *last_operation,
                source: last_source@,
                name: joined(old(pending_packages).deep_view()),
                origin: last_origin@,
            },
        ),
        final(pending_packages)@.len() == 0,
{
    let name = join_names(pending_packages);
    merged_actions.push(
        SystemAction::Package {
            operation: *last_operation,
            source: last_source.clone(),
            name,
            origin: last_origin.clone(),
        },
    );
    pending_packages.clear();
    assert(merged_actions.deep_view() =~= old(merged_actions).deep_view().push(
        ActionView::Package {
            operation: *last_operation,
            source: last_source@,
            name: joined(old(pending_packages).deep_view()),
            origin: last_origin@,
        },
    ));
}


/// What one left-to-right pass holds after `seen`: `merged` are the actions already
/// written out, `pending` the names of the run that is still open (none if empty),
/// and `source`, `operation`, `origin` the key of that run.
pub open spec fn pass_state(
    seen: Seq<ActionView>,
    managers: Map<Seq<char>, PackageManager>,
    merged: Seq<ActionView>,
    pending: Seq<Seq<char>>,
    source: Seq<char>,
    operation: PackageOperation,
    origin: Seq<char>,
) -> bool {
    let groups = runs(seen, managers);
    &&& seen.len() > 0 ==> groups.len() > 0 && groups.last().len() > 0 && groups.last().last()
        == seen.last()
    &&& if pending.len() == 0 {
        &&& merged == merge_all(groups)
        &&& seen.len() > 0 ==> !is_mergeable(seen.last(), managers)
    } else {
        &&& seen.len() > 0
        &&& merged == merge_all(groups.drop_last())
        &&& names_of(groups.last()) == pending
        &&& is_mergeable(seen.last(), managers)
        &&& has_key(seen.last(), source, operation, origin)
        &&& has_key(groups.last()[0], source, operation, origin)
    }
}

/// Whether `action` is a package action with this source, operation and origin.
pub open spec fn has_key(
    action: ActionView,
    source: Seq<char>,
    operation: PackageOperation,
    origin: Seq<char>,
) -> bool {
    match action {
        ActionView::Package { operation: o, source: s, origin: g, .. } => o == operation && s
            == source && g == origin,
        _ => false,
    }
}

/// Merges each run of adjacent package actions that share source, operation and
/// origin, and whose package manager takes several names at once, into one action
/// with the names joined by spaces. Every other action is kept as it is, and the
/// order of runs and single actions is that of the input.
///
/// Fails when a package action names a source that `config` does not describe,
/// reporting the first such action.
pub fn compact_mergeable_actions(
    system_actions: &Vec<SystemAction>,
    config: &HostConfiguration,
) -> (result: Result<Vec<SystemAction>, Error>)
    ensures
        match result {
            Ok(merged) => {
                &&& all_sources_known(system_actions.deep_view(), config@)
                &&& merged.deep_view() == compacted(system_actions.deep_view(), config@)
            },
            Err(error) => reports_first_unknown(system_actions.deep_view(), config@, error@),
        },
{
    let ghost actions = system_actions.deep_view();
    let ghost managers = config@;
    let mut merged_actions: Vec<SystemAction> = Vec::new();
    let mut last_source = String::new();
    let mut last_operation = PackageOperation::Install;
    let mut last_origin = String::new();
    let mut pending_packages: Vec<String> = Vec::new();
    let mut index: usize = 0;
    assert(actions.take(0) =~= Seq::<ActionView>::empty());
    assert(merged_actions.deep_view() =~= merge_all(runs(actions.take(0), managers)));
    assert(pending_packages.deep_view().len() == 0);
    while index < system_actions.len()
        invariant
            actions == system_actions.deep_view(),
            managers == config@,
            index <= system_actions.len(),
            forall|earlier: int| 0 <= earlier < index ==> !unknown_at(actions, managers, earlier),
            pass_state(
                actions.take(index as int),
                managers,
                merged_actions.deep_view(),
                pending_packages.deep_view(),
                last_source@,
                last_operation,
                last_origin@,
            ),
        decreases system_actions.len() - index,
    {
        let system_action = &system_actions[index];
        let ghost seen = actions.take(index as int);
        let ghost action = actions[index as int];
        let ghost groups = runs(seen, managers);
        assert(action == system_action@);
        assert(actions.take(index as int + 1) =~= seen.push(action));
        proof {
            lemma_runs_push(seen, action, managers);
        }
        let mut joins_run = false;
        match system_action {
            SystemAction::Package { operation, source, name, origin } => {
                let supports_multiple = match config.get(source) {
                    Some(manager) => manager.multiple,
                    None => {
                        assert(unknown_at(actions, managers, index as int));
                        return Err(
                            Error::UnknownPackageManager {
                                source: source.clone(),
                                origin: origin.clone(),
                            },
                        );
                    },
                };
                if supports_multiple {
                    let same = pending_packages.len() > 0 && last_source == *source
                        && last_operation == *operation && last_origin == *origin;
                    if !same {
                        if pending_packages.len() > 0 {
                            flush_pending_actions(
                                &mut merged_actions,
                                &last_source,
                                &mut pending_packages,
                                &last_operation,
                                &last_origin,
                            );
                            assert(merged_actions.deep_view() =~= merge_all(groups));
                        }
                        last_source = source.clone();
                        last_operation = *operation;
                        last_origin = origin.clone();
                    }
                    let ghost names_before = pending_packages.deep_view();
                    pending_packages.push(name.clone());
                    assert(pending_packages.deep_view() =~= names_before.push(name@));
                    joins_run = true;
                    proof {
                        let after = runs(seen.push(action), managers);
                        if same {
                            assert(joins(groups.last(), action, managers));
                            assert(after.drop_last() =~= groups.drop_last());
                            assert(names_of(after.last()) =~= names_of(groups.last()).push(
                                name_of(action),
                            ));
                        } else {
                            assert(!(groups.len() > 0 && joins(groups.last(), action, managers)));
                            assert(after.drop_last() =~= groups);
                            assert(names_of(after.last()) =~= seq![name_of(action)]);
                            assert(pending_packages.deep_view() =~= seq![name@]);
                        }
                    }
                }
            },
            _ => {},
        }
        if !joins_run {
            assert(!is_mergeable(action, managers));
            if pending_packages.len() > 0 {
                flush_pending_actions(
                    &mut merged_actions,
                    &last_source,
                    &mut pending_packages,
                    &last_operation,
                    &last_origin,
                );
                assert(merged_actions.deep_view() =~= merge_all(groups));
            }
            let ghost written = merged_actions.deep_view();
            merged_actions.push(system_action.clone());
            assert(merged_actions.deep_view() =~= written.push(action));
            proof {
                let after = runs(seen.push(action), managers);
                assert(after == groups.push(seq![action]));
                assert(merged_action(seq![action]) == action) by {
                    assert(names_of(seq![action]) =~= seq![name_of(action)]);
                }
                assert(merge_all(after) =~= merge_all(groups).push(action));
            }
        }
        index += 1;
    }
    assert(actions.take(index as int) =~= actions);
    if pending_packages.len() > 0 {
        flush_pending_actions(
            &mut merged_actions,
            &last_source,
            &mut pending_packages,
            &last_operation,
            &last_origin,
        );
        assert(merged_actions.deep_view() =~= merge_all(runs(actions, managers)));
    }
    Ok(merged_actions)
}


/// Whether the runs are a well-formed cutting of some action list: no run is
/// empty, every action after the first of a run is mergeable and shares the key
/// of the action before it, and no run could have taken the first action of the next.
pub open spec fn well_grouped(
    groups: Seq<Seq<ActionView>>,
    managers: Map<Seq<char>, PackageManager>,
) -> bool {
    &&& forall|k: int| 0 <= k < groups.len() ==> (#[trigger] groups[k]).len() > 0
    &&& forall|k: int, j: int|
        0 <= k < groups.len() && 0 < j < groups[k].len() ==> is_mergeable(
            #[trigger] groups[k][j],
            managers,
        ) && same_key(groups[k][j - 1], groups[k][j])
    &&& forall|k: int|
        0 < k < groups.len() ==> !joins(groups[k - 1], (#[trigger] groups[k])[0], managers)
}

/// Compaction groups and never reorders. Cut into runs, the input is unchanged:
/// the runs laid end to end are the input, action for action. A run holds either
/// one action, or several mergeable package actions that share source, operation
/// and origin, and two neighbouring runs never share such a key. The output holds
/// one action for each run, in the order of the runs: the single action itself,
/// or the package action of the common key whose name is the names of the run,
/// in their order, joined by spaces.
pub proof fn lemma_compaction_grouping(
    actions: Seq<ActionView>,
    managers: Map<Seq<char>, PackageManager>,
)
    ensures
        runs(actions, managers).flatten() == actions,
        well_grouped(runs(actions, managers), managers),
        compacted(actions, managers).len() == runs(actions, managers).len(),
        forall|k: int|
            0 <= k < runs(actions, managers).len() ==> {
                let run = runs(actions, managers)[k];
                let out = #[trigger] compacted(actions, managers)[k];
                &&& run.len() == 1 ==> out == run[0]
                &&& run.len() > 1 ==> same_key(run[0], out) && name_of(out) == joined(
                    names_of(run),
                )
            },
    decreases actions.len(),
{
    let groups = runs(actions, managers);
    if actions.len() > 0 {
        let shorter = actions.drop_last();
        let action = actions.last();
        let before = runs(shorter, managers);
        lemma_compaction_grouping(shorter, managers);
        assert(shorter.push(action) =~= actions);
        if before.len() > 0 && joins(before.last(), action, managers) {
            let head = before.drop_last();
            assert(head.push(before.last()) =~= before);
            head.lemma_flatten_push(before.last());
            head.lemma_flatten_push(before.last().push(action));
            assert(groups.flatten() =~= actions);
            assert forall|k: int, j: int|
                0 <= k < groups.len() && 0 < j < groups[k].len() implies is_mergeable(
                #[trigger] groups[k][j],
                managers,
            ) && same_key(groups[k][j - 1], groups[k][j]) by {
                if k < groups.len() - 1 {
                    assert(groups[k] == before[k]);
                } else if j < groups[k].len() - 1 {
                    assert(groups[k][j] == before.last()[j]);
                    assert(groups[k][j - 1] == before.last()[j - 1]);
                }
            }
            assert forall|k: int| 0 < k < groups.len() implies !joins(
                groups[k - 1],
                (#[trigger] groups[k])[0],
                managers,
            ) by {
                assert(groups[k - 1] == before[k - 1]);
                assert(groups[k][0] == before[k][0]);
            }
        } else {
            before.lemma_flatten_push(seq![action]);
            assert(groups.flatten() =~= actions);
            assert forall|k: int| 0 < k < groups.len() implies !joins(
                groups[k - 1],
                (#[trigger] groups[k])[0],
                managers,
            ) by {
                if k < groups.len() - 1 {
                    assert(groups[k - 1] == before[k - 1]);
                    assert(groups[k][0] == before[k][0]);
                }
            }
        }
    }
    assert forall|k: int| 0 <= k < groups.len() implies {
        let run = groups[k];
        let out = #[trigger] compacted(actions, managers)[k];
        &&& run.len() == 1 ==> out == run[0]
        &&& run.len() > 1 ==> same_key(run[0], out) && name_of(out) == joined(names_of(run))
    } by {
        let run = groups[k];
        if run.len() == 1 {
            assert(names_of(run) =~= seq![name_of(run[0])]);
        } else {
            assert(is_mergeable(run[1], managers) && same_key(run[0], run[1]));
        }
    }
}


/// Every action of a run is an action of the input.
pub proof fn lemma_runs_hold_actions(actions: Seq<ActionView>, managers: Map<Seq<char>, PackageManager>)
    ensures
        forall|k: int, j: int|
            0 <= k < runs(actions, managers).len() && 0 <= j < runs(actions, managers)[k].len()
                ==> actions.contains(#[trigger] runs(actions, managers)[k][j]),
    decreases actions.len(),
{
    let groups = runs(actions, managers);
    if actions.len() > 0 {
        let shorter = actions.drop_last();
        let before = runs(shorter, managers);
        lemma_runs_hold_actions(shorter, managers);
        assert forall|k: int, j: int|
            0 <= k < groups.len() && 0 <= j < groups[k].len() implies actions.contains(
            #[trigger] groups[k][j],
        ) by {
            if k == groups.len() - 1 && j == groups[k].len() - 1 {
                assert(groups[k][j] == actions[actions.len() - 1]);
            } else {
                assert(groups[k][j] == before[k][j]);
                assert(shorter.contains(before[k][j]));
                let at = choose|at: int| 0 <= at < shorter.len() && shorter[at] == groups[k][j];
                assert(actions[at] == groups[k][j]);
            }
        }
    }
}

/// Compaction names no source that the input does not name: where every source
/// of the input is known, every source of the output is.
pub proof fn lemma_compacted_sources_known(
    actions: Seq<ActionView>,
    managers: Map<Seq<char>, PackageManager>,
)
    requires
        all_sources_known(actions, managers),
    ensures
        all_sources_known(compacted(actions, managers), managers),
{
    let groups = runs(actions, managers);
    lemma_compaction_grouping(actions, managers);
    lemma_runs_hold_actions(actions, managers);
    assert forall|index: int| !unknown_at(compacted(actions, managers), managers, index) by {
        if 0 <= index < groups.len() {
            let first = groups[index][0];
            assert(actions.contains(first));
            let at = choose|at: int| 0 <= at < actions.len() && actions[at] == first;
            assert(!unknown_at(actions, managers, at));
        }
    }
}

} // verus!
