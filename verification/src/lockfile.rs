//! Reconciliation of a new plan with the plan that was applied last.
//!
//! The lockfile records the actions of the last successful run. Against it, a
//! new plan is reduced to what has to change: the undoing of what is no longer
//! wanted, most recent first, and then what is newly wanted.

use crate::action::{ActionView, FileOperation, PackageOperation, SystemAction};
use vstd::multiset::Multiset;
use vstd::prelude::*;

verus! {

/// The test for an action that does not occur in `others`.
pub open spec fn absent_from(others: Seq<ActionView>) -> spec_fn(ActionView) -> bool {
    |action: ActionView| !others.contains(action)
}

/// The actions of `from` that do not occur in `to`, in the order of `from`.
pub open spec fn difference(from: Seq<ActionView>, to: Seq<ActionView>) -> Seq<ActionView> {
    from.filter(absent_from(to))
}

/// The action that takes `action` back: an installation is undone by the
/// uninstallation of the same package, a link or a copy by the removal of its
/// destination. A script, and an action that already removes, has none.
pub open spec fn undo(action: ActionView) -> Option<ActionView> {
    match action {
        ActionView::Package { operation: PackageOperation::Install, source, name, origin } => Some(
            ActionView::Package { operation: PackageOperation::Uninstall, source, name, origin },
        ),
        ActionView::File { operation: FileOperation::Link, dest, origin, .. }
        | ActionView::File { operation: FileOperation::Copy, dest, origin, .. } => Some(
            ActionView::File {
                operation: FileOperation::Remove,
                src: Seq::empty(),
                dest,
                origin,
            },
        ),
        _ => None,
    }
}

/// The test for an action that can be undone.
pub open spec fn has_undo() -> spec_fn(ActionView) -> bool {
    |action: ActionView| undo(action) is Some
}

/// The undoing action of one that has it.
pub open spec fn undo_of() -> spec_fn(ActionView) -> ActionView {
    |action: ActionView| undo(action).unwrap()
}

/// The actions of `actions` that can be undone, in order.
pub open spec fn additive(actions: Seq<ActionView>) -> Seq<ActionView> {
    actions.filter(has_undo())
}

/// The undoing of `actions`: one undoing action for each action that can be
/// undone, the last of them first.
pub open spec fn inverted(actions: Seq<ActionView>) -> Seq<ActionView> {
    additive(actions).map_values(undo_of()).reverse()
}

/// The view of an optional previous plan.
pub open spec fn previous_view(previous: Option<&Vec<SystemAction>>) -> Option<Seq<ActionView>> {
    match previous {
        Some(actions) => Some(actions.deep_view()),
        None => None,
    }
}

/// What has to be applied to come from `previous` to `next`. With no previous
/// plan, or when everything is to be applied again, that is `next`. Otherwise it
/// is the undoing of what `previous` holds and `next` does not, followed by what
/// `next` holds and `previous` does not.
pub open spec fn action_diff(
    next: Seq<ActionView>,
    previous: Option<Seq<ActionView>>,
    full: bool,
) -> Seq<ActionView> {
    match previous {
        None => next,
        Some(applied) => if full {
            next
        } else {
            inverted(difference(applied, next)) + difference(next, applied)
        },
    }
}

/// Whether `item` occurs in `actions`.
pub fn contains_action(actions: &Vec<SystemAction>, item: &SystemAction) -> (found: bool)
    ensures
        found == actions.deep_view().contains(item@),
{
    let mut index: usize = 0;
    while index < actions.len()
        invariant
            index <= actions.len(),
            forall|earlier: int| 0 <= earlier < index ==> actions.deep_view()[earlier] != item@,
        decreases actions.len() - index,
    {
        if actions[index] == *item {
            assert(actions.deep_view()[index as int] == item@);
            return true;
        }
        index += 1;
    }
    false
}

/// A copy of `actions`.
pub fn clone_actions(actions: &Vec<SystemAction>) -> (copy: Vec<SystemAction>)
    ensures
        copy.deep_view() == actions.deep_view(),
{
    let mut copy: Vec<SystemAction> = Vec::new();
    let mut index: usize = 0;
    while index < actions.len()
        invariant
            index <= actions.len(),
            copy.deep_view() == actions.deep_view().take(index as int),
        decreases actions.len() - index,
    {
        let ghost written = copy.deep_view();
        let item = actions[index].clone();
        assert(item@ == actions.deep_view()[index as int]);
        copy.push(item);
        assert(copy.deep_view() =~= written.push(actions.deep_view()[index as int]));
        index += 1;
        assert(copy.deep_view() =~= actions.deep_view().take(index as int));
    }
    assert(actions.deep_view().take(index as int) =~= actions.deep_view());
    copy
}

/// The actions of `from` that do not occur in `to`, in the order of `from`.
pub fn make_difference(from: &Vec<SystemAction>, to: &Vec<SystemAction>) -> (kept: Vec<
    SystemAction,
>)
    ensures
        kept.deep_view() == difference(from.deep_view(), to.deep_view()),
{
    let mut kept: Vec<SystemAction> = Vec::new();
    let mut index: usize = 0;
    assert(from.deep_view().take(0).filter(absent_from(to.deep_view())) =~= Seq::empty()) by {
        reveal(Seq::filter);
    }
    while index < from.len()
        invariant
            index <= from.len(),
            kept.deep_view() == difference(from.deep_view().take(index as int), to.deep_view()),
        decreases from.len() - index,
    {
        let item = &from[index];
        let ghost seen = from.deep_view().take(index as int);
        let ghost written = kept.deep_view();
        proof {
            assert(from.deep_view().take(index as int + 1) =~= seen.push(item@));
            seen.lemma_filter_push(item@, absent_from(to.deep_view()));
        }
        if !contains_action(to, item) {
            kept.push(item.clone());
            assert(kept.deep_view() =~= written.push(item@));
        }
        index += 1;
    }
    assert(from.deep_view().take(index as int) =~= from.deep_view());
    kept
}

/// The undoing action of `action`, if it has one.
pub fn inverse_action(action: &SystemAction) -> (inverse: Option<SystemAction>)
    ensures
        match inverse {
            Some(undoing) => undo(action@) == Some(undoing@),
            None => undo(action@) is None,
        },
{
    match action {
        SystemAction::Package { operation, source, name, origin } => match operation {
            PackageOperation::Install => Some(
                SystemAction::Package {
                    operation: PackageOperation::Uninstall,
                    source: source.clone(),
                    name: name.clone(),
                    origin: origin.clone(),
                },
            ),
            PackageOperation::Uninstall => None,
        },
        SystemAction::File { operation, src: _, dest, origin } => match operation {
            FileOperation::Remove => None,
            _ => Some(
                SystemAction::File {
                    operation: FileOperation::Remove,
                    src: String::new(),
                    dest: dest.clone(),
                    origin: origin.clone(),
                },
            ),
        },
        SystemAction::Script { .. } => None,
    }
}

/// How [`inverted`] grows when one action is put in front.
pub proof fn lemma_inverted_prepend(action: ActionView, rest: Seq<ActionView>)
    ensures
        inverted(seq![action] + rest) == match undo(action) {
            Some(undoing) => inverted(rest).push(undoing),
            None => inverted(rest),
        },
{
    rest.lemma_filter_prepend(action, has_undo());
    match undo(action) {
        Some(undoing) => {
            assert(additive(seq![action] + rest) == seq![action] + additive(rest));
            assert(inverted(seq![action] + rest) =~= inverted(rest).push(undoing));
        },
        None => {
            assert(additive(seq![action] + rest) =~= additive(rest));
        },
    }
}

/// Undoes `system_actions`: each installation becomes the uninstallation of the
/// same package, each link or copy the removal of its destination; scripts and
/// actions that already remove are left out. What was done last is undone first.
pub fn inverse_additive_actions(system_actions: &Vec<SystemAction>) -> (undoing: Vec<
    SystemAction,
>)
    ensures
        undoing.deep_view() == inverted(system_actions.deep_view()),
{
    let ghost actions = system_actions.deep_view();
    let mut undoing: Vec<SystemAction> = Vec::new();
    let mut index: usize = system_actions.len();
    assert(actions.subrange(index as int, actions.len() as int) =~= Seq::empty());
    assert(inverted(Seq::empty()) =~= Seq::empty()) by {
        reveal(Seq::filter);
    }
    while index > 0
        invariant
            actions == system_actions.deep_view(),
            index <= system_actions.len(),
            undoing.deep_view() == inverted(actions.subrange(index as int, actions.len() as int)),
        decreases index,
    {
        index -= 1;
        let ghost rest = actions.subrange(index as int + 1, actions.len() as int);
        let ghost written = undoing.deep_view();
        proof {
            assert(actions.subrange(index as int, actions.len() as int) =~= seq![
                actions[index as int],
            ] + rest);
            lemma_inverted_prepend(actions[index as int], rest);
        }
        match inverse_action(&system_actions[index]) {
            Some(inverse) => {
                let ghost inverse_view = inverse@;
                undoing.push(inverse);
                assert(undoing.deep_view() =~= written.push(inverse_view));
            },
            None => {},
        }
    }
    assert(actions.subrange(0, actions.len() as int) =~= actions);
    undoing
}

/// Reduces the new plan to what has to be applied, given the plan applied last.
///
/// With no previous plan the whole of `next_system_actions` is due, and so it is
/// when `full` asks for everything to be applied again. Otherwise the result
/// first undoes, most recent first, what only the previous plan holds, and then
/// adds what only the new plan holds.
pub fn build_action_diff(
    next_system_actions: &Vec<SystemAction>,
    previous_actions: Option<&Vec<SystemAction>>,
    full: bool,
) -> (changes: Vec<SystemAction>)
    ensures
        changes.deep_view() == action_diff(
            next_system_actions.deep_view(),
            previous_view(previous_actions),
            full,
        ),
        previous_actions is None || full ==> changes.deep_view()
            == next_system_actions.deep_view(),
{
    match previous_actions {
        None => clone_actions(next_system_actions),
        Some(applied) => {
            if full {
                clone_actions(next_system_actions)
            } else {
                let missing_last_actions = make_difference(applied, next_system_actions);
                let mut all_actions = inverse_additive_actions(&missing_last_actions);
                let mut needed_actions = make_difference(next_system_actions, applied);
                let ghost removals = all_actions.deep_view();
                let ghost additions = needed_actions.deep_view();
                all_actions.append(&mut needed_actions);
                assert(all_actions.deep_view() =~= removals + additions);
                all_actions
            }
        },
    }
}


/// Filtering keeps each action that passes as often as it occurred, and no other.
pub proof fn lemma_additive_counts(actions: Seq<ActionView>)
    ensures
        forall|action: ActionView|
            #[trigger] additive(actions).to_multiset().count(action) == if undo(action) is Some {
                actions.to_multiset().count(action)
            } else {
                0
            },
    decreases actions.len(),
{
    broadcast use vstd::multiset::group_multiset_axioms;

    if actions.len() == 0 {
        assert(additive(actions) =~= Seq::empty()) by {
            reveal(Seq::filter);
        }
        assert(actions.to_multiset() =~= Multiset::empty()) by {
            actions.to_multiset_ensures();
        }
        assert(additive(actions).to_multiset() =~= Multiset::empty()) by {
            additive(actions).to_multiset_ensures();
        }
    } else {
        let shorter = actions.drop_last();
        let last = actions.last();
        lemma_additive_counts(shorter);
        assert(shorter.push(last) =~= actions);
        shorter.lemma_filter_push(last, has_undo());
        vstd::seq_lib::to_multiset_build(shorter, last);
        vstd::seq_lib::to_multiset_build(additive(shorter), last);
    }
}

/// Inversion is correct. The result holds exactly one undoing action for each
/// action of the input that can be undone, and nothing else: for an installation
/// the uninstallation with the same source, name and origin, for a link or a
/// copy the removal with the same destination and origin and an empty source.
/// They come in the reverse of the input's order.
pub proof fn lemma_inversion_correct(actions: Seq<ActionView>)
    ensures
        inverted(actions).len() == additive(actions).len(),
        forall|k: int|
            0 <= k < inverted(actions).len() ==> #[trigger] inverted(actions)[k] == undo(
                additive(actions)[additive(actions).len() - 1 - k],
            ).unwrap(),
        inverted(actions).to_multiset() == additive(actions).map_values(undo_of()).to_multiset(),
        forall|action: ActionView|
            #[trigger] additive(actions).to_multiset().count(action) == if undo(action) is Some {
                actions.to_multiset().count(action)
            } else {
                0
            },
        forall|index: int|
            0 <= index < actions.len() ==> match #[trigger] actions[index] {
                ActionView::Package {
                    operation: PackageOperation::Install,
                    source,
                    name,
                    origin,
                } => inverted(actions).contains(
                    ActionView::Package {
                        operation: PackageOperation::Uninstall,
                        source,
                        name,
                        origin,
                    },
                ),
                ActionView::File { operation, dest, origin, .. } => operation
                    != FileOperation::Remove ==> inverted(actions).contains(
                    ActionView::File {
                        operation: FileOperation::Remove,
                        src: Seq::empty(),
                        dest,
                        origin,
                    },
                ),
                _ => true,
            },
{
    let kept = additive(actions);
    let undone = kept.map_values(undo_of());
    undone.lemma_reverse_to_multiset();
    lemma_additive_counts(actions);
    assert forall|index: int| 0 <= index < actions.len() && undo(actions[index]) is Some implies (
    #[trigger] inverted(actions).contains(undo(actions[index]).unwrap())) by {
        actions.lemma_filter_contains(has_undo(), index);
        let at = choose|at: int| 0 <= at < kept.len() && kept[at] == actions[index];
        assert(inverted(actions)[kept.len() - 1 - at] == undo(actions[index]).unwrap());
    }
    assert forall|index: int| 0 <= index < actions.len() implies match #[trigger] actions[index] {
        ActionView::Package { operation: PackageOperation::Install, source, name, origin } => inverted(
            actions,
        ).contains(
            ActionView::Package { operation: PackageOperation::Uninstall, source, name, origin },
        ),
        ActionView::File { operation, dest, origin, .. } => operation != FileOperation::Remove
            ==> inverted(actions).contains(
            ActionView::File { operation: FileOperation::Remove, src: Seq::empty(), dest, origin },
        ),
        _ => true,
    } by {
        if undo(actions[index]) is Some {
            assert(inverted(actions).contains(undo(actions[index]).unwrap()));
        }
    }
}

/// Nothing is left to do when the new plan is the plan that was applied last.
pub proof fn lemma_diff_of_applied_plan_is_empty(next: Seq<ActionView>)
    ensures
        action_diff(next, Some(next), false) == Seq::<ActionView>::empty(),
{
    let kept = difference(next, next);
    if kept.len() > 0 {
        next.lemma_filter_pred(absent_from(next), 0);
        next.lemma_filter_contains_rev(absent_from(next), kept[0]);
    }
    assert(kept =~= Seq::empty());
    assert(inverted(Seq::empty()) =~= Seq::empty()) by {
        reveal(Seq::filter);
    }
    assert(action_diff(next, Some(next), false) =~= Seq::empty());
}

/// When everything is to be applied again, the whole new plan is due, whatever was
/// applied before.
pub proof fn lemma_full_diff_is_plan(next: Seq<ActionView>, previous: Option<Seq<ActionView>>)
    ensures
        action_diff(next, previous, true) == next,
{
}

/// On a first run, with no plan applied before, the whole new plan is due.
pub proof fn lemma_first_diff_is_plan(next: Seq<ActionView>, full: bool)
    ensures
        action_diff(next, None, full) == next,
{
}

} // verus!
