//! What is applied to a host: the plan, what changes, and the batched changes.

use crate::action::{ActionView, SystemAction};
use crate::compaction::{
    all_sources_known,
    compact_mergeable_actions,
    compacted,
    reports_first_unknown,
};
use crate::error::{Error, ErrorView};
use crate::host::{HostDefinition, PackageManager};
use crate::lockfile::{action_diff, build_action_diff, previous_view};
use crate::package::PackageCollection;
use crate::planner::{expanded_from, plan_package, transform_package_to_actions, Planned};
use vstd::prelude::*;

verus! {

/// The options of the command that applies the configuration of a host.
pub struct RunInstallOptions {
    /// Whether to show what would be done without doing it.
    pub dry: bool,
    /// Whether to apply everything again, whatever was applied before.
    pub full: bool,
}

/// What one run works with.
pub struct Reconciliation {
    /// The whole plan of the host; once applied, it is the next lockfile.
    pub next: Vec<SystemAction>,
    /// What has to change, given what was applied before.
    pub changes: Vec<SystemAction>,
    /// The changes with adjacent package actions batched: what is carried out.
    pub merged: Vec<SystemAction>,
}

/// Whether `result` is the reconciliation of `planned` with `previous`: the plan
/// after tilde expansion, its difference to what was applied, and the compaction
/// of that difference. It fails when the plan lacks a package, and when a change
/// names a source that no package manager answers to.
pub open spec fn reconciles(
    planned: Planned,
    previous: Option<Seq<ActionView>>,
    full: bool,
    managers: Map<Seq<char>, PackageManager>,
    result: Result<Reconciliation, Error>,
) -> bool {
    match result {
        Ok(found) => {
            &&& planned.missing is None
            &&& expanded_from(planned.actions, found.next.deep_view())
            &&& found.changes.deep_view() == action_diff(found.next.deep_view(), previous, full)
            &&& all_sources_known(found.changes.deep_view(), managers)
            &&& found.merged.deep_view() == compacted(found.changes.deep_view(), managers)
        },
        Err(error) => match planned.missing {
            Some(name) => error@ == (ErrorView::MissingPackage { name }),
            None => exists|next: Seq<ActionView>|
                {
                    &&& expanded_from(planned.actions, next)
                    &&& reports_first_unknown(
                        #[trigger] action_diff(next, previous, full),
                        managers,
                        error@,
                    )
                },
        },
    }
}

/// Plans the host, reduces the plan to what changes against `previous`, and
/// batches the changes.
pub fn reconcile(
    host: &HostDefinition,
    repo: &PackageCollection,
    previous: Option<&Vec<SystemAction>>,
    full: bool,
) -> (result: Result<Reconciliation, Error>)
    ensures
        reconciles(
            plan_package(host.package@, repo@, Seq::empty()),
            previous_view(previous),
            full,
            host.config@,
            result,
        ),
{
    let mut loaded: Vec<String> = Vec::new();
    assert(loaded.deep_view() =~= Seq::empty());
    let next = match transform_package_to_actions(&host.package, repo, &mut loaded) {
        Ok(actions) => actions,
        Err(error) => {
            return Err(error);
        },
    };
    let changes = build_action_diff(&next, previous, full);
    let merged = match compact_mergeable_actions(&changes, &host.config) {
        Ok(actions) => actions,
        Err(error) => {
            assert(changes.deep_view() == action_diff(
                next.deep_view(),
                previous_view(previous),
                full,
            ));
            return Err(error);
        },
    };
    Ok(Reconciliation { next, changes, merged })
}

/// What the installation of a host works with.
pub fn plan_install(
    host: &HostDefinition,
    repo: &PackageCollection,
    previous: Option<&Vec<SystemAction>>,
    options: &RunInstallOptions,
) -> (result: Result<Reconciliation, Error>)
    ensures
        reconciles(
            plan_package(host.package@, repo@, Seq::empty()),
            previous_view(previous),
            options.full,
            host.config@,
            result,
        ),
{
    reconcile(host, repo, previous, options.full)
}

/// Whether the user is asked before anything is applied: always, unless nothing
/// is applied anyway.
pub fn asks_for_confirmation(options: &RunInstallOptions) -> (asks: bool)
    ensures
        asks == !options.dry,
{
    !options.dry
}

/// Whether the plan is recorded as the next lockfile once the actions have been
/// carried out: only where they were carried out for real.
pub fn records_lockfile(options: &RunInstallOptions, confirmed: bool) -> (records: bool)
    ensures
        records == (confirmed && !options.dry),
{
    confirmed && !options.dry
}

} // verus!
