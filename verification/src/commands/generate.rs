//! The shell script that brings a host up to date.

use crate::action::{ActionView, SystemAction};
use crate::commands::install::reconcile;
use crate::compaction::{
    all_sources_known,
    compacted,
    lemma_compacted_sources_known,
    reports_first_unknown,
    unknown_at,
};
use crate::error::{Error, ErrorView};
use crate::generation::{generate_shell_script, script_lines};
use crate::host::{HostDefinition, PackageManager};
use crate::lockfile::{action_diff, previous_view};
use crate::package::PackageCollection;
use crate::planner::{expanded_from, plan_package, Planned};
use vstd::prelude::*;

verus! {

/// The options of the command that writes the script of a host.
pub struct RunGenerateOptions {
    /// Whether to write everything, whatever was applied before.
    pub full: bool,
}

/// Whether `result` is the script for `planned`, reconciled with `previous`:
/// the script of the compacted difference between the plan, after tilde
/// expansion, and what was applied. It fails when the plan lacks a package, and
/// when a change names a source that no package manager answers to.
pub open spec fn scripts(
    planned: Planned,
    previous: Option<Seq<ActionView>>,
    full: bool,
    managers: Map<Seq<char>, PackageManager>,
    result: Result<Vec<String>, Error>,
) -> bool {
    match result {
        Ok(lines) => planned.missing is None && exists|next: Seq<ActionView>|
            {
                &&& expanded_from(planned.actions, next)
                &&& all_sources_known(#[trigger] action_diff(next, previous, full), managers)
                &&& lines.deep_view() == script_lines(
                    compacted(action_diff(next, previous, full), managers),
                    managers,
                )
            },
        Err(error) => match planned.missing {
            Some(name) => error@ == (ErrorView::MissingPackage { name }),
            None => exists|next: Seq<ActionView>|
                {
                    &&& expanded_from(planned.actions, next)
                    &&& reports_first_unknown(
                        #[trigger] action_diff(next, previous, full),
                        managers,
                        error@,
                    )
                },
        },
    }
}

/// Writes the script that brings the host from what was applied last to what
/// it is described as now.
pub fn plan_script(
    host: &HostDefinition,
    repo: &PackageCollection,
    previous: Option<&Vec<SystemAction>>,
    options: &RunGenerateOptions,
) -> (result: Result<Vec<String>, Error>)
    ensures
        scripts(
            plan_package(host.package@, repo@, Seq::empty()),
            previous_view(previous),
            options.full,
            host.config@,
            result,
        ),
{
    let found = match reconcile(host, repo, previous, options.full) {
        Ok(found) => found,
        Err(error) => {
            return Err(error);
        },
    };
    proof {
        lemma_compacted_sources_known(found.changes.deep_view(), host.config@);
    }
    match generate_shell_script(&found.merged, &host.config) {
        Ok(lines) => {
            assert(found.changes.deep_view() == action_diff(
                found.next.deep_view(),
                previous_view(previous),
                options.full,
            ));
            Ok(lines)
        },
        Err(error) => {
            proof {
                let first = choose|first: int| #[trigger]
                    unknown_at(found.merged.deep_view(), host.config@, first);
                assert(!unknown_at(found.merged.deep_view(), host.config@, first));
            }
            Err(error)
        },
    }
}

} // verus!
