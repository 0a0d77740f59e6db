//! The atomic actions that a plan is made of, and their mathematical model.

use vstd::prelude::*;
use vstd::std_specs::cmp::PartialEqSpecImpl;

verus! {

/// What to do with a package of an external package manager.
#[derive(Debug, Clone, Copy, PartialEq, Eq, Structural)]
pub enum PackageOperation {
    Install,
    Uninstall,
}

/// What to do with a script.
#[derive(Debug, Clone, Copy, PartialEq, Eq, Structural)]
pub enum ScriptOperation {
    Run,
}

/// What to do with a file.
#[derive(Debug, Clone, Copy, PartialEq, Eq, Structural)]
pub enum FileOperation {
    Link,
    Copy,
    Remove,
}

/// One atomic system mutation.
///
/// `origin` names the package (and phase) the action comes from; it is never
/// executed, but it takes part in equality and in the grouping of package actions.
#[derive(Debug)]
#[allow(inconsistent_fields)]
pub enum SystemAction {
    Package { operation: PackageOperation, source: String, name: String, origin: String },
    Script { operation: ScriptOperation, script: String, origin: String },
    File { operation: FileOperation, src: String, dest: String, origin: String },
}

/// The mathematical value of a [`SystemAction`]: every text field as a sequence of characters.
#[allow(inconsistent_fields)]
pub ghost enum ActionView {
    Package { operation: PackageOperation, source: Seq<char>, name: Seq<char>, origin: Seq<char> },
    Script { operation: ScriptOperation, script: Seq<char>, origin: Seq<char> },
    File { operation: FileOperation, src: Seq<char>, dest: Seq<char>, origin: Seq<char> },
}

impl View for SystemAction {
    type V = ActionView;

    open spec fn view(&self) -> ActionView {
        match *self {
            SystemAction::Package { operation, source, name, origin } => ActionView::Package {
                operation,
                source: source@,
                name: name@,
                origin: origin@,
            },
            SystemAction::Script { operation, script, origin } => ActionView::Script {
                operation,
                script: script@,
                origin: origin@,
            },
            SystemAction::File { operation, src, dest, origin } => ActionView::File {
                operation,
                src: src@,
                dest: dest@,
                origin: origin@,
            },
        }
    }
}

impl DeepView for SystemAction {
    type V = ActionView;

    open spec fn deep_view(&self) -> ActionView {
        self@
    }
}

impl Clone for SystemAction {
    fn clone(&self) -> (copy: Self)
        ensures
            copy == *self,
    {
        match self {
            SystemAction::Package { operation, source, name, origin } => SystemAction::Package {
                operation: *operation,
                source: source.clone(),
                name: name.clone(),
                origin: origin.clone(),
            },
            SystemAction::Script { operation, script, origin } => SystemAction::Script {
                operation: *operation,
                script: script.clone(),
                origin: origin.clone(),
            },
            SystemAction::File { operation, src, dest, origin } => SystemAction::File {
                operation: *operation,
                src: src.clone(),
                dest: dest.clone(),
                origin: origin.clone(),
            },
        }
    }
}

impl PartialEq for SystemAction {
    /// Two actions are equal when every field matches.
    fn eq(&self, other: &Self) -> (equal: bool) {
        match (self, other) {
            (
                SystemAction::Package { operation: o1, source: s1, name: n1, origin: g1 },
                SystemAction::Package { operation: o2, source: s2, name: n2, origin: g2 },
            ) => *o1 == *o2 && *s1 == *s2 && *n1 == *n2 && *g1 == *g2,
            (
                SystemAction::Script { operation: o1, script: s1, origin: g1 },
                SystemAction::Script { operation: o2, script: s2, origin: g2 },
            ) => *o1 == *o2 && *s1 == *s2 && *g1 == *g2,
            (
                SystemAction::File { operation: o1, src: s1, dest: d1, origin: g1 },
                SystemAction::File { operation: o2, src: s2, dest: d2, origin: g2 },
            ) => *o1 == *o2 && *s1 == *s2 && *d1 == *d2 && *g1 == *g2,
            _ => false,
        }
    }
}

impl PartialEqSpecImpl for SystemAction {
    open spec fn obeys_eq_spec() -> bool {
        true
    }

    open spec fn eq_spec(&self, other: &Self) -> bool {
        self@ == other@
    }
}

impl Eq for SystemAction {

}

} // verus!
