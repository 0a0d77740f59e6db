use dotstrap::action::{FileOperation, PackageOperation, ScriptOperation, SystemAction};
use dotstrap::lockfile::{
    build_action_diff, clone_actions, contains_action, inverse_action, inverse_additive_actions,
    make_difference,
};

fn package(operation: PackageOperation, source: &str, name: &str, origin: &str) -> SystemAction {
    SystemAction::Package {
        operation,
        source: source.to_string(),
        name: name.to_string(),
        origin: origin.to_string(),
    }
}

fn script(text: &str, origin: &str) -> SystemAction {
    SystemAction::Script {
        operation: ScriptOperation::Run,
        script: text.to_string(),
        origin: origin.to_string(),
    }
}

fn file(operation: FileOperation, src: &str, dest: &str, origin: &str) -> SystemAction {
    SystemAction::File {
        operation,
        src: src.to_string(),
        dest: dest.to_string(),
        origin: origin.to_string(),
    }
}

fn sample() -> Vec<SystemAction> {
    vec![
        script("echo before", "hosts/x:pre_install"),
        package(PackageOperation::Install, "os", "vim", "hosts/x"),
        package(PackageOperation::Install, "flatpak", "org.x", "hosts/x"),
        file(FileOperation::Link, "vimrc", "/home/u/.vimrc", "hosts/x"),
        file(FileOperation::Copy, "profile", "/home/u/.profile", "hosts/x"),
    ]
}

#[test]
fn the_first_run_applies_the_whole_plan() {
    let next = sample();
    assert_eq!(build_action_diff(&next, None, false), next);
    assert_eq!(build_action_diff(&next, None, true), next);
    assert_eq!(build_action_diff(&vec![], None, false), vec![]);
}

#[test]
fn a_full_run_applies_the_whole_plan_whatever_was_applied() {
    let next = sample();
    let previous = vec![
        package(PackageOperation::Install, "os", "emacs", "hosts/x"),
        file(FileOperation::Link, "old", "/home/u/.old", "hosts/x"),
    ];
    assert_eq!(build_action_diff(&next, Some(&previous), true), next);
    assert_eq!(build_action_diff(&next, Some(&next), true), next);
    assert_eq!(build_action_diff(&next, Some(&vec![]), true), next);
}

#[test]
fn an_unchanged_plan_leaves_nothing_to_do() {
    let next = sample();
    assert_eq!(build_action_diff(&next, Some(&next), false), vec![]);
    assert_eq!(build_action_diff(&vec![], Some(&vec![]), false), vec![]);
}

#[test]
fn removals_come_first_and_most_recent_first() {
    let previous = vec![
        package(PackageOperation::Install, "os", "vim", "hosts/x"),
        package(PackageOperation::Install, "os", "emacs", "hosts/x"),
        script("echo once", "hosts/x:post_install"),
        file(FileOperation::Link, "old", "/home/u/.old", "hosts/x"),
        file(FileOperation::Copy, "older", "/home/u/.older", "hosts/x"),
    ];
    let next = vec![
        package(PackageOperation::Install, "os", "vim", "hosts/x"),
        package(PackageOperation::Install, "os", "git", "hosts/x"),
        script("echo twice", "hosts/x:post_install"),
    ];
    assert_eq!(
        build_action_diff(&next, Some(&previous), false),
        vec![
            file(FileOperation::Remove, "", "/home/u/.older", "hosts/x"),
            file(FileOperation::Remove, "", "/home/u/.old", "hosts/x"),
            package(PackageOperation::Uninstall, "os", "emacs", "hosts/x"),
            package(PackageOperation::Install, "os", "git", "hosts/x"),
            script("echo twice", "hosts/x:post_install"),
        ]
    );
}

#[test]
fn an_action_differs_when_any_field_differs() {
    let previous = vec![file(FileOperation::Link, "vimrc", "/home/u/.vimrc", "hosts/x")];
    let next = vec![file(FileOperation::Link, "vimrc", "/home/u/.config/vimrc", "hosts/x")];
    assert_eq!(
        build_action_diff(&next, Some(&previous), false),
        vec![
            file(FileOperation::Remove, "", "/home/u/.vimrc", "hosts/x"),
            file(FileOperation::Link, "vimrc", "/home/u/.config/vimrc", "hosts/x"),
        ]
    );
    let moved = vec![file(FileOperation::Link, "vimrc", "/home/u/.vimrc", "hosts/y")];
    assert_eq!(
        build_action_diff(&moved, Some(&previous), false),
        vec![
            file(FileOperation::Remove, "", "/home/u/.vimrc", "hosts/x"),
            file(FileOperation::Link, "vimrc", "/home/u/.vimrc", "hosts/y"),
        ]
    );
}

#[test]
fn inversion_undoes_installs_links_and_copies_in_reverse() {
    let actions = vec![
        package(PackageOperation::Install, "os", "vim", "hosts/x"),
        script("echo", "hosts/x:post_install"),
        package(PackageOperation::Uninstall, "os", "nano", "hosts/x"),
        file(FileOperation::Link, "a", "/a", "hosts/x"),
        file(FileOperation::Remove, "", "/gone", "hosts/x"),
        file(FileOperation::Copy, "b", "/b", "packages/y"),
        package(PackageOperation::Install, "os", "vim", "hosts/x"),
    ];
    assert_eq!(
        inverse_additive_actions(&actions),
        vec![
            package(PackageOperation::Uninstall, "os", "vim", "hosts/x"),
            file(FileOperation::Remove, "", "/b", "packages/y"),
            file(FileOperation::Remove, "", "/a", "hosts/x"),
            package(PackageOperation::Uninstall, "os", "vim", "hosts/x"),
        ]
    );
    assert_eq!(inverse_additive_actions(&vec![]), vec![]);
}

#[test]
fn each_kind_of_action_has_its_inverse_or_none() {
    assert_eq!(
        inverse_action(&package(PackageOperation::Install, "os", "vim", "hosts/x")),
        Some(package(PackageOperation::Uninstall, "os", "vim", "hosts/x"))
    );
    assert_eq!(
        inverse_action(&package(PackageOperation::Uninstall, "os", "vim", "hosts/x")),
        None
    );
    assert_eq!(
        inverse_action(&file(FileOperation::Link, "a", "/a", "hosts/x")),
        Some(file(FileOperation::Remove, "", "/a", "hosts/x"))
    );
    assert_eq!(
        inverse_action(&file(FileOperation::Copy, "a", "/a", "hosts/x")),
        Some(file(FileOperation::Remove, "", "/a", "hosts/x"))
    );
    assert_eq!(inverse_action(&file(FileOperation::Remove, "", "/a", "hosts/x")), None);
    assert_eq!(inverse_action(&script("echo", "hosts/x")), None);
}

#[test]
fn the_difference_keeps_order_and_repetitions() {
    let a = package(PackageOperation::Install, "os", "a", "hosts/x");
    let b = package(PackageOperation::Install, "os", "b", "hosts/x");
    let c = package(PackageOperation::Install, "os", "c", "hosts/x");
    let from = vec![c.clone(), a.clone(), b.clone(), c.clone()];
    assert_eq!(make_difference(&from, &vec![a.clone()]), vec![c.clone(), b.clone(), c.clone()]);
    assert_eq!(make_difference(&from, &vec![c.clone(), b.clone()]), vec![a.clone()]);
    assert_eq!(make_difference(&from, &vec![]), from);
    assert_eq!(make_difference(&vec![], &from), vec![]);
    assert!(contains_action(&from, &b));
    assert!(!contains_action(&vec![a.clone()], &b));
    assert_eq!(clone_actions(&from), from);
}
