use dotstrap::action::{FileOperation, PackageOperation, ScriptOperation, SystemAction};
use dotstrap::error::Error;
use dotstrap::package::{
    DependencyDefinition, LinkFileDefinition, PackageCollection, PackageDefinition,
};
use dotstrap::planner::{
    contains_name, is_local, phase_origin, transform_links_to_actions,
    transform_package_deps_to_actions, transform_package_to_actions,
};

fn dependency(source: &str, name: &str) -> DependencyDefinition {
    DependencyDefinition {
        source: source.to_string(),
        name: name.to_string(),
    }
}

fn bare(name: &str, path: &str, dependencies: Vec<DependencyDefinition>) -> PackageDefinition {
    PackageDefinition {
        name: name.to_string(),
        description: None,
        path: path.to_string(),
        dependencies,
        pre_install: None,
        post_install: None,
        links: vec![],
        post_links: None,
    }
}

fn install(source: &str, name: &str, origin: &str) -> SystemAction {
    SystemAction::Package {
        operation: PackageOperation::Install,
        source: source.to_string(),
        name: name.to_string(),
        origin: origin.to_string(),
    }
}

fn script(text: &str, origin: &str) -> SystemAction {
    SystemAction::Script {
        operation: ScriptOperation::Run,
        script: text.to_string(),
        origin: origin.to_string(),
    }
}

fn file(operation: FileOperation, src: &str, dest: &str, origin: &str) -> SystemAction {
    SystemAction::File {
        operation,
        src: src.to_string(),
        dest: dest.to_string(),
        origin: origin.to_string(),
    }
}

#[test]
fn a_package_is_planned_in_the_fixed_order() {
    let package = PackageDefinition {
        name: "zsh".to_string(),
        description: Some("a shell".to_string()),
        path: "packages/zsh".to_string(),
        dependencies: vec![dependency("os", "zsh"), dependency("flatpak", "org.x")],
        pre_install: Some("echo before".to_string()),
        post_install: Some("echo after".to_string()),
        links: vec![
            LinkFileDefinition {
                src: "zshrc".to_string(),
                dest: "/etc/zshrc".to_string(),
                copy: false,
            },
            LinkFileDefinition {
                src: "profile".to_string(),
                dest: "/etc/profile".to_string(),
                copy: true,
            },
        ],
        post_links: Some("echo linked".to_string()),
    };
    let repo = PackageCollection::new();
    let mut loaded = vec![];
    let actions = transform_package_to_actions(&package, &repo, &mut loaded);
    assert_eq!(
        actions,
        Ok(vec![
            script("echo before", "packages/zsh:pre_install"),
            install("os", "zsh", "packages/zsh"),
            install("flatpak", "org.x", "packages/zsh"),
            script("echo after", "packages/zsh:post_install"),
            file(FileOperation::Link, "zshrc", "/etc/zshrc", "packages/zsh"),
            file(FileOperation::Copy, "profile", "/etc/profile", "packages/zsh"),
            script("echo linked", "packages/zsh:post_links"),
        ])
    );
    assert!(loaded.is_empty());
}

#[test]
fn a_package_without_anything_plans_nothing() {
    let repo = PackageCollection::new();
    let mut loaded = vec!["kept".to_string()];
    let actions = transform_package_to_actions(&bare("x", "hosts/x", vec![]), &repo, &mut loaded);
    assert_eq!(actions, Ok(vec![]));
    assert_eq!(loaded, vec!["kept".to_string()]);
}

#[test]
fn a_shared_dependency_is_planned_once_where_it_is_first_met() {
    let mut repo = PackageCollection::new();
    let mut shared = bare("x", "packages/x", vec![dependency("os", "libx")]);
    shared.post_install = Some("setup x".to_string());
    repo.insert("x".to_string(), shared);
    repo.insert(
        "a".to_string(),
        bare("a", "packages/a", vec![dependency("dot", "x"), dependency("os", "a-tool")]),
    );
    repo.insert(
        "b".to_string(),
        bare("b", "packages/b", vec![dependency("os", "b-tool"), dependency("dot", "x")]),
    );
    let host = bare(
        "host",
        "hosts/host",
        vec![dependency("dot", "a"), dependency("dot", "b"), dependency("dot", "x")],
    );
    let mut loaded = vec![];
    let actions = transform_package_to_actions(&host, &repo, &mut loaded);
    assert_eq!(
        actions,
        Ok(vec![
            install("os", "libx", "packages/x"),
            script("setup x", "packages/x:post_install"),
            install("os", "a-tool", "packages/a"),
            install("os", "b-tool", "packages/b"),
        ])
    );
    assert_eq!(loaded, vec!["a".to_string(), "x".to_string(), "b".to_string()]);
}

#[test]
fn a_dependency_that_was_loaded_before_is_skipped() {
    let mut repo = PackageCollection::new();
    repo.insert("x".to_string(), bare("x", "packages/x", vec![dependency("os", "libx")]));
    let host = bare("host", "hosts/host", vec![dependency("dot", "x"), dependency("os", "vim")]);
    let mut loaded = vec!["x".to_string()];
    let actions = transform_package_to_actions(&host, &repo, &mut loaded);
    assert_eq!(actions, Ok(vec![install("os", "vim", "hosts/host")]));
    assert_eq!(loaded, vec!["x".to_string()]);
}

#[test]
fn packages_that_depend_on_each_other_are_planned_once_each() {
    let mut repo = PackageCollection::new();
    repo.insert(
        "a".to_string(),
        bare("a", "packages/a", vec![dependency("dot", "b"), dependency("os", "a-tool")]),
    );
    repo.insert(
        "b".to_string(),
        bare("b", "packages/b", vec![dependency("dot", "a"), dependency("os", "b-tool")]),
    );
    let host = bare("host", "hosts/host", vec![dependency("dot", "a")]);
    let mut loaded = vec![];
    let actions = transform_package_to_actions(&host, &repo, &mut loaded);
    assert_eq!(
        actions,
        Ok(vec![
            install("os", "b-tool", "packages/b"),
            install("os", "a-tool", "packages/a"),
        ])
    );
    assert_eq!(loaded, vec!["a".to_string(), "b".to_string()]);
}

#[test]
fn a_missing_package_stops_the_plan() {
    let mut repo = PackageCollection::new();
    repo.insert("a".to_string(), bare("a", "packages/a", vec![dependency("dot", "gone")]));
    let host = bare(
        "host",
        "hosts/host",
        vec![dependency("os", "vim"), dependency("dot", "a"), dependency("dot", "other")],
    );
    let mut loaded = vec![];
    let actions = transform_package_to_actions(&host, &repo, &mut loaded);
    assert_eq!(
        actions,
        Err(Error::MissingPackage {
            name: "gone".to_string()
        })
    );
    assert_eq!(loaded, vec!["a".to_string()]);
}

#[test]
fn dependencies_alone_are_planned_in_the_order_of_declaration() {
    let mut repo = PackageCollection::new();
    repo.insert("x".to_string(), bare("x", "packages/x", vec![dependency("os", "libx")]));
    let mut host = bare(
        "host",
        "hosts/host",
        vec![dependency("os", "vim"), dependency("dot", "x"), dependency("os", "git")],
    );
    host.pre_install = Some("not a dependency".to_string());
    let mut loaded = vec![];
    let actions = transform_package_deps_to_actions(&host, &repo, &mut loaded);
    assert_eq!(
        actions,
        Ok(vec![
            install("os", "vim", "hosts/host"),
            install("os", "libx", "packages/x"),
            install("os", "git", "hosts/host"),
        ])
    );
}

#[test]
fn a_tilde_at_the_start_of_a_link_is_expanded() {
    let mut package = bare("zsh", "packages/zsh", vec![]);
    package.links = vec![
        LinkFileDefinition {
            src: "zshrc".to_string(),
            dest: "~/.zshrc".to_string(),
            copy: false,
        },
        LinkFileDefinition {
            src: "~other/file".to_string(),
            dest: "a/~/b".to_string(),
            copy: true,
        },
    ];
    let actions = transform_links_to_actions(&package);
    assert_eq!(actions.len(), 2);
    match &actions[0] {
        SystemAction::File {
            operation,
            src,
            dest,
            origin,
        } => {
            assert_eq!(*operation, FileOperation::Link);
            assert_eq!(src, "zshrc");
            assert_eq!(origin, "packages/zsh");
            assert_eq!(*dest, shellexpand::tilde("~/.zshrc").to_string());
            assert!(dest.ends_with("/.zshrc"));
            assert_ne!(dest, "~/.zshrc");
        }
        other => panic!("not a file action: {:?}", other),
    }
    assert_eq!(
        actions[1],
        file(FileOperation::Copy, "~other/file", "a/~/b", "packages/zsh")
    );
}

#[test]
fn only_the_source_dot_is_local() {
    assert!(is_local(&"dot".to_string()));
    assert!(!is_local(&"os".to_string()));
    assert!(!is_local(&"".to_string()));
    assert!(!is_local(&"dots".to_string()));
}

#[test]
fn names_are_found_by_equality() {
    let names = vec!["a".to_string(), "b".to_string()];
    assert!(contains_name(&names, &"b".to_string()));
    assert!(!contains_name(&names, &"ab".to_string()));
    assert!(!contains_name(&vec![], &"a".to_string()));
}

#[test]
fn the_origin_of_a_script_names_its_phase() {
    assert_eq!(
        phase_origin(&"packages/zsh".to_string(), ":post_install"),
        "packages/zsh:post_install"
    );
}
