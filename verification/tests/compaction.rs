use dotstrap::action::{FileOperation, PackageOperation, SystemAction};
use dotstrap::compaction::{compact_mergeable_actions, join_names};
use dotstrap::error::Error;
use dotstrap::host::{HostConfiguration, PackageManager, PackageManagerCommands};

fn package(operation: PackageOperation, source: &str, name: &str, origin: &str) -> SystemAction {
    SystemAction::Package {
        operation,
        source: source.to_string(),
        name: name.to_string(),
        origin: origin.to_string(),
    }
}

fn manager(multiple: bool, install: &str, uninstall: &str) -> PackageManager {
    PackageManager {
        multiple,
        commands: PackageManagerCommands {
            install: install.to_string(),
            uninstall: uninstall.to_string(),
            clean: None,
        },
    }
}

fn paru_and_flatpak() -> HostConfiguration {
    let mut config = HostConfiguration::new();
    config.insert(
        "os".to_string(),
        manager(true, "paru -S <package>", "paru -Runs <package>"),
    );
    config.insert(
        "flatpak".to_string(),
        manager(
            false,
            "sudo flatpak install <package>",
            "sudo flatpak uninstall <package>",
        ),
    );
    config
}

#[test]
fn test_compacter_adjoining_packages() {
    let sysactions = vec![
        SystemAction::Package {
            operation: PackageOperation::Uninstall,
            source: "os".to_string(),
            name: "bash".to_string(),
            origin: "packages/bash".to_string(),
        },
        SystemAction::Package {
            operation: PackageOperation::Uninstall,
            source: "os".to_string(),
            name: "bash-completion".to_string(),
            origin: "packages/bash".to_string(),
        },
        SystemAction::Package {
            operation: PackageOperation::Uninstall,
            source: "os".to_string(),
            name: "fish".to_string(),
            origin: "hosts/Kelgors-Desktop".to_string(),
        },
        SystemAction::Package {
            operation: PackageOperation::Install,
            source: "os".to_string(),
            name: "zsh".to_string(),
            origin: "packages/zsh".to_string(),
        },
        SystemAction::Package {
            operation: PackageOperation::Install,
            source: "os".to_string(),
            name: "zsh-syntax-highlighting".to_string(),
            origin: "packages/zsh".to_string(),
        },
        SystemAction::Package {
            operation: PackageOperation::Install,
            source: "os".to_string(),
            name: "zsh-autosuggestions".to_string(),
            origin: "packages/zsh".to_string(),
        },
        SystemAction::Package {
            operation: PackageOperation::Install,
            source: "os".to_string(),
            name: "zsh-history-substring-search".to_string(),
            origin: "packages/zsh".to_string(),
        },
        SystemAction::Package {
            operation: PackageOperation::Install,
            source: "os".to_string(),
            name: "zsh-theme-powerlevel10k".to_string(),
            origin: "packages/zsh".to_string(),
        },
        SystemAction::File {
            operation: FileOperation::Link,
            src: "zshrc".to_string(),
            dest: "~/.zshrc".to_string(),
            origin: "packages/zsh".to_string(),
        },
        SystemAction::File {
            operation: FileOperation::Copy,
            src: "profile".to_string(),
            dest: "~/.$USER.profile".to_string(),
            origin: "packages/zsh".to_string(),
        },
    ];

    let mut config = HostConfiguration::new();
    config.insert(
        "os".to_string(),
        PackageManager {
            multiple: true,
            commands: PackageManagerCommands {
                install: "paru -S <package>".to_string(),
                uninstall: "paru -Runs <package>".to_string(),
                clean: None,
            },
        },
    );

    let result = vec![
            SystemAction::Package {
                operation: PackageOperation::Uninstall,
                source: "os".to_string(),
                name: "bash bash-completion".to_string(),
                origin: "packages/bash".to_string(),
            },
            SystemAction::Package {
                operation: PackageOperation::Uninstall,
                source: "os".to_string(),
                name: "fish".to_string(),
                origin: "hosts/Kelgors-Desktop".to_string(),
            },
            SystemAction::Package {
                operation: PackageOperation::Install,
                source: "os".to_string(),
                name: "zsh zsh-syntax-highlighting zsh-autosuggestions zsh-history-substring-search zsh-theme-powerlevel10k".to_string(),
                origin: "packages/zsh".to_string(),
            },
            SystemAction::File {
                operation: FileOperation::Link,
                src: "zshrc".to_string(),
                dest: "~/.zshrc".to_string(),
                origin: "packages/zsh".to_string(),
            },
            SystemAction::File {
                operation: FileOperation::Copy,
                src: "profile".to_string(),
                dest: "~/.$USER.profile".to_string(),
                origin: "packages/zsh".to_string(),
            },
        ];
    let merged_actions = compact_mergeable_actions(&sysactions, &config);
    assert_eq!(Ok(result), merged_actions);
}

#[test]
fn compaction_of_nothing_is_nothing() {
    let config = paru_and_flatpak();
    assert_eq!(compact_mergeable_actions(&vec![], &config), Ok(vec![]));
}

#[test]
fn compaction_merges_the_documented_example() {
    let config = paru_and_flatpak();
    let actions = vec![
        package(PackageOperation::Uninstall, "os", "bash", "pkgA"),
        package(PackageOperation::Uninstall, "os", "bash-completion", "pkgA"),
        package(PackageOperation::Uninstall, "os", "fish", "hostB"),
        package(PackageOperation::Install, "os", "zsh", "pkgC"),
        package(PackageOperation::Install, "os", "zsh-syntax-highlighting", "pkgC"),
    ];
    let expected = vec![
        package(PackageOperation::Uninstall, "os", "bash bash-completion", "pkgA"),
        package(PackageOperation::Uninstall, "os", "fish", "hostB"),
        package(PackageOperation::Install, "os", "zsh zsh-syntax-highlighting", "pkgC"),
    ];
    assert_eq!(compact_mergeable_actions(&actions, &config), Ok(expected));
}

#[test]
fn compaction_keeps_single_invocation_managers_apart() {
    let config = paru_and_flatpak();
    let actions = vec![
        package(PackageOperation::Install, "flatpak", "org.a", "hosts/x"),
        package(PackageOperation::Install, "flatpak", "org.b", "hosts/x"),
        package(PackageOperation::Install, "os", "vim", "hosts/x"),
        package(PackageOperation::Install, "flatpak", "org.c", "hosts/x"),
        package(PackageOperation::Install, "os", "git", "hosts/x"),
    ];
    assert_eq!(compact_mergeable_actions(&actions, &config), Ok(actions.clone()));
}

#[test]
fn compaction_is_cut_by_other_actions_and_by_a_change_of_operation() {
    let config = paru_and_flatpak();
    let script = SystemAction::Script {
        operation: dotstrap::action::ScriptOperation::Run,
        script: "echo hi".to_string(),
        origin: "hosts/x:post_install".to_string(),
    };
    let actions = vec![
        package(PackageOperation::Install, "os", "a", "hosts/x"),
        package(PackageOperation::Install, "os", "b", "hosts/x"),
        script.clone(),
        package(PackageOperation::Install, "os", "c", "hosts/x"),
        package(PackageOperation::Uninstall, "os", "d", "hosts/x"),
        package(PackageOperation::Uninstall, "os", "e", "hosts/x"),
    ];
    let expected = vec![
        package(PackageOperation::Install, "os", "a b", "hosts/x"),
        script,
        package(PackageOperation::Install, "os", "c", "hosts/x"),
        package(PackageOperation::Uninstall, "os", "d e", "hosts/x"),
    ];
    assert_eq!(compact_mergeable_actions(&actions, &config), Ok(expected));
}

#[test]
fn compaction_keeps_runs_of_an_empty_source_apart() {
    let mut config = paru_and_flatpak();
    config.insert("".to_string(), manager(true, "get <package>", "drop <package>"));
    let actions = vec![
        package(PackageOperation::Install, "", "a", "hosts/x"),
        package(PackageOperation::Install, "os", "b", "hosts/x"),
    ];
    assert_eq!(compact_mergeable_actions(&actions, &config), Ok(actions.clone()));
}

#[test]
fn compaction_reports_the_first_unknown_source() {
    let config = paru_and_flatpak();
    let actions = vec![
        package(PackageOperation::Install, "os", "a", "hosts/x"),
        package(PackageOperation::Install, "brew", "b", "packages/y"),
        package(PackageOperation::Install, "nix", "c", "packages/z"),
    ];
    assert_eq!(
        compact_mergeable_actions(&actions, &config),
        Err(Error::UnknownPackageManager {
            source: "brew".to_string(),
            origin: "packages/y".to_string(),
        })
    );
}

#[test]
fn names_are_joined_by_single_spaces() {
    assert_eq!(join_names(&vec![]), "");
    assert_eq!(join_names(&vec!["one".to_string()]), "one");
    assert_eq!(
        join_names(&vec!["one".to_string(), "".to_string(), "three".to_string()]),
        "one  three"
    );
}
