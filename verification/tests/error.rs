use dotstrap::error::Error;
use dotstrap::host::{HostConfiguration, PackageManager, PackageManagerCommands};

#[test]
fn each_error_is_told_in_words() {
    assert_eq!(
        Error::UnknownPackageManager {
            source: "brew".to_string(),
            origin: "packages/y".to_string(),
        }
        .message(),
        "Invalid source brew from packages/y"
    );
    assert_eq!(
        Error::MissingPackage {
            name: "zsh".to_string()
        }
        .message(),
        "Missing package zsh"
    );
    assert_eq!(
        Error::CyclicDependency {
            name: "zsh".to_string()
        }
        .message(),
        "Cyclic dependency on package zsh"
    );
    assert_eq!(
        Error::ParseError {
            reason: "bad".to_string()
        }
        .message(),
        "bad"
    );
}

#[test]
fn errors_are_equal_when_every_field_matches() {
    let missing = |name: &str| Error::MissingPackage {
        name: name.to_string(),
    };
    assert_eq!(missing("a"), missing("a"));
    assert_ne!(missing("a"), missing("b"));
    assert_ne!(
        missing("a"),
        Error::CyclicDependency {
            name: "a".to_string()
        }
    );
}

#[test]
fn a_configuration_answers_for_the_sources_it_describes() {
    let mut config = HostConfiguration::new();
    assert!(config.get(&"os".to_string()).is_none());
    config.insert(
        "os".to_string(),
        PackageManager {
            multiple: false,
            commands: PackageManagerCommands {
                install: "first <package>".to_string(),
                uninstall: "u <package>".to_string(),
                clean: None,
            },
        },
    );
    config.insert(
        "os".to_string(),
        PackageManager {
            multiple: true,
            commands: PackageManagerCommands {
                install: "second <package>".to_string(),
                uninstall: "u <package>".to_string(),
                clean: Some("c".to_string()),
            },
        },
    );
    let manager = config.get(&"os".to_string()).unwrap();
    assert!(manager.multiple);
    assert_eq!(manager.commands.install, "second <package>");
    assert!(config.get(&"flatpak".to_string()).is_none());
}
