use dotstrap::error::Error;
use dotstrap::package::{
    dependency_default_source, DependencyDefinition, LinkFileDefinition, PackageCollection,
    PackageDefinition, PackageSource,
};
use std::str::FromStr;

fn bare(name: &str) -> PackageDefinition {
    PackageDefinition {
        name: name.to_string(),
        description: None,
        path: format!("packages/{}", name),
        dependencies: vec![],
        pre_install: None,
        post_install: None,
        links: vec![],
        post_links: None,
    }
}

#[test]
fn a_dependency_is_read_from_its_short_form() {
    let read = |text: &str| DependencyDefinition::parse(text);
    let made = |source: &str, name: &str| DependencyDefinition {
        source: source.to_string(),
        name: name.to_string(),
    };
    assert_eq!(read("firefox"), made("os", "firefox"));
    assert_eq!(read("dot:flatpak"), made("dot", "flatpak"));
    assert_eq!(read("flatpak:net.lutris.Lutris"), made("flatpak", "net.lutris.Lutris"));
    assert_eq!(read("a:b:c"), made("a", "c"));
    assert_eq!(read(""), made("os", ""));
    assert_eq!(read(":x"), made("", "x"));
    assert_eq!(DependencyDefinition::from_str("dot:tmux"), Ok(made("dot", "tmux")));
    assert_eq!(dependency_default_source(), "os");
}

#[test]
fn a_dependency_is_shown_with_its_source() {
    let dependency = DependencyDefinition {
        source: "flatpak".to_string(),
        name: "org.x".to_string(),
    };
    assert_eq!(dependency.to_string(), "flatpak:org.x");
    assert_eq!(DependencyDefinition::parse("vim").to_string(), "os:vim");
}

#[test]
fn a_link_is_read_from_its_short_form() {
    assert_eq!(
        LinkFileDefinition::parse("init.vim:~/.config/nvim/init.vim"),
        Ok(LinkFileDefinition {
            src: "init.vim".to_string(),
            dest: "~/.config/nvim/init.vim".to_string(),
            copy: false,
        })
    );
    assert_eq!(
        LinkFileDefinition::from_str("a:b:c"),
        Ok(LinkFileDefinition {
            src: "a".to_string(),
            dest: "b".to_string(),
            copy: false,
        })
    );
    assert_eq!(
        LinkFileDefinition::parse("no-colon"),
        Err(Error::ParseError {
            reason: "Wrong format, needing {src}:{dest}".to_string()
        })
    );
    assert_eq!(
        LinkFileDefinition {
            src: "a".to_string(),
            dest: "b".to_string(),
            copy: true,
        }
        .to_string(),
        "a:b"
    );
}

#[test]
fn only_dot_is_a_local_source() {
    assert_eq!(PackageSource::from("dot"), PackageSource::Local);
    assert_eq!(PackageSource::from("os"), PackageSource::System);
    assert_eq!(PackageSource::from(""), PackageSource::System);
    assert_eq!(PackageSource::default(), PackageSource::System);
}

#[test]
fn a_collection_files_packages_by_name() {
    let mut repo = PackageCollection::new();
    assert_eq!(repo.len(), 0);
    assert!(repo.get(&"a".to_string()).is_none());
    repo.insert("a".to_string(), bare("a"));
    repo.insert("b".to_string(), bare("b"));
    repo.insert("a".to_string(), bare("a2"));
    assert_eq!(repo.len(), 2);
    assert!(repo.contains_key(&"b".to_string()));
    assert!(!repo.contains_key(&"c".to_string()));
    assert_eq!(repo.get(&"a".to_string()).unwrap().name, "a2");
}
