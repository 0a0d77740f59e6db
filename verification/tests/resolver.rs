use dotstrap::action::{PackageOperation, SystemAction};
use dotstrap::error::Error;
use dotstrap::package::{DependencyDefinition, PackageCollection, PackageDefinition};
use dotstrap::planner::transform_package_to_actions;
use dotstrap::resolver::{Answer, Request, Resolver};

fn package(name: &str, dependencies: &[&str]) -> PackageDefinition {
    PackageDefinition {
        name: name.to_string(),
        description: None,
        path: format!("packages/{}", name),
        dependencies: dependencies
            .iter()
            .map(|text| DependencyDefinition::parse(text))
            .collect(),
        pre_install: None,
        post_install: None,
        links: vec![],
        post_links: None,
    }
}

fn find(repository: &[PackageDefinition], name: &str) -> Answer {
    match repository.iter().find(|package| package.name == name) {
        Some(package) => Answer::Package(package.clone()),
        None => Answer::Missing,
    }
}

fn resolve(
    root: &PackageDefinition,
    repository: &[PackageDefinition],
) -> Result<(PackageCollection, Vec<String>), Error> {
    let mut resolver = Resolver::new(root);
    let mut asked = vec![];
    loop {
        match resolver.next_request() {
            Request::Load(name) => {
                asked.push(name.clone());
                resolver.supply(find(repository, &name))?;
            }
            Request::Finished => return Ok((resolver.into_packages(), asked)),
            Request::Failed(error) => return Err(error),
        }
    }
}

#[test]
fn a_root_without_local_dependencies_needs_nothing() {
    let root = package("host", &["vim", "flatpak:org.x"]);
    let (packages, asked) = resolve(&root, &[]).unwrap();
    assert_eq!(packages.len(), 0);
    assert!(asked.is_empty());
}

#[test]
fn dependencies_are_loaded_depth_first_and_once() {
    let repository = vec![
        package("a", &["dot:x", "a-tool", "dot:b"]),
        package("b", &["dot:x"]),
        package("x", &["libx"]),
        package("unused", &[]),
    ];
    let root = package("host", &["firefox", "dot:a", "dot:b", "dot:x"]);
    let (packages, asked) = resolve(&root, &repository).unwrap();
    assert_eq!(asked, vec!["a".to_string(), "x".to_string(), "b".to_string()]);
    assert_eq!(packages.len(), 3);
    assert!(packages.contains_key(&"a".to_string()));
    assert!(packages.contains_key(&"b".to_string()));
    assert!(packages.contains_key(&"x".to_string()));
    assert!(!packages.contains_key(&"unused".to_string()));
}

#[test]
fn what_is_resolved_can_be_planned() {
    let repository = vec![
        package("a", &["dot:x", "a-tool"]),
        package("x", &["libx"]),
    ];
    let root = package("host", &["dot:a", "dot:x"]);
    let (packages, _) = resolve(&root, &repository).unwrap();
    let mut loaded = vec![];
    let plan = transform_package_to_actions(&root, &packages, &mut loaded).unwrap();
    let install = |name: &str, origin: &str| SystemAction::Package {
        operation: PackageOperation::Install,
        source: "os".to_string(),
        name: name.to_string(),
        origin: origin.to_string(),
    };
    assert_eq!(
        plan,
        vec![install("libx", "packages/x"), install("a-tool", "packages/a")]
    );
}

#[test]
fn a_cycle_is_reported() {
    let repository = vec![
        package("a", &["dot:b"]),
        package("b", &["dot:c"]),
        package("c", &["dot:a"]),
    ];
    let root = package("host", &["dot:a"]);
    assert_eq!(
        resolve(&root, &repository).err(),
        Some(Error::CyclicDependency {
            name: "a".to_string()
        })
    );
    let own = vec![package("a", &["dot:a"])];
    assert_eq!(
        resolve(&root, &own).err(),
        Some(Error::CyclicDependency {
            name: "a".to_string()
        })
    );
}

#[test]
fn a_missing_package_is_reported() {
    let repository = vec![package("a", &["dot:gone"])];
    let root = package("host", &["dot:a"]);
    assert_eq!(
        resolve(&root, &repository).err(),
        Some(Error::MissingPackage {
            name: "gone".to_string()
        })
    );
}

#[test]
fn an_unreadable_package_is_reported() {
    let root = package("host", &["dot:a"]);
    let mut resolver = Resolver::new(&root);
    assert!(matches!(resolver.next_request(), Request::Load(name) if name == "a"));
    assert_eq!(
        resolver.supply(Answer::Unreadable("bad yaml".to_string())),
        Err(Error::ParseError {
            reason: "bad yaml".to_string()
        })
    );
    // The request stands until it is answered with a package.
    assert!(matches!(resolver.next_request(), Request::Load(name) if name == "a"));
    assert_eq!(resolver.supply(Answer::Package(package("a", &[]))), Ok(()));
    assert!(matches!(resolver.next_request(), Request::Finished));
    assert!(matches!(resolver.next_request(), Request::Finished));
}

#[test]
fn an_answer_that_nothing_awaits_changes_nothing() {
    let root = package("host", &["dot:a"]);
    let mut resolver = Resolver::new(&root);
    assert_eq!(resolver.supply(Answer::Missing), Ok(()));
    assert_eq!(resolver.supply(Answer::Package(package("z", &[]))), Ok(()));
    assert!(matches!(resolver.next_request(), Request::Load(name) if name == "a"));
    assert_eq!(resolver.supply(Answer::Package(package("a", &[]))), Ok(()));
    assert!(matches!(resolver.next_request(), Request::Finished));
    let packages = resolver.into_packages();
    assert_eq!(packages.len(), 1);
    assert!(!packages.contains_key(&"z".to_string()));
}
