use std::path::PathBuf;

use celestia::commands::remove::{remove_plugins, Remove};
use celestia::manifest::{Manifest, Name, Plugin, Source};
use celestia::paper::build_number::Build;
use celestia::paper::Version;
use celestia::plugins::Registry;

fn registry_plugin(id: &str, version: &str) -> Plugin {
    Plugin {
        source: Source::Registry {
            registry: Registry::Modrinth,
            id: id.to_owned(),
            version: version.to_owned(),
        },
        file: None,
    }
}

fn url_plugin(url: &str) -> Plugin {
    Plugin { source: Source::Url { url: url.to_owned() }, file: Some(PathBuf::from("x.jar")) }
}

fn names(manifest: &Manifest) -> Vec<String> {
    manifest.plugins().iter().map(|(n, _)| n.as_str().to_owned()).collect()
}

#[test]
fn default_manifest() {
    let manifest = Manifest::default();
    assert_eq!(*manifest.version(), Version { major: 26, minor: 2, patch: 0, release: None });
    assert_eq!(manifest.build(), Build(0));
    assert!(manifest.plugins().is_empty());
}

#[test]
fn set_version_and_build() {
    let mut manifest = Manifest::default();
    manifest.set_version("1.21.4".parse().unwrap());
    manifest.set_build(Build(232));
    assert_eq!(manifest.version().to_string(), "1.21.4");
    assert_eq!(manifest.build(), Build(232));
}

#[test]
fn names_compare_without_case() {
    assert!(Name::new("ViaVersion".to_owned()) == Name::new("viaversion".to_owned()));
    assert!(Name::new("LuckPerms".to_owned()) != Name::new("LuckPerm".to_owned()));
}

#[test]
fn add_then_lookup_replaces_in_place() {
    let mut manifest = Manifest::default();
    assert!(manifest.add_plugin(Name::new("EssentialsX".to_owned()), registry_plugin("essx", "1")).is_none());
    assert!(manifest.add_plugin(Name::new("LuckPerms".to_owned()), url_plugin("https://a")).is_none());
    let previous = manifest.add_plugin(Name::new("essentialsx".to_owned()), registry_plugin("essx", "2"));
    match previous {
        Some(Plugin { source: Source::Registry { version, .. }, .. }) => assert_eq!(version, "1"),
        _ => panic!("the earlier plugin is given back"),
    }
    // The entry keeps its place and the name it was listed under.
    assert_eq!(names(&manifest), vec!["EssentialsX", "LuckPerms"]);
    match &manifest.plugins()[0].1.source {
        Source::Registry { version, .. } => assert_eq!(version, "2"),
        _ => panic!("registry source expected"),
    }
}

#[test]
fn remove_gives_back_the_listed_name() {
    let mut manifest = Manifest::default();
    manifest.add_plugin(Name::new("WorldEdit".to_owned()), registry_plugin("we", "7"));
    manifest.add_plugin(Name::new("Chunky".to_owned()), registry_plugin("chunky", "1"));
    let (name, _) = manifest.remove_plugin(&Name::new("WORLDEDIT".to_owned())).unwrap();
    assert_eq!(name.as_str(), "WorldEdit");
    assert_eq!(names(&manifest), vec!["Chunky"]);
    assert!(manifest.remove_plugin(&Name::new("worldedit".to_owned())).is_none());
}

#[test]
fn remove_undoes_add() {
    let mut manifest = Manifest::default();
    manifest.add_plugin(Name::new("a".to_owned()), url_plugin("https://a"));
    manifest.add_plugin(Name::new("b".to_owned()), url_plugin("https://b"));
    manifest.remove_plugin(&Name::new("B".to_owned()));
    assert_eq!(names(&manifest), vec!["a"]);
}

#[test]
fn remove_command_removes_in_order() {
    let mut manifest = Manifest::default();
    for n in ["one", "two", "three"] {
        manifest.add_plugin(Name::new(n.to_owned()), url_plugin("https://x"));
    }
    let remove = Remove {
        name: Name::new("THREE".to_owned()),
        additional_names: vec![Name::new("One".to_owned())],
    };
    let (gone, missing) = remove_plugins(&mut manifest, remove.names());
    let gone: Vec<&str> = gone.iter().map(Name::as_str).collect();
    assert_eq!(gone, vec!["three", "one"]);
    assert!(missing.is_none());
    assert_eq!(names(&manifest), vec!["two"]);
}

#[test]
fn remove_command_stops_at_a_missing_name() {
    let mut manifest = Manifest::default();
    manifest.add_plugin(Name::new("one".to_owned()), url_plugin("https://x"));
    manifest.add_plugin(Name::new("two".to_owned()), url_plugin("https://x"));
    let (gone, missing) = remove_plugins(
        &mut manifest,
        vec![Name::new("ONE".to_owned()), Name::new("ghost".to_owned()), Name::new("two".to_owned())],
    );
    assert_eq!(gone.len(), 1);
    assert_eq!(gone[0].as_str(), "one");
    assert_eq!(missing.unwrap().as_str(), "ghost");
    assert_eq!(names(&manifest), vec!["two"]);
}
