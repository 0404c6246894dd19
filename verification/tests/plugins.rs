use std::path::PathBuf;

use celestia::commands::add::{game_version, Add};
use celestia::error::{is_broken_pipe, report, ExitCode};
use celestia::modrinth::{
    find_project, first_with_file, game_versions_filter, list_versions_url, search_facets, search_url, select_versions,
    FileResponse, Project, VersionKind, VersionResponse,
};
use celestia::notifier::{message_text, Action, LabelColor, Notifier};
use celestia::plugins::modrinth::{resolve_artifact, ListedVersion};
use celestia::plugins::{Registry, RepositoryError};

fn project(id: &str, name: &str) -> Project {
    Project { id: id.to_owned(), name: name.to_owned() }
}

fn file(name: &str, primary: bool) -> FileResponse {
    FileResponse { filename: PathBuf::from(name), url: format!("https://cdn/{name}"), primary }
}

#[test]
fn project_by_name() {
    let found = find_project(vec![project("1", "Chunky Border"), project("2", "chunky")], "Chunky").unwrap();
    assert_eq!(found.id, "2");
    assert!(find_project(vec![project("1", "WorldEdit")], "Chunky").is_none());
}

#[test]
fn version_selection() {
    let responses = vec![
        VersionResponse { version_type: VersionKind::Beta, files: vec![file("b.jar", true)] },
        VersionResponse { version_type: VersionKind::Release, files: vec![] },
        VersionResponse { version_type: VersionKind::Release, files: vec![file("a.jar", false), file("p.jar", true)] },
    ];
    let versions = select_versions(responses, false);
    assert_eq!(versions.len(), 2);
    assert!(versions.iter().all(|v| v.kind == VersionKind::Release));
    let chosen = first_with_file(versions).unwrap();
    assert_eq!(chosen.file.unwrap().file_name, PathBuf::from("p.jar"));

    let responses = vec![VersionResponse { version_type: VersionKind::Alpha, files: vec![file("a.jar", false)] }];
    let versions = select_versions(responses, true);
    assert_eq!(versions[0].file.as_ref().unwrap().url, "https://cdn/a.jar");
}

#[test]
fn modrinth_requests() {
    assert_eq!(search_url(), "https://api.modrinth.com/v2/search");
    assert_eq!(search_facets(), r#"[["categories:paper"],["project_type:plugin"]]"#);
    assert_eq!(list_versions_url("AANobbMI"), "https://api.modrinth.com/v2/project/AANobbMI/version");
    assert_eq!(game_versions_filter(game_version()), "[\"26.2\"]");
}

#[test]
fn add_names_keep_their_order() {
    let add = Add {
        name: "first".to_owned(),
        additional_names: vec!["second".to_owned(), "third".to_owned()],
        allow_experimental: false,
        dry_run: true,
    };
    assert_eq!(add.names(), vec!["first", "second", "third"]);
}

#[test]
fn plugin_resolution() {
    let versions = || {
        vec![
            ListedVersion { version_number: "2.0".to_owned(), file_urls: vec![] },
            ListedVersion { version_number: "1.0".to_owned(), file_urls: vec!["https://cdn/1.jar".to_owned()] },
        ]
    };
    let artifact = resolve_artifact("abc", Some("1.0"), versions()).unwrap();
    assert_eq!(artifact.registry, Registry::Modrinth);
    assert_eq!(artifact.id, "abc");
    assert_eq!(artifact.version, "1.0");
    assert_eq!(artifact.download_url, "https://cdn/1.jar");
    assert!(matches!(resolve_artifact("abc", Some("3.0"), versions()), Err(RepositoryError::NotFound)));
    match resolve_artifact("abc", None, versions()) {
        Err(RepositoryError::Custom(message)) => assert_eq!(message, "this version does not provide any files"),
        _ => panic!("the newest version has no files"),
    }
    assert!(matches!(resolve_artifact("abc", None, Vec::new()), Err(RepositoryError::NotFound)));
    assert_eq!(Registry::Modrinth.id(), "modrinth");
    assert_eq!(Registry::Hangar.display_name(), "Hangar");
}

#[test]
fn messages() {
    assert_eq!(message_text(Action::Finished, "Backup complete"), "      Finished Backup complete\n");
    assert_eq!(message_text(Action::Downloading, "x"), "   Downloading x\n");
    assert_eq!(message_text(Action::Tip, ""), "           Tip \n");
    assert_eq!(Action::Warning.color(), LabelColor::Yellow);
    assert_eq!(Action::Created.color(), LabelColor::Green);
    assert_eq!(Action::Removed.name(), "Removed");
    let notifier = Notifier::new(Vec::<u8>::new());
    assert!(notifier.writer.is_empty());
}

#[test]
fn exit_codes_of_errors() {
    assert_eq!(report(Some(std::io::ErrorKind::BrokenPipe)), ExitCode::Success);
    assert_eq!(report(Some(std::io::ErrorKind::NotFound)), ExitCode::Failure);
    assert!(is_broken_pipe(Some(std::io::ErrorKind::BrokenPipe)));
    assert!(!is_broken_pipe(None));
    let broken = std::io::Error::new(std::io::ErrorKind::BrokenPipe, "pipe");
    assert_eq!(report(Some(broken.kind())), ExitCode::Success);
    let other = std::io::Error::other("boom");
    assert_eq!(report(Some(other.kind())), ExitCode::Failure);
    assert_eq!(report(None), ExitCode::Failure);
    assert_eq!(ExitCode::Success.code(), 0);
    assert_eq!(ExitCode::Failure.code(), 1);
}
