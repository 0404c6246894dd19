use std::path::PathBuf;

use celestia::commands::package_build::{executable_mode, installing_message, plugin_output, start_script};
use celestia::manifest::{Name, Plugin, Source};
use celestia::package::server::jar::server_info_from_output;
use celestia::package::server::{initial_files_outcome, GetServerInfoError, InitialFilesError, Jar};
use celestia::commands::new::new_precheck;
use celestia::package::Package;
use celestia::paper::build_number::Build;
use celestia::paper::{Release, Version};
use celestia::package::server::GetValueError;
use celestia::paper::InvalidVersionError;
use celestia::plugins::{Registry, RepositoryError};

#[test]
fn package_layout() {
    let package = Package::new(PathBuf::from("/srv/mc"));
    assert_eq!(package.path(), &PathBuf::from("/srv/mc"));
    assert_eq!(package.backups(), PathBuf::from("/srv/mc/backups"));
    assert_eq!(package.manifest(), PathBuf::from("/srv/mc/Celestia.toml"));
    let server = package.server();
    assert_eq!(server.path(), &PathBuf::from("/srv/mc/server"));
    assert_eq!(server.jar().path(), &PathBuf::from("/srv/mc/server/server.jar"));
    assert_eq!(server.properties().path(), &PathBuf::from("/srv/mc/server/server.properties"));
    assert_eq!(server.eula(), PathBuf::from("/srv/mc/server/eula.txt"));
    assert_eq!(server.plugins(), PathBuf::from("/srv/mc/server/plugins"));
    assert_eq!(server.logs(), PathBuf::from("/srv/mc/server/logs"));
    assert_eq!(server.latest_log(), PathBuf::from("/srv/mc/server/logs/latest.log"));
    assert_eq!(server.start_sh(), PathBuf::from("/srv/mc/server/start.sh"));
    // A base that already ends with a separator gets no second one.
    assert_eq!(Package::new(PathBuf::from("/srv/")).backups(), PathBuf::from("/srv/backups"));
}

#[test]
fn jar_arguments() {
    let jar = Jar::new(PathBuf::from("/srv/server.jar"));
    assert_eq!(jar.version_args().unwrap(), vec!["-jar", "/srv/server.jar", "--version"]);
    assert_eq!(jar.init_settings_args().unwrap(), vec!["-jar", "/srv/server.jar", "--initSettings"]);
}

#[test]
fn version_output() {
    let info = server_info_from_output(b"Loading...\n1.21.4-232-f8d5d7e (MC: 1.21.4)\n").unwrap();
    assert_eq!(info.version, Version { major: 1, minor: 21, patch: 4, release: None });
    assert_eq!(info.build, Build(232));

    let info = server_info_from_output(b"26.1.2-17-abc\r\n").unwrap();
    assert_eq!(info.version, Version { major: 26, minor: 1, patch: 2, release: None });
    assert_eq!(info.build, Build(17));

    // A carriage return is dropped only before a line feed.
    assert_eq!(server_info_from_output(b"1.21.4-7\r\n").unwrap().build, Build(7));
    assert!(matches!(server_info_from_output(b"1.21.4-7\r"), Err(GetServerInfoError::UnexpectedFormat)));

    // The output is split at every dash, so a release part leaves no build number.
    assert!(matches!(server_info_from_output(b"26.1.2-rc-1-17-abc"), Err(GetServerInfoError::UnexpectedFormat)));
    assert!(matches!(server_info_from_output(b"1.21.9-pre3-5"), Err(GetServerInfoError::UnexpectedFormat)));
    let _ = Release::PreRelease(3);
}

#[test]
fn version_output_errors() {
    assert!(matches!(server_info_from_output(b""), Err(GetServerInfoError::MissingResponse)));
    assert!(matches!(server_info_from_output(b"1.21.4\n"), Err(GetServerInfoError::MissingPart)));
    assert!(matches!(server_info_from_output(b"paper-1\n"), Err(GetServerInfoError::UnexpectedFormat)));
    assert!(matches!(server_info_from_output(b"1.21.4-x\n"), Err(GetServerInfoError::UnexpectedFormat)));
    assert!(matches!(server_info_from_output(b"1.21.4-1\n\xff\n"), Err(GetServerInfoError::LineReadFailed { .. })));
    assert!(matches!(server_info_from_output(b"1.21.4-1\n\n"), Err(GetServerInfoError::UnexpectedFormat)));
}

#[test]
fn initial_files_exit() {
    assert!(initial_files_outcome(Some(0)).is_ok());
    assert!(matches!(initial_files_outcome(Some(2)), Err(InitialFilesError::Status { code: 2 })));
    assert!(matches!(initial_files_outcome(None), Err(InitialFilesError::Terminated)));
}

#[test]
fn plugin_files() {
    let dir = PathBuf::from("/srv/server/plugins");
    let name = Name::new("Chunky".to_owned());
    let plugin = Plugin { source: Source::Url { url: "https://x/c.jar".to_owned() }, file: None };
    assert_eq!(plugin_output(&dir, &name, &plugin), PathBuf::from("/srv/server/plugins/Chunky.jar"));
    let plugin = Plugin {
        source: Source::Local { path: PathBuf::from("/tmp/c.jar") },
        file: Some(PathBuf::from("chunky-1.4.jar")),
    };
    assert_eq!(plugin_output(&dir, &name, &plugin), PathBuf::from("/srv/server/plugins/chunky-1.4.jar"));
    assert_eq!(installing_message(&name, &plugin.source), "Chunky from /tmp/c.jar");
    let url = Source::Url { url: "https://x".to_owned() };
    assert_eq!(installing_message(&name, &url), "Chunky from URL");
    let registry = Source::Registry { registry: Registry::Modrinth, id: "c".to_owned(), version: "1.4".to_owned() };
    assert_eq!(installing_message(&name, &registry), "Chunky (1.4)");
}

#[test]
fn start_script_and_mode() {
    assert_eq!(start_script("-Xmx4G"), "/usr/bin/env java\n\njava -Xmx4G -jar server.jar --nogui");
    assert_eq!(executable_mode(0o644), 0o744);
    assert_eq!(executable_mode(0o755), 0o755);
}

#[test]
fn error_messages() {
    assert_eq!(GetServerInfoError::MissingPart.message(), "missing part in JAR output from `version-build-hash`");
    assert_eq!(GetServerInfoError::NotExists.message(), "server JAR file does not exist");
    assert_eq!(InitialFilesError::Status { code: 3 }.message(), "process exited with non-zero exit code: 3");
    assert_eq!(InitialFilesError::Terminated.message(), "process terminated via signal");
    assert_eq!(GetValueError::Parse.message(), "failed to parse to target type");
    assert_eq!(RepositoryError::Custom("no files".to_owned()).message(), "no files");
    assert_eq!(RepositoryError::NotFound.message(), "resource not found");
    assert_eq!(InvalidVersionError.message(), "invalid format");
}

#[test]
fn window_names() {
    assert_eq!(Package::new(PathBuf::from("/srv/survival")).window_id().as_deref(), Some("survival"));
    assert_eq!(Package::new(PathBuf::from("/srv/survival/")).window_id().as_deref(), Some("survival"));
    assert_eq!(Package::new(PathBuf::from("/srv/..")).window_id(), None);
    assert_eq!(Package::new(PathBuf::from("/")).window_id(), None);
}

#[test]
fn absolute_plugin_file() {
    let dir = PathBuf::from("/srv/server/plugins");
    let name = Name::new("Chunky".to_owned());
    let plugin = Plugin { source: Source::Url { url: "https://x".to_owned() }, file: Some(PathBuf::from("/opt/c.jar")) };
    assert_eq!(plugin_output(&dir, &name, &plugin), PathBuf::from("/opt/c.jar"));
}

#[test]
fn existing_package() {
    assert!(new_precheck(false, &PathBuf::from("/srv/mc")).is_ok());
    assert_eq!(new_precheck(true, &PathBuf::from("/srv/mc")).unwrap_err(), "Package already exists at: /srv/mc");
}
