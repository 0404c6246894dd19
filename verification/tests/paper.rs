use celestia::commands::status::resolve_port;
use celestia::commands::update::{build_channels, is_downgrade, newest_build, updated_message, walk_begin, walk_step, ResolveError, WalkStep};
use celestia::commands::new::created_message;
use celestia::paper::build_number::Build;
use celestia::paper::client::{
    build_latest_url, build_url, builds_url, lookup_outcome, project_url, projects_url, success_outcome, version_url,
    versions_url, StatusOutcome,
};
use celestia::paper::{Channel, Project, Version};

fn v(s: &str) -> Version {
    s.parse().unwrap()
}

#[test]
fn api_addresses() {
    assert_eq!(projects_url(), "https://fill.papermc.io/v3/projects");
    assert_eq!(project_url(Project::Paper), "https://fill.papermc.io/v3/projects/paper");
    assert_eq!(versions_url(Project::Paper), "https://fill.papermc.io/v3/projects/paper/versions");
    assert_eq!(version_url(Project::Paper, &v("1.21.4")), "https://fill.papermc.io/v3/projects/paper/versions/1.21.4");
    assert_eq!(
        builds_url(Project::Paper, &v("1.21.4"), &[]),
        "https://fill.papermc.io/v3/projects/paper/versions/1.21.4/builds"
    );
    assert_eq!(
        builds_url(Project::Paper, &v("1.21.4"), &[Channel::Stable, Channel::Beta]),
        "https://fill.papermc.io/v3/projects/paper/versions/1.21.4/builds?channel=STABLE&channel=BETA"
    );
    assert_eq!(
        build_latest_url(Project::Paper, &v("26.2")),
        "https://fill.papermc.io/v3/projects/paper/versions/26.2/builds/latest"
    );
    assert_eq!(
        build_url(Project::Paper, &v("26.2"), Build(17)),
        "https://fill.papermc.io/v3/projects/paper/versions/26.2/builds/17"
    );
}

#[test]
fn answer_statuses() {
    assert_eq!(success_outcome(200), StatusOutcome::Body);
    assert_eq!(success_outcome(204), StatusOutcome::Body);
    assert_eq!(success_outcome(404), StatusOutcome::Unexpected);
    assert_eq!(lookup_outcome(200), StatusOutcome::Body);
    assert_eq!(lookup_outcome(404), StatusOutcome::NotFound);
    assert_eq!(lookup_outcome(500), StatusOutcome::Unexpected);
}

#[test]
fn update_choices() {
    assert!(build_channels(true).is_empty());
    assert_eq!(build_channels(false), vec![Channel::Stable]);
    assert!(is_downgrade(&v("1.21.4"), &v("26.2")));
    assert!(!is_downgrade(&v("26.2"), &v("26.2")));
    assert!(newest_build(v("26.2"), &Vec::new()).is_none());
    assert_eq!(updated_message(&v("1.21.4"), Build(232)), "Server updated to Minecraft version 1.21.4 (#232)");
    assert_eq!(created_message(&v("26.2"), Build(1)), "Server created for Minecraft version 26.2 (#1)");
    assert_eq!(ResolveError::NoBuilds(v("26.2")).message(), "no builds found for version 26.2");
    assert_eq!(ResolveError::Exhausted.message(), "exhausted all potential Minecraft versions");
    assert_eq!(ResolveError::InvalidVersion.message(), "invalid Minecraft version provided");
    assert_eq!(ResolveError::InvalidBuild.message(), "invalid build provided");
}

#[test]
fn version_walk() {
    assert!(matches!(walk_begin(0), WalkStep::Exhausted));
    assert!(matches!(walk_begin(3), WalkStep::Next));
    assert!(matches!(walk_step(v("26.2"), &Vec::new(), 2), WalkStep::Next));
    assert!(matches!(walk_step(v("26.2"), &Vec::new(), 0), WalkStep::Exhausted));
}

#[test]
fn ports() {
    assert_eq!(resolve_port(Some(1234), "").unwrap(), 1234);
    assert_eq!(resolve_port(None, "server-port=25570\n").unwrap(), 25570);
    assert_eq!(resolve_port(None, "motd=x\n").unwrap(), 25565);
    assert!(resolve_port(None, "server-port=x\n").is_err());
}
