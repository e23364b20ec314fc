use releasor2000::config::{Build, Channels, Config, ConfigError, Project};
use releasor2000::effect::{CommandLine, CommandOutput, Effect, Event};
use releasor2000::error::ReleaseError;
use releasor2000::pipeline::{
    command_line, is_affirmative, BuildPipeline, Phase, TargetOutcome,
};

fn by_command(targets: &[&str]) -> Config {
    Config {
        project: Project {
            name: "tool".to_string(),
            binary: None,
            repo: "owner/tool".to_string(),
            version_command: None,
        },
        build: Build {
            command: Some("cargo build --release --target {target}".to_string()),
            artifact: Some("target/{target}/release/{binary}".to_string()),
            pre_built_dir: None,
            targets: targets.iter().map(|t| t.to_string()).collect(),
        },
        channels: Channels::default(),
    }
}

fn pre_built(targets: &[&str]) -> Config {
    let mut config = by_command(targets);
    config.build.command = None;
    config.build.artifact = None;
    config.build.pre_built_dir = Some("dist/{version}".to_string());
    config
}

fn ran(success: bool, stdout: &str, stderr: &str) -> Event {
    Event::Ran(CommandOutput {
        success,
        stdout: stdout.to_string(),
        stderr: stderr.to_string(),
    })
}

fn found(parent: &str, file_name: &str) -> Event {
    Event::Probed {
        exists: true,
        parent: Some(parent.to_string()),
        file_name: Some(file_name.to_string()),
    }
}

fn missing() -> Event {
    Event::Probed { exists: false, parent: None, file_name: None }
}

fn run_of(effect: Effect) -> CommandLine {
    match effect {
        Effect::Run(c) => c,
        other => panic!("expected a process, got {other:?}"),
    }
}

fn probe_of(effect: Effect) -> String {
    match effect {
        Effect::Probe { path } => path,
        other => panic!("expected a probe, got {other:?}"),
    }
}

/// Drives a fresh pipeline up to the first effect of the first target.
fn prepared<'a>(config: &'a Config, host: &str, wrapper: bool) -> (BuildPipeline<'a>, Effect) {
    let mut p = BuildPipeline::new(config, "2.0.0").unwrap();
    assert_eq!(p.phase(), Phase::Idle);
    match p.step(&Event::Start).unwrap() {
        Effect::MakeDir { path } => assert_eq!(path, "target/release-staging"),
        other => panic!("{other:?}"),
    }
    let c = run_of(p.step(&Event::Staged { canonical: Some("/work/staging".to_string()) }).unwrap());
    assert_eq!((c.program.as_str(), c.args.clone()), ("rustc", vec!["-vV".to_string()]));
    let report = format!("rustc 1.80.0\nbinary: rustc\nhost: {host}\nrelease: 1.80.0\n");
    let c = run_of(p.step(&ran(true, &report, "")).unwrap());
    assert_eq!(c.program, "cargo-zigbuild");
    assert_eq!(c.args, vec!["--version"]);
    let first = p.step(&ran(wrapper, "", "")).unwrap();
    (p, first)
}

#[test]
fn new_refuses_a_configuration_that_breaks_its_rules() {
    let config = by_command(&[]);
    match BuildPipeline::new(&config, "1.0.0") {
        Err(ReleaseError::ConfigInvalid(ConfigError::EmptyTargets)) => {}
        Err(other) => panic!("{other:?}"),
        Ok(_) => panic!("accepted"),
    }
}

#[test]
fn two_targets_give_two_archives_named_by_the_convention() {
    let config = by_command(&["x86_64-apple-darwin", "aarch64-apple-darwin"]);
    let (mut p, first) = prepared(&config, "aarch64-apple-darwin", false);

    let build = run_of(first);
    assert_eq!(build.program, "cargo");
    assert_eq!(build.args, vec!["build", "--release", "--target", "x86_64-apple-darwin"]);
    assert!(build.dir.is_none());
    assert_eq!(p.phase(), Phase::Building);

    let path = probe_of(p.step(&ran(true, "", "")).unwrap());
    assert_eq!(path, "target/x86_64-apple-darwin/release/tool");

    let tar = run_of(p.step(&found("target/x86_64-apple-darwin/release", "tool")).unwrap());
    assert_eq!(tar.program, "tar");
    assert_eq!(
        tar.args,
        vec!["czf", "/work/staging/tool-2.0.0-x86_64-apple-darwin.tar.gz", "tool"]
    );
    assert_eq!(tar.dir.as_deref(), Some("target/x86_64-apple-darwin/release"));

    let build = run_of(p.step(&ran(true, "", "")).unwrap());
    assert_eq!(build.args, vec!["build", "--release", "--target", "aarch64-apple-darwin"]);
    let path = probe_of(p.step(&ran(true, "", "")).unwrap());
    assert_eq!(path, "target/aarch64-apple-darwin/release/tool");
    let tar = run_of(p.step(&found("", "tool")).unwrap());
    assert_eq!(tar.dir.as_deref(), Some("."));
    assert_eq!(
        tar.args,
        vec!["czf", "/work/staging/tool-2.0.0-aarch64-apple-darwin.tar.gz", "tool"]
    );

    // No failure: no question is asked.
    assert!(matches!(p.step(&ran(true, "", "")), Ok(Effect::Done)));
    assert_eq!(p.phase(), Phase::Complete);
    assert_eq!(p.outcomes(), &vec![TargetOutcome::Archived, TargetOutcome::Archived]);

    let archives = p.archives();
    assert_eq!(archives.len(), 2);
    assert_eq!(archives[0].target, "x86_64-apple-darwin");
    assert_eq!(archives[0].path, "target/release-staging/tool-2.0.0-x86_64-apple-darwin.tar.gz");
    assert_eq!(archives[1].target, "aarch64-apple-darwin");
    assert_eq!(archives[1].path, "target/release-staging/tool-2.0.0-aarch64-apple-darwin.tar.gz");
    assert!(p.failed_targets().is_empty());
    assert_eq!(p.succeeded_targets(), vec!["x86_64-apple-darwin", "aarch64-apple-darwin"]);
}

#[test]
fn a_cross_build_uses_the_wrapper_where_it_is_at_hand() {
    let config = by_command(&["x86_64-unknown-linux-gnu"]);
    let (_, first) = prepared(&config, "aarch64-apple-darwin", true);
    let build = run_of(first);
    assert_eq!(build.program, "cargo");
    assert_eq!(build.args, vec!["zigbuild", "--release", "--target", "x86_64-unknown-linux-gnu"]);
}

#[test]
fn one_missing_artifact_of_two_is_reported_and_declining_aborts() {
    let config = by_command(&["x86_64-apple-darwin", "aarch64-apple-darwin"]);
    let (mut p, _) = prepared(&config, "x86_64-apple-darwin", false);
    probe_of(p.step(&ran(true, "", "")).unwrap());
    run_of(p.step(&found("target/x86_64-apple-darwin/release", "tool")).unwrap());
    run_of(p.step(&ran(true, "", "")).unwrap());
    probe_of(p.step(&ran(true, "", "")).unwrap());

    // The second artifact is not there: the installed targets are listed.
    let listing = run_of(p.step(&missing()).unwrap());
    assert_eq!(listing.program, "rustup");
    assert_eq!(listing.args, vec!["target", "list", "--installed"]);
    assert_eq!(p.phase(), Phase::Listing);

    match p.step(&ran(true, "x86_64-apple-darwin\naarch64-apple-darwin\n", "")).unwrap() {
        Effect::Ask { report, prompt } => {
            assert_eq!(prompt, "Continue with successful targets? [y/N] ");
            assert_eq!(
                report,
                "\n1/2 targets failed:\n  - aarch64-apple-darwin\n\
                 \nInstalled but failed to build (missing cross-compilation linker):\n  - aarch64-apple-darwin\n  \
                 Tip: install `cross` (uses Docker) or `cargo-zigbuild` (uses zig) for cross-compilation\n\
                 \nSucceeded: x86_64-apple-darwin\n"
            );
        }
        other => panic!("{other:?}"),
    }
    assert_eq!(p.phase(), Phase::Confirming);
    assert_eq!(p.failed_targets(), vec!["aarch64-apple-darwin"]);

    match p.step(&Event::Answered { answer: "yes\n".to_string() }) {
        Err(e @ ReleaseError::UserAborted) => assert_eq!(e.message(), "[build] aborted by user"),
        other => panic!("{other:?}"),
    }
    assert_eq!(p.phase(), Phase::Failed);
    // Nothing follows an error.
    assert!(matches!(p.step(&Event::Start), Err(ReleaseError::OutOfTurn)));
}

#[test]
fn agreeing_goes_on_with_the_archives_that_were_built() {
    let config = by_command(&["a-b-c", "d-e-f", "g-h-i"]);
    let (mut p, _) = prepared(&config, "a-b-c", false);
    // a-b-c: the build fails.
    run_of(p.step(&ran(false, "", "error")).unwrap());
    // d-e-f: built and archived.
    probe_of(p.step(&ran(true, "", "")).unwrap());
    run_of(p.step(&found("target/d-e-f/release", "tool")).unwrap());
    run_of(p.step(&ran(true, "", "")).unwrap());
    // g-h-i: built, but no artifact.
    probe_of(p.step(&ran(true, "", "")).unwrap());
    run_of(p.step(&missing()).unwrap());
    match p.step(&ran(true, "a-b-c\n", "")).unwrap() {
        Effect::Ask { report, .. } => assert_eq!(
            report,
            "\n2/3 targets failed:\n  - a-b-c\n  - g-h-i\n\
             \nMissing targets (install with rustup):\n  rustup target add g-h-i\n\
             \nInstalled but failed to build (missing cross-compilation linker):\n  - a-b-c\n  \
             Tip: install `cross` (uses Docker) or `cargo-zigbuild` (uses zig) for cross-compilation\n\
             \nSucceeded: d-e-f\n"
        ),
        other => panic!("{other:?}"),
    }
    assert!(matches!(p.step(&Event::Answered { answer: " Y ".to_string() }), Ok(Effect::Done)));
    assert_eq!(p.phase(), Phase::Complete);
    assert_eq!(
        p.outcomes(),
        &vec![TargetOutcome::BuildFailed, TargetOutcome::Archived, TargetOutcome::ArtifactMissing]
    );
    let archives = p.archives();
    assert_eq!(archives.len(), 1);
    assert_eq!(archives[0].target, "d-e-f");
    assert_eq!(archives[0].path, "target/release-staging/tool-2.0.0-d-e-f.tar.gz");
}

#[test]
fn all_targets_failing_is_an_error_without_any_question() {
    let config = by_command(&["a-b-c", "d-e-f"]);
    let (mut p, _) = prepared(&config, "a-b-c", false);
    run_of(p.step(&ran(false, "", "no")).unwrap());
    match p.step(&ran(false, "", "no")) {
        Err(e @ ReleaseError::AllTargetsFailed) => {
            assert_eq!(e.message(), "[build] all build targets failed")
        }
        other => panic!("{other:?}"),
    }
    assert_eq!(p.phase(), Phase::Failed);
    assert!(p.archives().is_empty());
}

#[test]
fn pre_built_artifacts_are_looked_for_under_the_directory() {
    let config = pre_built(&["a-b-c", "d-e-f"]);
    let (mut p, first) = prepared(&config, "a-b-c", true);
    assert_eq!(probe_of(first), "dist/2.0.0/tool-a-b-c");
    run_of(p.step(&found("dist/2.0.0", "tool-a-b-c")).unwrap());
    assert_eq!(probe_of(p.step(&ran(true, "", "")).unwrap()), "dist/2.0.0/tool-d-e-f");
    // No toolchain is involved: the question comes at once, with the paths.
    match p.step(&missing()).unwrap() {
        Effect::Ask { report, .. } => assert_eq!(
            report,
            "\n1/2 targets failed:\n  - d-e-f\n\
             \nExpected pre-built artifacts in dist/{version}:\n  dist/2.0.0/tool-d-e-f\n\
             \nSucceeded: a-b-c\n"
        ),
        other => panic!("{other:?}"),
    }
}

#[test]
fn fatal_failures_of_the_build_stage() {
    // The staging directory cannot be made.
    let config = by_command(&["a-b-c"]);
    let mut p = BuildPipeline::new(&config, "1").unwrap();
    p.step(&Event::Start).unwrap();
    match p.step(&Event::Staged { canonical: None }) {
        Err(e @ ReleaseError::BuildFailed { .. }) => {
            assert_eq!(e.message(), "[build] cannot create the staging directory")
        }
        other => panic!("{other:?}"),
    }

    // The build command has no word.
    let mut config = by_command(&["a-b-c"]);
    config.build.command = Some("  ".to_string());
    let mut p = BuildPipeline::new(&config, "1").unwrap();
    p.step(&Event::Start).unwrap();
    p.step(&Event::Staged { canonical: Some("/s".to_string()) }).unwrap();
    p.step(&ran(false, "", "")).unwrap();
    match p.step(&ran(false, "", "")) {
        Err(ReleaseError::BuildFailed { detail }) => assert_eq!(detail, "empty build command"),
        other => panic!("{other:?}"),
    }

    // The artifact's path names no file.
    let config = by_command(&["a-b-c"]);
    let (mut p, _) = prepared(&config, "a-b-c", false);
    p.step(&ran(true, "", "")).unwrap();
    match p.step(&Event::Probed { exists: true, parent: None, file_name: None }) {
        Err(ReleaseError::BuildFailed { detail }) => assert_eq!(detail, "artifact has no filename"),
        other => panic!("{other:?}"),
    }

    // The archiver fails.
    let config = by_command(&["a-b-c"]);
    let (mut p, _) = prepared(&config, "a-b-c", false);
    p.step(&ran(true, "", "")).unwrap();
    p.step(&found("d", "f")).unwrap();
    match p.step(&ran(false, "", "disk full")) {
        Err(ReleaseError::BuildFailed { detail }) => assert_eq!(detail, "tar failed: disk full"),
        other => panic!("{other:?}"),
    }
}

#[test]
fn an_event_that_answers_nothing_changes_nothing() {
    let config = by_command(&["a-b-c"]);
    let mut p = BuildPipeline::new(&config, "1").unwrap();
    assert!(matches!(p.step(&ran(true, "", "")), Err(ReleaseError::OutOfTurn)));
    assert_eq!(p.phase(), Phase::Idle);
    p.step(&Event::Start).unwrap();
    assert!(matches!(p.step(&Event::Start), Err(ReleaseError::OutOfTurn)));
    assert_eq!(p.phase(), Phase::Staging);
}

#[test]
fn an_unknown_host_presumes_no_cross_linker() {
    let config = by_command(&["x86_64-unknown-linux-gnu"]);
    let mut p = BuildPipeline::new(&config, "1").unwrap();
    p.step(&Event::Start).unwrap();
    p.step(&Event::Staged { canonical: Some("/s".to_string()) }).unwrap();
    // The toolchain does not answer.
    p.step(&ran(false, "host: aarch64-apple-darwin\n", "")).unwrap();
    let build = run_of(p.step(&ran(true, "", "")).unwrap());
    assert_eq!(build.args[0], "build");
}

#[test]
fn is_affirmative_takes_y_only() {
    for yes in ["y", "Y", " y\n", "\tY\r\n"] {
        assert!(is_affirmative(yes), "{yes:?}");
    }
    for no in ["", "n", "N", "yes", "yy", "y y", "\n", "ja"] {
        assert!(!is_affirmative(no), "{no:?}");
    }
}

#[test]
fn command_line_copies_its_arguments() {
    let c = command_line("tar", &["czf", "a b", ""]);
    assert_eq!(c.program, "tar");
    assert_eq!(c.args, vec!["czf", "a b", ""]);
    assert!(c.dir.is_none());
}

#[test]
fn a_build_by_another_tool_is_not_sorted_by_installed_targets() {
    let mut config = by_command(&["a-b-c", "d-e-f"]);
    config.build.command = Some("make TARGET={target} VERSION={version}".to_string());
    config.build.artifact = Some("out/{binary}-{target}".to_string());
    let (mut p, first) = prepared(&config, "a-b-c", true);
    let build = run_of(first);
    assert_eq!(build.program, "make");
    assert_eq!(build.args, vec!["TARGET=a-b-c", "VERSION=2.0.0"]);
    assert_eq!(probe_of(p.step(&ran(true, "", "")).unwrap()), "out/tool-a-b-c");
    run_of(p.step(&found("out", "tool-a-b-c")).unwrap());
    run_of(p.step(&ran(true, "", "")).unwrap());
    // The second build fails: the question follows at once.
    match p.step(&ran(false, "", "make: *** Error 2")).unwrap() {
        Effect::Ask { report, .. } => {
            assert_eq!(report, "\n1/2 targets failed:\n  - d-e-f\n\nSucceeded: a-b-c\n")
        }
        other => panic!("{other:?}"),
    }
}

#[test]
fn a_listing_that_fails_counts_every_failed_target_as_missing() {
    let config = by_command(&["a-b-c", "d-e-f"]);
    let (mut p, _) = prepared(&config, "a-b-c", false);
    probe_of(p.step(&ran(true, "", "")).unwrap());
    run_of(p.step(&found("t", "tool")).unwrap());
    run_of(p.step(&ran(true, "", "")).unwrap());
    run_of(p.step(&ran(false, "", "")).unwrap());
    match p.step(&ran(false, "d-e-f\n", "rustup: not found")).unwrap() {
        Effect::Ask { report, .. } => assert_eq!(
            report,
            "\n1/2 targets failed:\n  - d-e-f\n\
             \nMissing targets (install with rustup):\n  rustup target add d-e-f\n\
             \nSucceeded: a-b-c\n"
        ),
        other => panic!("{other:?}"),
    }
}
