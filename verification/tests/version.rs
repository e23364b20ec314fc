use releasor2000::config::{Build, Channels, Config, Project};
use releasor2000::effect::CommandOutput;
use releasor2000::error::ReleaseError;
use releasor2000::version::{
    detect_version, normalize_version, version_from_output, VersionStep,
};

fn config(version_command: Option<&str>) -> Config {
    Config {
        project: Project {
            name: "tool".to_string(),
            binary: None,
            repo: "owner/tool".to_string(),
            version_command: version_command.map(|s| s.to_string()),
        },
        build: Build {
            command: Some("make".to_string()),
            artifact: Some("out/tool".to_string()),
            pre_built_dir: None,
            targets: vec!["x86_64-apple-darwin".to_string()],
        },
        channels: Channels::default(),
    }
}

fn output(success: bool, stdout: &str) -> CommandOutput {
    CommandOutput { success, stdout: stdout.to_string(), stderr: "boom".to_string() }
}

#[test]
fn normalize_version_strips_one_leading_v() {
    assert_eq!(normalize_version("v1.2.3"), "1.2.3");
    assert_eq!(normalize_version("1.2.3"), "1.2.3");
    assert_eq!(normalize_version("vv1"), "v1");
    assert_eq!(normalize_version("v"), "");
    assert_eq!(normalize_version(""), "");
    assert_eq!(normalize_version("V1"), "V1");
}

#[test]
fn detect_version_takes_the_override_without_any_command() {
    match detect_version(&config(Some("ignored")), Some("v2.0.0")) {
        Ok(VersionStep::Resolved(v)) => assert_eq!(v, "2.0.0"),
        other => panic!("{other:?}"),
    }
}

#[test]
fn detect_version_runs_the_configured_command() {
    match detect_version(&config(Some("  ./version.sh  --short x ")), None) {
        Ok(VersionStep::Run(c)) => {
            assert_eq!(c.program, "./version.sh");
            assert_eq!(c.args, vec!["--short", "x"]);
            assert!(c.dir.is_none());
        }
        other => panic!("{other:?}"),
    }
}

#[test]
fn detect_version_asks_for_the_latest_tag_by_default() {
    match detect_version(&config(None), None) {
        Ok(VersionStep::Run(c)) => {
            assert_eq!(c.program, "git");
            assert_eq!(c.args, vec!["describe", "--tags", "--abbrev=0"]);
        }
        other => panic!("{other:?}"),
    }
}

#[test]
fn detect_version_refuses_an_empty_command() {
    match detect_version(&config(Some("   ")), None) {
        Err(ReleaseError::VersionUnresolved { detail }) => {
            assert_eq!(detail, "empty version_command")
        }
        other => panic!("{other:?}"),
    }
}

#[test]
fn version_from_output_trims_and_normalizes() {
    assert_eq!(version_from_output(&output(true, " v1.4.0\n")).unwrap(), "1.4.0");
    assert_eq!(version_from_output(&output(true, "0.3.0")).unwrap(), "0.3.0");
}

#[test]
fn version_from_output_is_unresolved_without_output() {
    for out in [output(false, "v1.0.0"), output(true, ""), output(true, " \n ")] {
        match version_from_output(&out) {
            Err(e @ ReleaseError::VersionUnresolved { .. }) => {
                let message = e.message();
                assert!(message.starts_with("[version] "), "{message}");
                assert!(message.contains("--version"), "{message}");
                assert!(message.contains("version_command"), "{message}");
            }
            other => panic!("{other:?}"),
        }
    }
}

#[test]
fn command_output_value_is_the_trimmed_output_of_a_success() {
    assert_eq!(output(true, "  abc \n").value(), Some("abc".to_string()));
    assert_eq!(output(true, "").value(), Some(String::new()));
    assert_eq!(output(false, "abc").value(), None);
}
