use releasor2000::config::{ChannelName, ConfigError};
use releasor2000::error::ReleaseError;

#[test]
fn every_message_names_its_stage_in_brackets() {
    let cases = [
        (
            ReleaseError::ConfigInvalid(ConfigError::EmptyTargets),
            "[config] build.targets must not be empty",
        ),
        (
            ReleaseError::ConfigInvalid(ConfigError::MutuallyExclusive),
            "[config] build.command and build.pre_built_dir are mutually exclusive",
        ),
        (
            ReleaseError::ConfigInvalid(ConfigError::MissingBuildSource),
            "[config] one of build.command or build.pre_built_dir is required",
        ),
        (
            ReleaseError::ConfigInvalid(ConfigError::MissingArtifact),
            "[config] build.artifact is required when build.command is set",
        ),
        (
            ReleaseError::VersionUnresolved { detail: "no tag".to_string() },
            "[version] no tag; use --version or set version_command in config",
        ),
        (ReleaseError::BuildFailed { detail: "tar failed: x".to_string() }, "[build] tar failed: x"),
        (ReleaseError::AllTargetsFailed, "[build] all build targets failed"),
        (ReleaseError::UserAborted, "[build] aborted by user"),
        (
            ReleaseError::UnknownChannel { name: "npm".to_string() },
            "[release] unknown channel: npm (known: github, homebrew, cargo, curl, nix)",
        ),
        (
            ReleaseError::ChannelNotEnabled { name: "nix".to_string() },
            "[release] channel nix is not enabled in config",
        ),
        (
            ReleaseError::UpstreamDependencyMissing {
                channel: ChannelName::Homebrew,
                version: "1.0.0".to_string(),
            },
            "[homebrew] GitHub release v1.0.0 not found; run the github channel first",
        ),
        (
            ReleaseError::UpstreamDependencyMissing {
                channel: ChannelName::Curl,
                version: "2".to_string(),
            },
            "[curl] GitHub release v2 not found; run the github channel first",
        ),
        (
            ReleaseError::PublishFailed {
                channel: ChannelName::Cargo,
                detail: "cargo failed: no".to_string(),
            },
            "[cargo] cargo failed: no",
        ),
        (ReleaseError::OutOfTurn, "[release] the event does not answer the pending effect"),
    ];
    for (error, message) in cases {
        assert_eq!(error.message(), message);
    }
}
