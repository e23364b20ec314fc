//! The ways a release run fails.

use crate::config::{ChannelName, ConfigError};
use vstd::prelude::*;
use vstd::string::StringExecFns;

verus! {

/// Why a release run stopped. Failures of single targets are not errors: the
/// build pipeline collects them.
#[derive(Debug)]
pub enum ReleaseError {
    /// The configuration breaks one of its rules; nothing was done.
    ConfigInvalid(ConfigError),
    /// No version could be determined.
    VersionUnresolved { detail: String },
    /// The build stage could not go on; this is not the failure of one target.
    BuildFailed { detail: String },
    /// No target produced an archive, so there is nothing to publish.
    AllTargetsFailed,
    /// The operator declined to go on with a partial set of archives.
    UserAborted,
    /// A requested channel is not one of the known channels.
    UnknownChannel { name: String },
    /// A requested channel is known but not enabled by the configuration.
    ChannelNotEnabled { name: String },
    /// A channel needs the host release of this version, and there is none.
    UpstreamDependencyMissing { channel: ChannelName, version: String },
    /// A channel's publication failed; channels published before it stay
    /// published, channels after it do not run.
    PublishFailed { channel: ChannelName, detail: String },
    /// The event handed in does not answer the effect that was handed out.
    OutOfTurn,
}

/// A [`ReleaseError`] as plain values.
pub ghost enum ReleaseErrorView {
    ConfigInvalid(ConfigError),
    VersionUnresolved { detail: Seq<char> },
    BuildFailed { detail: Seq<char> },
    AllTargetsFailed,
    UserAborted,
    UnknownChannel { name: Seq<char> },
    ChannelNotEnabled { name: Seq<char> },
    UpstreamDependencyMissing { channel: ChannelName, version: Seq<char> },
    PublishFailed { channel: ChannelName, detail: Seq<char> },
    OutOfTurn,
}

impl View for ReleaseError {
    type V = ReleaseErrorView;

    open spec fn view(&self) -> ReleaseErrorView {
        match self {
            ReleaseError::ConfigInvalid(e) => ReleaseErrorView::ConfigInvalid(*e),
            ReleaseError::VersionUnresolved { detail } => ReleaseErrorView::VersionUnresolved {
                detail: detail@,
            },
            ReleaseError::BuildFailed { detail } => ReleaseErrorView::BuildFailed {
                detail: detail@,
            },
            ReleaseError::AllTargetsFailed => ReleaseErrorView::AllTargetsFailed,
            ReleaseError::UserAborted => ReleaseErrorView::UserAborted,
            ReleaseError::UnknownChannel { name } => ReleaseErrorView::UnknownChannel {
                name: name@,
            },
            ReleaseError::ChannelNotEnabled { name } => ReleaseErrorView::ChannelNotEnabled {
                name: name@,
            },
            ReleaseError::UpstreamDependencyMissing {
                channel,
                version,
            } => ReleaseErrorView::UpstreamDependencyMissing {
                channel: *channel,
                version: version@,
            },
            ReleaseError::PublishFailed { channel, detail } => ReleaseErrorView::PublishFailed {
                channel: *channel,
                detail: detail@,
            },
            ReleaseError::OutOfTurn => ReleaseErrorView::OutOfTurn,
        }
    }
}

impl ReleaseErrorView {
    /// The message shown to the user: the stage or channel in brackets, then
    /// what went wrong and, where something is missing, what to do about it.
    pub open spec fn text(self) -> Seq<char> {
        match self {
            ReleaseErrorView::ConfigInvalid(e) => "[config] "@ + e.text(),
            ReleaseErrorView::VersionUnresolved { detail } => "[version] "@ + detail
                + "; use --version or set version_command in config"@,
            ReleaseErrorView::BuildFailed { detail } => "[build] "@ + detail,
            ReleaseErrorView::AllTargetsFailed => "[build] all build targets failed"@,
            ReleaseErrorView::UserAborted => "[build] aborted by user"@,
            ReleaseErrorView::UnknownChannel { name } => "[release] unknown channel: "@ + name
                + " (known: github, homebrew, cargo, curl, nix)"@,
            ReleaseErrorView::ChannelNotEnabled { name } => "[release] channel "@ + name
                + " is not enabled in config"@,
            ReleaseErrorView::UpstreamDependencyMissing { channel, version } => "["@
                + channel.text() + "] GitHub release v"@ + version
                + " not found; run the github channel first"@,
            ReleaseErrorView::PublishFailed { channel, detail } => "["@ + channel.text() + "] "@
                + detail,
            ReleaseErrorView::OutOfTurn => "[release] the event does not answer the pending effect"@,
        }
    }
}

impl ReleaseError {
    /// The message shown to the user.
    pub fn message(&self) -> (r: String)
        ensures
            r@ == self@.text(),
    {
        match self {
            ReleaseError::ConfigInvalid(e) => {
                let mut s = "[config] ".to_owned();
                s.append(e.message().as_str());
                s
            },
            ReleaseError::VersionUnresolved { detail } => {
                let mut s = "[version] ".to_owned();
                s.append(detail.as_str());
                s.append("; use --version or set version_command in config");
                s
            },
            ReleaseError::BuildFailed { detail } => {
                let mut s = "[build] ".to_owned();
                s.append(detail.as_str());
                s
            },
            ReleaseError::AllTargetsFailed => "[build] all build targets failed".to_owned(),
            ReleaseError::UserAborted => "[build] aborted by user".to_owned(),
            ReleaseError::UnknownChannel { name } => {
                let mut s = "[release] unknown channel: ".to_owned();
                s.append(name.as_str());
                s.append(" (known: github, homebrew, cargo, curl, nix)");
                s
            },
            ReleaseError::ChannelNotEnabled { name } => {
                let mut s = "[release] channel ".to_owned();
                s.append(name.as_str());
                s.append(" is not enabled in config");
                s
            },
            ReleaseError::UpstreamDependencyMissing { channel, version } => {
                let mut s = "[".to_owned();
                s.append(channel.as_str());
                s.append("] GitHub release v");
                s.append(version.as_str());
                s.append(" not found; run the github channel first");
                s
            },
            ReleaseError::PublishFailed { channel, detail } => {
                let mut s = "[".to_owned();
                s.append(channel.as_str());
                s.append("] ");
                s.append(detail.as_str());
                s
            },
            ReleaseError::OutOfTurn => "[release] the event does not answer the pending effect".to_owned(),
        }
    }
}

} // verus!
