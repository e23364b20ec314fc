//! The release run: the channels are settled, the version is resolved, the
//! build pipeline runs once, and the selected channels publish one after the
//! other, the host channel first.
//!
//! Like the pipeline, the run is a state machine: [`Release::step`] takes the
//! event that answers the last effect and gives the next effect. What it
//! decides is [`ReleaseView::advance`].

use crate::channels::{order_channels, run_order, select_channels, selection, requested_view};
use crate::config::{ChannelName, Config};
use crate::effect::{
    opt_view, ApiRequest, ApiRequestView, CommandLineView, CommandOutput, CommandOutputView,
    Effect, EffectView, Event, EventView, UploadRequest, UploadRequestView,
};
use crate::encoding::{base64_text, encodable};
use crate::error::{ReleaseError, ReleaseErrorView};
use crate::json::rendering;
use crate::paths::{archive_name, archive_name_of};
use crate::pipeline::{
    artifact_views, command_line, result_view, BuildArtifact, BuildArtifactView, BuildPipeline,
    lemma_advance_keeps_release, lemma_advance_keeps_wf, lemma_first_step, lemma_out_of_turn,
    Phase, PipelineView,
};
use crate::publish::{
    checksum_of, first_word, formula_address, formula_body, formula_members, formula_text,
    formula_url, generate_formula, generate_install_script, install_script_text, is_mac_arm,
    is_mac_intel, issue_body, issue_members, issues_address, issues_url, mac_arm, mac_intel,
    release_body, release_by_tag_address, release_by_tag_url, release_members, releases_address,
    releases_url, reply_member, reply_members, source_address, source_url, upload_base,
    upload_target, Reply, SCRIPT_PATH,
};
use crate::text::trim;
use crate::version::{
    detect_version, version_from_output, version_of_output, version_plan, VersionStep,
    VersionStepView,
};
use vstd::prelude::*;
use vstd::string::StringExecFns;
use vstd::utf8::encode_utf8;

verus! {

/// What a publisher waits for.
#[derive(Clone, Copy, Debug, PartialEq, Eq, Structural)]
pub enum Step {
    /// Host channel: the release is being created.
    Creating,
    /// Host channel: the archive at `next` is being sent.
    Uploading { next: usize },
    /// Formula channel: the host release is being looked up.
    Checking,
    /// Formula channel: the archive at `index` is being checksummed.
    Hashing { index: usize },
    /// Formula channel: the formula file in the tap is being looked up.
    Fetching,
    /// Formula channel: the formula file is being written.
    Writing,
    /// Registry channel: the publish command is running.
    Publishing,
    /// Installer channel: the script is being written to the staging
    /// directory.
    Scripting,
    /// Installer channel: the host release is being looked up.
    Locating,
    /// Installer channel: the script is being sent.
    Sending,
    /// Flake channel: the source archive's hash is being computed.
    Prefetching,
    /// Flake channel: the update request is being filed.
    Filing,
}

/// Where a release run stands.
#[derive(Clone, Copy, Debug, PartialEq, Eq, Structural)]
pub enum Stage {
    /// The command that prints the version is running.
    Version,
    /// The build pipeline is at work.
    Build,
    /// The channel at `index` of the run order is publishing.
    Publish { index: usize, step: Step },
    /// The run has ended well.
    Done,
    /// The run has ended with an error.
    Failed,
}

/// What precedes the complaint of a transfer that failed.
pub const MSG_API_FAILED: &'static str = "API request failed: ";

/// Why a publisher fails where an answer is not JSON.
pub const MSG_API_UNREADABLE: &'static str = "failed to parse API response";

/// Why the host channel fails where the new release names no upload address.
pub const MSG_NO_UPLOAD_URL: &'static str = "missing upload_url in response";

/// What precedes the name of a file that could not be sent.
pub const MSG_UPLOAD_OF: &'static str = "upload of ";

/// What stands between the name of what failed and the complaint.
pub const MSG_FAILED: &'static str = " failed: ";

/// What precedes the complaint of the checksum tool.
pub const MSG_SHASUM_FAILED: &'static str = "shasum failed: ";

/// Why the formula channel fails where the checksum tool prints no word.
pub const MSG_SHASUM_OUTPUT: &'static str = "unexpected shasum output";

/// Why the formula channel fails where the formula cannot be put in base64.
pub const MSG_FORMULA_TOO_LONG: &'static str = "the formula is too long to encode";

/// What precedes the complaint of the registry's publish command.
pub const MSG_CARGO_FAILED: &'static str = "cargo failed: ";

/// Why the installer channel fails where the script cannot be written.
pub const MSG_SCRIPT_NOT_WRITTEN: &'static str = "cannot write install.sh";

/// What precedes the complaint of the prefetch tool.
pub const MSG_PREFETCH_FAILED: &'static str = "nix-prefetch-url failed: ";

/// The name under which the installer script is attached to the release.
pub const SCRIPT_NAME: &'static str = "install.sh";

/// The content type of an archive.
pub const ARCHIVE_TYPE: &'static str = "application/gzip";

/// The content type of the installer script.
pub const SCRIPT_TYPE: &'static str = "text/plain";

/// What is wrong with an answer of the host's API, if anything: the
/// transfer failed, or the answer is not JSON.
pub open spec fn api_failure(out: CommandOutputView) -> Option<Seq<char>> {
    if !out.success {
        Some(MSG_API_FAILED@ + out.stderr)
    } else if reply_members(out.stdout) is None {
        Some(MSG_API_UNREADABLE@)
    } else {
        None
    }
}

/// The string under `key` in an answer of the host's API, if there is one.
pub open spec fn reply_text(stdout: Seq<char>, key: Seq<char>) -> Option<Seq<char>> {
    match reply_members(stdout) {
        Some(m) => if m.contains_key(key) {
            Some(m[key])
        } else {
            None
        },
        None => None,
    }
}

/// Index of the first archive from `from` on that is built for macOS, or
/// the number of archives where there is none.
pub open spec fn next_mac(archives: Seq<BuildArtifactView>, from: int) -> int
    decreases archives.len() - from,
{
    if from < 0 || from >= archives.len() {
        archives.len() as int
    } else if is_mac_arm(archives[from].target) || is_mac_intel(archives[from].target) {
        from
    } else {
        next_mac(archives, from + 1)
    }
}

/// The process that publishes to the registry.
pub open spec fn registry_publish() -> CommandLineView {
    CommandLineView { dir: None, program: "cargo"@, args: seq!["publish"@] }
}

/// The process that checksums a file.
pub open spec fn checksum_command(path: Seq<char>) -> CommandLineView {
    CommandLineView { dir: None, program: "shasum"@, args: seq!["-a"@, "256"@, path] }
}

/// The process that computes the hash of an unpacked source archive.
pub open spec fn prefetch_command(url: Seq<char>) -> CommandLineView {
    CommandLineView { dir: None, program: "nix-prefetch-url"@, args: seq!["--unpack"@, url] }
}

/// Whether the configuration enables every channel of `selected`.
pub open spec fn all_enabled(config: Config, selected: Seq<ChannelName>) -> bool {
    forall|i: int| 0 <= i < selected.len() ==> config.channels.has(#[trigger] selected[i])
}

/// The state of a release run, as plain values.
pub ghost struct ReleaseView {
    pub config: Config,
    pub selected: Seq<ChannelName>,
    pub version: Seq<char>,
    pub stage: Stage,
    pub pipeline: Option<PipelineView>,
    pub archives: Seq<BuildArtifactView>,
    pub upload_url: Seq<char>,
    pub arm_sha: Seq<char>,
    pub intel_sha: Seq<char>,
}

/// A state and what it hands out.
pub type Turn = (ReleaseView, Result<EffectView, ReleaseErrorView>);

impl ReleaseView {
    /// Whether a step belongs to a channel's publisher.
    pub open spec fn step_of(channel: ChannelName, step: Step) -> bool {
        match channel {
            ChannelName::GitHub => step is Creating || step is Uploading,
            ChannelName::Homebrew => step is Checking || step is Hashing || step is Fetching
                || step is Writing,
            ChannelName::Cargo => step is Publishing,
            ChannelName::Curl => step is Scripting || step is Locating || step is Sending,
            ChannelName::Nix => step is Prefetching || step is Filing,
        }
    }

    /// What holds of every state a run can reach.
    pub open spec fn wf(self) -> bool {
        &&& self.config.valid()
        &&& all_enabled(self.config, self.selected)
        &&& match self.stage {
            Stage::Build => self.pipeline matches Some(p) && p.config == self.config && p.version
                == self.version && p.wf(),
            Stage::Publish { index, step } => {
                &&& index < self.selected.len()
                &&& Self::step_of(self.selected[index as int], step)
                &&& step matches Step::Uploading { next } ==> next < self.archives.len()
                &&& step matches Step::Hashing { index: k } ==> k < self.archives.len()
            },
            _ => true,
        }
    }

    /// The same state at another stage.
    pub open spec fn at(self, stage: Stage) -> ReleaseView {
        ReleaseView { stage, ..self }
    }

    /// The same state while the channel at `index` waits in `step`.
    pub open spec fn waiting(self, index: usize, step: Step) -> ReleaseView {
        self.at(Stage::Publish { index, step })
    }

    /// The run ends with an error.
    pub open spec fn fail(self, e: ReleaseErrorView) -> Turn {
        (self.at(Stage::Failed), Err(e))
    }

    /// The event answers nothing: the state stays.
    pub open spec fn out_of_turn(self) -> Turn {
        (self, Err(ReleaseErrorView::OutOfTurn))
    }

    /// The project's repository on the source host.
    pub open spec fn repo(self) -> Seq<char> {
        self.config.project.repo@
    }

    /// The binary's name.
    pub open spec fn binary(self) -> Seq<char> {
        self.config.project.binary_name()
    }

    /// The name of the formula: the configured one, else the project's name.
    pub open spec fn formula_name(self) -> Seq<char> {
        match self.config.channels.homebrew->0.formula_name {
            Some(n) => n@,
            None => self.config.project.name@,
        }
    }

    /// The tap that holds the formula.
    pub open spec fn tap(self) -> Seq<char> {
        self.config.channels.homebrew->0.tap@
    }

    /// The repository that takes update requests: the configured one, else
    /// the project's own.
    pub open spec fn flake_repo(self) -> Seq<char> {
        match self.config.channels.nix->0.flake_repo {
            Some(r) => r@,
            None => self.repo(),
        }
    }

    /// The name under which the archive at `k` is attached to the release.
    pub open spec fn asset_name(self, k: int) -> Seq<char> {
        archive_name_of(self.binary(), self.version, self.archives[k].target)
    }

    /// The first effect of the build pipeline.
    pub open spec fn begin_build(self) -> Turn {
        let fresh = PipelineView {
            config: self.config,
            version: self.version,
            phase: Phase::Idle,
            host: None,
            cross_builder: false,
            staging: Seq::empty(),
            outcomes: Seq::empty(),
        };
        let (p, r) = fresh.advance(EventView::Start);
        (ReleaseView { stage: Stage::Build, pipeline: Some(p), ..self }, r)
    }

    /// The first effect of the channel at `index` of the run order, or the
    /// end of the run where no channel is left.
    pub open spec fn begin_channel(self, index: int) -> Turn {
        if index < 0 || index >= self.selected.len() || index > usize::MAX {
            (self.at(Stage::Done), Ok(EffectView::Done))
        } else {
            let i = index as usize;
            match self.selected[index] {
                ChannelName::GitHub => (
                    self.waiting(i, Step::Creating),
                    Ok(
                        EffectView::Api(
                            ApiRequestView {
                                method: "POST"@,
                                url: releases_url(self.repo()),
                                body: Some(rendering(release_members(self.version))),
                            },
                        ),
                    ),
                ),
                ChannelName::Homebrew => (
                    ReleaseView {
                        arm_sha: Seq::empty(),
                        intel_sha: Seq::empty(),
                        ..self
                    }.waiting(i, Step::Checking),
                    Ok(
                        EffectView::Api(
                            ApiRequestView {
                                method: "GET"@,
                                url: release_by_tag_url(self.repo(), self.version),
                                body: None,
                            },
                        ),
                    ),
                ),
                ChannelName::Cargo => (
                    self.waiting(i, Step::Publishing),
                    Ok(EffectView::Run(registry_publish())),
                ),
                ChannelName::Curl => (
                    self.waiting(i, Step::Scripting),
                    Ok(
                        EffectView::Write {
                            path: SCRIPT_PATH@,
                            content: install_script_text(
                                self.binary(),
                                self.repo(),
                                self.version,
                            ),
                        },
                    ),
                ),
                ChannelName::Nix => (
                    self.waiting(i, Step::Prefetching),
                    Ok(
                        EffectView::Run(
                            prefetch_command(source_url(self.repo(), self.version)),
                        ),
                    ),
                ),
            }
        }
    }

    /// The host channel sends the archive at `k`, or is done where no
    /// archive is left.
    pub open spec fn upload_next(self, index: usize, k: int) -> Turn {
        if 0 <= k < self.archives.len() && k <= usize::MAX {
            (
                self.waiting(index, Step::Uploading { next: k as usize }),
                Ok(
                    EffectView::Upload(
                        UploadRequestView {
                            upload_url: self.upload_url,
                            file: self.archives[k].path,
                            name: self.asset_name(k),
                            content_type: ARCHIVE_TYPE@,
                        },
                    ),
                ),
            )
        } else {
            self.begin_channel(index + 1)
        }
    }

    /// The host channel: the release is created, then each archive is sent
    /// under its file name.
    pub open spec fn github_step(self, index: usize, step: Step, event: EventView) -> Turn {
        match (step, event) {
            (Step::Creating, EventView::Ran(out)) => match api_failure(out) {
                Some(detail) => self.fail(
                    ReleaseErrorView::PublishFailed { channel: ChannelName::GitHub, detail },
                ),
                None => match reply_text(out.stdout, "upload_url"@) {
                    Some(u) => ReleaseView { upload_url: upload_base(u), ..self }.upload_next(
                        index,
                        0,
                    ),
                    None => self.fail(
                        ReleaseErrorView::PublishFailed {
                            channel: ChannelName::GitHub,
                            detail: MSG_NO_UPLOAD_URL@,
                        },
                    ),
                },
            },
            (Step::Uploading { next }, EventView::Ran(out)) => if out.success {
                self.upload_next(index, next + 1)
            } else {
                self.fail(
                    ReleaseErrorView::PublishFailed {
                        channel: ChannelName::GitHub,
                        detail: MSG_UPLOAD_OF@ + self.asset_name(next as int) + MSG_FAILED@
                            + out.stderr,
                    },
                )
            },
            _ => self.out_of_turn(),
        }
    }

    /// The formula channel checksums the next archive for macOS from `from`
    /// on, or looks up the formula file where none is left.
    pub open spec fn hash_next(self, index: usize, from: int) -> Turn {
        let k = next_mac(self.archives, from);
        if 0 <= k < self.archives.len() && k <= usize::MAX {
            (
                self.waiting(index, Step::Hashing { index: k as usize }),
                Ok(EffectView::Run(checksum_command(self.archives[k].path))),
            )
        } else {
            (
                self.waiting(index, Step::Fetching),
                Ok(
                    EffectView::Api(
                        ApiRequestView {
                            method: "GET"@,
                            url: formula_url(self.tap(), self.formula_name()),
                            body: None,
                        },
                    ),
                ),
            )
        }
    }

    /// The formula document of this run.
    pub open spec fn formula(self) -> Seq<char> {
        formula_text(
            self.formula_name(),
            self.binary(),
            self.repo(),
            self.version,
            self.arm_sha,
            self.intel_sha,
        )
    }

    /// The formula channel: the host release must exist; the archives for
    /// macOS are checksummed, a later one of a kind replacing an earlier;
    /// the formula is written over the file in the tap, with the file's
    /// revision marker where the file exists.
    pub open spec fn homebrew_step(self, index: usize, step: Step, event: EventView) -> Turn {
        match (step, event) {
            (Step::Checking, EventView::Ran(out)) => if api_failure(out) is Some {
                self.fail(
                    ReleaseErrorView::UpstreamDependencyMissing {
                        channel: ChannelName::Homebrew,
                        version: self.version,
                    },
                )
            } else {
                self.hash_next(index, 0)
            },
            (Step::Hashing { index: k }, EventView::Ran(out)) => if !out.success {
                self.fail(
                    ReleaseErrorView::PublishFailed {
                        channel: ChannelName::Homebrew,
                        detail: MSG_SHASUM_FAILED@ + out.stderr,
                    },
                )
            } else {
                match first_word(out.stdout) {
                    Some(sha) => (if is_mac_arm(self.archives[k as int].target) {
                        ReleaseView { arm_sha: sha, ..self }
                    } else {
                        ReleaseView { intel_sha: sha, ..self }
                    }).hash_next(index, k + 1),
                    None => self.fail(
                        ReleaseErrorView::PublishFailed {
                            channel: ChannelName::Homebrew,
                            detail: MSG_SHASUM_OUTPUT@,
                        },
                    ),
                }
            },
            (Step::Fetching, EventView::Ran(out)) => {
                let revision = if out.success {
                    reply_text(out.stdout, "sha"@)
                } else {
                    None
                };
                if encodable(encode_utf8(self.formula()).len()) {
                    (
                        self.waiting(index, Step::Writing),
                        Ok(
                            EffectView::Api(
                                ApiRequestView {
                                    method: "PUT"@,
                                    url: formula_url(self.tap(), self.formula_name()),
                                    body: Some(
                                        rendering(
                                            formula_members(
                                                self.formula_name(),
                                                self.version,
                                                base64_text(encode_utf8(self.formula())),
                                                revision,
                                            ),
                                        ),
                                    ),
                                },
                            ),
                        ),
                    )
                } else {
                    self.fail(
                        ReleaseErrorView::PublishFailed {
                            channel: ChannelName::Homebrew,
                            detail: MSG_FORMULA_TOO_LONG@,
                        },
                    )
                }
            },
            (Step::Writing, EventView::Ran(out)) => match api_failure(out) {
                Some(detail) => self.fail(
                    ReleaseErrorView::PublishFailed { channel: ChannelName::Homebrew, detail },
                ),
                None => self.begin_channel(index + 1),
            },
            _ => self.out_of_turn(),
        }
    }

    /// The registry channel: one publish command.
    pub open spec fn cargo_step(self, index: usize, step: Step, event: EventView) -> Turn {
        match (step, event) {
            (Step::Publishing, EventView::Ran(out)) => if out.success {
                self.begin_channel(index + 1)
            } else {
                self.fail(
                    ReleaseErrorView::PublishFailed {
                        channel: ChannelName::Cargo,
                        detail: MSG_CARGO_FAILED@ + out.stderr,
                    },
                )
            },
            _ => self.out_of_turn(),
        }
    }

    /// The installer channel: the script is written, the host release is
    /// looked up, and the script is attached to it.
    pub open spec fn curl_step(self, index: usize, step: Step, event: EventView) -> Turn {
        match (step, event) {
            (Step::Scripting, EventView::Written { ok }) => if ok {
                (
                    self.waiting(index, Step::Locating),
                    Ok(
                        EffectView::Api(
                            ApiRequestView {
                                method: "GET"@,
                                url: release_by_tag_url(self.repo(), self.version),
                                body: None,
                            },
                        ),
                    ),
                )
            } else {
                self.fail(
                    ReleaseErrorView::PublishFailed {
                        channel: ChannelName::Curl,
                        detail: MSG_SCRIPT_NOT_WRITTEN@,
                    },
                )
            },
            (Step::Locating, EventView::Ran(out)) => if !out.success {
                self.fail(
                    ReleaseErrorView::UpstreamDependencyMissing {
                        channel: ChannelName::Curl,
                        version: self.version,
                    },
                )
            } else if reply_members(out.stdout) is None {
                self.fail(
                    ReleaseErrorView::PublishFailed {
                        channel: ChannelName::Curl,
                        detail: MSG_API_UNREADABLE@,
                    },
                )
            } else {
                match reply_text(out.stdout, "upload_url"@) {
                    Some(u) => (
                        self.waiting(index, Step::Sending),
                        Ok(
                            EffectView::Upload(
                                UploadRequestView {
                                    upload_url: upload_base(u),
                                    file: SCRIPT_PATH@,
                                    name: SCRIPT_NAME@,
                                    content_type: SCRIPT_TYPE@,
                                },
                            ),
                        ),
                    ),
                    None => self.fail(
                        ReleaseErrorView::UpstreamDependencyMissing {
                            channel: ChannelName::Curl,
                            version: self.version,
                        },
                    ),
                }
            },
            (Step::Sending, EventView::Ran(out)) => if out.success {
                self.begin_channel(index + 1)
            } else {
                self.fail(
                    ReleaseErrorView::PublishFailed {
                        channel: ChannelName::Curl,
                        detail: MSG_UPLOAD_OF@ + SCRIPT_NAME@ + MSG_FAILED@ + out.stderr,
                    },
                )
            },
            _ => self.out_of_turn(),
        }
    }

    /// The flake channel: the hash of the tagged source archive is
    /// computed, then an update request with the version, the source and
    /// the hash is filed.
    pub open spec fn nix_step(self, index: usize, step: Step, event: EventView) -> Turn {
        match (step, event) {
            (Step::Prefetching, EventView::Ran(out)) => if out.success {
                (
                    self.waiting(index, Step::Filing),
                    Ok(
                        EffectView::Api(
                            ApiRequestView {
                                method: "POST"@,
                                url: issues_url(self.flake_repo()),
                                body: Some(
                                    rendering(
                                        issue_members(
                                            self.version,
                                            source_url(self.repo(), self.version),
                                            trim(out.stdout),
                                        ),
                                    ),
                                ),
                            },
                        ),
                    ),
                )
            } else {
                self.fail(
                    ReleaseErrorView::PublishFailed {
                        channel: ChannelName::Nix,
                        detail: MSG_PREFETCH_FAILED@ + out.stderr,
                    },
                )
            },
            (Step::Filing, EventView::Ran(out)) => match api_failure(out) {
                Some(detail) => self.fail(
                    ReleaseErrorView::PublishFailed { channel: ChannelName::Nix, detail },
                ),
                None => self.begin_channel(index + 1),
            },
            _ => self.out_of_turn(),
        }
    }

    /// The build stage: the pipeline takes the event. Where it ends well,
    /// its archives are kept and the first channel begins; its error ends
    /// the run.
    pub open spec fn build_step(self, event: EventView) -> Turn {
        match self.pipeline {
            Some(p) => {
                let (q, r) = p.advance(event);
                match r {
                    Ok(EffectView::Done) => ReleaseView {
                        pipeline: None,
                        archives: q.archives(),
                        ..self
                    }.begin_channel(0),
                    Ok(e) => (ReleaseView { pipeline: Some(q), ..self }, Ok(e)),
                    Err(ReleaseErrorView::OutOfTurn) => self.out_of_turn(),
                    Err(e) => (
                        ReleaseView { pipeline: Some(q), stage: Stage::Failed, ..self },
                        Err(e),
                    ),
                }
            },
            None => self.out_of_turn(),
        }
    }

    /// The run's decision: the state and the effect, or the error, that
    /// follow from a state and the event that answers its pending effect.
    pub open spec fn advance(self, event: EventView) -> Turn {
        match self.stage {
            Stage::Version => match event {
                EventView::Ran(out) => match version_of_output(out) {
                    Ok(v) => ReleaseView { version: v, ..self }.begin_build(),
                    Err(e) => self.fail(e),
                },
                _ => self.out_of_turn(),
            },
            Stage::Build => self.build_step(event),
            Stage::Publish { index, step } => if index < self.selected.len() {
                match self.selected[index as int] {
                    ChannelName::GitHub => self.github_step(index, step, event),
                    ChannelName::Homebrew => self.homebrew_step(index, step, event),
                    ChannelName::Cargo => self.cargo_step(index, step, event),
                    ChannelName::Curl => self.curl_step(index, step, event),
                    ChannelName::Nix => self.nix_step(index, step, event),
                }
            } else {
                self.out_of_turn()
            },
            Stage::Done | Stage::Failed => self.out_of_turn(),
        }
    }

    /// A run that has done nothing yet.
    pub open spec fn fresh(config: Config, selected: Seq<ChannelName>) -> ReleaseView {
        ReleaseView {
            config,
            selected,
            version: Seq::empty(),
            stage: Stage::Done,
            pipeline: None,
            archives: Seq::empty(),
            upload_url: Seq::empty(),
            arm_sha: Seq::empty(),
            intel_sha: Seq::empty(),
        }
    }

    /// How a run begins. The configuration is checked, then the request:
    /// either refusal comes before any effect. With no channel selected the
    /// run is over at once: nothing is built, nothing is published. Else the
    /// version is resolved, by a command where it is not given, and the
    /// build begins.
    pub open spec fn begin(
        config: Config,
        version_override: Option<Seq<char>>,
        requested: Option<Seq<Seq<char>>>,
    ) -> Result<Turn, ReleaseErrorView> {
        match config.first_fault() {
            Some(fault) => Err(ReleaseErrorView::ConfigInvalid(fault)),
            None => match selection(config, requested) {
                Err(e) => Err(e),
                Ok(selected) => {
                    let run = Self::fresh(config, run_order(selected));
                    if run.selected.len() == 0 {
                        Ok((run, Ok(EffectView::Done)))
                    } else {
                        match version_plan(config, version_override) {
                            Err(e) => Err(e),
                            Ok(VersionStepView::Resolved(v)) => Ok(
                                ReleaseView { version: v, ..run }.begin_build(),
                            ),
                            Ok(VersionStepView::Run(c)) => Ok(
                                (run.at(Stage::Version), Ok(EffectView::Run(c))),
                            ),
                        }
                    }
                },
            },
        }
    }
}

/// The view of the answer that [`read_reply`] gives.
pub open spec fn reply_view(r: Result<Option<String>, String>) -> Result<
    Option<Seq<char>>,
    Seq<char>,
> {
    match r {
        Ok(t) => Ok(opt_view(t)),
        Err(d) => Err(d@),
    }
}

/// What [`read_reply`] makes of an answer: what is wrong with it, or the
/// string it holds under the key, if any.
pub open spec fn reply_of(out: CommandOutputView, key: Seq<char>) -> Result<
    Option<Seq<char>>,
    Seq<char>,
> {
    match api_failure(out) {
        Some(detail) => Err(detail),
        None => Ok(reply_text(out.stdout, key)),
    }
}

/// Reads an answer of the host's API: what is wrong with it, or the string
/// it holds under `key`, if any.
pub fn read_reply(out: &CommandOutput, key: &str) -> (r: Result<Option<String>, String>)
    ensures
        reply_view(r) == reply_of(out@, key@),
{
    if !out.success {
        let mut detail = MSG_API_FAILED.to_owned();
        detail.append(out.stderr.as_str());
        return Err(detail);
    }
    match reply_member(out.stdout.as_str(), key) {
        Reply::Text(s) => Ok(Some(s)),
        Reply::Absent => Ok(None),
        Reply::Unreadable => Err(MSG_API_UNREADABLE.to_owned()),
    }
}

/// A request to the host's API.
pub fn api_request(method: &str, url: String, body: Option<String>) -> (r: Effect)
    ensures
        r@ == EffectView::Api(
            ApiRequestView { method: method@, url: url@, body: opt_view(body) },
        ),
{
    Effect::Api(ApiRequest { method: method.to_owned(), url, body })
}

/// The index behind `i`, which lies below `bound`.
fn successor(i: usize, bound: usize) -> (r: usize)
    requires
        i < bound,
    ensures
        r == i + 1,
{
    i + 1
}

/// A release run.
pub struct Release<'a> {
    config: &'a Config,
    selected: Vec<ChannelName>,
    version: String,
    stage: Stage,
    pipeline: Option<BuildPipeline<'a>>,
    archives: Vec<BuildArtifact>,
    upload_url: String,
    arm_sha: String,
    intel_sha: String,
}

impl<'a> View for Release<'a> {
    type V = ReleaseView;

    closed spec fn view(&self) -> ReleaseView {
        ReleaseView {
            config: *self.config,
            selected: self.selected@,
            version: self.version@,
            stage: self.stage,
            pipeline: match self.pipeline {
                Some(p) => Some(p@),
                None => None,
            },
            archives: artifact_views(self.archives@),
            upload_url: self.upload_url@,
            arm_sha: self.arm_sha@,
            intel_sha: self.intel_sha@,
        }
    }
}

/// The view of a run's beginning.
pub open spec fn begin_view(r: Result<(Release, Effect), ReleaseError>) -> Result<
    Turn,
    ReleaseErrorView,
> {
    match r {
        Ok((run, effect)) => Ok((run@, Ok(effect@))),
        Err(e) => Err(e@),
    }
}

impl<'a> Release<'a> {
    #[verifier::type_invariant]
    spec fn inv(&self) -> bool {
        self@.wf()
    }

    /// Where the run stands. Every run is well formed.
    pub fn stage(&self) -> (s: Stage)
        ensures
            s == self@.stage,
            self@.wf(),
    {
        proof {
            use_type_invariant(self);
        }
        self.stage
    }

    /// The channels of the run, in the order in which they publish.
    pub fn channels(&self) -> (r: &Vec<ChannelName>)
        ensures
            r@ == self@.selected,
    {
        &self.selected
    }

    /// The version of the release, once it is resolved.
    pub fn version(&self) -> (r: &str)
        ensures
            r@ == self@.version,
    {
        self.version.as_str()
    }

    /// The archives of the release, once they are built.
    pub fn archives(&self) -> (r: &Vec<BuildArtifact>)
        ensures
            artifact_views(r@) == self@.archives,
    {
        &self.archives
    }

    fn fail(&mut self, e: ReleaseError) -> (r: Result<Effect, ReleaseError>)
        ensures
            (final(self)@, result_view(r)) == old(self)@.fail(e@),
    {
        proof {
            use_type_invariant(&*self);
        }
        self.stage = Stage::Failed;
        Err(e)
    }

    fn publish_failed(&mut self, channel: ChannelName, detail: String) -> (r: Result<
        Effect,
        ReleaseError,
    >)
        ensures
            (final(self)@, result_view(r)) == old(self)@.fail(
                ReleaseErrorView::PublishFailed { channel, detail: detail@ },
            ),
    {
        self.fail(ReleaseError::PublishFailed { channel, detail })
    }

    fn upstream_missing(&mut self, channel: ChannelName) -> (r: Result<Effect, ReleaseError>)
        ensures
            (final(self)@, result_view(r)) == old(self)@.fail(
                ReleaseErrorView::UpstreamDependencyMissing {
                    channel,
                    version: old(self)@.version,
                },
            ),
    {
        let version = self.version.clone();
        self.fail(ReleaseError::UpstreamDependencyMissing { channel, version })
    }

    fn begin_build(&mut self) -> (r: Result<Effect, ReleaseError>)
        ensures
            (final(self)@, result_view(r)) == old(self)@.begin_build(),
    {
        proof {
            use_type_invariant(&*self);
        }
        match BuildPipeline::new(self.config, self.version.as_str()) {
            Ok(mut pipeline) => {
                let r = pipeline.step(&Event::Start);
                self.stage = Stage::Failed;
                self.pipeline = Some(pipeline);
                self.stage = Stage::Build;
                r
            },
            Err(e) => {
                assert(false);
                Err(e)
            },
        }
    }

    fn formula_name(&self) -> (r: &str)
        requires
            self@.config.channels.homebrew is Some,
        ensures
            r@ == self@.formula_name(),
    {
        match &self.config.channels.homebrew {
            Some(h) => match &h.formula_name {
                Some(n) => n.as_str(),
                None => self.config.project.name.as_str(),
            },
            None => "",
        }
    }

    fn tap(&self) -> (r: &str)
        requires
            self@.config.channels.homebrew is Some,
        ensures
            r@ == self@.tap(),
    {
        match &self.config.channels.homebrew {
            Some(h) => h.tap.as_str(),
            None => "",
        }
    }

    fn flake_repo(&self) -> (r: &str)
        requires
            self@.config.channels.nix is Some,
        ensures
            r@ == self@.flake_repo(),
    {
        match &self.config.channels.nix {
            Some(n) => match &n.flake_repo {
                Some(r) => r.as_str(),
                None => self.config.project.repo.as_str(),
            },
            None => "",
        }
    }

    fn begin_channel(&mut self, index: usize) -> (r: Result<Effect, ReleaseError>)
        ensures
            (final(self)@, result_view(r)) == old(self)@.begin_channel(index as int),
    {
        proof {
            use_type_invariant(&*self);
        }
        if index >= self.selected.len() {
            self.stage = Stage::Done;
            return Ok(Effect::Done);
        }
        let repo = self.config.project.repo.as_str();
        match self.selected[index] {
            ChannelName::GitHub => {
                let e = api_request(
                    "POST",
                    releases_address(repo),
                    Some(release_body(self.version.as_str())),
                );
                self.stage = Stage::Publish { index, step: Step::Creating };
                Ok(e)
            },
            ChannelName::Homebrew => {
                let e = api_request(
                    "GET",
                    release_by_tag_address(repo, self.version.as_str()),
                    None,
                );
                self.stage = Stage::Failed;
                self.arm_sha = String::new();
                self.intel_sha = String::new();
                self.stage = Stage::Publish { index, step: Step::Checking };
                Ok(e)
            },
            ChannelName::Cargo => {
                let c = command_line("cargo", &["publish"]);
                assert(c@.args =~= registry_publish().args);
                self.stage = Stage::Publish { index, step: Step::Publishing };
                Ok(Effect::Run(c))
            },
            ChannelName::Curl => {
                let content = generate_install_script(
                    self.config.project.binary(),
                    repo,
                    self.version.as_str(),
                );
                self.stage = Stage::Publish { index, step: Step::Scripting };
                Ok(Effect::Write { path: SCRIPT_PATH.to_owned(), content })
            },
            ChannelName::Nix => {
                let url = source_address(repo, self.version.as_str());
                let c = command_line("nix-prefetch-url", &["--unpack", url.as_str()]);
                assert(c@.args =~= prefetch_command(url@).args);
                self.stage = Stage::Publish { index, step: Step::Prefetching };
                Ok(Effect::Run(c))
            },
        }
    }

    fn asset_name(&self, k: usize) -> (r: String)
        requires
            k < self@.archives.len(),
        ensures
            r@ == self@.asset_name(k as int),
    {
        archive_name(
            self.config.project.binary(),
            self.version.as_str(),
            self.archives[k].target.as_str(),
        )
    }

    fn upload_next(&mut self, index: usize, k: usize) -> (r: Result<Effect, ReleaseError>)
        requires
            index < old(self)@.selected.len(),
            old(self)@.selected[index as int] == ChannelName::GitHub,
        ensures
            (final(self)@, result_view(r)) == old(self)@.upload_next(index, k as int),
    {
        proof {
            use_type_invariant(&*self);
        }
        if k < self.archives.len() {
            let upload = UploadRequest {
                upload_url: self.upload_url.clone(),
                file: self.archives[k].path.clone(),
                name: self.asset_name(k),
                content_type: ARCHIVE_TYPE.to_owned(),
            };
            self.stage = Stage::Publish { index, step: Step::Uploading { next: k } };
            Ok(Effect::Upload(upload))
        } else {
            self.begin_channel(successor(index, self.selected.len()))
        }
    }

    fn github_step(&mut self, index: usize, step: Step, event: &Event) -> (r: Result<
        Effect,
        ReleaseError,
    >)
        requires
            index < old(self)@.selected.len(),
            old(self)@.selected[index as int] == ChannelName::GitHub,
            old(self)@.stage == (Stage::Publish { index, step }),
        ensures
            (final(self)@, result_view(r)) == old(self)@.github_step(index, step, event@),
    {
        proof {
            use_type_invariant(&*self);
        }
        match (step, event) {
            (Step::Creating, Event::Ran(out)) => match read_reply(out, "upload_url") {
                Err(detail) => self.publish_failed(ChannelName::GitHub, detail),
                Ok(Some(u)) => {
                    let base = upload_target(u.as_str());
                    self.stage = Stage::Failed;
                    self.upload_url = base;
                    self.upload_next(index, 0)
                },
                Ok(None) => self.publish_failed(
                    ChannelName::GitHub,
                    MSG_NO_UPLOAD_URL.to_owned(),
                ),
            },
            (Step::Uploading { next }, Event::Ran(out)) => {
                if out.success {
                    self.upload_next(index, successor(next, self.archives.len()))
                } else {
                    let mut detail = MSG_UPLOAD_OF.to_owned();
                    detail.append(self.asset_name(next).as_str());
                    detail.append(MSG_FAILED);
                    detail.append(out.stderr.as_str());
                    self.publish_failed(ChannelName::GitHub, detail)
                }
            },
            _ => Err(ReleaseError::OutOfTurn),
        }
    }

    fn hash_next(&mut self, index: usize, from: usize) -> (r: Result<Effect, ReleaseError>)
        requires
            index < old(self)@.selected.len(),
            old(self)@.selected[index as int] == ChannelName::Homebrew,
        ensures
            (final(self)@, result_view(r)) == old(self)@.hash_next(index, from as int),
    {
        proof {
            use_type_invariant(&*self);
        }
        let n = self.archives.len();
        let mut k: usize = from;
        while k < n && !(mac_arm(self.archives[k].target.as_str()) || mac_intel(
            self.archives[k].target.as_str(),
        ))
            invariant
                n == self.archives@.len(),
                from <= k,
                next_mac(artifact_views(self.archives@), from as int) == next_mac(
                    artifact_views(self.archives@),
                    k as int,
                ),
                forall|j: int|
                    0 <= j < n ==> artifact_views(self.archives@)[j].target
                        == self.archives@[j].target@,
            decreases n - k,
        {
            k = k + 1;
        }
        if k < n {
            let c = command_line("shasum", &["-a", "256", self.archives[k].path.as_str()]);
            assert(c@.args =~= checksum_command(self.archives@[k as int].path@).args);
            self.stage = Stage::Publish { index, step: Step::Hashing { index: k } };
            Ok(Effect::Run(c))
        } else {
            let e = api_request("GET", formula_address(self.tap(), self.formula_name()), None);
            self.stage = Stage::Publish { index, step: Step::Fetching };
            Ok(e)
        }
    }

    fn write_formula(&mut self, index: usize, out: &CommandOutput) -> (r: Result<
        Effect,
        ReleaseError,
    >)
        requires
            index < old(self)@.selected.len(),
            old(self)@.selected[index as int] == ChannelName::Homebrew,
        ensures
            (final(self)@, result_view(r)) == old(self)@.homebrew_step(
                index,
                Step::Fetching,
                EventView::Ran(out@),
            ),
    {
        proof {
            use_type_invariant(&*self);
        }
        let revision: Option<String> = if out.success {
            match reply_member(out.stdout.as_str(), "sha") {
                Reply::Text(s) => Some(s),
                _ => None,
            }
        } else {
            None
        };
        let formula = generate_formula(
            self.formula_name(),
            self.config.project.binary(),
            self.config.project.repo.as_str(),
            self.version.as_str(),
            self.arm_sha.as_str(),
            self.intel_sha.as_str(),
        );
        let marker: Option<&str> = match &revision {
            Some(s) => Some(s.as_str()),
            None => None,
        };
        match formula_body(
            self.formula_name(),
            self.version.as_str(),
            formula.as_str(),
            marker,
        ) {
            Some(body) => {
                let e = api_request(
                    "PUT",
                    formula_address(self.tap(), self.formula_name()),
                    Some(body),
                );
                self.stage = Stage::Publish { index, step: Step::Writing };
                Ok(e)
            },
            None => self.publish_failed(ChannelName::Homebrew, MSG_FORMULA_TOO_LONG.to_owned()),
        }
    }

    fn keep_checksum(&mut self, index: usize, k: usize, out: &CommandOutput) -> (r: Result<
        Effect,
        ReleaseError,
    >)
        requires
            index < old(self)@.selected.len(),
            old(self)@.selected[index as int] == ChannelName::Homebrew,
            k < old(self)@.archives.len(),
        ensures
            (final(self)@, result_view(r)) == old(self)@.homebrew_step(
                index,
                Step::Hashing { index: k },
                EventView::Ran(out@),
            ),
    {
        proof {
            use_type_invariant(&*self);
        }
        if !out.success {
            let mut detail = MSG_SHASUM_FAILED.to_owned();
            detail.append(out.stderr.as_str());
            return self.publish_failed(ChannelName::Homebrew, detail);
        }
        match checksum_of(out.stdout.as_str()) {
            Some(sha) => {
                let arm = mac_arm(self.archives[k].target.as_str());
                let following = successor(k, self.archives.len());
                self.stage = Stage::Failed;
                if arm {
                    self.arm_sha = sha;
                } else {
                    self.intel_sha = sha;
                }
                self.hash_next(index, following)
            },
            None => self.publish_failed(ChannelName::Homebrew, MSG_SHASUM_OUTPUT.to_owned()),
        }
    }

    fn homebrew_step(&mut self, index: usize, step: Step, event: &Event) -> (r: Result<
        Effect,
        ReleaseError,
    >)
        requires
            index < old(self)@.selected.len(),
            old(self)@.selected[index as int] == ChannelName::Homebrew,
            old(self)@.stage == (Stage::Publish { index, step }),
        ensures
            (final(self)@, result_view(r)) == old(self)@.homebrew_step(index, step, event@),
    {
        proof {
            use_type_invariant(&*self);
        }
        match (step, event) {
            (Step::Checking, Event::Ran(out)) => match read_reply(out, "upload_url") {
                Err(_) => self.upstream_missing(ChannelName::Homebrew),
                Ok(_) => self.hash_next(index, 0),
            },
            (Step::Hashing { index: k }, Event::Ran(out)) => self.keep_checksum(index, k, out),
            (Step::Fetching, Event::Ran(out)) => self.write_formula(index, out),
            (Step::Writing, Event::Ran(out)) => match read_reply(out, "sha") {
                Err(detail) => self.publish_failed(ChannelName::Homebrew, detail),
                Ok(_) => self.begin_channel(successor(index, self.selected.len())),
            },
            _ => Err(ReleaseError::OutOfTurn),
        }
    }

    fn cargo_step(&mut self, index: usize, step: Step, event: &Event) -> (r: Result<
        Effect,
        ReleaseError,
    >)
        requires
            index < old(self)@.selected.len(),
            old(self)@.selected[index as int] == ChannelName::Cargo,
            old(self)@.stage == (Stage::Publish { index, step }),
        ensures
            (final(self)@, result_view(r)) == old(self)@.cargo_step(index, step, event@),
    {
        match (step, event) {
            (Step::Publishing, Event::Ran(out)) => {
                if out.success {
                    self.begin_channel(successor(index, self.selected.len()))
                } else {
                    let mut detail = MSG_CARGO_FAILED.to_owned();
                    detail.append(out.stderr.as_str());
                    self.publish_failed(ChannelName::Cargo, detail)
                }
            },
            _ => Err(ReleaseError::OutOfTurn),
        }
    }

    fn locate_release(&mut self, index: usize, out: &CommandOutput) -> (r: Result<
        Effect,
        ReleaseError,
    >)
        requires
            index < old(self)@.selected.len(),
            old(self)@.selected[index as int] == ChannelName::Curl,
        ensures
            (final(self)@, result_view(r)) == old(self)@.curl_step(
                index,
                Step::Locating,
                EventView::Ran(out@),
            ),
    {
        proof {
            use_type_invariant(&*self);
        }
        if !out.success {
            return self.upstream_missing(ChannelName::Curl);
        }
        match reply_member(out.stdout.as_str(), "upload_url") {
            Reply::Unreadable => self.publish_failed(
                ChannelName::Curl,
                MSG_API_UNREADABLE.to_owned(),
            ),
            Reply::Absent => self.upstream_missing(ChannelName::Curl),
            Reply::Text(u) => {
                let upload = UploadRequest {
                    upload_url: upload_target(u.as_str()),
                    file: SCRIPT_PATH.to_owned(),
                    name: SCRIPT_NAME.to_owned(),
                    content_type: SCRIPT_TYPE.to_owned(),
                };
                self.stage = Stage::Publish { index, step: Step::Sending };
                Ok(Effect::Upload(upload))
            },
        }
    }

    fn curl_step(&mut self, index: usize, step: Step, event: &Event) -> (r: Result<
        Effect,
        ReleaseError,
    >)
        requires
            index < old(self)@.selected.len(),
            old(self)@.selected[index as int] == ChannelName::Curl,
            old(self)@.stage == (Stage::Publish { index, step }),
        ensures
            (final(self)@, result_view(r)) == old(self)@.curl_step(index, step, event@),
    {
        proof {
            use_type_invariant(&*self);
        }
        match (step, event) {
            (Step::Scripting, Event::Written { ok }) => {
                if *ok {
                    let e = api_request(
                        "GET",
                        release_by_tag_address(
                            self.config.project.repo.as_str(),
                            self.version.as_str(),
                        ),
                        None,
                    );
                    self.stage = Stage::Publish { index, step: Step::Locating };
                    Ok(e)
                } else {
                    self.publish_failed(ChannelName::Curl, MSG_SCRIPT_NOT_WRITTEN.to_owned())
                }
            },
            (Step::Locating, Event::Ran(out)) => self.locate_release(index, out),
            (Step::Sending, Event::Ran(out)) => {
                if out.success {
                    self.begin_channel(successor(index, self.selected.len()))
                } else {
                    let mut detail = MSG_UPLOAD_OF.to_owned();
                    detail.append(SCRIPT_NAME);
                    detail.append(MSG_FAILED);
                    detail.append(out.stderr.as_str());
                    self.publish_failed(ChannelName::Curl, detail)
                }
            },
            _ => Err(ReleaseError::OutOfTurn),
        }
    }

    fn nix_step(&mut self, index: usize, step: Step, event: &Event) -> (r: Result<
        Effect,
        ReleaseError,
    >)
        requires
            index < old(self)@.selected.len(),
            old(self)@.selected[index as int] == ChannelName::Nix,
            old(self)@.stage == (Stage::Publish { index, step }),
        ensures
            (final(self)@, result_view(r)) == old(self)@.nix_step(index, step, event@),
    {
        proof {
            use_type_invariant(&*self);
        }
        match (step, event) {
            (Step::Prefetching, Event::Ran(out)) => {
                match out.value() {
                    Some(hash) => {
                        let repo = self.config.project.repo.as_str();
                        let source = source_address(repo, self.version.as_str());
                        let body = issue_body(
                            self.version.as_str(),
                            source.as_str(),
                            hash.as_str(),
                        );
                        let e = api_request("POST", issues_address(self.flake_repo()), Some(body));
                        self.stage = Stage::Publish { index, step: Step::Filing };
                        Ok(e)
                    },
                    None => {
                        let mut detail = MSG_PREFETCH_FAILED.to_owned();
                        detail.append(out.stderr.as_str());
                        self.publish_failed(ChannelName::Nix, detail)
                    },
                }
            },
            (Step::Filing, Event::Ran(out)) => match read_reply(out, "url") {
                Err(detail) => self.publish_failed(ChannelName::Nix, detail),
                Ok(_) => self.begin_channel(successor(index, self.selected.len())),
            },
            _ => Err(ReleaseError::OutOfTurn),
        }
    }

    fn build_step(&mut self, event: &Event) -> (r: Result<Effect, ReleaseError>)
        requires
            old(self)@.stage == Stage::Build,
        ensures
            (final(self)@, result_view(r)) == old(self)@.build_step(event@),
    {
        proof {
            use_type_invariant(&*self);
        }
        self.stage = Stage::Failed;
        let mut slot: Option<BuildPipeline<'a>> = None;
        core::mem::swap(&mut slot, &mut self.pipeline);
        match slot {
            Some(mut pipeline) => {
                let ghost before = pipeline@;
                let r = pipeline.step(event);
                proof {
                    if result_view(r) == Err::<EffectView, ReleaseErrorView>(
                        ReleaseErrorView::OutOfTurn,
                    ) {
                        lemma_out_of_turn(before, event@);
                    }
                }
                match r {
                    Ok(Effect::Done) => {
                        self.archives = pipeline.archives();
                        self.begin_channel(0)
                    },
                    Ok(e) => {
                        self.pipeline = Some(pipeline);
                        self.stage = Stage::Build;
                        Ok(e)
                    },
                    Err(ReleaseError::OutOfTurn) => {
                        self.pipeline = Some(pipeline);
                        self.stage = Stage::Build;
                        Err(ReleaseError::OutOfTurn)
                    },
                    Err(e) => {
                        self.pipeline = Some(pipeline);
                        Err(e)
                    },
                }
            },
            None => {
                assert(false);
                Err(ReleaseError::OutOfTurn)
            },
        }
    }

    fn advance(&mut self, event: &Event) -> (r: Result<Effect, ReleaseError>)
        ensures
            (final(self)@, result_view(r)) == old(self)@.advance(event@),
    {
        proof {
            use_type_invariant(&*self);
        }
        match self.stage {
            Stage::Version => match event {
                Event::Ran(out) => match version_from_output(out) {
                    Ok(v) => {
                        self.version = v;
                        self.begin_build()
                    },
                    Err(e) => self.fail(e),
                },
                _ => Err(ReleaseError::OutOfTurn),
            },
            Stage::Build => self.build_step(event),
            Stage::Publish { index, step } => match self.selected[index] {
                ChannelName::GitHub => self.github_step(index, step, event),
                ChannelName::Homebrew => self.homebrew_step(index, step, event),
                ChannelName::Cargo => self.cargo_step(index, step, event),
                ChannelName::Curl => self.curl_step(index, step, event),
                ChannelName::Nix => self.nix_step(index, step, event),
            },
            Stage::Done => Err(ReleaseError::OutOfTurn),
            Stage::Failed => Err(ReleaseError::OutOfTurn),
        }
    }

    /// Takes the event that answers the pending effect and gives the next
    /// effect, or the error the run ends with.
    pub fn step(&mut self, event: &Event) -> (r: Result<Effect, ReleaseError>)
        ensures
            (final(self)@, result_view(r)) == old(self)@.advance(event@),
            final(self)@.wf(),
    {
        let r = self.advance(event);
        proof {
            use_type_invariant(&*self);
        }
        r
    }

    /// Begins a release run: settles the channels and the version, and
    /// gives the first effect. A request that cannot be met is refused here,
    /// before anything is done.
    pub fn start(
        config: &'a Config,
        version_override: Option<&str>,
        requested: Option<&[String]>,
    ) -> (r: Result<(Release<'a>, Effect), ReleaseError>)
        ensures
            begin_view(r) == ReleaseView::begin(
                *config,
                match version_override {
                    Some(v) => Some(v@),
                    None => None,
                },
                requested_view(requested),
            ),
            r matches Ok((run, _)) ==> run@.wf(),
    {
        match config.validate() {
            Ok(_) => {},
            Err(fault) => {
                return Err(ReleaseError::ConfigInvalid(fault));
            },
        }
        let selected = match select_channels(config, requested) {
            Ok(s) => s,
            Err(e) => {
                return Err(e);
            },
        };
        let ordered = order_channels(&selected);
        proof {
            lemma_selection_enabled(*config, requested_view(requested));
            crate::channels::lemma_host_runs_first(selected@);
            assert forall|i: int| 0 <= i < ordered@.len() implies config.channels.has(
                #[trigger] ordered@[i],
            ) by {
                assert(selected@.contains(ordered@[i]));
            }
        }
        let mut run = Release {
            config,
            selected: ordered,
            version: String::new(),
            stage: Stage::Done,
            pipeline: None,
            archives: Vec::new(),
            upload_url: String::new(),
            arm_sha: String::new(),
            intel_sha: String::new(),
        };
        assert(run@.archives =~= Seq::<BuildArtifactView>::empty());
        if run.selected.len() == 0 {
            return Ok((run, Effect::Done));
        }
        match detect_version(config, version_override) {
            Err(e) => Err(e),
            Ok(VersionStep::Resolved(v)) => {
                run.version = v;
                proof {
                    lemma_first_step(
                        PipelineView {
                            config: *config,
                            version: v@,
                            phase: Phase::Idle,
                            host: None,
                            cross_builder: false,
                            staging: Seq::empty(),
                            outcomes: Seq::empty(),
                        },
                    );
                }
                match run.begin_build() {
                    Ok(effect) => {
                        proof {
                            use_type_invariant(&run);
                        }
                        Ok((run, effect))
                    },
                    Err(e) => {
                        assert(false);
                        Err(e)
                    },
                }
            },
            Ok(VersionStep::Run(c)) => {
                run.stage = Stage::Version;
                Ok((run, Effect::Run(c)))
            },
        }
    }
}

/// Every channel of a selection is enabled.
pub proof fn lemma_selection_enabled(config: Config, requested: Option<Seq<Seq<char>>>)
    ensures
        selection(config, requested) matches Ok(selected) ==> forall|c: ChannelName|
            selected.contains(c) ==> config.channels.has(c),
{
    match selection(config, requested) {
        Ok(selected) => {
            assert forall|c: ChannelName| selected.contains(c) implies config.channels.has(
                c,
            ) by {
                let i = choose|i: int| 0 <= i < selected.len() && selected[i] == c;
                if requested is Some && requested->0.len() > 0 {
                    crate::channels::lemma_no_refusal(config, requested->0, i);
                } else {
                    crate::config::lemma_enabled_has(config.channels, 0, c);
                }
            }
        },
        Err(_) => {},
    }
}

/// A request that is refused does nothing: where the selection is an error,
/// so is the beginning of the run, and no effect is handed out.
pub proof fn lemma_refusal_does_nothing(
    config: Config,
    version_override: Option<Seq<char>>,
    requested: Option<Seq<Seq<char>>>,
)
    requires
        config.valid(),
        selection(config, requested) is Err,
    ensures
        ReleaseView::begin(config, version_override, requested) == Err::<Turn, ReleaseErrorView>(
            selection(config, requested)->Err_0,
        ),
{
}

/// A run publishes to the selected channels in their run order: the host
/// channel first where it is selected, wherever the request names it.
pub proof fn lemma_run_follows_order(
    config: Config,
    version_override: Option<Seq<char>>,
    requested: Option<Seq<Seq<char>>>,
)
    requires
        ReleaseView::begin(config, version_override, requested) is Ok,
    ensures
        selection(config, requested) matches Ok(selected) && ReleaseView::begin(
            config,
            version_override,
            requested,
        )->Ok_0.0.selected == run_order(selected) && (selected.contains(ChannelName::GitHub)
            ==> run_order(selected)[0] == ChannelName::GitHub),
{
    let selected = selection(config, requested)->Ok_0;
    crate::channels::lemma_host_runs_first(selected);
    reveal(PipelineView::advance);
}

/// The channels publish one after the other in the run order: the channel
/// that begins after the one at `index` is the one at `index + 1`, and after
/// the last one the run is over.
pub proof fn lemma_channels_in_turn(s: ReleaseView, index: int)
    requires
        0 <= index <= usize::MAX,
    ensures
        index < s.selected.len() ==> (s.begin_channel(index).0.stage matches Stage::Publish {
            index: i,
            step,
        } && i == index && ReleaseView::step_of(s.selected[index], step)),
        index >= s.selected.len() ==> s.begin_channel(index) == (
            s.at(Stage::Done),
            Ok::<EffectView, ReleaseErrorView>(EffectView::Done),
        ),
{
}

/// A run that has ended takes no more events.
pub proof fn lemma_ended_is_final(s: ReleaseView, event: EventView)
    requires
        s.stage == Stage::Done || s.stage == Stage::Failed,
    ensures
        s.advance(event) == s.out_of_turn(),
{
}

/// An error ends the run: but for an event out of turn, which changes
/// nothing, every error leaves the run failed, so that no channel runs
/// after it.
pub proof fn lemma_error_ends_run(s: ReleaseView, event: EventView)
    requires
        s.advance(event).1 is Err,
    ensures
        s.advance(event).1 == Err::<EffectView, ReleaseErrorView>(ReleaseErrorView::OutOfTurn)
            ==> s.advance(event).0 == s,
        s.advance(event).1 != Err::<EffectView, ReleaseErrorView>(ReleaseErrorView::OutOfTurn)
            ==> s.advance(event).0.stage == Stage::Failed,
{
    match s.stage {
        Stage::Version => {
            match event {
                EventView::Ran(out) => {
                    if version_of_output(out) is Ok {
                        let v = version_of_output(out)->Ok_0;
                        lemma_build_begins(ReleaseView { version: v, ..s });
                    }
                },
                _ => {},
            }
        },
        Stage::Build => {
            if s.pipeline is Some {
                let p = s.pipeline->0;
                if p.advance(event).1 == Ok::<EffectView, ReleaseErrorView>(EffectView::Done) {
                    lemma_channel_begins(
                        ReleaseView {
                            pipeline: None,
                            archives: p.advance(event).0.archives(),
                            ..s
                        },
                        0,
                    );
                }
            }
        },
        Stage::Publish { index, step } => {
            if index < s.selected.len() {
                match s.selected[index as int] {
                    ChannelName::GitHub => lemma_github_error(s, index, step, event),
                    ChannelName::Homebrew => lemma_homebrew_error(s, index, step, event),
                    ChannelName::Cargo => {
                        lemma_channel_begins(s, index + 1);
                    },
                    ChannelName::Curl => {
                        lemma_channel_begins(s, index + 1);
                    },
                    ChannelName::Nix => {
                        lemma_channel_begins(s, index + 1);
                    },
                }
            }
        },
        _ => {},
    }
}

/// The build begins with an effect, never with an error.
proof fn lemma_build_begins(s: ReleaseView)
    ensures
        s.begin_build().1 is Ok,
{
    lemma_first_step(
        PipelineView {
            config: s.config,
            version: s.version,
            phase: Phase::Idle,
            host: None,
            cross_builder: false,
            staging: Seq::empty(),
            outcomes: Seq::empty(),
        },
    );
}

/// A channel begins with an effect, never with an error.
proof fn lemma_channel_begins(s: ReleaseView, index: int)
    ensures
        s.begin_channel(index).1 is Ok,
{
}

proof fn lemma_github_error(s: ReleaseView, index: usize, step: Step, event: EventView)
    requires
        s.github_step(index, step, event).1 is Err,
    ensures
        s.github_step(index, step, event).1 == Err::<EffectView, ReleaseErrorView>(
            ReleaseErrorView::OutOfTurn,
        ) ==> s.github_step(index, step, event).0 == s,
        s.github_step(index, step, event).1 != Err::<EffectView, ReleaseErrorView>(
            ReleaseErrorView::OutOfTurn,
        ) ==> s.github_step(index, step, event).0.stage == Stage::Failed,
{
    match (step, event) {
        (Step::Creating, EventView::Ran(out)) => {
            if api_failure(out) is None && reply_text(out.stdout, "upload_url"@) is Some {
                let u = reply_text(out.stdout, "upload_url"@)->0;
                let t = ReleaseView { upload_url: upload_base(u), ..s };
                lemma_channel_begins(t, index + 1);
            }
        },
        (Step::Uploading { next }, EventView::Ran(out)) => {
            lemma_channel_begins(s, index + 1);
        },
        _ => {},
    }
}

proof fn lemma_homebrew_error(s: ReleaseView, index: usize, step: Step, event: EventView)
    requires
        s.homebrew_step(index, step, event).1 is Err,
    ensures
        s.homebrew_step(index, step, event).1 == Err::<EffectView, ReleaseErrorView>(
            ReleaseErrorView::OutOfTurn,
        ) ==> s.homebrew_step(index, step, event).0 == s,
        s.homebrew_step(index, step, event).1 != Err::<EffectView, ReleaseErrorView>(
            ReleaseErrorView::OutOfTurn,
        ) ==> s.homebrew_step(index, step, event).0.stage == Stage::Failed,
{
    match (step, event) {
        (Step::Writing, EventView::Ran(out)) => {
            lemma_channel_begins(s, index + 1);
        },
        _ => {},
    }
}

/// Every step leads from a well-formed state to a well-formed state.
pub proof fn lemma_step_keeps_wf(s: ReleaseView, event: EventView)
    requires
        s.wf(),
    ensures
        s.advance(event).0.wf(),
{
    match s.stage {
        Stage::Version => {
            match event {
                EventView::Ran(out) => {
                    if version_of_output(out) is Ok {
                        let v = version_of_output(out)->Ok_0;
                        lemma_begin_build_wf(ReleaseView { version: v, ..s });
                    }
                },
                _ => {},
            }
        },
        Stage::Build => {
            let p = s.pipeline->0;
            lemma_advance_keeps_wf(p, event);
            lemma_advance_keeps_release(p, event);
            if p.advance(event).1 == Ok::<EffectView, ReleaseErrorView>(EffectView::Done) {
                lemma_begin_channel_wf(
                    ReleaseView { pipeline: None, archives: p.advance(event).0.archives(), ..s },
                    0,
                );
            }
        },
        Stage::Publish { index, step } => {
            match s.selected[index as int] {
                ChannelName::GitHub => lemma_github_wf(s, index, step, event),
                ChannelName::Homebrew => lemma_homebrew_wf(s, index, step, event),
                ChannelName::Cargo => lemma_begin_channel_wf(s, index + 1),
                ChannelName::Curl => lemma_begin_channel_wf(s, index + 1),
                ChannelName::Nix => lemma_begin_channel_wf(s, index + 1),
            }
        },
        _ => {},
    }
}

proof fn lemma_begin_build_wf(s: ReleaseView)
    requires
        s.at(Stage::Failed).wf(),
    ensures
        s.begin_build().0.wf(),
{
    let fresh = PipelineView {
        config: s.config,
        version: s.version,
        phase: Phase::Idle,
        host: None,
        cross_builder: false,
        staging: Seq::empty(),
        outcomes: Seq::empty(),
    };
    lemma_first_step(fresh);
}

proof fn lemma_begin_channel_wf(s: ReleaseView, index: int)
    requires
        s.at(Stage::Failed).wf(),
    ensures
        s.begin_channel(index).0.wf(),
{
}

proof fn lemma_github_wf(s: ReleaseView, index: usize, step: Step, event: EventView)
    requires
        s.wf(),
        s.stage == (Stage::Publish { index, step }),
        s.selected[index as int] == ChannelName::GitHub,
    ensures
        s.github_step(index, step, event).0.wf(),
{
    match (step, event) {
        (Step::Creating, EventView::Ran(out)) => {
            if api_failure(out) is None && reply_text(out.stdout, "upload_url"@) is Some {
                let u = reply_text(out.stdout, "upload_url"@)->0;
                lemma_begin_channel_wf(ReleaseView { upload_url: upload_base(u), ..s }, index + 1);
            }
        },
        (Step::Uploading { next }, EventView::Ran(out)) => {
            lemma_begin_channel_wf(s, index + 1);
        },
        _ => {},
    }
}

proof fn lemma_homebrew_wf(s: ReleaseView, index: usize, step: Step, event: EventView)
    requires
        s.wf(),
        s.stage == (Stage::Publish { index, step }),
        s.selected[index as int] == ChannelName::Homebrew,
    ensures
        s.homebrew_step(index, step, event).0.wf(),
{
    match (step, event) {
        (Step::Checking, EventView::Ran(out)) => {
            lemma_next_mac(s.archives, 0);
        },
        (Step::Hashing { index: k }, EventView::Ran(out)) => {
            lemma_next_mac(s.archives, k + 1);
        },
        (Step::Writing, EventView::Ran(out)) => {
            lemma_begin_channel_wf(s, index + 1);
        },
        _ => {},
    }
}

proof fn lemma_next_mac(archives: Seq<BuildArtifactView>, from: int)
    requires
        0 <= from,
    ensures
        from <= next_mac(archives, from) || next_mac(archives, from) == archives.len(),
        0 <= next_mac(archives, from) <= archives.len(),
    decreases archives.len() - from,
{
    if from < archives.len() && !(is_mac_arm(archives[from].target) || is_mac_intel(
        archives[from].target,
    )) {
        lemma_next_mac(archives, from + 1);
    }
}

} // verus!
