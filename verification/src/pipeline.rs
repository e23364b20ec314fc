//! The build pipeline: one archive per target, failures collected rather than
//! fatal, and a question to the operator before going on with a partial set.
//!
//! The pipeline is a state machine. [`BuildPipeline::step`] takes the event
//! that answers the last effect and gives the next effect; what it decides is
//! [`PipelineView::advance`].

use crate::config::Config;
use crate::effect::{
    opt_view, CommandLine, CommandLineView, CommandOutputView, Effect, EffectView, Event,
    EventView,
};
use crate::error::{ReleaseError, ReleaseErrorView};
use crate::platform::{
    build_invocation, host_target_of, installed_of, parse_host_target, parse_installed_targets,
    select_build_invocation, TargetSet,
};
use crate::paths::{archive_name, archive_name_of, join_path, joined_path};
use crate::template::{bindings, substitute, substituted};
use crate::text::{
    contains, contains_seq, rows, split_words, string_of, to_chars, trim, trimmed, views, words,
};
use crate::triage::{report_of, triage, triage_text, PROMPT};
use vstd::prelude::*;
use vstd::string::{StringExecFns, StrSliceExecFns};

verus! {

/// How the work on one target ended.
#[derive(Clone, Copy, Debug, PartialEq, Eq, Structural)]
pub enum TargetOutcome {
    /// The artifact was found and archived.
    Archived,
    /// The build command failed.
    BuildFailed,
    /// No artifact stands at the expected path.
    ArtifactMissing,
}

/// Where the pipeline stands. Each phase but the first and the last two waits
/// for the answer to one effect.
#[derive(Clone, Copy, Debug, PartialEq, Eq, Structural)]
pub enum Phase {
    /// Nothing has been asked yet.
    Idle,
    /// The staging directory is being made.
    Staging,
    /// The toolchain is being asked for the host platform.
    HostQuery,
    /// The cross-capable build wrapper is being looked for.
    WrapperQuery,
    /// The build command of the current target is running.
    Building,
    /// The artifact of the current target is being looked at.
    Probing,
    /// The artifact of the current target is being archived.
    Archiving,
    /// The toolchain manager is being asked for the installed targets.
    Listing,
    /// The operator is being asked whether to go on.
    Confirming,
    /// The pipeline has ended with at least one archive.
    Complete,
    /// The pipeline has ended with an error.
    Failed,
}

/// An archive built for a target.
#[derive(Debug)]
pub struct BuildArtifact {
    pub target: String,
    pub path: String,
}

/// A [`BuildArtifact`] as plain values.
pub ghost struct BuildArtifactView {
    pub target: Seq<char>,
    pub path: Seq<char>,
}

impl View for BuildArtifact {
    type V = BuildArtifactView;

    open spec fn view(&self) -> BuildArtifactView {
        BuildArtifactView { target: self.target@, path: self.path@ }
    }
}

/// The views of a sequence of artifacts.
pub open spec fn artifact_views(v: Seq<BuildArtifact>) -> Seq<BuildArtifactView> {
    Seq::new(v.len(), |i: int| v[i]@)
}

/// Where archives are staged, relative to the directory of the run.
pub const STAGING_DIR: &'static str = "target/release-staging";

/// Why the build stage fails where the staging directory cannot be made.
pub const MSG_NO_STAGING: &'static str = "cannot create the staging directory";

/// Why the build stage fails where the build command has no word.
pub const MSG_EMPTY_COMMAND: &'static str = "empty build command";

/// Why the build stage fails where the artifact's path names no file.
pub const MSG_NO_FILE_NAME: &'static str = "artifact has no filename";

/// What precedes the archiver's complaint where archiving fails.
pub const MSG_TAR_FAILED: &'static str = "tar failed: ";

/// The bindings a template is rendered with for one target.
pub open spec fn target_vars(config: Config, version: Seq<char>, target: Seq<char>) -> Seq<
    (Seq<char>, Seq<char>),
> {
    seq![("target"@, target), ("binary"@, config.project.binary_name()), ("version"@, version)]
}

/// The words of the build command for `target`: the command template
/// rendered, upgraded to the cross-capable wrapper where that applies, and
/// split at white space.
pub open spec fn build_words(
    config: Config,
    version: Seq<char>,
    host: Option<Seq<char>>,
    cross_builder: bool,
    target: Seq<char>,
) -> Seq<Seq<char>> {
    words(
        build_invocation(
            substituted(config.build.command->0@, target_vars(config, version, target)),
            host,
            target,
            cross_builder,
        ),
    )
}

/// Where the artifact of `target` is expected: at the rendered artifact path
/// for a build by command, else in the rendered pre-built directory under the
/// name `<binary>-<target>`.
pub open spec fn artifact_path(config: Config, version: Seq<char>, target: Seq<char>) -> Seq<
    char,
> {
    if config.build.command is Some {
        substituted(config.build.artifact->0@, target_vars(config, version, target))
    } else {
        joined_path(
            substituted(config.build.pre_built_dir->0@, target_vars(config, version, target)),
            config.project.binary_name() + "-"@ + target,
        )
    }
}

/// The process that asks the toolchain for its host platform.
pub open spec fn host_query() -> CommandLineView {
    CommandLineView { dir: None, program: "rustc"@, args: seq!["-vV"@] }
}

/// The process that tells whether the cross-capable build wrapper is at hand.
pub open spec fn wrapper_query() -> CommandLineView {
    CommandLineView { dir: None, program: "cargo-zigbuild"@, args: seq!["--version"@] }
}

/// The process that lists the installed targets.
pub open spec fn listing_query() -> CommandLineView {
    CommandLineView {
        dir: None,
        program: "rustup"@,
        args: seq!["target"@, "list"@, "--installed"@],
    }
}

/// The directory to archive in: the artifact's containing directory, or the
/// current one where the path names none.
pub open spec fn archive_root(parent: Option<Seq<char>>) -> Seq<char> {
    match parent {
        Some(p) => if p.len() > 0 {
            p
        } else {
            "."@
        },
        None => "."@,
    }
}

/// The process that archives the file `file_name` of `parent` into the
/// archive `name` of the staging directory. It runs in the containing
/// directory, so the archive holds the bare file name.
pub open spec fn archive_command(
    staging: Seq<char>,
    name: Seq<char>,
    parent: Option<Seq<char>>,
    file_name: Seq<char>,
) -> CommandLineView {
    CommandLineView {
        dir: Some(archive_root(parent)),
        program: "tar"@,
        args: seq!["czf"@, joined_path(staging, name), file_name],
    }
}

/// Whether an answer to the prompt means yes: `y` or `Y`, white space around
/// it aside.
pub open spec fn affirmative(answer: Seq<char>) -> bool {
    trim(answer) == seq!['y'] || trim(answer) == seq!['Y']
}

/// Whether `outcomes` holds an outcome that is archived, or one that is not,
/// as `archived` says.
pub open spec fn any_outcome(outcomes: Seq<TargetOutcome>, archived: bool) -> bool {
    exists|i: int| 0 <= i < outcomes.len() && (#[trigger] outcomes[i] == TargetOutcome::Archived)
        == archived
}

/// The indices of the outcomes that are archived, or of those that are not,
/// as `archived` says, in rising order.
pub open spec fn indices_where(outcomes: Seq<TargetOutcome>, archived: bool) -> Seq<int>
    decreases outcomes.len(),
{
    if outcomes.len() == 0 {
        Seq::empty()
    } else {
        let before = indices_where(outcomes.drop_last(), archived);
        if (outcomes.last() == TargetOutcome::Archived) == archived {
            before.push(outcomes.len() - 1)
        } else {
            before
        }
    }
}

/// The targets at the given indices.
pub open spec fn targets_at(targets: Seq<Seq<char>>, indices: Seq<int>) -> Seq<Seq<char>> {
    Seq::new(indices.len(), |k: int| targets[indices[k]])
}

/// The archive of `target`: it stands in the staging directory under the
/// name `<binary>-<version>-<target>.tar.gz`.
pub open spec fn artifact_of(config: Config, version: Seq<char>, target: Seq<char>)
    -> BuildArtifactView {
    BuildArtifactView {
        target,
        path: joined_path(
            STAGING_DIR@,
            archive_name_of(config.project.binary_name(), version, target),
        ),
    }
}

/// The state of a pipeline, as plain values.
pub ghost struct PipelineView {
    pub config: Config,
    pub version: Seq<char>,
    pub phase: Phase,
    pub host: Option<Seq<char>>,
    pub cross_builder: bool,
    pub staging: Seq<char>,
    pub outcomes: Seq<TargetOutcome>,
}

impl PipelineView {
    /// The configured targets.
    pub open spec fn targets(self) -> Seq<Seq<char>> {
        views(self.config.build.targets@)
    }

    /// The target being worked on.
    pub open spec fn current(self) -> Seq<char> {
        self.targets()[self.outcomes.len() as int]
    }

    /// What holds of every state a pipeline can reach.
    pub open spec fn wf(self) -> bool {
        &&& self.config.valid()
        &&& self.outcomes.len() <= self.targets().len()
        &&& match self.phase {
            Phase::Idle | Phase::Staging | Phase::HostQuery | Phase::WrapperQuery => {
                self.outcomes.len() == 0
            },
            Phase::Building => {
                self.outcomes.len() < self.targets().len() && self.config.build.command is Some
            },
            Phase::Probing | Phase::Archiving => self.outcomes.len() < self.targets().len(),
            Phase::Listing | Phase::Confirming => {
                &&& self.outcomes.len() == self.targets().len()
                &&& any_outcome(self.outcomes, true)
                &&& any_outcome(self.outcomes, false)
            },
            Phase::Complete => {
                &&& self.outcomes.len() == self.targets().len()
                &&& any_outcome(self.outcomes, true)
            },
            Phase::Failed => true,
        }
    }

    /// The same state in another phase.
    pub open spec fn at(self, phase: Phase) -> PipelineView {
        PipelineView { phase, ..self }
    }

    /// The targets that were archived, in configured order.
    pub open spec fn succeeded(self) -> Seq<Seq<char>> {
        targets_at(self.targets(), indices_where(self.outcomes, true))
    }

    /// The targets that failed, in configured order.
    pub open spec fn failed(self) -> Seq<Seq<char>> {
        targets_at(self.targets(), indices_where(self.outcomes, false))
    }

    /// The archives built so far, in configured order.
    pub open spec fn archives(self) -> Seq<BuildArtifactView> {
        Seq::new(
            self.succeeded().len(),
            |k: int| artifact_of(self.config, self.version, self.succeeded()[k]),
        )
    }

    /// Whether failures are sorted by what the toolchain has installed: for
    /// a build by a command that names the toolchain's build tool.
    pub open spec fn wants_listing(self) -> bool {
        self.config.build.command is Some && contains_seq(
            self.config.build.command->0@,
            "cargo"@,
        )
    }

    /// The report shown before the prompt.
    pub open spec fn report(self, installed: Set<Seq<char>>) -> Seq<char> {
        triage_text(
            report_of(
                self.targets().len(),
                self.failed(),
                self.succeeded(),
                self.wants_listing(),
                installed,
                opt_view(self.config.build.pre_built_dir),
                Seq::new(
                    self.failed().len(),
                    |k: int| artifact_path(self.config, self.version, self.failed()[k]),
                ),
            ),
        )
    }

    /// The first effect for the current target: its build command, or for
    /// pre-built artifacts the look at the expected path. A build command
    /// without a word is fatal.
    pub open spec fn begin_target(self) -> (PipelineView, Result<EffectView, ReleaseErrorView>) {
        if self.config.build.command is Some {
            let w = build_words(
                self.config,
                self.version,
                self.host,
                self.cross_builder,
                self.current(),
            );
            if w.len() == 0 {
                (
                    self.at(Phase::Failed),
                    Err(ReleaseErrorView::BuildFailed { detail: MSG_EMPTY_COMMAND@ }),
                )
            } else {
                (
                    self.at(Phase::Building),
                    Ok(
                        EffectView::Run(
                            CommandLineView { dir: None, program: w[0], args: w.skip(1) },
                        ),
                    ),
                )
            }
        } else {
            (
                self.at(Phase::Probing),
                Ok(
                    EffectView::Probe {
                        path: artifact_path(self.config, self.version, self.current()),
                    },
                ),
            )
        }
    }

    /// What follows once the current target has its outcome: the next
    /// target; or, after the last one, the error that all targets failed, the
    /// end where none failed, and else the question to the operator, after the
    /// listing of installed targets where failures are sorted by it.
    pub open spec fn settle(self, outcome: TargetOutcome) -> (
        PipelineView,
        Result<EffectView, ReleaseErrorView>,
    ) {
        let next = PipelineView { outcomes: self.outcomes.push(outcome), ..self };
        if next.outcomes.len() < next.targets().len() {
            next.begin_target()
        } else if !any_outcome(next.outcomes, true) {
            (next.at(Phase::Failed), Err(ReleaseErrorView::AllTargetsFailed))
        } else if !any_outcome(next.outcomes, false) {
            (next.at(Phase::Complete), Ok(EffectView::Done))
        } else if next.wants_listing() {
            (next.at(Phase::Listing), Ok(EffectView::Run(listing_query())))
        } else {
            (
                next.at(Phase::Confirming),
                Ok(EffectView::Ask { report: next.report(Set::empty()), prompt: PROMPT@ }),
            )
        }
    }

    /// The pipeline's decision: the state and the effect, or the error, that
    /// follow from a state and the event that answers its pending effect. An
    /// event that answers nothing leaves the state as it is.
    #[verifier::opaque]
    pub open spec fn advance(self, event: EventView) -> (
        PipelineView,
        Result<EffectView, ReleaseErrorView>,
    ) {
        match (self.phase, event) {
            (Phase::Idle, EventView::Start) => (
                self.at(Phase::Staging),
                Ok(EffectView::MakeDir { path: STAGING_DIR@ }),
            ),
            (Phase::Staging, EventView::Staged { canonical: Some(dir) }) => (
                PipelineView { phase: Phase::HostQuery, staging: dir, ..self },
                Ok(EffectView::Run(host_query())),
            ),
            (Phase::Staging, EventView::Staged { canonical: None }) => (
                self.at(Phase::Failed),
                Err(ReleaseErrorView::BuildFailed { detail: MSG_NO_STAGING@ }),
            ),
            (Phase::HostQuery, EventView::Ran(out)) => (
                PipelineView {
                    phase: Phase::WrapperQuery,
                    host: if out.success {
                        host_target_of(out.stdout)
                    } else {
                        None
                    },
                    ..self
                },
                Ok(EffectView::Run(wrapper_query())),
            ),
            (Phase::WrapperQuery, EventView::Ran(out)) => PipelineView {
                cross_builder: out.success,
                ..self
            }.begin_target(),
            (Phase::Building, EventView::Ran(out)) => if out.success {
                (
                    self.at(Phase::Probing),
                    Ok(
                        EffectView::Probe {
                            path: artifact_path(self.config, self.version, self.current()),
                        },
                    ),
                )
            } else {
                self.settle(TargetOutcome::BuildFailed)
            },
            (Phase::Probing, EventView::Probed { exists, parent, file_name }) => if !exists {
                self.settle(TargetOutcome::ArtifactMissing)
            } else {
                match file_name {
                    Some(f) => (
                        self.at(Phase::Archiving),
                        Ok(
                            EffectView::Run(
                                archive_command(
                                    self.staging,
                                    archive_name_of(
                                        self.config.project.binary_name(),
                                        self.version,
                                        self.current(),
                                    ),
                                    parent,
                                    f,
                                ),
                            ),
                        ),
                    ),
                    None => (
                        self.at(Phase::Failed),
                        Err(ReleaseErrorView::BuildFailed { detail: MSG_NO_FILE_NAME@ }),
                    ),
                }
            },
            (Phase::Archiving, EventView::Ran(out)) => if out.success {
                self.settle(TargetOutcome::Archived)
            } else {
                (
                    self.at(Phase::Failed),
                    Err(ReleaseErrorView::BuildFailed { detail: MSG_TAR_FAILED@ + out.stderr }),
                )
            },
            (Phase::Listing, EventView::Ran(out)) => (
                self.at(Phase::Confirming),
                Ok(
                    EffectView::Ask {
                        report: self.report(
                            if out.success {
                                installed_of(out.stdout)
                            } else {
                                Set::empty()
                            },
                        ),
                        prompt: PROMPT@,
                    },
                ),
            ),
            (Phase::Confirming, EventView::Answered { answer }) => if affirmative(answer) {
                (self.at(Phase::Complete), Ok(EffectView::Done))
            } else {
                (self.at(Phase::Failed), Err(ReleaseErrorView::UserAborted))
            },
            _ => (self, Err(ReleaseErrorView::OutOfTurn)),
        }
    }
}

/// The view of a step's result.
pub open spec fn result_view(r: Result<Effect, ReleaseError>) -> Result<
    EffectView,
    ReleaseErrorView,
> {
    match r {
        Ok(e) => Ok(e@),
        Err(e) => Err(e@),
    }
}

/// A process without a working directory of its own.
pub fn command_line(program: &str, args: &[&str]) -> (r: CommandLine)
    ensures
        r@.dir is None,
        r@.program == program@,
        r@.args == Seq::new(args@.len(), |i: int| args@[i]@),
{
    let mut list: Vec<String> = Vec::new();
    let mut i: usize = 0;
    while i < args.len()
        invariant
            i <= args.len(),
            list@.len() == i,
            forall|j: int| 0 <= j < i ==> list@[j]@ == args@[j]@,
        decreases args.len() - i,
    {
        list.push(args[i].to_owned());
        i = i + 1;
    }
    let r = CommandLine { dir: None, program: program.to_owned(), args: list };
    assert(r@.args =~= Seq::new(args@.len(), |i: int| args@[i]@));
    r
}

/// Whether an answer to the prompt means yes.
pub fn is_affirmative(answer: &str) -> (b: bool)
    ensures
        b == affirmative(answer@),
{
    let t = trimmed(&to_chars(answer));
    let b = t.len() == 1 && (t[0] == 'y' || t[0] == 'Y');
    proof {
        if t.len() == 1 {
            assert(t@ =~= seq![t@[0]]);
        }
        assert(seq!['y'].len() == 1 && seq!['y'][0] == 'y');
        assert(seq!['Y'].len() == 1 && seq!['Y'][0] == 'Y');
    }
    b
}

/// The build pipeline of one release run.
pub struct BuildPipeline<'a> {
    config: &'a Config,
    version: String,
    phase: Phase,
    host: Option<String>,
    cross_builder: bool,
    staging: String,
    outcomes: Vec<TargetOutcome>,
}

impl<'a> View for BuildPipeline<'a> {
    type V = PipelineView;

    closed spec fn view(&self) -> PipelineView {
        PipelineView {
            config: *self.config,
            version: self.version@,
            phase: self.phase,
            host: opt_view(self.host),
            cross_builder: self.cross_builder,
            staging: self.staging@,
            outcomes: self.outcomes@,
        }
    }
}

impl<'a> BuildPipeline<'a> {
    #[verifier::type_invariant]
    spec fn inv(&self) -> bool {
        self@.wf()
    }

    /// A pipeline for `config` and `version` that has not started. A
    /// configuration that breaks its rules is refused.
    pub fn new(config: &'a Config, version: &str) -> (r: Result<BuildPipeline<'a>, ReleaseError>)
        ensures
            match r {
                Ok(p) => config.valid() && p@ == (PipelineView {
                    config: *config,
                    version: version@,
                    phase: Phase::Idle,
                    host: None,
                    cross_builder: false,
                    staging: Seq::empty(),
                    outcomes: Seq::empty(),
                }),
                Err(e) => config.first_fault() matches Some(fault) && e@
                    == ReleaseErrorView::ConfigInvalid(fault),
            },
    {
        match config.validate() {
            Ok(_) => Ok(
                BuildPipeline {
                    config,
                    version: version.to_owned(),
                    phase: Phase::Idle,
                    host: None,
                    cross_builder: false,
                    staging: String::new(),
                    outcomes: Vec::new(),
                },
            ),
            Err(fault) => Err(ReleaseError::ConfigInvalid(fault)),
        }
    }

    /// Where the pipeline stands. Every pipeline is well formed.
    pub fn phase(&self) -> (p: Phase)
        ensures
            p == self@.phase,
            self@.wf(),
    {
        proof {
            use_type_invariant(self);
        }
        self.phase
    }

    /// The outcomes of the targets worked on so far, in configured order.
    pub fn outcomes(&self) -> (r: &Vec<TargetOutcome>)
        ensures
            r@ == self@.outcomes,
    {
        &self.outcomes
    }

    fn render(&self, template: &str, target: &str) -> (r: String)
        ensures
            r@ == substituted(template@, target_vars(self@.config, self@.version, target@)),
    {
        let vars = [
            ("target", target),
            ("binary", self.config.project.binary()),
            ("version", self.version.as_str()),
        ];
        assert(bindings(vars@) =~= target_vars(self@.config, self@.version, target@));
        substitute(template, &vars)
    }

    fn build_command(&self, target: &str) -> (r: Option<CommandLine>)
        requires
            self@.config.build.command is Some,
        ensures
            ({
                let w = build_words(
                    self@.config,
                    self@.version,
                    self@.host,
                    self@.cross_builder,
                    target@,
                );
                match r {
                    Some(c) => w.len() > 0 && c@ == (CommandLineView {
                        dir: None,
                        program: w[0],
                        args: w.skip(1),
                    }),
                    None => w.len() == 0,
                }
            }),
    {
        let template = match &self.config.build.command {
            Some(c) => c.as_str(),
            None => "",
        };
        let rendered = self.render(template, target);
        let host: Option<&str> = match &self.host {
            Some(h) => Some(h.as_str()),
            None => None,
        };
        let chosen = select_build_invocation(rendered.as_str(), host, target, self.cross_builder);
        let pieces = split_words(&to_chars(chosen.as_str()));
        if pieces.len() == 0 {
            return None;
        }
        let program = string_of(&pieces[0]);
        let mut args: Vec<String> = Vec::new();
        let mut i: usize = 1;
        while i < pieces.len()
            invariant
                1 <= i <= pieces.len(),
                args@.len() == i - 1,
                forall|j: int| 0 <= j < i - 1 ==> args@[j]@ == pieces@[j + 1]@,
            decreases pieces.len() - i,
        {
            args.push(string_of(&pieces[i]));
            i = i + 1;
        }
        let c = CommandLine { dir: None, program, args };
        proof {
            let w = rows(pieces@);
            assert(w[0] == pieces@[0]@);
            assert(c@.args =~= w.skip(1));
        }
        Some(c)
    }

    fn expected_artifact(&self, target: &str) -> (r: String)
        ensures
            r@ == artifact_path(self@.config, self@.version, target@),
    {
        proof {
            use_type_invariant(self);
        }
        match &self.config.build.command {
            Some(_) => {
                let template = match &self.config.build.artifact {
                    Some(a) => a.as_str(),
                    None => "",
                };
                self.render(template, target)
            },
            None => {
                let template = match &self.config.build.pre_built_dir {
                    Some(d) => d.as_str(),
                    None => "",
                };
                let dir = self.render(template, target);
                let mut name = self.config.project.binary().to_owned();
                name.append("-");
                name.append(target);
                join_path(dir.as_str(), name.as_str())
            },
        }
    }

    fn has_outcome(&self, archived: bool) -> (b: bool)
        ensures
            b == any_outcome(self@.outcomes, archived),
    {
        let mut i: usize = 0;
        while i < self.outcomes.len()
            invariant
                i <= self.outcomes.len(),
                forall|j: int|
                    0 <= j < i ==> (#[trigger] self.outcomes@[j] == TargetOutcome::Archived)
                        != archived,
            decreases self.outcomes.len() - i,
        {
            if (self.outcomes[i] == TargetOutcome::Archived) == archived {
                return true;
            }
            i = i + 1;
        }
        false
    }

    fn targets_where(&self, archived: bool) -> (r: Vec<String>)
        ensures
            views(r@) == targets_at(self@.targets(), indices_where(self@.outcomes, archived)),
    {
        proof {
            use_type_invariant(self);
        }
        let mut out: Vec<String> = Vec::new();
        let mut i: usize = 0;
        assert(self.outcomes@.take(0) =~= Seq::<TargetOutcome>::empty());
        assert(views(out@) =~= targets_at(self@.targets(), Seq::<int>::empty()));
        while i < self.outcomes.len()
            invariant
                i <= self.outcomes.len(),
                self.outcomes@.len() <= self.config.build.targets@.len(),
                out@.len() == indices_where(self.outcomes@.take(i as int), archived).len(),
                views(out@) == targets_at(
                    self@.targets(),
                    indices_where(self.outcomes@.take(i as int), archived),
                ),
            decreases self.outcomes.len() - i,
        {
            let ghost before = views(out@);
            let ghost indices = indices_where(self.outcomes@.take(i as int), archived);
            assert(self.outcomes@.take(i + 1).drop_last() == self.outcomes@.take(i as int));
            if (self.outcomes[i] == TargetOutcome::Archived) == archived {
                out.push(self.config.build.targets[i].clone());
                assert forall|k: int| 0 <= k < out@.len() implies views(out@)[k] == targets_at(
                    self@.targets(),
                    indices.push(i as int),
                )[k] by {
                    if k < indices.len() {
                        assert(views(out@)[k] == before[k]);
                    } else {
                        assert(self@.targets()[i as int] == self.config.build.targets@[i as int]@);
                    }
                }
                assert(views(out@) =~= targets_at(self@.targets(), indices.push(i as int)));
            }
            i = i + 1;
        }
        assert(self.outcomes@.take(self.outcomes.len() as int) == self.outcomes@);
        out
    }

    /// The targets that were archived so far, in configured order.
    pub fn succeeded_targets(&self) -> (r: Vec<String>)
        ensures
            views(r@) == self@.succeeded(),
    {
        self.targets_where(true)
    }

    /// The targets that failed so far, in configured order.
    pub fn failed_targets(&self) -> (r: Vec<String>)
        ensures
            views(r@) == self@.failed(),
    {
        self.targets_where(false)
    }

    /// The archives built so far, in configured order.
    pub fn archives(&self) -> (r: Vec<BuildArtifact>)
        ensures
            artifact_views(r@) == self@.archives(),
    {
        let names = self.succeeded_targets();
        let mut out: Vec<BuildArtifact> = Vec::new();
        let mut i: usize = 0;
        while i < names.len()
            invariant
                i <= names.len(),
                out@.len() == i,
                views(names@) == self@.succeeded(),
                forall|k: int|
                    0 <= k < i ==> out@[k]@ == artifact_of(
                        self@.config,
                        self@.version,
                        names@[k]@,
                    ),
            decreases names.len() - i,
        {
            let name = archive_name(
                self.config.project.binary(),
                self.version.as_str(),
                names[i].as_str(),
            );
            let path = join_path(STAGING_DIR, name.as_str());
            out.push(BuildArtifact { target: names[i].clone(), path });
            i = i + 1;
        }
        proof {
            assert forall|k: int| 0 <= k < names@.len() implies artifact_views(out@)[k]
                == self@.archives()[k] by {
                assert(views(names@)[k] == names@[k]@);
            }
            assert(artifact_views(out@) =~= self@.archives());
        }
        out
    }

    fn wants_listing(&self) -> (b: bool)
        ensures
            b == self@.wants_listing(),
    {
        match &self.config.build.command {
            Some(c) => contains(&to_chars(c.as_str()), &to_chars("cargo")),
            None => false,
        }
    }

    fn report_text(&self, installed: &TargetSet) -> (r: String)
        ensures
            r@ == self@.report(installed@),
    {
        let failed = self.failed_targets();
        let succeeded = self.succeeded_targets();
        let mut expected: Vec<String> = Vec::new();
        let mut i: usize = 0;
        while i < failed.len()
            invariant
                i <= failed.len(),
                expected@.len() == i,
                forall|k: int|
                    0 <= k < i ==> expected@[k]@ == artifact_path(
                        self@.config,
                        self@.version,
                        failed@[k]@,
                    ),
            decreases failed.len() - i,
        {
            expected.push(self.expected_artifact(failed[i].as_str()));
            i = i + 1;
        }
        proof {
            let want = Seq::new(
                self@.failed().len(),
                |k: int| artifact_path(self@.config, self@.version, self@.failed()[k]),
            );
            assert forall|k: int| 0 <= k < failed@.len() implies views(expected@)[k]
                == want[k] by {
                assert(views(failed@)[k] == failed@[k]@);
            }
            assert(views(expected@) =~= want);
        }
        let dir = self.config.build.pre_built_dir.clone();
        let sorted = self.wants_listing();
        let t = triage(
            self.config.build.targets.len(),
            failed,
            succeeded,
            sorted,
            installed,
            dir,
            expected,
        );
        t.render()
    }

    fn begin_target(&mut self) -> (r: Result<Effect, ReleaseError>)
        requires
            old(self)@.outcomes.len() < old(self)@.targets().len(),
        ensures
            (final(self)@, result_view(r)) == old(self)@.begin_target(),
    {
        proof {
            use_type_invariant(&*self);
        }
        let index = self.outcomes.len();
        assert(self@.current() == self.config.build.targets@[index as int]@);
        if self.config.build.command.is_some() {
            let command = self.build_command(self.config.build.targets[index].as_str());
            match command {
                Some(c) => {
                    self.phase = Phase::Building;
                    Ok(Effect::Run(c))
                },
                None => {
                    self.phase = Phase::Failed;
                    Err(ReleaseError::BuildFailed { detail: MSG_EMPTY_COMMAND.to_owned() })
                },
            }
        } else {
            let path = self.expected_artifact(self.config.build.targets[index].as_str());
            self.phase = Phase::Probing;
            Ok(Effect::Probe { path })
        }
    }

    fn settle(&mut self, outcome: TargetOutcome) -> (r: Result<Effect, ReleaseError>)
        requires
            old(self)@.outcomes.len() < old(self)@.targets().len(),
        ensures
            (final(self)@, result_view(r)) == old(self)@.settle(outcome),
    {
        proof {
            use_type_invariant(&*self);
        }
        self.phase = Phase::Failed;
        let mut outcomes: Vec<TargetOutcome> = Vec::new();
        core::mem::swap(&mut outcomes, &mut self.outcomes);
        outcomes.push(outcome);
        self.outcomes = outcomes;
        if self.outcomes.len() < self.config.build.targets.len() {
            return self.begin_target();
        }
        if !self.has_outcome(true) {
            return Err(ReleaseError::AllTargetsFailed);
        }
        if !self.has_outcome(false) {
            self.phase = Phase::Complete;
            return Ok(Effect::Done);
        }
        if self.wants_listing() {
            self.phase = Phase::Listing;
            let c = command_line("rustup", &["target", "list", "--installed"]);
            assert(c@.args =~= listing_query().args);
            return Ok(Effect::Run(c));
        }
        let nothing = TargetSet::new();
        let report = self.report_text(&nothing);
        self.phase = Phase::Confirming;
        Ok(Effect::Ask { report, prompt: PROMPT.to_owned() })
    }

    /// Takes the event that answers the pending effect and gives the next
    /// effect, or the error the pipeline ends with.
    pub fn step(&mut self, event: &Event) -> (r: Result<Effect, ReleaseError>)
        ensures
            (final(self)@, result_view(r)) == old(self)@.advance(event@),
            final(self)@.wf(),
            final(self)@.config == old(self)@.config,
            final(self)@.version == old(self)@.version,
    {
        proof {
            use_type_invariant(&*self);
            lemma_advance_keeps_release(self@, event@);
        }
        let r = self.advance(event);
        proof {
            use_type_invariant(&*self);
        }
        r
    }

    fn advance(&mut self, event: &Event) -> (r: Result<Effect, ReleaseError>)
        ensures
            (final(self)@, result_view(r)) == old(self)@.advance(event@),
    {
        proof {
            use_type_invariant(&*self);
            reveal(PipelineView::advance);
        }
        match (self.phase, event) {
            (Phase::Idle, Event::Start) => {
                self.phase = Phase::Staging;
                Ok(Effect::MakeDir { path: STAGING_DIR.to_owned() })
            },
            (Phase::Staging, Event::Staged { canonical }) => {
                match canonical {
                    Some(dir) => {
                        self.staging = dir.clone();
                        self.phase = Phase::HostQuery;
                        let c = command_line("rustc", &["-vV"]);
                        assert(c@.args =~= host_query().args);
                        Ok(Effect::Run(c))
                    },
                    None => {
                        self.phase = Phase::Failed;
                        Err(ReleaseError::BuildFailed { detail: MSG_NO_STAGING.to_owned() })
                    },
                }
            },
            (Phase::HostQuery, Event::Ran(out)) => {
                let host = if out.success {
                    parse_host_target(out.stdout.as_str())
                } else {
                    None
                };
                self.host = host;
                self.phase = Phase::WrapperQuery;
                let c = command_line("cargo-zigbuild", &["--version"]);
                assert(c@.args =~= wrapper_query().args);
                Ok(Effect::Run(c))
            },
            (Phase::WrapperQuery, Event::Ran(out)) => {
                self.cross_builder = out.success;
                self.begin_target()
            },
            (Phase::Building, Event::Ran(out)) => {
                if out.success {
                    let index = self.outcomes.len();
                    assert(self@.current() == self.config.build.targets@[index as int]@);
                    let path = self.expected_artifact(
                        self.config.build.targets[index].as_str(),
                    );
                    self.phase = Phase::Probing;
                    Ok(Effect::Probe { path })
                } else {
                    self.settle(TargetOutcome::BuildFailed)
                }
            },
            (Phase::Probing, Event::Probed { exists, parent, file_name }) => {
                if !*exists {
                    self.settle(TargetOutcome::ArtifactMissing)
                } else {
                    match file_name {
                        Some(f) => {
                            let index = self.outcomes.len();
                            assert(self@.current() == self.config.build.targets@[index as int]@);
                            let name = archive_name(
                                self.config.project.binary(),
                                self.version.as_str(),
                                self.config.build.targets[index].as_str(),
                            );
                            let root = match parent {
                                Some(p) => if p.as_str().unicode_len() > 0 {
                                    p.clone()
                                } else {
                                    ".".to_owned()
                                },
                                None => ".".to_owned(),
                            };
                            let mut args: Vec<String> = Vec::new();
                            args.push("czf".to_owned());
                            args.push(join_path(self.staging.as_str(), name.as_str()));
                            args.push(f.clone());
                            let c = CommandLine {
                                dir: Some(root),
                                program: "tar".to_owned(),
                                args,
                            };
                            assert(c@.args =~= archive_command(
                                self@.staging,
                                name@,
                                opt_view(*parent),
                                f@,
                            ).args);
                            self.phase = Phase::Archiving;
                            Ok(Effect::Run(c))
                        },
                        None => {
                            self.phase = Phase::Failed;
                            Err(
                                ReleaseError::BuildFailed {
                                    detail: MSG_NO_FILE_NAME.to_owned(),
                                },
                            )
                        },
                    }
                }
            },
            (Phase::Archiving, Event::Ran(out)) => {
                if out.success {
                    self.settle(TargetOutcome::Archived)
                } else {
                    let mut detail = MSG_TAR_FAILED.to_owned();
                    detail.append(out.stderr.as_str());
                    self.phase = Phase::Failed;
                    Err(ReleaseError::BuildFailed { detail })
                }
            },
            (Phase::Listing, Event::Ran(out)) => {
                let installed = if out.success {
                    parse_installed_targets(out.stdout.as_str())
                } else {
                    TargetSet::new()
                };
                let report = self.report_text(&installed);
                self.phase = Phase::Confirming;
                Ok(Effect::Ask { report, prompt: PROMPT.to_owned() })
            },
            (Phase::Confirming, Event::Answered { answer }) => {
                if is_affirmative(answer.as_str()) {
                    self.phase = Phase::Complete;
                    Ok(Effect::Done)
                } else {
                    self.phase = Phase::Failed;
                    Err(ReleaseError::UserAborted)
                }
            },
            _ => Err(ReleaseError::OutOfTurn),
        }
    }
}

/// The indices picked by `indices_where` are those of the outcomes asked
/// for, each of them once, in rising order.
pub proof fn lemma_indices_where(outcomes: Seq<TargetOutcome>, archived: bool)
    ensures
        forall|k: int|
            0 <= k < indices_where(outcomes, archived).len() ==> {
                let i = #[trigger] indices_where(outcomes, archived)[k];
                0 <= i < outcomes.len() && (outcomes[i] == TargetOutcome::Archived) == archived
            },
        forall|j: int, k: int|
            0 <= j < k < indices_where(outcomes, archived).len() ==> indices_where(
                outcomes,
                archived,
            )[j] < indices_where(outcomes, archived)[k],
        forall|i: int|
            0 <= i < outcomes.len() && (#[trigger] outcomes[i] == TargetOutcome::Archived)
                == archived ==> indices_where(outcomes, archived).contains(i),
        indices_where(outcomes, archived).len() <= outcomes.len(),
    decreases outcomes.len(),
{
    if outcomes.len() > 0 {
        let init = outcomes.drop_last();
        let before = indices_where(init, archived);
        let all = indices_where(outcomes, archived);
        lemma_indices_where(init, archived);
        assert forall|i: int|
            0 <= i < outcomes.len() && (#[trigger] outcomes[i] == TargetOutcome::Archived)
                == archived implies all.contains(i) by {
            if i < init.len() {
                assert(init[i] == outcomes[i]);
                let k = choose|k: int| 0 <= k < before.len() && before[k] == i;
                assert(all[k] == i);
            } else {
                assert(all[before.len() as int] == i);
            }
        }
        assert forall|k: int| 0 <= k < all.len() implies {
            let i = #[trigger] all[k];
            0 <= i < outcomes.len() && (outcomes[i] == TargetOutcome::Archived) == archived
        } by {
            if k < before.len() {
                assert(all[k] == before[k]);
                assert(init[before[k]] == outcomes[before[k]]);
            }
        }
        assert forall|j: int, k: int| 0 <= j < k < all.len() implies all[j] < all[k] by {
            assert(all[j] == before[j]);
            if k < before.len() {
                assert(all[k] == before[k]);
            }
        }
    }
}

/// A target whose artifact was archived stands among the archives exactly
/// once: at one position, and at no other.
pub proof fn lemma_archived_once(s: PipelineView, i: int)
    requires
        s.wf(),
        0 <= i < s.outcomes.len(),
        s.outcomes[i] == TargetOutcome::Archived,
    ensures
        exists|k: int|
            0 <= k < s.archives().len() && indices_where(s.outcomes, true)[k] == i
                && #[trigger] s.archives()[k] == artifact_of(
                s.config,
                s.version,
                s.targets()[i],
            ) && forall|j: int|
                0 <= j < s.archives().len() && j != k ==> indices_where(s.outcomes, true)[j]
                    != i,
{
    lemma_indices_where(s.outcomes, true);
    let indices = indices_where(s.outcomes, true);
    assert(indices.contains(i));
    let k = choose|k: int| 0 <= k < indices.len() && indices[k] == i;
    assert(s.succeeded()[k] == s.targets()[i]);
    assert(s.archives()[k] == artifact_of(s.config, s.version, s.targets()[i]));
    assert forall|j: int| 0 <= j < s.archives().len() && j != k implies indices[j] != i by {
        if j < k {
            assert(indices[j] < indices[k]);
        } else {
            assert(indices[k] < indices[j]);
        }
    }
}

/// There are as many archives as targets with an archived artifact, and
/// there is one exactly when some target has one.
pub proof fn lemma_archives_count(s: PipelineView)
    ensures
        s.archives().len() == indices_where(s.outcomes, true).len(),
        s.archives().len() > 0 <==> any_outcome(s.outcomes, true),
{
    lemma_indices_where(s.outcomes, true);
    let indices = indices_where(s.outcomes, true);
    if indices.len() > 0 {
        let i = indices[0];
        assert((s.outcomes[i] == TargetOutcome::Archived) == true);
    }
    if any_outcome(s.outcomes, true) {
        let i = choose|i: int|
            0 <= i < s.outcomes.len() && (#[trigger] s.outcomes[i] == TargetOutcome::Archived)
                == true;
        assert(indices.contains(i));
    }
}

/// A pipeline that has ended without an error holds at least one archive.
pub proof fn lemma_complete_has_archives(s: PipelineView)
    requires
        s.wf(),
        s.phase == Phase::Complete,
    ensures
        s.archives().len() > 0,
{
    lemma_archives_count(s);
}

/// No step changes what is being released: the configuration and the
/// version stay.
pub proof fn lemma_advance_keeps_release(s: PipelineView, event: EventView)
    ensures
        s.advance(event).0.config == s.config,
        s.advance(event).0.version == s.version,
{
    reveal(PipelineView::advance);
}

/// An event that answers nothing leaves the state as it is.
pub proof fn lemma_out_of_turn(s: PipelineView, event: EventView)
    requires
        s.advance(event).1 == Err::<EffectView, ReleaseErrorView>(ReleaseErrorView::OutOfTurn),
    ensures
        s.advance(event).0 == s,
{
    reveal(PipelineView::advance);
}

/// The first step asks for the staging directory.
pub proof fn lemma_first_step(s: PipelineView)
    requires
        s.phase == Phase::Idle,
    ensures
        s.advance(EventView::Start) == (
            s.at(Phase::Staging),
            Ok::<EffectView, ReleaseErrorView>(EffectView::MakeDir { path: STAGING_DIR@ }),
        ),
{
    reveal(PipelineView::advance);
}

/// Every step leads from a well-formed state to a well-formed state.
pub proof fn lemma_advance_keeps_wf(s: PipelineView, event: EventView)
    requires
        s.wf(),
    ensures
        s.advance(event).0.wf(),
{
    reveal(PipelineView::advance);
    let post = s.advance(event).0;
    match (s.phase, event) {
        (Phase::WrapperQuery, EventView::Ran(out)) => {},
        (Phase::Building, EventView::Ran(out)) => {
            if !out.success {
                lemma_settle_keeps_wf(s, TargetOutcome::BuildFailed);
            }
        },
        (Phase::Probing, EventView::Probed { exists, parent, file_name }) => {
            if !exists {
                lemma_settle_keeps_wf(s, TargetOutcome::ArtifactMissing);
            }
        },
        (Phase::Archiving, EventView::Ran(out)) => {
            if out.success {
                lemma_settle_keeps_wf(s, TargetOutcome::Archived);
            }
        },
        _ => {},
    }
}

/// Recording an outcome leads from a well-formed state to a well-formed
/// state.
pub proof fn lemma_settle_keeps_wf(s: PipelineView, outcome: TargetOutcome)
    requires
        s.wf(),
        s.outcomes.len() < s.targets().len(),
    ensures
        s.settle(outcome).0.wf(),
{
}

/// Recording the last outcome where no target was archived is the error
/// that all targets failed; it ends the pipeline without an error only where
/// an archive is held.
pub proof fn lemma_settle_never_empty(s: PipelineView, outcome: TargetOutcome)
    requires
        s.wf(),
        s.outcomes.len() < s.targets().len(),
    ensures
        s.settle(outcome).0.outcomes == s.outcomes.push(outcome),
        s.settle(outcome).1 == Ok::<EffectView, ReleaseErrorView>(EffectView::Done)
            ==> s.settle(outcome).0.phase == Phase::Complete,
        s.outcomes.len() + 1 == s.targets().len() && !any_outcome(
            s.outcomes.push(outcome),
            true,
        ) ==> s.settle(outcome).1 == Err::<EffectView, ReleaseErrorView>(
            ReleaseErrorView::AllTargetsFailed,
        ),
{
}

/// The pipeline ends without an error only where it holds an archive.
pub proof fn lemma_done_has_archives(s: PipelineView, event: EventView)
    requires
        s.wf(),
        s.advance(event).1 == Ok::<EffectView, ReleaseErrorView>(EffectView::Done),
    ensures
        s.advance(event).0.phase == Phase::Complete,
        s.advance(event).0.archives().len() > 0,
{
    reveal(PipelineView::advance);
    lemma_advance_keeps_wf(s, event);
    match (s.phase, event) {
        (Phase::Building, EventView::Ran(out)) => {
            if !out.success {
                lemma_settle_never_empty(s, TargetOutcome::BuildFailed);
            }
        },
        (Phase::Probing, EventView::Probed { exists, parent, file_name }) => {
            if !exists {
                lemma_settle_never_empty(s, TargetOutcome::ArtifactMissing);
            }
        },
        (Phase::Archiving, EventView::Ran(out)) => {
            if out.success {
                lemma_settle_never_empty(s, TargetOutcome::Archived);
            }
        },
        _ => {},
    }
    lemma_archives_count(s.advance(event).0);
}

/// Where a step finishes the last target and no target was archived, the
/// step is the error that all targets failed: no empty set of archives is
/// ever handed on.
pub proof fn lemma_all_failed_is_error(s: PipelineView, event: EventView)
    requires
        s.wf(),
        s.outcomes.len() < s.targets().len(),
        s.advance(event).0.outcomes.len() == s.targets().len(),
        !any_outcome(s.advance(event).0.outcomes, true),
    ensures
        s.advance(event).1 == Err::<EffectView, ReleaseErrorView>(
            ReleaseErrorView::AllTargetsFailed,
        ),
{
    reveal(PipelineView::advance);
    match (s.phase, event) {
        (Phase::Building, EventView::Ran(out)) => {
            if !out.success {
                lemma_settle_never_empty(s, TargetOutcome::BuildFailed);
            }
        },
        (Phase::Probing, EventView::Probed { exists, parent, file_name }) => {
            if !exists {
                lemma_settle_never_empty(s, TargetOutcome::ArtifactMissing);
            }
        },
        (Phase::Archiving, EventView::Ran(out)) => {
            if out.success {
                lemma_settle_never_empty(s, TargetOutcome::Archived);
            }
        },
        _ => {},
    }
}

/// An artifact that was found and archived is kept: the step that takes the
/// archiver's success records the target as archived, and from then on its
/// archive stands among the archives exactly once.
pub proof fn lemma_archive_is_kept(s: PipelineView, out: CommandOutputView)
    requires
        s.wf(),
        s.phase == Phase::Archiving,
        out.success,
    ensures
        s.advance(EventView::Ran(out)).0.outcomes == s.outcomes.push(TargetOutcome::Archived),
        exists|k: int|
            0 <= k < s.advance(EventView::Ran(out)).0.archives().len() && #[trigger] s.advance(
                EventView::Ran(out),
            ).0.archives()[k] == artifact_of(s.config, s.version, s.current()) && indices_where(
                s.advance(EventView::Ran(out)).0.outcomes,
                true,
            )[k] == s.outcomes.len(),
{
    reveal(PipelineView::advance);
    let post = s.advance(EventView::Ran(out)).0;
    lemma_settle_never_empty(s, TargetOutcome::Archived);
    lemma_settle_keeps_wf(s, TargetOutcome::Archived);
    lemma_advance_keeps_release(s, EventView::Ran(out));
    lemma_archived_once(post, s.outcomes.len() as int);
}

/// The state a pipeline is in after it has taken the events in order.
pub open spec fn state_after(start: PipelineView, events: Seq<EventView>) -> PipelineView
    decreases events.len(),
{
    if events.len() == 0 {
        start
    } else {
        state_after(start, events.drop_last()).advance(events.last()).0
    }
}

/// Whatever the events are, a pipeline stays well formed, and it has ended
/// without an error only if it holds an archive: there is no success with an
/// empty set of archives.
pub proof fn lemma_no_empty_success(start: PipelineView, events: Seq<EventView>)
    requires
        start.wf(),
    ensures
        state_after(start, events).wf(),
        state_after(start, events).phase == Phase::Complete ==> state_after(
            start,
            events,
        ).archives().len() > 0,
    decreases events.len(),
{
    if events.len() > 0 {
        lemma_no_empty_success(start, events.drop_last());
        lemma_advance_keeps_wf(state_after(start, events.drop_last()), events.last());
    }
    if state_after(start, events).phase == Phase::Complete {
        lemma_complete_has_archives(state_after(start, events));
    }
}

} // verus!
