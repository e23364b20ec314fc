//! The version of a release: given outright, or printed by a command.

use crate::config::Config;
use crate::effect::{CommandLine, CommandLineView, CommandOutput, CommandOutputView};
use crate::error::{ReleaseError, ReleaseErrorView};
use crate::text::{rows, slice_of, split_words, string_of, to_chars, trim, trimmed, words};
use vstd::prelude::*;

verus! {

/// A version without the `v` that tags put in front of it.
pub open spec fn normalized(v: Seq<char>) -> Seq<char> {
    if v.len() > 0 && v[0] == 'v' {
        v.skip(1)
    } else {
        v
    }
}

fn normalize_chars(v: &Vec<char>) -> (r: String)
    ensures
        r@ == normalized(v@),
{
    if v.len() > 0 && v[0] == 'v' {
        let r = slice_of(v, 1, v.len());
        string_of(&r)
    } else {
        string_of(v)
    }
}

/// Strips one leading `v` off a version.
pub fn normalize_version(v: &str) -> (r: String)
    ensures
        r@ == normalized(v@),
{
    normalize_chars(&to_chars(v))
}

/// How the version comes to be known.
#[derive(Debug)]
pub enum VersionStep {
    /// It is known: no command runs.
    Resolved(String),
    /// This command prints it.
    Run(CommandLine),
}

/// A [`VersionStep`] as plain values.
pub ghost enum VersionStepView {
    Resolved(Seq<char>),
    Run(CommandLineView),
}

impl View for VersionStep {
    type V = VersionStepView;

    open spec fn view(&self) -> VersionStepView {
        match self {
            VersionStep::Resolved(v) => VersionStepView::Resolved(v@),
            VersionStep::Run(c) => VersionStepView::Run(c@),
        }
    }
}

/// Why the version is unresolved where the configured command has no word.
pub const MSG_NO_VERSION_COMMAND: &'static str = "empty version_command";

/// Why the version is unresolved where the command failed.
pub const MSG_VERSION_FAILED: &'static str = "could not detect version: the command failed";

/// Why the version is unresolved where the command printed nothing.
pub const MSG_VERSION_EMPTY: &'static str = "could not detect version: the command printed nothing";

/// The command that asks source control for the most recent tag.
pub open spec fn tag_query() -> CommandLineView {
    CommandLineView {
        dir: None,
        program: "git"@,
        args: seq!["describe"@, "--tags"@, "--abbrev=0"@],
    }
}

/// How the version comes to be known: an override stands, normalized;
/// else the configured command prints it; else source control is asked for
/// the most recent tag.
pub open spec fn version_plan(config: Config, version_override: Option<Seq<char>>) -> Result<
    VersionStepView,
    ReleaseErrorView,
> {
    match version_override {
        Some(v) => Ok(VersionStepView::Resolved(normalized(v))),
        None => match config.project.version_command {
            Some(command) => {
                let w = words(command@);
                if w.len() == 0 {
                    Err(ReleaseErrorView::VersionUnresolved { detail: MSG_NO_VERSION_COMMAND@ })
                } else {
                    Ok(
                        VersionStepView::Run(
                            CommandLineView { dir: None, program: w[0], args: w.skip(1) },
                        ),
                    )
                }
            },
            None => Ok(VersionStepView::Run(tag_query())),
        },
    }
}

/// The view of a plan.
pub open spec fn plan_view(r: Result<VersionStep, ReleaseError>) -> Result<
    VersionStepView,
    ReleaseErrorView,
> {
    match r {
        Ok(s) => Ok(s@),
        Err(e) => Err(e@),
    }
}

/// Settles how the version comes to be known.
pub fn detect_version(config: &Config, version_override: Option<&str>) -> (r: Result<
    VersionStep,
    ReleaseError,
>)
    ensures
        plan_view(r) == version_plan(
            *config,
            match version_override {
                Some(v) => Some(v@),
                None => None,
            },
        ),
{
    match version_override {
        Some(v) => Ok(VersionStep::Resolved(normalize_version(v))),
        None => match &config.project.version_command {
            Some(command) => {
                let pieces = split_words(&to_chars(command.as_str()));
                if pieces.len() == 0 {
                    return Err(
                        ReleaseError::VersionUnresolved {
                            detail: MSG_NO_VERSION_COMMAND.to_owned(),
                        },
                    );
                }
                let program = string_of(&pieces[0]);
                let mut args: Vec<String> = Vec::new();
                let mut i: usize = 1;
                while i < pieces.len()
                    invariant
                        1 <= i <= pieces.len(),
                        args@.len() == i - 1,
                        forall|j: int| 0 <= j < i - 1 ==> args@[j]@ == pieces@[j + 1]@,
                    decreases pieces.len() - i,
                {
                    args.push(string_of(&pieces[i]));
                    i = i + 1;
                }
                let c = CommandLine { dir: None, program, args };
                proof {
                    let w = rows(pieces@);
                    assert(c@.args =~= w.skip(1));
                }
                Ok(VersionStep::Run(c))
            },
            None => {
                let mut args: Vec<String> = Vec::new();
                args.push("describe".to_owned());
                args.push("--tags".to_owned());
                args.push("--abbrev=0".to_owned());
                let c = CommandLine { dir: None, program: "git".to_owned(), args };
                assert(c@.args =~= tag_query().args);
                Ok(VersionStep::Run(c))
            },
        },
    }
}

/// The version that a command's output stands for: what it printed,
/// trimmed and normalized. A command that failed or printed nothing leaves
/// the version unresolved.
pub open spec fn version_of_output(out: CommandOutputView) -> Result<
    Seq<char>,
    ReleaseErrorView,
> {
    if !out.success {
        Err(ReleaseErrorView::VersionUnresolved { detail: MSG_VERSION_FAILED@ })
    } else if trim(out.stdout).len() == 0 {
        Err(ReleaseErrorView::VersionUnresolved { detail: MSG_VERSION_EMPTY@ })
    } else {
        Ok(normalized(trim(out.stdout)))
    }
}

/// The view of a version or the error in its place.
pub open spec fn version_view(r: Result<String, ReleaseError>) -> Result<
    Seq<char>,
    ReleaseErrorView,
> {
    match r {
        Ok(s) => Ok(s@),
        Err(e) => Err(e@),
    }
}

/// Reads the version out of the output of the command that prints it.
pub fn version_from_output(out: &CommandOutput) -> (r: Result<String, ReleaseError>)
    ensures
        version_view(r) == version_of_output(out@),
{
    if !out.success {
        return Err(ReleaseError::VersionUnresolved { detail: MSG_VERSION_FAILED.to_owned() });
    }
    let text = trimmed(&to_chars(out.stdout.as_str()));
    if text.len() == 0 {
        return Err(ReleaseError::VersionUnresolved { detail: MSG_VERSION_EMPTY.to_owned() });
    }
    Ok(normalize_chars(&text))
}

} // verus!
