//! What the library asks of the world and what the world answers.
//!
//! The library never runs a process, touches a file or reads the terminal.
//! Its state machines hand out an [`Effect`]; whoever drives them performs it
//! and hands back the [`Event`] that tells how it went.

use crate::text::{trim, trimmed, string_of, to_chars, views};
use vstd::prelude::*;

verus! {

/// A process to run: the program, its arguments, and the directory to run it
/// in where that is not the current one.
#[derive(Debug)]
pub struct CommandLine {
    pub dir: Option<String>,
    pub program: String,
    pub args: Vec<String>,
}

/// A [`CommandLine`] as plain values.
pub ghost struct CommandLineView {
    pub dir: Option<Seq<char>>,
    pub program: Seq<char>,
    pub args: Seq<Seq<char>>,
}

/// The view of an optional string.
pub open spec fn opt_view(s: Option<String>) -> Option<Seq<char>> {
    match s {
        Some(t) => Some(t@),
        None => None,
    }
}

impl View for CommandLine {
    type V = CommandLineView;

    open spec fn view(&self) -> CommandLineView {
        CommandLineView {
            dir: opt_view(self.dir),
            program: self.program@,
            args: views(self.args@),
        }
    }
}

/// How a process ended. One that could not be started counts as failed, with
/// the reason in `stderr`.
#[derive(Debug)]
pub struct CommandOutput {
    pub success: bool,
    pub stdout: String,
    pub stderr: String,
}

/// A [`CommandOutput`] as plain values.
pub ghost struct CommandOutputView {
    pub success: bool,
    pub stdout: Seq<char>,
    pub stderr: Seq<char>,
}

impl View for CommandOutput {
    type V = CommandOutputView;

    open spec fn view(&self) -> CommandOutputView {
        CommandOutputView { success: self.success, stdout: self.stdout@, stderr: self.stderr@ }
    }
}

impl CommandOutputView {
    /// The value a successful process reports: its standard output, trimmed.
    pub open spec fn value(self) -> Option<Seq<char>> {
        if self.success {
            Some(trim(self.stdout))
        } else {
            None
        }
    }
}

impl CommandOutput {
    /// The value a successful process reports: its standard output, trimmed.
    pub fn value(&self) -> (r: Option<String>)
        ensures
            opt_view(r) == self@.value(),
    {
        if self.success {
            Some(string_of(&trimmed(&to_chars(self.stdout.as_str()))))
        } else {
            None
        }
    }
}

/// A request to the source host's API.
#[derive(Debug)]
pub struct ApiRequest {
    pub method: String,
    pub url: String,
    pub body: Option<String>,
}

/// An [`ApiRequest`] as plain values.
pub ghost struct ApiRequestView {
    pub method: Seq<char>,
    pub url: Seq<char>,
    pub body: Option<Seq<char>>,
}

impl View for ApiRequest {
    type V = ApiRequestView;

    open spec fn view(&self) -> ApiRequestView {
        ApiRequestView { method: self.method@, url: self.url@, body: opt_view(self.body) }
    }
}

/// A file to attach to a release under a name and a content type.
#[derive(Debug)]
pub struct UploadRequest {
    pub upload_url: String,
    pub file: String,
    pub name: String,
    pub content_type: String,
}

/// An [`UploadRequest`] as plain values.
pub ghost struct UploadRequestView {
    pub upload_url: Seq<char>,
    pub file: Seq<char>,
    pub name: Seq<char>,
    pub content_type: Seq<char>,
}

impl View for UploadRequest {
    type V = UploadRequestView;

    open spec fn view(&self) -> UploadRequestView {
        UploadRequestView {
            upload_url: self.upload_url@,
            file: self.file@,
            name: self.name@,
            content_type: self.content_type@,
        }
    }
}

/// One thing for the driver to do.
#[derive(Debug)]
pub enum Effect {
    /// Create the directory with all its parents; answer with
    /// [`Event::Staged`].
    MakeDir { path: String },
    /// Run the process; answer with [`Event::Ran`].
    Run(CommandLine),
    /// Look at the path; answer with [`Event::Probed`].
    Probe { path: String },
    /// Write the file; answer with [`Event::Written`].
    Write { path: String, content: String },
    /// Send the request with the bearer credential; answer with
    /// [`Event::Ran`], the transfer being a process like any other.
    Api(ApiRequest),
    /// Send the file with the bearer credential; answer with [`Event::Ran`].
    Upload(UploadRequest),
    /// Show the report, then the prompt, and read one line; answer with
    /// [`Event::Answered`].
    Ask { report: String, prompt: String },
    /// Nothing is left to do.
    Done,
}

/// An [`Effect`] as plain values.
pub ghost enum EffectView {
    MakeDir { path: Seq<char> },
    Run(CommandLineView),
    Probe { path: Seq<char> },
    Write { path: Seq<char>, content: Seq<char> },
    Api(ApiRequestView),
    Upload(UploadRequestView),
    Ask { report: Seq<char>, prompt: Seq<char> },
    Done,
}

impl View for Effect {
    type V = EffectView;

    open spec fn view(&self) -> EffectView {
        match self {
            Effect::MakeDir { path } => EffectView::MakeDir { path: path@ },
            Effect::Run(c) => EffectView::Run(c@),
            Effect::Probe { path } => EffectView::Probe { path: path@ },
            Effect::Write { path, content } => EffectView::Write {
                path: path@,
                content: content@,
            },
            Effect::Api(r) => EffectView::Api(r@),
            Effect::Upload(r) => EffectView::Upload(r@),
            Effect::Ask { report, prompt } => EffectView::Ask {
                report: report@,
                prompt: prompt@,
            },
            Effect::Done => EffectView::Done,
        }
    }
}

/// How an effect went.
#[derive(Debug)]
pub enum Event {
    /// The run begins.
    Start,
    /// The directory exists; `canonical` is its absolute path, or `None`
    /// where it could not be made or resolved.
    Staged { canonical: Option<String> },
    /// The process ended.
    Ran(CommandOutput),
    /// Whether the path exists, and how the system splits it into the
    /// containing directory and the file's name.
    Probed { exists: bool, parent: Option<String>, file_name: Option<String> },
    /// Whether the file was written.
    Written { ok: bool },
    /// The line the operator typed.
    Answered { answer: String },
}

/// An [`Event`] as plain values.
pub ghost enum EventView {
    Start,
    Staged { canonical: Option<Seq<char>> },
    Ran(CommandOutputView),
    Probed { exists: bool, parent: Option<Seq<char>>, file_name: Option<Seq<char>> },
    Written { ok: bool },
    Answered { answer: Seq<char> },
}

impl View for Event {
    type V = EventView;

    open spec fn view(&self) -> EventView {
        match self {
            Event::Start => EventView::Start,
            Event::Staged { canonical } => EventView::Staged { canonical: opt_view(*canonical) },
            Event::Ran(o) => EventView::Ran(o@),
            Event::Probed { exists, parent, file_name } => EventView::Probed {
                exists: *exists,
                parent: opt_view(*parent),
                file_name: opt_view(*file_name),
            },
            Event::Written { ok } => EventView::Written { ok: *ok },
            Event::Answered { answer } => EventView::Answered { answer: answer@ },
        }
    }
}

} // verus!
