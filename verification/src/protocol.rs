//! What passes between an export and its caller.
//!
//! The export does no input or output itself: it hands out an [`Action`], the
//! caller carries it out and hands back the [`Event`] that says how it went.

use crate::model::{ExportError, ExportErrorView};
use crate::request::{Request, RequestView};
use vstd::prelude::*;

verus! {

/// What the caller reports back.
#[derive(Debug, PartialEq, Eq)]
pub enum Event {
    /// The archive was created, empty.
    Opened,
    /// The request was answered with this body.
    Fetched(String),
    /// The text was appended to the archive.
    Appended,
    /// The request got no response; the text says why.
    FetchFailed(String),
    /// The archive could not be created or written; the text says why.
    ArchiveFailed(String),
    /// The archive was released.
    Closed,
}

/// The mathematical value of an [`Event`].
pub enum EventView {
    Opened,
    Fetched(Seq<char>),
    Appended,
    FetchFailed(Seq<char>),
    ArchiveFailed(Seq<char>),
    Closed,
}

impl View for Event {
    type V = EventView;

    open spec fn view(&self) -> EventView {
        match self {
            Event::Opened => EventView::Opened,
            Event::Fetched(body) => EventView::Fetched(body@),
            Event::Appended => EventView::Appended,
            Event::FetchFailed(m) => EventView::FetchFailed(m@),
            Event::ArchiveFailed(m) => EventView::ArchiveFailed(m@),
            Event::Closed => EventView::Closed,
        }
    }
}

/// What the caller is asked to do next.
#[derive(Debug, PartialEq, Eq)]
pub enum Action<'a> {
    /// Create the directory, if it is not there, and in it the file, empty.
    /// Answer with `Opened` or `ArchiveFailed`.
    Open { directory: &'a str, file: &'a str },
    /// Send the request. Answer with `Fetched` or `FetchFailed`.
    Fetch(Request),
    /// Append the text to the archive as it stands. Answer with `Appended`
    /// or `ArchiveFailed`.
    Append(&'a str),
    /// Release the archive, if it was opened, and report how the export of
    /// the channel has ended: done, or failed with this error. Answer with
    /// `Closed`.
    Close { channel: &'a str, failure: Option<&'a ExportError> },
    /// Nothing is left to do. `success` says whether the channels were
    /// listed and the export of every one of them was done.
    Exit { success: bool },
}

/// The mathematical value of an [`Action`].
pub enum ActionView {
    Open { directory: Seq<char>, file: Seq<char> },
    Fetch(RequestView),
    Append(Seq<char>),
    Close { channel: Seq<char>, failure: Option<ExportErrorView> },
    Exit { success: bool },
}

impl<'a> View for Action<'a> {
    type V = ActionView;

    open spec fn view(&self) -> ActionView {
        match self {
            Action::Open { directory, file } => ActionView::Open {
                directory: directory@,
                file: file@,
            },
            Action::Fetch(request) => ActionView::Fetch(request@),
            Action::Append(text) => ActionView::Append(text@),
            Action::Close { channel, failure } => ActionView::Close {
                channel: channel@,
                failure: match failure {
                    Some(e) => Some(e@),
                    None => None,
                },
            },
            Action::Exit { success } => ActionView::Exit { success: *success },
        }
    }
}

/// How a channel's export ended.
#[derive(Debug, PartialEq, Eq)]
pub enum Outcome {
    /// The last page was appended.
    Done,
    /// The export failed with this error; what was appended before stays.
    Failed(ExportError),
}

/// The mathematical value of an [`Outcome`].
pub enum OutcomeView {
    Done,
    Failed(ExportErrorView),
}

impl View for Outcome {
    type V = OutcomeView;

    open spec fn view(&self) -> OutcomeView {
        match self {
            Outcome::Done => OutcomeView::Done,
            Outcome::Failed(e) => OutcomeView::Failed(e@),
        }
    }
}

} // verus!
