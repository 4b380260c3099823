//! The data that an export works on: channels, messages, pages and errors.

use crate::timestamp::Timestamp;
use vstd::prelude::*;

verus! {

/// The view of an optional text.
pub open spec fn text_view(text: Option<String>) -> Option<Seq<char>> {
    match text {
        Some(t) => Some(t@),
        None => None,
    }
}

/// A conversation of the workspace.
///
/// The id is the server's opaque name for it; the name is what its archive
/// directory is called.
#[derive(Debug, PartialEq, Eq)]
pub struct Channel {
    pub id: String,
    pub name: String,
}

/// The mathematical value of a [`Channel`].
pub struct ChannelView {
    pub id: Seq<char>,
    pub name: Seq<char>,
}

impl View for Channel {
    type V = ChannelView;

    open spec fn view(&self) -> ChannelView {
        ChannelView { id: self.id@, name: self.name@ }
    }
}

impl Clone for Channel {
    fn clone(&self) -> (r: Self)
        ensures
            r == *self,
    {
        Channel { id: self.id.clone(), name: self.name.clone() }
    }
}

/// The views of a list of channels, in order.
pub open spec fn channels_view(channels: Seq<Channel>) -> Seq<ChannelView> {
    Seq::new(channels.len(), |i: int| channels[i]@)
}

/// One message of a channel's history.
#[derive(Debug, PartialEq, Eq)]
pub struct Message {
    /// The member `client_msg_id`, or else `id`, where the message has one.
    pub id: Option<String>,
    /// The member `text`.
    pub text: String,
    /// The member `ts`, read as decimal seconds since the epoch.
    pub timestamp: Timestamp,
}

/// The mathematical value of a [`Message`].
pub struct MessageView {
    pub id: Option<Seq<char>>,
    pub text: Seq<char>,
    pub timestamp: Timestamp,
}

impl View for Message {
    type V = MessageView;

    open spec fn view(&self) -> MessageView {
        MessageView { id: text_view(self.id), text: self.text@, timestamp: self.timestamp }
    }
}

/// The views of a list of messages, in order.
pub open spec fn messages_view(messages: Seq<Message>) -> Seq<MessageView> {
    Seq::new(messages.len(), |i: int| messages[i]@)
}

/// One accepted response of the history endpoint.
#[derive(Debug, PartialEq, Eq)]
pub struct HistoryPage {
    pub messages: Vec<Message>,
    /// Whether the server has more pages after this one.
    pub has_more: bool,
    /// The cursor that the page gives to ask for the next one with.
    pub next_cursor: Option<String>,
}

/// The mathematical value of a [`HistoryPage`].
pub struct HistoryPageView {
    pub messages: Seq<MessageView>,
    pub has_more: bool,
    pub next_cursor: Option<Seq<char>>,
}

impl View for HistoryPage {
    type V = HistoryPageView;

    open spec fn view(&self) -> HistoryPageView {
        HistoryPageView {
            messages: messages_view(self.messages@),
            has_more: self.has_more,
            next_cursor: text_view(self.next_cursor),
        }
    }
}

impl HistoryPageView {
    /// The cursor to ask the next page with: the page's own, where the server
    /// has more pages and has issued one.
    pub open spec fn continuation(self) -> Option<Seq<char>> {
        if self.has_more {
            self.next_cursor
        } else {
            None
        }
    }
}

/// The view of what reading a history page has come to.
pub open spec fn history_result_view(result: Result<HistoryPage, ExportError>) -> Result<
    HistoryPageView,
    ExportErrorView,
> {
    match result {
        Ok(page) => Ok(page@),
        Err(e) => Err(e@),
    }
}

/// The views of a list of pages, in order.
pub open spec fn pages_view(pages: Seq<HistoryPage>) -> Seq<HistoryPageView> {
    Seq::new(pages.len(), |i: int| pages[i]@)
}

/// One accepted response of the channel listing endpoint.
#[derive(Debug, PartialEq, Eq)]
pub struct ChannelPage {
    pub channels: Vec<Channel>,
    /// Whether the server has more pages after this one; `false` where the
    /// response does not say.
    pub has_more: bool,
    /// The cursor that the page gives to ask for the next one with.
    pub next_cursor: Option<String>,
}

/// The mathematical value of a [`ChannelPage`].
pub struct ChannelPageView {
    pub channels: Seq<ChannelView>,
    pub has_more: bool,
    pub next_cursor: Option<Seq<char>>,
}

impl View for ChannelPage {
    type V = ChannelPageView;

    open spec fn view(&self) -> ChannelPageView {
        ChannelPageView {
            channels: channels_view(self.channels@),
            has_more: self.has_more,
            next_cursor: text_view(self.next_cursor),
        }
    }
}

impl ChannelPageView {
    /// The cursor to ask the next page with: the page's own, where the server
    /// has more pages and has issued one.
    pub open spec fn continuation(self) -> Option<Seq<char>> {
        if self.has_more {
            self.next_cursor
        } else {
            None
        }
    }
}

/// The view of what reading a channel page has come to.
pub open spec fn channel_result_view(result: Result<ChannelPage, ExportError>) -> Result<
    ChannelPageView,
    ExportErrorView,
> {
    match result {
        Ok(page) => Ok(page@),
        Err(e) => Err(e@),
    }
}

/// Why a request, a listing or a channel's export failed.
#[derive(Debug, PartialEq, Eq)]
pub enum ExportError {
    /// The API answered with `ok: false`; the text is the reason it gave.
    ApiRejected(String),
    /// The request did not get a response.
    TransportError(String),
    /// The response body does not have the expected shape.
    DecodeError(String),
    /// The archive could not be created or written.
    IoError(String),
}

/// The mathematical value of an [`ExportError`].
pub enum ExportErrorView {
    ApiRejected(Seq<char>),
    TransportError(Seq<char>),
    DecodeError(Seq<char>),
    IoError(Seq<char>),
}

impl View for ExportError {
    type V = ExportErrorView;

    open spec fn view(&self) -> ExportErrorView {
        match self {
            ExportError::ApiRejected(m) => ExportErrorView::ApiRejected(m@),
            ExportError::TransportError(m) => ExportErrorView::TransportError(m@),
            ExportError::DecodeError(m) => ExportErrorView::DecodeError(m@),
            ExportError::IoError(m) => ExportErrorView::IoError(m@),
        }
    }
}

impl ExportErrorView {
    /// The text that the error carries.
    pub open spec fn reason(self) -> Seq<char> {
        match self {
            ExportErrorView::ApiRejected(m) => m,
            ExportErrorView::TransportError(m) => m,
            ExportErrorView::DecodeError(m) => m,
            ExportErrorView::IoError(m) => m,
        }
    }

    /// The line that reports the error: the reason, and for a rejection by
    /// the API the words that say so around it.
    pub open spec fn description(self) -> Seq<char> {
        match self {
            ExportErrorView::ApiRejected(m) => "API failed: `"@ + m + "'"@,
            _ => self.reason(),
        }
    }
}

impl Clone for ExportError {
    fn clone(&self) -> (r: Self)
        ensures
            r == *self,
    {
        match self {
            ExportError::ApiRejected(m) => ExportError::ApiRejected(m.clone()),
            ExportError::TransportError(m) => ExportError::TransportError(m.clone()),
            ExportError::DecodeError(m) => ExportError::DecodeError(m.clone()),
            ExportError::IoError(m) => ExportError::IoError(m.clone()),
        }
    }
}

impl ExportError {
    /// The text that the error carries.
    pub fn reason(&self) -> (r: &String)
        ensures
            r@ == self@.reason(),
    {
        match self {
            ExportError::ApiRejected(m) => m,
            ExportError::TransportError(m) => m,
            ExportError::DecodeError(m) => m,
            ExportError::IoError(m) => m,
        }
    }

    /// The line that reports the error.
    pub fn describe(&self) -> (r: String)
        ensures
            r@ == self@.description(),
    {
        match self {
            ExportError::ApiRejected(m) => {
                let line = "API failed: `".to_owned();
                line.concat(m.as_str()).concat("'")
            },
            _ => self.reason().clone(),
        }
    }
}

} // verus!
