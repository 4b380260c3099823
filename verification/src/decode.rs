//! From response bodies to pages.
//!
//! A body is read as JSON, then held to the shape of the endpoint's
//! response. An answer with `ok: false` is an `ApiRejected` error that carries
//! the server's reason; anything that does not fit the shape is a
//! `DecodeError`. Members that the shape does not name are passed over.

use crate::json::{array_view, lemma_array_view, parsed, Json, JsonView};
use crate::model::{
    channels_view, messages_view, Channel, ChannelPage, ChannelPageView, ChannelView,
    ExportError, ExportErrorView, HistoryPage, HistoryPageView, Message, MessageView,
};
use crate::timestamp::{timestamp_value, Timestamp};
use vstd::prelude::*;

verus! {

/// The reason reported for a rejection that names none.
pub open spec fn fallback_reason() -> Seq<char> {
    "no reason"@
}

/// The error for a member that is missing or has the wrong type.
pub open spec fn invalid_field(key: Seq<char>) -> ExportErrorView {
    ExportErrorView::DecodeError("invalid field `"@ + key + "`"@)
}

/// A member that must be a string.
pub open spec fn required_text(doc: JsonView, key: Seq<char>) -> Result<Seq<char>, ExportErrorView> {
    match doc.field(key) {
        Some(JsonView::Str(text)) => Ok(text),
        _ => Err(invalid_field(key)),
    }
}

/// A member that is a string, `null` or missing.
pub open spec fn optional_text(doc: JsonView, key: Seq<char>) -> Result<
    Option<Seq<char>>,
    ExportErrorView,
> {
    match doc.field(key) {
        None => Ok(None),
        Some(JsonView::Null) => Ok(None),
        Some(JsonView::Str(text)) => Ok(Some(text)),
        _ => Err(invalid_field(key)),
    }
}

/// A member that must be a boolean.
pub open spec fn required_flag(doc: JsonView, key: Seq<char>) -> Result<bool, ExportErrorView> {
    match doc.field(key) {
        Some(JsonView::Bool(flag)) => Ok(flag),
        _ => Err(invalid_field(key)),
    }
}

/// A member that is a boolean, or `null` or missing, which count as `false`.
pub open spec fn optional_flag(doc: JsonView, key: Seq<char>) -> Result<bool, ExportErrorView> {
    match doc.field(key) {
        None => Ok(false),
        Some(JsonView::Null) => Ok(false),
        Some(JsonView::Bool(flag)) => Ok(flag),
        _ => Err(invalid_field(key)),
    }
}

/// A member that must be an array.
pub open spec fn required_items(doc: JsonView, key: Seq<char>) -> Result<
    Seq<JsonView>,
    ExportErrorView,
> {
    match doc.field(key) {
        Some(JsonView::Array(items)) => Ok(items),
        _ => Err(invalid_field(key)),
    }
}

/// The error that an answer with `ok: false` stands for: the member `error`
/// where it is a string, the fallback reason otherwise.
pub open spec fn rejection(doc: JsonView) -> ExportErrorView {
    ExportErrorView::ApiRejected(
        match doc.field("error"@) {
            Some(JsonView::Str(reason)) => reason,
            _ => fallback_reason(),
        },
    )
}

/// The cursor of a response: the string `next_cursor` of the object
/// `response_metadata`. A response without that object may carry the cursor
/// as a member `next_cursor` of its own.
pub open spec fn next_cursor_of(doc: JsonView) -> Result<Option<Seq<char>>, ExportErrorView> {
    match doc.field("response_metadata"@) {
        None => optional_text(doc, "next_cursor"@),
        Some(JsonView::Null) => optional_text(doc, "next_cursor"@),
        Some(meta) => match required_text(meta, "next_cursor"@) {
            Ok(cursor) => Ok(Some(cursor)),
            Err(e) => Err(e),
        },
    }
}

/// The id of a message: its member `client_msg_id`. A message without it
/// may carry the id as a member `id`.
pub open spec fn message_id_of(doc: JsonView) -> Result<Option<Seq<char>>, ExportErrorView> {
    match optional_text(doc, "client_msg_id"@) {
        Err(e) => Err(e),
        Ok(Some(id)) => Ok(Some(id)),
        Ok(None) => optional_text(doc, "id"@),
    }
}

/// The message that a document stands for.
pub open spec fn message_of(doc: JsonView) -> Result<MessageView, ExportErrorView> {
    match message_id_of(doc) {
        Err(e) => Err(e),
        Ok(id) => match required_text(doc, "text"@) {
            Err(e) => Err(e),
            Ok(text) => match required_text(doc, "ts"@) {
                Err(e) => Err(e),
                Ok(ts) => match timestamp_value(ts) {
                    None => Err(invalid_field("ts"@)),
                    Some(timestamp) => Ok(MessageView { id, text, timestamp }),
                },
            },
        },
    }
}

/// The messages that a list of documents stands for, in order; the error of
/// the first document that is no message, where there is one.
pub open spec fn messages_of(items: Seq<JsonView>) -> Result<Seq<MessageView>, ExportErrorView>
    decreases items.len(),
{
    if items.len() == 0 {
        Ok(Seq::empty())
    } else {
        match messages_of(items.drop_last()) {
            Err(e) => Err(e),
            Ok(messages) => match message_of(items.last()) {
                Err(e) => Err(e),
                Ok(message) => Ok(messages.push(message)),
            },
        }
    }
}

/// The channel that a document stands for.
pub open spec fn channel_of(doc: JsonView) -> Result<ChannelView, ExportErrorView> {
    match required_text(doc, "id"@) {
        Err(e) => Err(e),
        Ok(id) => match required_text(doc, "name"@) {
            Err(e) => Err(e),
            Ok(name) => Ok(ChannelView { id, name }),
        },
    }
}

/// The channels that a list of documents stands for, in order; the error of
/// the first document that is no channel, where there is one.
pub open spec fn channels_of(items: Seq<JsonView>) -> Result<Seq<ChannelView>, ExportErrorView>
    decreases items.len(),
{
    if items.len() == 0 {
        Ok(Seq::empty())
    } else {
        match channels_of(items.drop_last()) {
            Err(e) => Err(e),
            Ok(channels) => match channel_of(items.last()) {
                Err(e) => Err(e),
                Ok(channel) => Ok(channels.push(channel)),
            },
        }
    }
}

/// The history page that a response document stands for.
pub open spec fn history_page_of(doc: JsonView) -> Result<HistoryPageView, ExportErrorView> {
    match required_flag(doc, "ok"@) {
        Err(e) => Err(e),
        Ok(false) => Err(rejection(doc)),
        Ok(true) => match required_items(doc, "messages"@) {
            Err(e) => Err(e),
            Ok(items) => match messages_of(items) {
                Err(e) => Err(e),
                Ok(messages) => match required_flag(doc, "has_more"@) {
                    Err(e) => Err(e),
                    Ok(has_more) => match next_cursor_of(doc) {
                        Err(e) => Err(e),
                        Ok(next_cursor) => Ok(HistoryPageView { messages, has_more, next_cursor }),
                    },
                },
            },
        },
    }
}

/// The channel page that a response document stands for.
pub open spec fn channel_page_of(doc: JsonView) -> Result<ChannelPageView, ExportErrorView> {
    match required_flag(doc, "ok"@) {
        Err(e) => Err(e),
        Ok(false) => Err(rejection(doc)),
        Ok(true) => match required_items(doc, "channels"@) {
            Err(e) => Err(e),
            Ok(items) => match channels_of(items) {
                Err(e) => Err(e),
                Ok(channels) => match optional_flag(doc, "has_more"@) {
                    Err(e) => Err(e),
                    Ok(has_more) => match next_cursor_of(doc) {
                        Err(e) => Err(e),
                        Ok(next_cursor) => Ok(ChannelPageView { channels, has_more, next_cursor }),
                    },
                },
            },
        },
    }
}

/// The history page that a response body stands for. A body that is no JSON
/// is a `DecodeError` with the parser's message.
pub open spec fn history_page_of_text(body: Seq<char>) -> Result<HistoryPageView, ExportErrorView> {
    match parsed(body) {
        Err(message) => Err(ExportErrorView::DecodeError(message)),
        Ok(doc) => history_page_of(doc),
    }
}

/// The channel page that a response body stands for. A body that is no JSON
/// is a `DecodeError` with the parser's message.
pub open spec fn channel_page_of_text(body: Seq<char>) -> Result<ChannelPageView, ExportErrorView> {
    match parsed(body) {
        Err(message) => Err(ExportErrorView::DecodeError(message)),
        Ok(doc) => channel_page_of(doc),
    }
}

/// A list that holds a document that is no message stands for that
/// document's error, whatever follows it.
pub proof fn lemma_messages_error_stays(items: Seq<JsonView>, n: int)
    requires
        0 <= n <= items.len(),
        messages_of(items.take(n)) is Err,
    ensures
        messages_of(items) == messages_of(items.take(n)),
    decreases items.len() - n,
{
    if n < items.len() {
        assert(items.take(n + 1).drop_last() == items.take(n));
        lemma_messages_error_stays(items, n + 1);
    } else {
        assert(items.take(n) == items);
    }
}

/// A list that holds a document that is no channel stands for that
/// document's error, whatever follows it.
pub proof fn lemma_channels_error_stays(items: Seq<JsonView>, n: int)
    requires
        0 <= n <= items.len(),
        channels_of(items.take(n)) is Err,
    ensures
        channels_of(items) == channels_of(items.take(n)),
    decreases items.len() - n,
{
    if n < items.len() {
        assert(items.take(n + 1).drop_last() == items.take(n));
        lemma_channels_error_stays(items, n + 1);
    } else {
        assert(items.take(n) == items);
    }
}

fn invalid(key: &str) -> (e: ExportError)
    ensures
        e@ == invalid_field(key@),
{
    let message = "invalid field `".to_owned();
    ExportError::DecodeError(message.concat(key).concat("`"))
}

fn read_text(doc: &Json, key: &str) -> (r: Result<String, ExportError>)
    ensures
        match r {
            Ok(text) => required_text(doc@, key@) == Ok::<Seq<char>, ExportErrorView>(text@),
            Err(e) => required_text(doc@, key@) == Err::<Seq<char>, ExportErrorView>(e@),
        },
{
    match doc.get(key) {
        Some(Json::Str(text)) => Ok(text.clone()),
        _ => Err(invalid(key)),
    }
}

fn read_optional_text(doc: &Json, key: &str) -> (r: Result<Option<String>, ExportError>)
    ensures
        match r {
            Ok(text) => optional_text(doc@, key@) == Ok::<Option<Seq<char>>, ExportErrorView>(
                crate::model::text_view(text),
            ),
            Err(e) => optional_text(doc@, key@) == Err::<Option<Seq<char>>, ExportErrorView>(e@),
        },
{
    match doc.get(key) {
        None => Ok(None),
        Some(Json::Null) => Ok(None),
        Some(Json::Str(text)) => Ok(Some(text.clone())),
        _ => Err(invalid(key)),
    }
}

fn read_flag(doc: &Json, key: &str) -> (r: Result<bool, ExportError>)
    ensures
        match r {
            Ok(flag) => required_flag(doc@, key@) == Ok::<bool, ExportErrorView>(flag),
            Err(e) => required_flag(doc@, key@) == Err::<bool, ExportErrorView>(e@),
        },
{
    match doc.get(key) {
        Some(Json::Bool(flag)) => Ok(*flag),
        _ => Err(invalid(key)),
    }
}

fn read_optional_flag(doc: &Json, key: &str) -> (r: Result<bool, ExportError>)
    ensures
        match r {
            Ok(flag) => optional_flag(doc@, key@) == Ok::<bool, ExportErrorView>(flag),
            Err(e) => optional_flag(doc@, key@) == Err::<bool, ExportErrorView>(e@),
        },
{
    match doc.get(key) {
        None => Ok(false),
        Some(Json::Null) => Ok(false),
        Some(Json::Bool(flag)) => Ok(*flag),
        _ => Err(invalid(key)),
    }
}

fn read_items<'a>(doc: &'a Json, key: &str) -> (r: Result<&'a Vec<Json>, ExportError>)
    ensures
        match r {
            Ok(items) => required_items(doc@, key@) == Ok::<Seq<JsonView>, ExportErrorView>(
                array_view(items@),
            ),
            Err(e) => required_items(doc@, key@) == Err::<Seq<JsonView>, ExportErrorView>(e@),
        },
{
    match doc.get(key) {
        Some(Json::Array(items)) => {
            proof {
                lemma_array_view(*items);
            }
            Ok(items)
        },
        _ => Err(invalid(key)),
    }
}

fn read_rejection(doc: &Json) -> (e: ExportError)
    ensures
        e@ == rejection(doc@),
{
    match doc.get("error") {
        Some(Json::Str(reason)) => ExportError::ApiRejected(reason.clone()),
        _ => ExportError::ApiRejected("no reason".to_owned()),
    }
}

fn read_next_cursor(doc: &Json) -> (r: Result<Option<String>, ExportError>)
    ensures
        match r {
            Ok(cursor) => next_cursor_of(doc@) == Ok::<Option<Seq<char>>, ExportErrorView>(
                crate::model::text_view(cursor),
            ),
            Err(e) => next_cursor_of(doc@) == Err::<Option<Seq<char>>, ExportErrorView>(e@),
        },
{
    match doc.get("response_metadata") {
        None => read_optional_text(doc, "next_cursor"),
        Some(Json::Null) => read_optional_text(doc, "next_cursor"),
        Some(meta) => match read_text(meta, "next_cursor") {
            Ok(cursor) => Ok(Some(cursor)),
            Err(e) => Err(e),
        },
    }
}

/// Reads one message of a history page.
pub fn decode_message(doc: &Json) -> (r: Result<Message, ExportError>)
    ensures
        match r {
            Ok(message) => message_of(doc@) == Ok::<MessageView, ExportErrorView>(message@),
            Err(e) => message_of(doc@) == Err::<MessageView, ExportErrorView>(e@),
        },
{
    let id = match read_optional_text(doc, "client_msg_id") {
        Ok(Some(id)) => Some(id),
        Ok(None) => match read_optional_text(doc, "id") {
            Ok(id) => id,
            Err(e) => { return Err(e); },
        },
        Err(e) => { return Err(e); },
    };
    let text = match read_text(doc, "text") {
        Ok(text) => text,
        Err(e) => { return Err(e); },
    };
    let ts = match read_text(doc, "ts") {
        Ok(ts) => ts,
        Err(e) => { return Err(e); },
    };
    match Timestamp::parse(ts.as_str()) {
        None => Err(invalid("ts")),
        Some(timestamp) => Ok(Message { id, text, timestamp }),
    }
}

/// Reads one channel of a channel page.
pub fn decode_channel(doc: &Json) -> (r: Result<Channel, ExportError>)
    ensures
        match r {
            Ok(channel) => channel_of(doc@) == Ok::<ChannelView, ExportErrorView>(channel@),
            Err(e) => channel_of(doc@) == Err::<ChannelView, ExportErrorView>(e@),
        },
{
    let id = match read_text(doc, "id") {
        Ok(id) => id,
        Err(e) => { return Err(e); },
    };
    match read_text(doc, "name") {
        Ok(name) => Ok(Channel { id, name }),
        Err(e) => Err(e),
    }
}

fn decode_messages(items: &Vec<Json>) -> (r: Result<Vec<Message>, ExportError>)
    ensures
        match r {
            Ok(messages) => messages_of(array_view(items@)) == Ok::<
                Seq<MessageView>,
                ExportErrorView,
            >(messages_view(messages@)),
            Err(e) => messages_of(array_view(items@)) == Err::<Seq<MessageView>, ExportErrorView>(
                e@,
            ),
        },
{
    let ghost docs = array_view(items@);
    let mut messages: Vec<Message> = Vec::new();
    let mut i: usize = 0;
    proof {
        assert(docs.take(0) == Seq::<JsonView>::empty());
        assert(messages_view(messages@) == Seq::<MessageView>::empty());
    }
    while i < items.len()
        invariant
            i <= items.len(),
            docs == array_view(items@),
            messages_of(docs.take(i as int)) == Ok::<Seq<MessageView>, ExportErrorView>(
                messages_view(messages@),
            ),
        decreases items.len() - i,
    {
        proof {
            assert(docs.take(i + 1).drop_last() == docs.take(i as int));
            assert(docs.take(i + 1).last() == items@[i as int]@);
        }
        match decode_message(&items[i]) {
            Ok(message) => {
                let ghost before = messages_view(messages@);
                messages.push(message);
                assert(messages_view(messages@) == before.push(message@));
            },
            Err(e) => {
                proof {
                    lemma_messages_error_stays(docs, i + 1);
                }
                return Err(e);
            },
        }
        i += 1;
    }
    proof {
        assert(docs.take(i as int) == docs);
    }
    Ok(messages)
}

fn decode_channels(items: &Vec<Json>) -> (r: Result<Vec<Channel>, ExportError>)
    ensures
        match r {
            Ok(channels) => channels_of(array_view(items@)) == Ok::<
                Seq<ChannelView>,
                ExportErrorView,
            >(channels_view(channels@)),
            Err(e) => channels_of(array_view(items@)) == Err::<Seq<ChannelView>, ExportErrorView>(
                e@,
            ),
        },
{
    let ghost docs = array_view(items@);
    let mut channels: Vec<Channel> = Vec::new();
    let mut i: usize = 0;
    proof {
        assert(docs.take(0) == Seq::<JsonView>::empty());
        assert(channels_view(channels@) == Seq::<ChannelView>::empty());
    }
    while i < items.len()
        invariant
            i <= items.len(),
            docs == array_view(items@),
            channels_of(docs.take(i as int)) == Ok::<Seq<ChannelView>, ExportErrorView>(
                channels_view(channels@),
            ),
        decreases items.len() - i,
    {
        proof {
            assert(docs.take(i + 1).drop_last() == docs.take(i as int));
            assert(docs.take(i + 1).last() == items@[i as int]@);
        }
        match decode_channel(&items[i]) {
            Ok(channel) => {
                let ghost before = channels_view(channels@);
                channels.push(channel);
                assert(channels_view(channels@) == before.push(channel@));
            },
            Err(e) => {
                proof {
                    lemma_channels_error_stays(docs, i + 1);
                }
                return Err(e);
            },
        }
        i += 1;
    }
    proof {
        assert(docs.take(i as int) == docs);
    }
    Ok(channels)
}

/// Holds a response document of the history endpoint to its shape.
pub fn decode_history_page(doc: &Json) -> (r: Result<HistoryPage, ExportError>)
    ensures
        match r {
            Ok(page) => history_page_of(doc@) == Ok::<HistoryPageView, ExportErrorView>(page@),
            Err(e) => history_page_of(doc@) == Err::<HistoryPageView, ExportErrorView>(e@),
        },
{
    match read_flag(doc, "ok") {
        Err(e) => { return Err(e); },
        Ok(false) => { return Err(read_rejection(doc)); },
        Ok(true) => {},
    }
    let items = match read_items(doc, "messages") {
        Ok(items) => items,
        Err(e) => { return Err(e); },
    };
    let messages = match decode_messages(items) {
        Ok(messages) => messages,
        Err(e) => { return Err(e); },
    };
    let has_more = match read_flag(doc, "has_more") {
        Ok(has_more) => has_more,
        Err(e) => { return Err(e); },
    };
    match read_next_cursor(doc) {
        Ok(next_cursor) => Ok(HistoryPage { messages, has_more, next_cursor }),
        Err(e) => Err(e),
    }
}

/// Holds a response document of the channel listing endpoint to its shape.
pub fn decode_channel_page(doc: &Json) -> (r: Result<ChannelPage, ExportError>)
    ensures
        match r {
            Ok(page) => channel_page_of(doc@) == Ok::<ChannelPageView, ExportErrorView>(page@),
            Err(e) => channel_page_of(doc@) == Err::<ChannelPageView, ExportErrorView>(e@),
        },
{
    match read_flag(doc, "ok") {
        Err(e) => { return Err(e); },
        Ok(false) => { return Err(read_rejection(doc)); },
        Ok(true) => {},
    }
    let items = match read_items(doc, "channels") {
        Ok(items) => items,
        Err(e) => { return Err(e); },
    };
    let channels = match decode_channels(items) {
        Ok(channels) => channels,
        Err(e) => { return Err(e); },
    };
    let has_more = match read_optional_flag(doc, "has_more") {
        Ok(has_more) => has_more,
        Err(e) => { return Err(e); },
    };
    match read_next_cursor(doc) {
        Ok(next_cursor) => Ok(ChannelPage { channels, has_more, next_cursor }),
        Err(e) => Err(e),
    }
}

/// Reads a response body of the history endpoint.
pub fn read_history_page(body: &str) -> (r: Result<HistoryPage, ExportError>)
    ensures
        match r {
            Ok(page) => history_page_of_text(body@) == Ok::<HistoryPageView, ExportErrorView>(
                page@,
            ),
            Err(e) => history_page_of_text(body@) == Err::<HistoryPageView, ExportErrorView>(e@),
        },
{
    match Json::parse(body) {
        Ok(doc) => decode_history_page(&doc),
        Err(message) => Err(ExportError::DecodeError(message)),
    }
}

/// Reads a response body of the channel listing endpoint.
pub fn read_channel_page(body: &str) -> (r: Result<ChannelPage, ExportError>)
    ensures
        match r {
            Ok(page) => channel_page_of_text(body@) == Ok::<ChannelPageView, ExportErrorView>(
                page@,
            ),
            Err(e) => channel_page_of_text(body@) == Err::<ChannelPageView, ExportErrorView>(e@),
        },
{
    match Json::parse(body) {
        Ok(doc) => decode_channel_page(&doc),
        Err(message) => Err(ExportError::DecodeError(message)),
    }
}

} // verus!
