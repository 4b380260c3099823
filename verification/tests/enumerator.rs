use slack_export::enumerator::{Enumeration, Listed};
use slack_export::model::{Channel, ChannelPage, ExportError};
use slack_export::protocol::Event;
use slack_export::request::{Endpoint, Request};

fn listing(cursor: Option<&str>) -> Request {
    let mut params = vec![("types".to_string(), "private_channel,public_channel".to_string())];
    if let Some(c) = cursor {
        params.push(("cursor".to_string(), c.to_string()));
    }
    Request { endpoint: Endpoint::ChannelList, params }
}

fn channel(id: &str, name: &str) -> Channel {
    Channel { id: id.to_string(), name: name.to_string() }
}

fn channels_of(listed: Listed) -> Vec<Channel> {
    match listed {
        Listed::Channels(channels) => channels,
        Listed::Failed(e) => panic!("failed: {:?}", e),
        Listed::Pending(_) => panic!("not over"),
    }
}

fn error_of(listed: Listed) -> ExportError {
    match listed {
        Listed::Failed(e) => e,
        Listed::Channels(channels) => panic!("done: {:?}", channels),
        Listed::Pending(_) => panic!("not over"),
    }
}

#[test]
fn begins_with_a_request_without_cursor() {
    let listing_state = Enumeration::begin();
    assert!(!listing_state.is_over());
    assert_eq!(listing_state.request(), Some(listing(None)));
    match listing_state.finish() {
        Listed::Pending(again) => assert_eq!(again.request(), Some(listing(None))),
        _ => panic!("a listing that has not begun is not over"),
    }
}

#[test]
fn single_page_lists_the_channels() {
    let body = r#"{"ok":true,"channels":[{"id":"C1","name":"general"}]}"#;
    let state = Enumeration::begin().step(Event::Fetched(body.to_string()));
    assert!(state.is_over());
    assert_eq!(state.request(), None);
    assert_eq!(channels_of(state.finish()), vec![channel("C1", "general")]);
}

#[test]
fn channels_keep_the_order_received() {
    let body = r#"{"ok":true,"channels":[{"id":"C9","name":"z"},{"id":"C1","name":"a"},{"id":"C9","name":"z"}]}"#;
    let state = Enumeration::begin().step(Event::Fetched(body.to_string()));
    assert_eq!(
        channels_of(state.finish()),
        vec![channel("C9", "z"), channel("C1", "a"), channel("C9", "z")]
    );
}

#[test]
fn paged_listing_follows_the_cursor() {
    let first = r#"{"ok":true,"channels":[{"id":"C1","name":"a"},{"id":"C2","name":"b"}],"has_more":true,"response_metadata":{"next_cursor":"n1"}}"#;
    let second = r#"{"ok":true,"channels":[{"id":"C3","name":"c"}],"has_more":true,"response_metadata":{"next_cursor":"n2"}}"#;
    let third = r#"{"ok":true,"channels":[{"id":"C4","name":"d"}],"has_more":false,"response_metadata":{"next_cursor":""}}"#;
    let state = Enumeration::begin().step(Event::Fetched(first.to_string()));
    assert!(!state.is_over());
    assert_eq!(state.request(), Some(listing(Some("n1"))));
    let state = state.step(Event::Fetched(second.to_string()));
    assert_eq!(state.request(), Some(listing(Some("n2"))));
    let state = state.step(Event::Fetched(third.to_string()));
    assert_eq!(state.request(), None);
    assert_eq!(
        channels_of(state.finish()),
        vec![channel("C1", "a"), channel("C2", "b"), channel("C3", "c"), channel("C4", "d")]
    );
}

#[test]
fn more_without_cursor_ends_the_listing() {
    let body = r#"{"ok":true,"channels":[{"id":"C1","name":"a"}],"has_more":true}"#;
    let state = Enumeration::begin().step(Event::Fetched(body.to_string()));
    assert!(state.is_over());
    assert_eq!(channels_of(state.finish()), vec![channel("C1", "a")]);
}

#[test]
fn empty_listing_is_done() {
    let state = Enumeration::begin().step(Event::Fetched(r#"{"ok":true,"channels":[]}"#.to_string()));
    assert_eq!(channels_of(state.finish()), Vec::<Channel>::new());
}

#[test]
fn rejection_without_reason_fails_with_the_fallback() {
    let state = Enumeration::begin().step(Event::Fetched(r#"{"ok":false}"#.to_string()));
    assert!(state.is_over());
    assert_eq!(state.request(), None);
    assert_eq!(error_of(state.finish()), ExportError::ApiRejected("no reason".to_string()));
}

#[test]
fn rejection_on_a_later_page_fails_the_listing() {
    let first = r#"{"ok":true,"channels":[{"id":"C1","name":"a"}],"has_more":true,"response_metadata":{"next_cursor":"n1"}}"#;
    let state = Enumeration::begin()
        .step(Event::Fetched(first.to_string()))
        .step(Event::Fetched(r#"{"ok":false,"error":"ratelimited"}"#.to_string()));
    assert_eq!(error_of(state.finish()), ExportError::ApiRejected("ratelimited".to_string()));
}

#[test]
fn lost_request_fails_the_listing() {
    let state = Enumeration::begin().step(Event::FetchFailed("no route".to_string()));
    assert_eq!(error_of(state.finish()), ExportError::TransportError("no route".to_string()));
}

#[test]
fn malformed_body_fails_the_listing() {
    let state = Enumeration::begin().step(Event::Fetched(r#"{"ok":true}"#.to_string()));
    assert_eq!(
        error_of(state.finish()),
        ExportError::DecodeError("invalid field `channels`".to_string())
    );
}

#[test]
fn events_of_the_archive_change_nothing() {
    let state = Enumeration::begin()
        .step(Event::Opened)
        .step(Event::Appended)
        .step(Event::ArchiveFailed("x".to_string()))
        .step(Event::Closed);
    assert_eq!(state.request(), Some(listing(None)));
}

#[test]
fn a_listing_that_is_over_stays_over() {
    let state = Enumeration::begin()
        .step(Event::Fetched(r#"{"ok":true,"channels":[{"id":"C1","name":"a"}]}"#.to_string()))
        .step(Event::Fetched(r#"{"ok":true,"channels":[{"id":"C2","name":"b"}]}"#.to_string()))
        .step(Event::FetchFailed("x".to_string()));
    assert_eq!(channels_of(state.finish()), vec![channel("C1", "a")]);
}

#[test]
fn listing_receive_takes_the_page_as_read() {
    let page = ChannelPage {
        channels: vec![channel("C1", "a")],
        has_more: true,
        next_cursor: Some("n1".to_string()),
    };
    let state = Enumeration::begin().receive(Ok(page));
    assert_eq!(state.request(), Some(listing(Some("n1"))));
    let page = ChannelPage { channels: vec![channel("C2", "b")], has_more: false, next_cursor: None };
    let state = state.receive(Ok(page));
    let page = ChannelPage { channels: vec![channel("C3", "c")], has_more: false, next_cursor: None };
    let state = state.receive(Ok(page));
    assert_eq!(channels_of(state.finish()), vec![channel("C1", "a"), channel("C2", "b")]);
    let state = Enumeration::begin().receive(Err(ExportError::DecodeError("broken".to_string())));
    assert_eq!(error_of(state.finish()), ExportError::DecodeError("broken".to_string()));
}
