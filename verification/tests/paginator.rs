use slack_export::decode::read_history_page;
use slack_export::model::{Channel, ExportError, HistoryPage};
use slack_export::paginator::ChannelExport;
use slack_export::protocol::{Action, Event, Outcome};
use slack_export::request::{Endpoint, Request};

fn general() -> Channel {
    Channel { id: "C1".to_string(), name: "general".to_string() }
}

fn history(cursor: Option<&str>) -> Request {
    let mut params = vec![("channel".to_string(), "C1".to_string())];
    if let Some(c) = cursor {
        params.push(("cursor".to_string(), c.to_string()));
    }
    Request { endpoint: Endpoint::ChannelHistory, params }
}

fn page(text: &str, ts: &str, has_more: bool, cursor: Option<&str>) -> String {
    let meta = match cursor {
        Some(c) => format!(",\"response_metadata\":{{\"next_cursor\":\"{}\"}}", c),
        None => String::new(),
    };
    format!(
        "{{\"ok\":true,\"messages\":[{{\"text\":\"{}\",\"ts\":\"{}\"}}],\"has_more\":{}{}}}",
        text, ts, has_more, meta
    )
}

struct Trace {
    requests: Vec<Request>,
    archive: String,
    opened: Vec<(String, String)>,
    outcome: Outcome,
    pages: Vec<HistoryPage>,
}

/// Runs the export of `general` against the bodies given, one per request.
fn export(bodies: &[Result<String, String>]) -> Trace {
    let mut session = ChannelExport::begin(general());
    let mut requests = Vec::new();
    let mut archive = String::new();
    let mut opened = Vec::new();
    let mut answers = bodies.iter();
    loop {
        let event = match session.action() {
            Action::Open { directory, file } => {
                opened.push((directory.to_string(), file.to_string()));
                Event::Opened
            }
            Action::Fetch(request) => {
                requests.push(request);
                match answers.next().expect("a request without an answer") {
                    Ok(body) => Event::Fetched(body.clone()),
                    Err(reason) => Event::FetchFailed(reason.clone()),
                }
            }
            Action::Append(text) => {
                archive.push_str(text);
                Event::Appended
            }
            Action::Close { .. } => break,
            Action::Exit { .. } => panic!("a session does not end the export"),
        };
        session = session.step(event);
    }
    assert!(session.is_over());
    assert!(answers.next().is_none());
    let outcome = session.outcome().unwrap();
    let mut pages = Vec::new();
    for p in session.pages() {
        pages.push(HistoryPage {
            messages: Vec::new(),
            has_more: p.has_more,
            next_cursor: p.next_cursor.clone(),
        });
    }
    Trace { requests, archive, opened, outcome, pages }
}

#[test]
fn begins_by_opening_the_archive() {
    let session = ChannelExport::begin(general());
    assert_eq!(session.action(), Action::Open { directory: "general", file: "history" });
    assert_eq!(session.channel(), &general());
    assert!(session.pages().is_empty());
    assert!(!session.is_over());
    assert_eq!(session.outcome(), None);
}

#[test]
fn first_request_has_no_cursor() {
    let session = ChannelExport::begin(general()).step(Event::Opened);
    assert_eq!(session.action(), Action::Fetch(history(None)));
}

#[test]
fn two_pages_then_done() {
    let first = page("hi", "1.0", true, Some("abc"));
    let second = page("bye", "2.0", false, None);
    let trace = export(&[Ok(first.clone()), Ok(second.clone())]);
    assert_eq!(trace.outcome, Outcome::Done);
    assert_eq!(trace.requests, vec![history(None), history(Some("abc"))]);
    assert_eq!(trace.archive, format!("{}{}", first, second));
    assert_eq!(trace.opened, vec![("general".to_string(), "history".to_string())]);
    assert_eq!(trace.pages.len(), 2);
}

#[test]
fn each_request_carries_the_cursor_of_the_page_before() {
    let bodies = vec![
        Ok(page("a", "1", true, Some("c1"))),
        Ok(page("b", "2", true, Some("c2"))),
        Ok(page("c", "3", true, Some("c3"))),
        Ok(page("d", "4", false, Some("c4"))),
    ];
    let trace = export(&bodies);
    assert_eq!(trace.outcome, Outcome::Done);
    assert_eq!(
        trace.requests,
        vec![history(None), history(Some("c1")), history(Some("c2")), history(Some("c3"))]
    );
    assert_eq!(trace.pages.len(), 4);
}

#[test]
fn single_page_is_one_request() {
    let only = page("hi", "1.0", false, None);
    let trace = export(&[Ok(only.clone())]);
    assert_eq!(trace.outcome, Outcome::Done);
    assert_eq!(trace.requests, vec![history(None)]);
    assert_eq!(trace.archive, only);
}

#[test]
fn more_without_cursor_is_done() {
    let only = page("hi", "1.0", true, None);
    let trace = export(&[Ok(only.clone())]);
    assert_eq!(trace.outcome, Outcome::Done);
    assert_eq!(trace.requests, vec![history(None)]);
    assert_eq!(trace.archive, only);
}

#[test]
fn cursor_without_more_is_done() {
    let only = page("hi", "1.0", false, Some("abc"));
    let trace = export(&[Ok(only.clone())]);
    assert_eq!(trace.outcome, Outcome::Done);
    assert_eq!(trace.requests, vec![history(None)]);
    assert_eq!(trace.archive, only);
}

#[test]
fn rejection_fails_at_once() {
    let trace = export(&[Ok("{\"ok\":false,\"error\":\"rate_limited\"}".to_string())]);
    assert_eq!(
        trace.outcome,
        Outcome::Failed(ExportError::ApiRejected("rate_limited".to_string()))
    );
    assert_eq!(trace.requests, vec![history(None)]);
    assert_eq!(trace.archive, "");
    assert_eq!(trace.opened.len(), 1);
    assert!(trace.pages.is_empty());
}

#[test]
fn rejection_keeps_what_was_appended() {
    let first = page("hi", "1.0", true, Some("abc"));
    let trace = export(&[Ok(first.clone()), Ok("{\"ok\":false}".to_string())]);
    assert_eq!(trace.outcome, Outcome::Failed(ExportError::ApiRejected("no reason".to_string())));
    assert_eq!(trace.requests, vec![history(None), history(Some("abc"))]);
    assert_eq!(trace.archive, first);
    assert_eq!(trace.pages.len(), 1);
}

#[test]
fn lost_request_fails() {
    let first = page("hi", "1.0", true, Some("abc"));
    let trace = export(&[Ok(first.clone()), Err("connection reset".to_string())]);
    assert_eq!(
        trace.outcome,
        Outcome::Failed(ExportError::TransportError("connection reset".to_string()))
    );
    assert_eq!(trace.archive, first);
}

#[test]
fn malformed_body_fails_and_is_not_appended() {
    let first = page("hi", "1.0", true, Some("abc"));
    let trace = export(&[Ok(first.clone()), Ok("<html>busy</html>".to_string())]);
    match trace.outcome {
        Outcome::Failed(ExportError::DecodeError(_)) => {}
        other => panic!("unexpected: {:?}", other),
    }
    assert_eq!(trace.archive, first);
    assert_eq!(trace.requests.len(), 2);
}

#[test]
fn archive_that_cannot_be_opened_fails_before_any_request() {
    let session = ChannelExport::begin(general());
    let session = session.step(Event::ArchiveFailed("permission denied".to_string()));
    assert_eq!(
        session.action(),
        Action::Close {
            channel: "general",
            failure: Some(&ExportError::IoError("permission denied".to_string()))
        }
    );
    assert_eq!(
        session.outcome(),
        Some(Outcome::Failed(ExportError::IoError("permission denied".to_string())))
    );
}

#[test]
fn archive_that_cannot_be_written_fails() {
    let body = page("hi", "1.0", true, Some("abc"));
    let session = ChannelExport::begin(general())
        .step(Event::Opened)
        .step(Event::Fetched(body.clone()));
    assert_eq!(session.action(), Action::Append(body.as_str()));
    let session = session.step(Event::ArchiveFailed("disk full".to_string()));
    assert_eq!(
        session.action(),
        Action::Close {
            channel: "general",
            failure: Some(&ExportError::IoError("disk full".to_string()))
        }
    );
    assert_eq!(
        session.outcome(),
        Some(Outcome::Failed(ExportError::IoError("disk full".to_string())))
    );
    assert!(session.pages().is_empty());
}

#[test]
fn page_counts_only_once_appended() {
    let body = page("hi", "1.0", false, None);
    let session = ChannelExport::begin(general())
        .step(Event::Opened)
        .step(Event::Fetched(body.clone()));
    assert!(session.pages().is_empty());
    assert!(!session.is_over());
    let session = session.step(Event::Appended);
    assert_eq!(session.pages().len(), 1);
    assert_eq!(session.outcome(), Some(Outcome::Done));
}

#[test]
fn events_out_of_turn_change_nothing() {
    let session = ChannelExport::begin(general())
        .step(Event::Appended)
        .step(Event::Fetched(page("hi", "1.0", false, None)))
        .step(Event::FetchFailed("x".to_string()))
        .step(Event::Closed);
    assert_eq!(session.action(), Action::Open { directory: "general", file: "history" });
    let session = session
        .step(Event::Opened)
        .step(Event::Opened)
        .step(Event::Appended)
        .step(Event::ArchiveFailed("x".to_string()))
        .step(Event::Closed);
    assert_eq!(session.action(), Action::Fetch(history(None)));
    let body = page("hi", "1.0", true, Some("abc"));
    let session = session
        .step(Event::Fetched(body.clone()))
        .step(Event::Fetched(page("other", "9", false, None)))
        .step(Event::FetchFailed("x".to_string()))
        .step(Event::Opened);
    assert_eq!(session.action(), Action::Append(body.as_str()));
}

#[test]
fn a_session_that_is_over_stays_over() {
    let done = ChannelExport::begin(general())
        .step(Event::Opened)
        .step(Event::Fetched(page("hi", "1.0", false, None)))
        .step(Event::Appended);
    assert_eq!(done.outcome(), Some(Outcome::Done));
    let done = done
        .step(Event::Fetched(page("more", "2.0", true, Some("abc"))))
        .step(Event::Appended)
        .step(Event::Opened)
        .step(Event::FetchFailed("x".to_string()))
        .step(Event::ArchiveFailed("x".to_string()))
        .step(Event::Closed);
    assert_eq!(done.outcome(), Some(Outcome::Done));
    assert_eq!(done.action(), Action::Close { channel: "general", failure: None });
    assert_eq!(done.pages().len(), 1);

    let failed = ChannelExport::begin(general())
        .step(Event::Opened)
        .step(Event::FetchFailed("down".to_string()));
    let failed = failed
        .step(Event::Fetched(page("hi", "1.0", false, None)))
        .step(Event::Appended)
        .step(Event::Opened);
    assert_eq!(
        failed.outcome(),
        Some(Outcome::Failed(ExportError::TransportError("down".to_string())))
    );
    assert_eq!(
        failed.action(),
        Action::Close {
            channel: "general",
            failure: Some(&ExportError::TransportError("down".to_string()))
        }
    );
}

#[test]
fn archive_is_the_bodies_as_received() {
    let first = "{ \"has_more\" : true,\n  \"ok\":true, \"messages\":[ {\"ts\":\"1.5\",\"text\":\"\\u00e9\"} ],\n \"response_metadata\":{\"next_cursor\":\"n\"} }\n".to_string();
    let second = "\t{\"ok\":true,\"messages\":[],\"has_more\":false}".to_string();
    let trace = export(&[Ok(first.clone()), Ok(second.clone())]);
    assert_eq!(trace.outcome, Outcome::Done);
    assert_eq!(trace.archive, format!("{}{}", first, second));
    assert_eq!(trace.archive.as_bytes(), [first.as_bytes(), second.as_bytes()].concat());
}

#[test]
fn each_body_reads_back_as_its_page() {
    let bodies = vec![
        page("a", "1.25", true, Some("c1")),
        page("b", "2", true, Some("c2")),
        page("c", "3.000000001", false, None),
    ];
    let mut session = ChannelExport::begin(general()).step(Event::Opened);
    let mut written = Vec::new();
    for body in &bodies {
        session = session.step(Event::Fetched(body.clone()));
        if let Action::Append(text) = session.action() {
            written.push(text.to_string());
        }
        session = session.step(Event::Appended);
    }
    assert_eq!(session.outcome(), Some(Outcome::Done));
    assert_eq!(written, bodies);
    assert_eq!(session.pages().len(), written.len());
    for (body, page) in written.iter().zip(session.pages()) {
        assert_eq!(&read_history_page(body).unwrap(), page);
    }
}

#[test]
fn receive_takes_the_page_as_read() {
    let page = HistoryPage { messages: vec![], has_more: true, next_cursor: Some("k".to_string()) };
    let session = ChannelExport::begin(general())
        .step(Event::Opened)
        .receive("raw body".to_string(), Ok(page));
    assert_eq!(session.action(), Action::Append("raw body"));
    let session = session.step(Event::Appended);
    assert_eq!(session.action(), Action::Fetch(history(Some("k"))));
    assert_eq!(session.pages().len(), 1);
    let session =
        session.receive("x".to_string(), Err(ExportError::DecodeError("broken".to_string())));
    assert_eq!(
        session.outcome(),
        Some(Outcome::Failed(ExportError::DecodeError("broken".to_string())))
    );
    assert_eq!(session.pages().len(), 1);
}

#[test]
fn receive_out_of_turn_changes_nothing() {
    let page = HistoryPage { messages: vec![], has_more: false, next_cursor: None };
    let session = ChannelExport::begin(general()).receive("early".to_string(), Ok(page));
    assert_eq!(session.action(), Action::Open { directory: "general", file: "history" });
}

#[test]
fn step_reads_the_body_as_receive_takes_it() {
    let body = page("hi", "1.0", true, Some("abc"));
    let stepped = ChannelExport::begin(general())
        .step(Event::Opened)
        .step(Event::Fetched(body.clone()))
        .step(Event::Appended);
    let received = ChannelExport::begin(general())
        .step(Event::Opened)
        .receive(body.clone(), read_history_page(&body))
        .step(Event::Appended);
    assert_eq!(stepped.action(), received.action());
    assert_eq!(stepped.pages(), received.pages());
}
