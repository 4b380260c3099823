//! The export of one channel, as a state machine.
//!
//! The machine does no input or output itself. It says what is to be done
//! next ([`ChannelExport::action`]) and is told how that went
//! ([`ChannelExport::step`]): first the channel's archive is opened, then
//! page after page is fetched and appended to it as received, each page with
//! the cursor that the page before it gave, until a page says that no more
//! follow or gives no cursor. Any failure ends the export; what was appended
//! before stays in the archive.

use crate::archive::{archive_file, concat};
use crate::decode::{history_page_of_text, read_history_page, rejection};
use crate::json::parsed;
use crate::model::{
    history_result_view, pages_view, text_view, Channel, ChannelView, ExportError,
    ExportErrorView, HistoryPage, HistoryPageView,
};
use crate::protocol::{Action, ActionView, Event, EventView, Outcome, OutcomeView};
use crate::request::{channel_history_request, lemma_request_cursor, Request, RequestView};
use vstd::prelude::*;

verus! {

/// Where an export stands.
pub enum StageView {
    /// The archive is to be opened.
    Opening,
    /// A page is to be fetched, with the session's cursor.
    Fetching,
    /// The page has been received and accepted; its body is to be appended.
    Persisting { body: Seq<char>, page: HistoryPageView },
    /// The last page has been appended.
    Done,
    /// The export has failed.
    Failed(ExportErrorView),
}

/// The state of one channel's export.
pub struct SessionView {
    pub channel: ChannelView,
    /// The cursor for the page to fetch; none for the first page, and none
    /// once the export is over.
    pub cursor: Option<Seq<char>>,
    pub stage: StageView,
    /// The pages appended so far, in the order received.
    pub pages: Seq<HistoryPageView>,
    /// The bodies appended to the archive so far, in the order received.
    pub archive: Seq<Seq<char>>,
    /// The requests asked for so far, in order.
    pub issued: Seq<RequestView>,
}

impl SessionView {
    /// The state in which the export of a channel begins.
    pub open spec fn start(channel: ChannelView) -> SessionView {
        SessionView {
            channel,
            cursor: None,
            stage: StageView::Opening,
            pages: Seq::empty(),
            archive: Seq::empty(),
            issued: Seq::empty(),
        }
    }

    /// The request for the next page.
    pub open spec fn request(self) -> RequestView {
        channel_history_request(self.channel.id, self.cursor)
    }

    /// The state that asks for a page with `cursor`.
    pub open spec fn fetch(self, cursor: Option<Seq<char>>) -> SessionView {
        SessionView {
            cursor,
            stage: StageView::Fetching,
            issued: self.issued.push(channel_history_request(self.channel.id, cursor)),
            ..self
        }
    }

    /// The state in which the export has failed with `error`.
    pub open spec fn fail(self, error: ExportErrorView) -> SessionView {
        SessionView { cursor: None, stage: StageView::Failed(error), ..self }
    }

    /// The state after the accepted page has been appended: the next page is
    /// asked for where the page gives a cursor for it, else the export is
    /// done.
    pub open spec fn keep(self, body: Seq<char>, page: HistoryPageView) -> SessionView {
        let kept = SessionView {
            pages: self.pages.push(page),
            archive: self.archive.push(body),
            ..self
        };
        match page.continuation() {
            Some(cursor) => kept.fetch(Some(cursor)),
            None => SessionView { cursor: None, stage: StageView::Done, ..kept },
        }
    }

    /// The state after the page that was asked for has been received with
    /// `body` and read as `page`: a page waits to be appended, an error fails
    /// the export. Nothing changes where no page was asked for.
    pub open spec fn receive(
        self,
        body: Seq<char>,
        page: Result<HistoryPageView, ExportErrorView>,
    ) -> SessionView {
        match self.stage {
            StageView::Fetching => match page {
                Ok(page) => SessionView { stage: StageView::Persisting { body, page }, ..self },
                Err(e) => self.fail(e),
            },
            _ => self,
        }
    }

    /// The state after an event. An event that does not answer what the
    /// export has asked for changes nothing.
    pub open spec fn step(self, event: EventView) -> SessionView {
        match (self.stage, event) {
            (StageView::Opening, EventView::Opened) => self.fetch(None),
            (StageView::Opening, EventView::ArchiveFailed(m)) => self.fail(
                ExportErrorView::IoError(m),
            ),
            (StageView::Fetching, EventView::Fetched(body)) => self.receive(
                body,
                history_page_of_text(body),
            ),
            (StageView::Fetching, EventView::FetchFailed(m)) => self.fail(
                ExportErrorView::TransportError(m),
            ),
            (StageView::Persisting { body, page }, EventView::Appended) => self.keep(body, page),
            (StageView::Persisting { .. }, EventView::ArchiveFailed(m)) => self.fail(
                ExportErrorView::IoError(m),
            ),
            _ => self,
        }
    }

    /// The state after a list of events, in order.
    pub open spec fn run(self, events: Seq<EventView>) -> SessionView
        decreases events.len(),
    {
        if events.len() == 0 {
            self
        } else {
            self.run(events.drop_last()).step(events.last())
        }
    }

    /// What the export asks for in this state.
    pub open spec fn action(self) -> ActionView {
        match self.stage {
            StageView::Opening => ActionView::Open {
                directory: self.channel.name,
                file: archive_file(),
            },
            StageView::Fetching => ActionView::Fetch(self.request()),
            StageView::Persisting { body, .. } => ActionView::Append(body),
            StageView::Done => ActionView::Close { channel: self.channel.name, failure: None },
            StageView::Failed(e) => ActionView::Close {
                channel: self.channel.name,
                failure: Some(e),
            },
        }
    }

    /// How the export has ended, once it has.
    pub open spec fn outcome(self) -> Option<OutcomeView> {
        match self.stage {
            StageView::Done => Some(OutcomeView::Done),
            StageView::Failed(e) => Some(OutcomeView::Failed(e)),
            _ => None,
        }
    }

    /// Whether the export is over.
    pub open spec fn is_over(self) -> bool {
        self.outcome() is Some
    }

    /// What the archive holds: the bodies appended, one after the other.
    pub open spec fn archive_text(self) -> Seq<char> {
        concat(self.archive)
    }

    /// The archive holds one body for each page, and each body read on its
    /// own is its page; a body waiting to be appended is the page waiting
    /// with it.
    pub open spec fn faithful(self) -> bool {
        &&& self.archive.len() == self.pages.len()
        &&& forall|i: int|
            0 <= i < self.archive.len() ==> #[trigger] history_page_of_text(self.archive[i])
                == Ok::<HistoryPageView, ExportErrorView>(self.pages[i])
        &&& self.stage matches StageView::Persisting { body, page } ==> history_page_of_text(body)
            == Ok::<HistoryPageView, ExportErrorView>(page)
    }

    /// Every request but the first carries the cursor of the page before it,
    /// the first carries none, and all of them name the channel.
    pub open spec fn chained(self) -> bool {
        &&& self.issued.len() <= self.pages.len() + 1
        &&& forall|i: int|
            0 <= i < self.issued.len() ==> #[trigger] self.issued[i] == channel_history_request(
                self.channel.id,
                if i == 0 {
                    None
                } else {
                    self.pages[i - 1].next_cursor
                },
            )
    }
}

/// The events of an export that goes well: the archive is opened, then each
/// body is fetched and appended, in order.
pub open spec fn dialogue(bodies: Seq<Seq<char>>) -> Seq<EventView>
    decreases bodies.len(),
{
    if bodies.len() == 0 {
        seq![EventView::Opened]
    } else {
        dialogue(bodies.drop_last()).push(EventView::Fetched(bodies.last())).push(
            EventView::Appended,
        )
    }
}

impl SessionView {
    /// The requests and the pages go together: while a page is awaited or
    /// waits to be appended, one request more than pages has been asked for,
    /// the last of them the session's own; once the export is done, as many
    /// as pages, and only the last page gives nothing to go on with.
    pub open spec fn orderly(self) -> bool {
        &&& self.chained()
        &&& forall|i: int|
            0 <= i < self.pages.len() - 1 ==> (#[trigger] self.pages[i]).continuation() is Some
        &&& match self.stage {
            StageView::Opening => self.issued.len() == 0 && self.pages.len() == 0
                && self.cursor is None,
            StageView::Fetching => self.issued.len() == self.pages.len() + 1
                && self.issued.last() == self.request() && (self.pages.len() > 0
                ==> self.pages.last().continuation() is Some),
            StageView::Persisting { .. } => self.issued.len() == self.pages.len() + 1
                && self.issued.last() == self.request() && (self.pages.len() > 0
                ==> self.pages.last().continuation() is Some),
            StageView::Done => self.issued.len() == self.pages.len() && self.pages.len() > 0
                && self.pages.last().continuation() is None,
            StageView::Failed(_) => true,
        }
    }
}

/// Running one event more is one step more.
pub proof fn lemma_run_push(s: SessionView, events: Seq<EventView>, event: EventView)
    ensures
        s.run(events.push(event)) == s.run(events).step(event),
{
    assert(events.push(event).drop_last() == events);
}

/// An export that is over stays as it is, whatever it is told: it asks for
/// no further request and the archive keeps what it holds.
pub proof fn lemma_over_is_final(s: SessionView, events: Seq<EventView>)
    requires
        s.is_over(),
    ensures
        s.run(events) == s,
        s.action() is Close,
    decreases events.len(),
{
    if events.len() > 0 {
        lemma_over_is_final(s, events.drop_last());
    }
}

/// A step never takes anything out of the archive, the pages or the
/// requests, and never changes the channel; it adds a body to the archive
/// only when told that the body waiting to be appended was appended, and
/// then adds exactly that body, at the end.
pub proof fn lemma_step_extends(s: SessionView, event: EventView)
    ensures
        s.step(event).channel == s.channel,
        s.stage matches StageView::Persisting { body, page } ==> (event == EventView::Appended
            ==> {
            &&& s.step(event).archive == s.archive.push(body)
            &&& s.step(event).pages == s.pages.push(page)
            &&& s.step(event).archive_text() == s.archive_text() + body
        }),
        !(s.stage is Persisting && event == EventView::Appended) ==> {
            &&& s.step(event).archive == s.archive
            &&& s.step(event).pages == s.pages
        },
        s.step(event).issued == s.issued || (s.step(event).stage is Fetching && s.step(
            event,
        ).issued == s.issued.push(s.step(event).request())),
{
    if let StageView::Persisting { body, page } = s.stage {
        if event == EventView::Appended {
            assert(s.archive.push(body).drop_last() == s.archive);
        }
    }
}

/// A step keeps the archive faithful to the pages.
pub proof fn lemma_faithful_step(s: SessionView, event: EventView)
    requires
        s.faithful(),
    ensures
        s.step(event).faithful(),
{
    let next = s.step(event);
    if let StageView::Persisting { body, page } = s.stage {
        if event == EventView::Appended {
            assert forall|i: int| 0 <= i < next.archive.len() implies #[trigger] history_page_of_text(
                next.archive[i],
            ) == Ok::<HistoryPageView, ExportErrorView>(next.pages[i]) by {
                if i < s.archive.len() {
                    assert(next.archive[i] == s.archive[i]);
                    assert(next.pages[i] == s.pages[i]);
                }
            }
        }
    }
}

/// The archive of an export reads back as its pages: whatever the export
/// is told, the archive holds one body for each page kept, in the order
/// received, and each body, read on its own, is the page that was received
/// with it.
pub proof fn lemma_archive_reads_back(channel: ChannelView, events: Seq<EventView>)
    ensures
        SessionView::start(channel).run(events).faithful(),
    decreases events.len(),
{
    if events.len() > 0 {
        lemma_archive_reads_back(channel, events.drop_last());
        lemma_faithful_step(SessionView::start(channel).run(events.drop_last()), events.last());
    }
}

/// Requests and pages stay in step with one another: whatever the export
/// is told, it has asked for one request per page received and at most one
/// more, the first without a cursor and each later one with the cursor of
/// the page before it, all of them for its own channel; once it is done it
/// has asked for exactly one request per page.
pub proof fn lemma_requests_follow_pages(channel: ChannelView, events: Seq<EventView>)
    ensures
        SessionView::start(channel).run(events).orderly(),
        SessionView::start(channel).run(events).channel == channel,
    decreases events.len(),
{
    if events.len() > 0 {
        lemma_requests_follow_pages(channel, events.drop_last());
        lemma_orderly_step(SessionView::start(channel).run(events.drop_last()), events.last());
    }
}

/// A step keeps requests and pages in step with one another.
pub proof fn lemma_orderly_step(s: SessionView, event: EventView)
    requires
        s.orderly(),
    ensures
        s.step(event).orderly(),
{
    let next = s.step(event);
    match (s.stage, event) {
        (StageView::Opening, EventView::Opened) => {
            assert(next.issued[0] == channel_history_request(s.channel.id, None));
        },
        (StageView::Persisting { body, page }, EventView::Appended) => {
            assert forall|i: int| 0 <= i < next.pages.len() - 1 implies (
            #[trigger] next.pages[i]).continuation() is Some by {
                if i < s.pages.len() - 1 {
                    assert(next.pages[i] == s.pages[i]);
                } else {
                    assert(next.pages[i] == s.pages.last());
                }
            }
            assert forall|i: int| 0 <= i < next.issued.len() implies #[trigger] next.issued[i]
                == channel_history_request(
                next.channel.id,
                if i == 0 {
                    None
                } else {
                    next.pages[i - 1].next_cursor
                },
            ) by {
                if i < s.issued.len() {
                    assert(next.issued[i] == s.issued[i]);
                    if i > 0 {
                        assert(next.pages[i - 1] == s.pages[i - 1]);
                    }
                } else {
                    assert(next.pages[i - 1] == page);
                }
            }
        },
        _ => {},
    }
}

/// The archive of a channel is asked for once, at the start of its export,
/// under the channel's name: no step leads back to the opening.
pub proof fn lemma_opens_once(s: SessionView, event: EventView)
    ensures
        SessionView::start(s.channel).action() == (ActionView::Open {
            directory: s.channel.name,
            file: archive_file(),
        }),
        s.step(event).stage is Opening ==> s.stage is Opening && s.step(event) == s,
        s.action() is Open ==> s.stage is Opening,
{
}

/// A page that says that more follow but gives no cursor ends the export
/// as a page without more does: once it is appended the export is done, and
/// no request follows.
pub proof fn lemma_no_cursor_is_done(s: SessionView, body: Seq<char>, page: HistoryPageView)
    requires
        s.stage is Fetching,
        history_page_of_text(body) == Ok::<HistoryPageView, ExportErrorView>(page),
        !page.has_more || page.next_cursor is None,
    ensures
        s.step(EventView::Fetched(body)).action() == ActionView::Append(body),
        s.step(EventView::Fetched(body)).step(EventView::Appended).stage == StageView::Done,
        s.step(EventView::Fetched(body)).step(EventView::Appended).action() == (ActionView::Close {
            channel: s.channel.name,
            failure: None,
        }),
        s.step(EventView::Fetched(body)).step(EventView::Appended).issued == s.issued,
        s.step(EventView::Fetched(body)).step(EventView::Appended).archive == s.archive.push(body),
{
}

/// A body that is no page fails the export at once: nothing is appended,
/// no request follows, and what was appended before stays. For an answer
/// with `ok: false` the error is the rejection with the server's reason.
pub proof fn lemma_bad_page_fails(
    s: SessionView,
    body: Seq<char>,
    error: ExportErrorView,
    events: Seq<EventView>,
)
    requires
        s.stage is Fetching,
        history_page_of_text(body) == Err::<HistoryPageView, ExportErrorView>(error),
    ensures
        s.step(EventView::Fetched(body)).stage == StageView::Failed(error),
        s.step(EventView::Fetched(body)).action() == (ActionView::Close {
            channel: s.channel.name,
            failure: Some(error),
        }),
        s.step(EventView::Fetched(body)).archive == s.archive,
        s.step(EventView::Fetched(body)).pages == s.pages,
        s.step(EventView::Fetched(body)).issued == s.issued,
        s.step(EventView::Fetched(body)).run(events) == s.step(EventView::Fetched(body)),
        parsed(body) matches Ok(doc) ==> (doc.flag_field("ok"@) == Some(false) ==> error
            == rejection(doc)),
{
    lemma_over_is_final(s.step(EventView::Fetched(body)), events);
}

/// A request that gets no response fails the export at once, in the same
/// way.
pub proof fn lemma_lost_request_fails(s: SessionView, reason: Seq<char>, events: Seq<EventView>)
    requires
        s.stage is Fetching,
    ensures
        s.step(EventView::FetchFailed(reason)).stage == StageView::Failed(
            ExportErrorView::TransportError(reason),
        ),
        s.step(EventView::FetchFailed(reason)).archive == s.archive,
        s.step(EventView::FetchFailed(reason)).issued == s.issued,
        s.step(EventView::FetchFailed(reason)).run(events) == s.step(
            EventView::FetchFailed(reason),
        ),
{
    lemma_over_is_final(s.step(EventView::FetchFailed(reason)), events);
}

/// The state in the middle of an export that goes well: `pages` have been
/// appended, all of them with a cursor to go on with, and the next page is
/// asked for.
spec fn midway(
    channel: ChannelView,
    bodies: Seq<Seq<char>>,
    pages: Seq<HistoryPageView>,
) -> SessionView {
    let cursor = if pages.len() == 0 {
        None
    } else {
        pages.last().next_cursor
    };
    SessionView {
        channel,
        cursor,
        stage: StageView::Fetching,
        pages,
        archive: bodies,
        issued: Seq::new(
            pages.len() + 1,
            |i: int|
                channel_history_request(
                    channel.id,
                    if i == 0 {
                        None
                    } else {
                        pages[i - 1].next_cursor
                    },
                ),
        ),
    }
}

proof fn lemma_midway(channel: ChannelView, bodies: Seq<Seq<char>>, pages: Seq<HistoryPageView>)
    requires
        bodies.len() == pages.len(),
        forall|i: int|
            0 <= i < bodies.len() ==> #[trigger] history_page_of_text(bodies[i]) == Ok::<
                HistoryPageView,
                ExportErrorView,
            >(pages[i]),
        forall|i: int|
            0 <= i < pages.len() ==> (#[trigger] pages[i]).has_more && pages[i].next_cursor is Some,
    ensures
        SessionView::start(channel).run(dialogue(bodies)) == midway(channel, bodies, pages),
    decreases bodies.len(),
{
    let start = SessionView::start(channel);
    if bodies.len() == 0 {
        let events = seq![EventView::Opened];
        assert(events.drop_last() == Seq::<EventView>::empty());
        assert(start.run(events.drop_last()) == start);
        assert(start.run(events) == start.step(EventView::Opened));
        assert(start.step(EventView::Opened).issued == midway(channel, bodies, pages).issued);
        assert(bodies == Seq::<Seq<char>>::empty());
        assert(pages == Seq::<HistoryPageView>::empty());
    } else {
        let body = bodies.last();
        let page = pages.last();
        lemma_midway(channel, bodies.drop_last(), pages.drop_last());
        let before = midway(channel, bodies.drop_last(), pages.drop_last());
        let events = dialogue(bodies.drop_last());
        lemma_run_push(start, events, EventView::Fetched(body));
        lemma_run_push(start, events.push(EventView::Fetched(body)), EventView::Appended);
        assert(history_page_of_text(body) == Ok::<HistoryPageView, ExportErrorView>(page));
        let after = before.step(EventView::Fetched(body)).step(EventView::Appended);
        assert(page.continuation() == page.next_cursor);
        assert(bodies.drop_last().push(body) == bodies);
        assert(pages.drop_last().push(page) == pages);
        assert(after.issued == midway(channel, bodies, pages).issued) by {
            assert forall|i: int| 0 <= i < after.issued.len() implies after.issued[i] == midway(
                channel,
                bodies,
                pages,
            ).issued[i] by {
                if 0 < i < before.issued.len() {
                    assert(pages.drop_last()[i - 1] == pages[i - 1]);
                }
            }
        }
        assert(after == midway(channel, bodies, pages));
    }
}

/// An export whose pages all but the last say that more follow and give a
/// cursor, and whose last page says that no more follow or gives no cursor,
/// is done after the last page. One request was asked for per page, the first without a
/// cursor and each later one with the cursor of the page before it; the
/// archive holds the bodies as received, one after the other.
pub proof fn lemma_export_completes(
    channel: ChannelView,
    bodies: Seq<Seq<char>>,
    pages: Seq<HistoryPageView>,
)
    requires
        bodies.len() == pages.len(),
        bodies.len() > 0,
        forall|i: int|
            0 <= i < bodies.len() ==> #[trigger] history_page_of_text(bodies[i]) == Ok::<
                HistoryPageView,
                ExportErrorView,
            >(pages[i]),
        forall|i: int|
            0 <= i < pages.len() - 1 ==> (#[trigger] pages[i]).has_more
                && pages[i].next_cursor is Some,
        pages.last().continuation() is None,
    ensures
        ({
            let end = SessionView::start(channel).run(dialogue(bodies));
            &&& end.stage == StageView::Done
            &&& end.outcome() == Some(OutcomeView::Done)
            &&& end.action() == (ActionView::Close { channel: channel.name, failure: None })
            &&& end.pages == pages
            &&& end.archive == bodies
            &&& end.archive_text() == concat(bodies)
            &&& end.issued.len() == bodies.len()
            &&& end.issued[0] == channel_history_request(channel.id, None)
            &&& end.issued[0].cursor() is None
            &&& forall|i: int|
                0 < i < bodies.len() ==> #[trigger] end.issued[i] == channel_history_request(
                    channel.id,
                    pages[i - 1].next_cursor,
                ) && end.issued[i].cursor() == pages[i - 1].next_cursor
        }),
{
    let start = SessionView::start(channel);
    let body = bodies.last();
    let page = pages.last();
    let events = dialogue(bodies.drop_last());
    assert forall|i: int| 0 <= i < bodies.drop_last().len() implies #[trigger] history_page_of_text(
        bodies.drop_last()[i],
    ) == Ok::<HistoryPageView, ExportErrorView>(pages.drop_last()[i]) by {
        assert(bodies.drop_last()[i] == bodies[i]);
        assert(pages.drop_last()[i] == pages[i]);
    }
    assert forall|i: int| 0 <= i < pages.drop_last().len() implies (#[trigger] pages.drop_last()[i]).has_more
        && pages.drop_last()[i].next_cursor is Some by {
        assert(pages.drop_last()[i] == pages[i]);
    }
    lemma_midway(channel, bodies.drop_last(), pages.drop_last());
    let before = midway(channel, bodies.drop_last(), pages.drop_last());
    lemma_run_push(start, events, EventView::Fetched(body));
    lemma_run_push(start, events.push(EventView::Fetched(body)), EventView::Appended);
    let end = before.step(EventView::Fetched(body)).step(EventView::Appended);
    assert(history_page_of_text(body) == Ok::<HistoryPageView, ExportErrorView>(page));
    assert(bodies.drop_last().push(body) == bodies);
    assert(pages.drop_last().push(page) == pages);
    assert(end.issued == before.issued);
    lemma_request_cursor(channel.id, None);
    assert forall|i: int| 0 < i < bodies.len() implies #[trigger] end.issued[i]
        == channel_history_request(channel.id, pages[i - 1].next_cursor) && end.issued[i].cursor()
        == pages[i - 1].next_cursor by {
        assert(pages.drop_last()[i - 1] == pages[i - 1]);
        lemma_request_cursor(channel.id, pages[i - 1].next_cursor);
    }
}

enum Stage {
    Opening,
    Fetching,
    Persisting { body: String, page: HistoryPage },
    Done,
    Failed(ExportError),
}

impl View for Stage {
    type V = StageView;

    closed spec fn view(&self) -> StageView {
        match self {
            Stage::Opening => StageView::Opening,
            Stage::Fetching => StageView::Fetching,
            Stage::Persisting { body, page } => StageView::Persisting { body: body@, page: page@ },
            Stage::Done => StageView::Done,
            Stage::Failed(e) => StageView::Failed(e@),
        }
    }
}

/// The export of one channel: its cursor, the pages received, and where it
/// stands. A session belongs to its channel from beginning to end.
pub struct ChannelExport {
    channel: Channel,
    cursor: Option<String>,
    stage: Stage,
    pages: Vec<HistoryPage>,
    archive: Ghost<Seq<Seq<char>>>,
    issued: Ghost<Seq<RequestView>>,
}

impl View for ChannelExport {
    type V = SessionView;

    closed spec fn view(&self) -> SessionView {
        SessionView {
            channel: self.channel@,
            cursor: text_view(self.cursor),
            stage: self.stage@,
            pages: pages_view(self.pages@),
            archive: self.archive@,
            issued: self.issued@,
        }
    }
}

impl ChannelExport {
    #[verifier::type_invariant]
    spec fn well_formed(self) -> bool {
        self@.orderly()
    }

    /// Begins the export of a channel: nothing fetched, no cursor.
    pub fn begin(channel: Channel) -> (session: ChannelExport)
        ensures
            session@ == SessionView::start(channel@),
    {
        let session = ChannelExport {
            channel,
            cursor: None,
            stage: Stage::Opening,
            pages: Vec::new(),
            archive: Ghost(Seq::empty()),
            issued: Ghost(Seq::empty()),
        };
        assert(pages_view(session.pages@) == Seq::<HistoryPageView>::empty());
        session
    }

    /// The channel that is exported.
    pub fn channel(&self) -> (channel: &Channel)
        ensures
            channel@ == self@.channel,
    {
        &self.channel
    }

    /// The pages appended so far, in the order received.
    pub fn pages(&self) -> (pages: &Vec<HistoryPage>)
        ensures
            pages_view(pages@) == self@.pages,
    {
        &self.pages
    }

    /// What is to be done next.
    pub fn action(&self) -> (action: Action<'_>)
        ensures
            action@ == self@.action(),
    {
        match &self.stage {
            Stage::Opening => Action::Open {
                directory: self.channel.name.as_str(),
                file: "history",
            },
            Stage::Fetching => Action::Fetch(
                Request::channel_history(&self.channel, self.cursor.as_ref()),
            ),
            Stage::Persisting { body, .. } => Action::Append(body.as_str()),
            Stage::Done => Action::Close { channel: self.channel.name.as_str(), failure: None },
            Stage::Failed(e) => Action::Close {
                channel: self.channel.name.as_str(),
                failure: Some(e),
            },
        }
    }

    /// How the export has ended; `None` while it is under way. Requests
    /// and pages of a session are in step with one another.
    pub fn outcome(&self) -> (outcome: Option<Outcome>)
        ensures
            match outcome {
                Some(o) => self@.outcome() == Some(o@),
                None => self@.outcome() is None,
            },
            self@.orderly(),
    {
        proof {
            use_type_invariant(self);
        }
        match &self.stage {
            Stage::Done => Some(Outcome::Done),
            Stage::Failed(e) => Some(Outcome::Failed(e.clone())),
            _ => None,
        }
    }

    /// Whether the export is over.
    pub fn is_over(&self) -> (over: bool)
        ensures
            over == self@.is_over(),
    {
        match &self.stage {
            Stage::Done => true,
            Stage::Failed(_) => true,
            _ => false,
        }
    }

    /// Takes in the page that was asked for: the body as received, and what
    /// reading it has come to. [`ChannelExport::step`] does the reading
    /// itself; here the caller vouches for it.
    pub fn receive(self, body: String, page: Result<HistoryPage, ExportError>) -> (next:
        ChannelExport)
        ensures
            next@ == self@.receive(body@, history_result_view(page)),
    {
        proof {
            use_type_invariant(&self);
        }
        let ChannelExport { channel, cursor, stage, pages, archive, issued } = self;
        match stage {
            Stage::Fetching => match page {
                Ok(page) => ChannelExport {
                    channel,
                    cursor,
                    stage: Stage::Persisting { body, page },
                    pages,
                    archive,
                    issued,
                },
                Err(e) => ChannelExport {
                    channel,
                    cursor: None,
                    stage: Stage::Failed(e),
                    pages,
                    archive,
                    issued,
                },
            },
            stage => ChannelExport { channel, cursor, stage, pages, archive, issued },
        }
    }

    /// Takes in the answer to what the export has asked for.
    pub fn step(self, event: Event) -> (next: ChannelExport)
        ensures
            next@ == self@.step(event@),
    {
        proof {
            use_type_invariant(&self);
            lemma_orderly_step(self@, event@);
        }
        let ghost id = self.channel@.id;
        let ChannelExport { channel, cursor, stage, pages, archive, issued } = self;
        match (stage, event) {
            (Stage::Opening, Event::Opened) => ChannelExport {
                channel,
                cursor: None,
                stage: Stage::Fetching,
                pages,
                archive,
                issued: Ghost(issued@.push(channel_history_request(id, None))),
            },
            (Stage::Opening, Event::ArchiveFailed(m)) => ChannelExport {
                channel,
                cursor: None,
                stage: Stage::Failed(ExportError::IoError(m)),
                pages,
                archive,
                issued,
            },
            (Stage::Fetching, Event::Fetched(body)) => {
                let page = read_history_page(body.as_str());
                let session = ChannelExport {
                    channel,
                    cursor,
                    stage: Stage::Fetching,
                    pages,
                    archive,
                    issued,
                };
                session.receive(body, page)
            },
            (Stage::Fetching, Event::FetchFailed(m)) => ChannelExport {
                channel,
                cursor: None,
                stage: Stage::Failed(ExportError::TransportError(m)),
                pages,
                archive,
                issued,
            },
            (Stage::Persisting { body, page }, Event::Appended) => {
                let next_cursor = if page.has_more {
                    page.next_cursor.clone()
                } else {
                    None
                };
                let ghost before = pages_view(pages@);
                let ghost page_view = page@;
                let mut pages = pages;
                pages.push(page);
                assert(pages_view(pages@) == before.push(page_view));
                match next_cursor {
                    Some(c) => {
                        let ghost request = channel_history_request(id, Some(c@));
                        ChannelExport {
                            channel,
                            cursor: Some(c),
                            stage: Stage::Fetching,
                            pages,
                            archive: Ghost(archive@.push(body@)),
                            issued: Ghost(issued@.push(request)),
                        }
                    },
                    None => ChannelExport {
                        channel,
                        cursor: None,
                        stage: Stage::Done,
                        pages,
                        archive: Ghost(archive@.push(body@)),
                        issued,
                    },
                }
            },
            (Stage::Persisting { body, page }, Event::ArchiveFailed(m)) => ChannelExport {
                channel,
                cursor: None,
                stage: Stage::Failed(ExportError::IoError(m)),
                pages,
                archive,
                issued,
            },
            (stage, _) => ChannelExport { channel, cursor, stage, pages, archive, issued },
        }
    }
}

} // verus!
