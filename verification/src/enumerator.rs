//! The listing of the workspace's channels, as a state machine.
//!
//! The listing is paged as a channel's history is: each page is asked for
//! with the cursor that the page before it gave, until a page says that no
//! more follow or gives no cursor. The channels are kept as received,
//! neither sorted nor stripped of repetitions. Any failure ends the listing
//! without channels.

use crate::decode::{channel_page_of_text, read_channel_page, rejection};
use crate::json::parsed;
use crate::model::{
    channel_result_view, channels_view, text_view, Channel, ChannelPage, ChannelPageView,
    ChannelView, ExportError, ExportErrorView,
};
use crate::protocol::{Event, EventView};
use crate::request::{channel_list_request, Request, RequestView};
use vstd::prelude::*;

verus! {

/// Where a listing stands.
pub enum ListingStageView {
    /// A page is to be fetched, with the listing's cursor.
    Listing,
    /// The last page has been received.
    Done,
    /// The listing has failed.
    Failed(ExportErrorView),
}

/// The state of a listing.
pub struct ListingView {
    /// The cursor for the page to fetch; none for the first page, and none
    /// once the listing is over.
    pub cursor: Option<Seq<char>>,
    pub stage: ListingStageView,
    /// The channels received so far, in the order received.
    pub channels: Seq<ChannelView>,
    /// The requests asked for so far, in order.
    pub issued: Seq<RequestView>,
}

impl ListingView {
    /// The state in which a listing begins: the first page is asked for,
    /// without a cursor.
    pub open spec fn start() -> ListingView {
        ListingView {
            cursor: None,
            stage: ListingStageView::Listing,
            channels: Seq::empty(),
            issued: seq![channel_list_request(None)],
        }
    }

    /// The state in which the listing has failed with `error`.
    pub open spec fn fail(self, error: ExportErrorView) -> ListingView {
        ListingView { cursor: None, stage: ListingStageView::Failed(error), ..self }
    }

    /// The state after a page has been received: the next page is asked for
    /// where the page gives a cursor for it, else the listing is done.
    pub open spec fn keep(self, page: ChannelPageView) -> ListingView {
        let channels = self.channels + page.channels;
        match page.continuation() {
            Some(cursor) => ListingView {
                cursor: Some(cursor),
                stage: ListingStageView::Listing,
                channels,
                issued: self.issued.push(channel_list_request(Some(cursor))),
            },
            None => ListingView { cursor: None, stage: ListingStageView::Done, channels, ..self },
        }
    }

    /// The state after the page that was asked for has been received and
    /// read as `page`: a page is kept, an error fails the listing. Nothing
    /// changes once the listing is over.
    pub open spec fn receive(self, page: Result<ChannelPageView, ExportErrorView>) -> ListingView {
        match self.stage {
            ListingStageView::Listing => match page {
                Ok(page) => self.keep(page),
                Err(e) => self.fail(e),
            },
            _ => self,
        }
    }

    /// The state after an event. An event that does not answer a request of
    /// the listing changes nothing.
    pub open spec fn step(self, event: EventView) -> ListingView {
        match (self.stage, event) {
            (ListingStageView::Listing, EventView::Fetched(body)) => self.receive(
                channel_page_of_text(body),
            ),
            (ListingStageView::Listing, EventView::FetchFailed(m)) => self.fail(
                ExportErrorView::TransportError(m),
            ),
            _ => self,
        }
    }

    /// The state after a list of events, in order.
    pub open spec fn run(self, events: Seq<EventView>) -> ListingView
        decreases events.len(),
    {
        if events.len() == 0 {
            self
        } else {
            self.run(events.drop_last()).step(events.last())
        }
    }

    /// The request that the listing asks for; none once it is over.
    pub open spec fn request(self) -> Option<RequestView> {
        match self.stage {
            ListingStageView::Listing => Some(channel_list_request(self.cursor)),
            _ => None,
        }
    }

    /// What the listing has come to, once it is over: the channels in the
    /// order received, or the error.
    pub open spec fn outcome(self) -> Option<Result<Seq<ChannelView>, ExportErrorView>> {
        match self.stage {
            ListingStageView::Listing => None,
            ListingStageView::Done => Some(Ok(self.channels)),
            ListingStageView::Failed(e) => Some(Err(e)),
        }
    }

    /// Whether the listing is over.
    pub open spec fn is_over(self) -> bool {
        self.outcome() is Some
    }
}

/// A listing that is over stays as it is, whatever it is told, and asks for
/// no further request.
pub proof fn lemma_listing_over_is_final(s: ListingView, events: Seq<EventView>)
    requires
        s.is_over(),
    ensures
        s.run(events) == s,
        s.request() is None,
    decreases events.len(),
{
    if events.len() > 0 {
        lemma_listing_over_is_final(s, events.drop_last());
    }
}

/// A listing answered by one page that says nothing of more pages is done
/// with the channels of that page, as received.
pub proof fn lemma_single_page_listing(body: Seq<char>, page: ChannelPageView)
    requires
        channel_page_of_text(body) == Ok::<ChannelPageView, ExportErrorView>(page),
        !page.has_more || page.next_cursor is None,
    ensures
        ListingView::start().step(EventView::Fetched(body)).outcome() == Some(
            Ok::<Seq<ChannelView>, ExportErrorView>(page.channels),
        ),
        ListingView::start().step(EventView::Fetched(body)).issued == seq![
            channel_list_request(None),
        ],
{
    assert(Seq::<ChannelView>::empty() + page.channels == page.channels);
}

/// A page with a cursor and more to follow is followed by exactly one
/// request, which carries that cursor; the channels of the page are added
/// behind those received before.
pub proof fn lemma_listing_follows_cursor(s: ListingView, body: Seq<char>, page: ChannelPageView)
    requires
        s.stage is Listing,
        channel_page_of_text(body) == Ok::<ChannelPageView, ExportErrorView>(page),
        page.has_more,
        page.next_cursor is Some,
    ensures
        s.step(EventView::Fetched(body)).request() == Some(
            channel_list_request(page.next_cursor),
        ),
        s.step(EventView::Fetched(body)).issued == s.issued.push(
            channel_list_request(page.next_cursor),
        ),
        s.step(EventView::Fetched(body)).channels == s.channels + page.channels,
{
}

/// A body that is no page fails the listing at once, and no request
/// follows. For an answer with `ok: false` the error is the rejection with
/// the server's reason, or with the fallback reason where it gives none.
pub proof fn lemma_bad_listing_fails(
    s: ListingView,
    body: Seq<char>,
    error: ExportErrorView,
    events: Seq<EventView>,
)
    requires
        s.stage is Listing,
        channel_page_of_text(body) == Err::<ChannelPageView, ExportErrorView>(error),
    ensures
        s.step(EventView::Fetched(body)).outcome() == Some(
            Err::<Seq<ChannelView>, ExportErrorView>(error),
        ),
        s.step(EventView::Fetched(body)).request() is None,
        s.step(EventView::Fetched(body)).issued == s.issued,
        s.step(EventView::Fetched(body)).run(events) == s.step(EventView::Fetched(body)),
        parsed(body) matches Ok(doc) ==> (doc.flag_field("ok"@) == Some(false) ==> error
            == rejection(doc)),
{
    lemma_listing_over_is_final(s.step(EventView::Fetched(body)), events);
}

/// The events of a listing that goes well: each body is fetched, in order.
pub open spec fn answers(bodies: Seq<Seq<char>>) -> Seq<EventView> {
    Seq::new(bodies.len(), |i: int| EventView::Fetched(bodies[i]))
}

/// The channels of a list of pages, page after page.
pub open spec fn gathered(pages: Seq<ChannelPageView>) -> Seq<ChannelView>
    decreases pages.len(),
{
    if pages.len() == 0 {
        Seq::empty()
    } else {
        gathered(pages.drop_last()) + pages.last().channels
    }
}

/// The state in the middle of a listing that goes well: `pages` have been
/// received, all of them with a cursor to go on with, and the next page is
/// asked for.
spec fn midway(pages: Seq<ChannelPageView>) -> ListingView {
    ListingView {
        cursor: if pages.len() == 0 {
            None
        } else {
            pages.last().next_cursor
        },
        stage: ListingStageView::Listing,
        channels: gathered(pages),
        issued: Seq::new(
            pages.len() + 1,
            |i: int|
                channel_list_request(
                    if i == 0 {
                        None
                    } else {
                        pages[i - 1].next_cursor
                    },
                ),
        ),
    }
}

proof fn lemma_midway(bodies: Seq<Seq<char>>, pages: Seq<ChannelPageView>)
    requires
        bodies.len() == pages.len(),
        forall|i: int|
            0 <= i < bodies.len() ==> #[trigger] channel_page_of_text(bodies[i]) == Ok::<
                ChannelPageView,
                ExportErrorView,
            >(pages[i]),
        forall|i: int|
            0 <= i < pages.len() ==> (#[trigger] pages[i]).has_more && pages[i].next_cursor is Some,
    ensures
        ListingView::start().run(answers(bodies)) == midway(pages),
    decreases bodies.len(),
{
    let start = ListingView::start();
    if bodies.len() == 0 {
        assert(start.issued == midway(pages).issued);
    } else {
        let body = bodies.last();
        let page = pages.last();
        lemma_midway(bodies.drop_last(), pages.drop_last());
        let before = midway(pages.drop_last());
        assert(answers(bodies).drop_last() == answers(bodies.drop_last()));
        assert(answers(bodies).last() == EventView::Fetched(body));
        assert(channel_page_of_text(body) == Ok::<ChannelPageView, ExportErrorView>(page));
        let after = before.step(EventView::Fetched(body));
        assert(page.continuation() == page.next_cursor);
        assert(after.issued == midway(pages).issued) by {
            assert forall|i: int| 0 <= i < after.issued.len() implies after.issued[i] == midway(
                pages,
            ).issued[i] by {
                if 0 < i < before.issued.len() {
                    assert(pages.drop_last()[i - 1] == pages[i - 1]);
                }
            }
        }
        assert(after == midway(pages));
    }
}

/// A listing whose pages all but the last say that more follow and give a
/// cursor, and whose last page says that no more follow or gives no cursor,
/// is done after the last page, with the channels of all pages in the order
/// received. One request was asked for per page, the first without a cursor
/// and each later one with the cursor of the page before it.
pub proof fn lemma_listing_completes(bodies: Seq<Seq<char>>, pages: Seq<ChannelPageView>)
    requires
        bodies.len() == pages.len(),
        bodies.len() > 0,
        forall|i: int|
            0 <= i < bodies.len() ==> #[trigger] channel_page_of_text(bodies[i]) == Ok::<
                ChannelPageView,
                ExportErrorView,
            >(pages[i]),
        forall|i: int|
            0 <= i < pages.len() - 1 ==> (#[trigger] pages[i]).has_more
                && pages[i].next_cursor is Some,
        pages.last().continuation() is None,
    ensures
        ({
            let end = ListingView::start().run(answers(bodies));
            &&& end.outcome() == Some(Ok::<Seq<ChannelView>, ExportErrorView>(gathered(pages)))
            &&& end.request() is None
            &&& end.issued.len() == bodies.len()
            &&& end.issued[0] == channel_list_request(None)
            &&& forall|i: int|
                0 < i < bodies.len() ==> #[trigger] end.issued[i] == channel_list_request(
                    pages[i - 1].next_cursor,
                )
        }),
        forall|k: int|
            0 <= k < bodies.len() ==> !(#[trigger] ListingView::start().run(
                answers(bodies).take(k),
            )).is_over(),
{
    assert forall|k: int| 0 <= k < bodies.len() implies !(#[trigger] ListingView::start().run(
        answers(bodies).take(k),
    )).is_over() by {
        assert forall|i: int| 0 <= i < k implies #[trigger] channel_page_of_text(bodies.take(k)[i])
            == Ok::<ChannelPageView, ExportErrorView>(pages.take(k)[i]) by {
            assert(bodies.take(k)[i] == bodies[i]);
            assert(pages.take(k)[i] == pages[i]);
        }
        assert forall|i: int| 0 <= i < k implies (#[trigger] pages.take(k)[i]).has_more
            && pages.take(k)[i].next_cursor is Some by {
            assert(pages.take(k)[i] == pages[i]);
        }
        lemma_midway(bodies.take(k), pages.take(k));
        assert(answers(bodies).take(k) == answers(bodies.take(k)));
    }
    let body = bodies.last();
    let page = pages.last();
    assert forall|i: int| 0 <= i < bodies.drop_last().len() implies #[trigger] channel_page_of_text(
        bodies.drop_last()[i],
    ) == Ok::<ChannelPageView, ExportErrorView>(pages.drop_last()[i]) by {
        assert(bodies.drop_last()[i] == bodies[i]);
        assert(pages.drop_last()[i] == pages[i]);
    }
    assert forall|i: int| 0 <= i < pages.drop_last().len() implies (#[trigger] pages.drop_last()[i]).has_more
        && pages.drop_last()[i].next_cursor is Some by {
        assert(pages.drop_last()[i] == pages[i]);
    }
    lemma_midway(bodies.drop_last(), pages.drop_last());
    let before = midway(pages.drop_last());
    assert(answers(bodies).drop_last() == answers(bodies.drop_last()));
    assert(answers(bodies).last() == EventView::Fetched(body));
    assert(channel_page_of_text(body) == Ok::<ChannelPageView, ExportErrorView>(page));
    let end = before.step(EventView::Fetched(body));
    assert(end.issued == before.issued);
    assert forall|i: int| 0 < i < bodies.len() implies #[trigger] end.issued[i]
        == channel_list_request(pages[i - 1].next_cursor) by {
        assert(pages.drop_last()[i - 1] == pages[i - 1]);
    }
}

enum ListingStage {
    Listing,
    Done,
    Failed(ExportError),
}

impl View for ListingStage {
    type V = ListingStageView;

    closed spec fn view(&self) -> ListingStageView {
        match self {
            ListingStage::Listing => ListingStageView::Listing,
            ListingStage::Done => ListingStageView::Done,
            ListingStage::Failed(e) => ListingStageView::Failed(e@),
        }
    }
}

/// The listing of the workspace's channels: its cursor, the channels
/// received, and where it stands.
pub struct Enumeration {
    cursor: Option<String>,
    stage: ListingStage,
    channels: Vec<Channel>,
    issued: Ghost<Seq<RequestView>>,
}

impl View for Enumeration {
    type V = ListingView;

    closed spec fn view(&self) -> ListingView {
        ListingView {
            cursor: text_view(self.cursor),
            stage: self.stage@,
            channels: channels_view(self.channels@),
            issued: self.issued@,
        }
    }
}

impl Enumeration {
    /// Begins a listing: nothing received, no cursor.
    pub fn begin() -> (listing: Enumeration)
        ensures
            listing@ == ListingView::start(),
    {
        let listing = Enumeration {
            cursor: None,
            stage: ListingStage::Listing,
            channels: Vec::new(),
            issued: Ghost(Seq::empty().push(channel_list_request(None))),
        };
        assert(channels_view(listing.channels@) == Seq::<ChannelView>::empty());
        assert(listing.issued@ == seq![channel_list_request(None)]);
        listing
    }

    /// The request to send next; `None` once the listing is over.
    pub fn request(&self) -> (request: Option<Request>)
        ensures
            match request {
                Some(r) => self@.request() == Some(r@),
                None => self@.request() is None,
            },
    {
        match &self.stage {
            ListingStage::Listing => Some(Request::channel_list(self.cursor.as_ref())),
            _ => None,
        }
    }

    /// Whether the listing is over.
    pub fn is_over(&self) -> (over: bool)
        ensures
            over == self@.is_over(),
    {
        match &self.stage {
            ListingStage::Listing => false,
            _ => true,
        }
    }

    /// Takes in the page that was asked for, as what reading it has come to.
    pub fn receive(self, page: Result<ChannelPage, ExportError>) -> (next: Enumeration)
        ensures
            next@ == self@.receive(channel_result_view(page)),
    {
        let Enumeration { cursor, stage, channels, issued } = self;
        match stage {
            ListingStage::Listing => {
                match page {
                    Ok(page) => {
                        let ghost before = channels_view(channels@);
                        let ghost page_view = page@;
                        let next_cursor = if page.has_more {
                            page.next_cursor
                        } else {
                            None
                        };
                        let mut channels = channels;
                        let mut received = page.channels;
                        channels.append(&mut received);
                        assert(channels_view(channels@) == before + page_view.channels);
                        match next_cursor {
                            Some(c) => {
                                let ghost request = channel_list_request(Some(c@));
                                Enumeration {
                                    cursor: Some(c),
                                    stage: ListingStage::Listing,
                                    channels,
                                    issued: Ghost(issued@.push(request)),
                                }
                            },
                            None => Enumeration {
                                cursor: None,
                                stage: ListingStage::Done,
                                channels,
                                issued,
                            },
                        }
                    },
                    Err(e) => Enumeration {
                        cursor: None,
                        stage: ListingStage::Failed(e),
                        channels,
                        issued,
                    },
                }
            },
            stage => Enumeration { cursor, stage, channels, issued },
        }
    }

    /// Takes in the answer to the listing's request.
    pub fn step(self, event: Event) -> (next: Enumeration)
        ensures
            next@ == self@.step(event@),
    {
        let Enumeration { cursor, stage, channels, issued } = self;
        match (stage, event) {
            (ListingStage::Listing, Event::Fetched(body)) => {
                let page = read_channel_page(body.as_str());
                let listing = Enumeration {
                    cursor,
                    stage: ListingStage::Listing,
                    channels,
                    issued,
                };
                listing.receive(page)
            },
            (ListingStage::Listing, Event::FetchFailed(m)) => Enumeration {
                cursor: None,
                stage: ListingStage::Failed(ExportError::TransportError(m)),
                channels,
                issued,
            },
            (stage, _) => Enumeration { cursor, stage, channels, issued },
        }
    }

    /// Ends the listing: the channels in the order received, or the error
    /// that the listing failed with. A listing that is not over is handed
    /// back as it is.
    pub fn finish(self) -> (listed: Listed)
        ensures
            match listed {
                Listed::Channels(channels) => self@.outcome() == Some(
                    Ok::<Seq<ChannelView>, ExportErrorView>(channels_view(channels@)),
                ),
                Listed::Failed(e) => self@.outcome() == Some(
                    Err::<Seq<ChannelView>, ExportErrorView>(e@),
                ),
                Listed::Pending(listing) => self@.outcome() is None && listing@ == self@,
            },
    {
        match self.stage {
            ListingStage::Listing => Listed::Pending(self),
            ListingStage::Done => Listed::Channels(self.channels),
            ListingStage::Failed(e) => Listed::Failed(e),
        }
    }
}

/// What a listing has come to.
pub enum Listed {
    /// The listing is done, with these channels in the order received.
    Channels(Vec<Channel>),
    /// The listing has failed.
    Failed(ExportError),
    /// The listing is not over.
    Pending(Enumeration),
}

} // verus!
