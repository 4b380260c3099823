//! A whole export, as a state machine.
//!
//! The channels are listed first; a listing that fails ends the export
//! before anything is written. Then the channels are exported one at a
//! time, in the order listed, each with a session of its own that starts
//! without a cursor. A channel whose export fails does not stop the others,
//! but the export as a whole then counts as failed.

use crate::decode::channel_page_of_text;
use crate::enumerator::{
    answers, gathered, lemma_listing_completes, Enumeration, Listed, ListingView,
};
use crate::model::{
    channel_result_view, channels_view, history_result_view, Channel, ChannelPage,
    ChannelPageView, ChannelView, ExportError, ExportErrorView, HistoryPage, HistoryPageView,
};
use crate::paginator::{ChannelExport, SessionView, StageView};
use crate::protocol::{Action, ActionView, Event, EventView, Outcome, OutcomeView};
use vstd::prelude::*;

verus! {

/// The views of a list of outcomes, in order.
pub open spec fn outcomes_view(outcomes: Seq<Outcome>) -> Seq<OutcomeView> {
    Seq::new(outcomes.len(), |i: int| outcomes[i]@)
}

/// Whether every outcome of a list is `Done`.
pub open spec fn all_done(outcomes: Seq<OutcomeView>) -> bool {
    forall|i: int| 0 <= i < outcomes.len() ==> outcomes[i] is Done
}

/// Where an export stands.
pub enum RunStageView {
    /// The channels are being listed.
    Listing(ListingView),
    /// The channel that follows those with an outcome is being exported.
    Exporting(SessionView),
    /// Every channel has an outcome.
    Finished,
    /// The listing has failed.
    Aborted(ExportErrorView),
}

/// The state of an export.
pub struct RunView {
    /// The channels to export, in the order listed; empty until the listing
    /// is done.
    pub channels: Seq<ChannelView>,
    /// How the exports that are over have ended, in the order of the
    /// channels.
    pub outcomes: Seq<OutcomeView>,
    pub stage: RunStageView,
}

impl RunView {
    /// The state in which an export begins.
    pub open spec fn start() -> RunView {
        RunView {
            channels: Seq::empty(),
            outcomes: Seq::empty(),
            stage: RunStageView::Listing(ListingView::start()),
        }
    }

    /// The state that turns to the first channel without an outcome: its
    /// export begins, or the export is finished where none is left.
    pub open spec fn enter(channels: Seq<ChannelView>, outcomes: Seq<OutcomeView>) -> RunView {
        RunView {
            channels,
            outcomes,
            stage: if outcomes.len() < channels.len() {
                RunStageView::Exporting(SessionView::start(channels[outcomes.len() as int]))
            } else {
                RunStageView::Finished
            },
        }
    }

    /// The state that the listing's next state leads to: the export of the
    /// first channel once the listing is done, the end once it has failed.
    pub open spec fn listed(self, next: ListingView) -> RunView {
        match next.outcome() {
            None => RunView { stage: RunStageView::Listing(next), ..self },
            Some(Ok(channels)) => RunView::enter(channels, Seq::empty()),
            Some(Err(e)) => RunView { stage: RunStageView::Aborted(e), ..self },
        }
    }

    /// The state after a page of the listing has been received and read as
    /// `page`. Nothing changes where the channels are not being listed.
    pub open spec fn receive_listing(
        self,
        page: Result<ChannelPageView, ExportErrorView>,
    ) -> RunView {
        match self.stage {
            RunStageView::Listing(listing) => self.listed(listing.receive(page)),
            _ => self,
        }
    }

    /// The state after a page of the channel under way has been received
    /// with `body` and read as `page`. Nothing changes where no channel is
    /// being exported.
    pub open spec fn receive_page(
        self,
        body: Seq<char>,
        page: Result<HistoryPageView, ExportErrorView>,
    ) -> RunView {
        match self.stage {
            RunStageView::Exporting(session) => RunView {
                stage: RunStageView::Exporting(session.receive(body, page)),
                ..self
            },
            _ => self,
        }
    }

    /// The state after an event. While the channels are listed the event
    /// goes to the listing, and while a channel is exported to its session.
    /// A session that is over waits for `Closed`; then its outcome is
    /// recorded and the export turns to the next channel.
    pub open spec fn step(self, event: EventView) -> RunView {
        match self.stage {
            RunStageView::Listing(listing) => self.listed(listing.step(event)),
            RunStageView::Exporting(session) => match session.outcome() {
                None => RunView { stage: RunStageView::Exporting(session.step(event)), ..self },
                Some(outcome) => if event == EventView::Closed {
                    RunView::enter(self.channels, self.outcomes.push(outcome))
                } else {
                    self
                },
            },
            RunStageView::Finished => self,
            RunStageView::Aborted(_) => self,
        }
    }

    /// The state after a list of events, in order.
    pub open spec fn run(self, events: Seq<EventView>) -> RunView
        decreases events.len(),
    {
        if events.len() == 0 {
            self
        } else {
            self.run(events.drop_last()).step(events.last())
        }
    }

    /// Whether the export has come to its end with the channels listed and
    /// the export of every one of them done.
    pub open spec fn succeeded(self) -> bool {
        self.stage is Finished && all_done(self.outcomes)
    }

    /// Whether the export is over.
    pub open spec fn is_over(self) -> bool {
        self.stage is Finished || self.stage is Aborted
    }

    /// What the export asks for in this state.
    pub open spec fn action(self) -> ActionView {
        match self.stage {
            RunStageView::Listing(listing) => match listing.request() {
                Some(request) => ActionView::Fetch(request),
                None => ActionView::Exit { success: false },
            },
            RunStageView::Exporting(session) => session.action(),
            RunStageView::Finished => ActionView::Exit { success: all_done(self.outcomes) },
            RunStageView::Aborted(_) => ActionView::Exit { success: false },
        }
    }

    /// The number of channels whose export has begun.
    pub open spec fn attempts(self) -> nat {
        if self.stage is Exporting {
            self.outcomes.len() + 1
        } else {
            self.outcomes.len()
        }
    }

    /// The exports go through the channels one by one: before the listing
    /// is done there is neither channel nor outcome; the session under way
    /// belongs to the channel that follows those with an outcome; at the end
    /// every channel has one.
    pub open spec fn orderly(self) -> bool {
        match self.stage {
            RunStageView::Listing(listing) => !listing.is_over() && self.channels.len() == 0
                && self.outcomes.len() == 0,
            RunStageView::Exporting(session) => self.outcomes.len() < self.channels.len()
                && session.channel == self.channels[self.outcomes.len() as int],
            RunStageView::Finished => self.outcomes.len() == self.channels.len(),
            RunStageView::Aborted(_) => self.channels.len() == 0 && self.outcomes.len() == 0,
        }
    }
}

/// A step keeps the exports going through the channels one by one.
pub proof fn lemma_orderly_step(s: RunView, event: EventView)
    requires
        s.orderly(),
    ensures
        s.step(event).orderly(),
{
}

/// An export goes through its channels one by one, whatever it is told:
/// it never begins more exports than there are channels, the session under
/// way belongs to the channel that follows those with an outcome, and once
/// the export has finished it has begun exactly one export for each channel
/// listed, none for an empty list, and has an outcome for each. An export
/// whose listing has failed has begun none.
pub proof fn lemma_one_export_per_channel(events: Seq<EventView>)
    ensures
        RunView::start().run(events).orderly(),
        RunView::start().run(events).attempts() <= RunView::start().run(events).channels.len(),
        RunView::start().run(events).stage is Finished ==> RunView::start().run(
            events,
        ).attempts() == RunView::start().run(events).channels.len(),
        RunView::start().run(events).stage is Aborted ==> RunView::start().run(events).attempts()
            == 0,
    decreases events.len(),
{
    if events.len() > 0 {
        lemma_one_export_per_channel(events.drop_last());
        lemma_orderly_step(RunView::start().run(events.drop_last()), events.last());
    }
}

/// The same of an export that begins with the channels given: it keeps
/// them, begins at most one export for each, in their order, and once it
/// has finished exactly one for each.
pub proof fn lemma_one_export_per_given_channel(
    channels: Seq<ChannelView>,
    events: Seq<EventView>,
)
    ensures
        RunView::enter(channels, Seq::empty()).run(events).orderly(),
        RunView::enter(channels, Seq::empty()).run(events).channels == channels,
        RunView::enter(channels, Seq::empty()).run(events).attempts() <= channels.len(),
        RunView::enter(channels, Seq::empty()).run(events).stage is Finished ==> RunView::enter(
            channels,
            Seq::empty(),
        ).run(events).attempts() == channels.len(),
        !(RunView::enter(channels, Seq::empty()).run(events).stage is Listing),
        !(RunView::enter(channels, Seq::empty()).run(events).stage is Aborted),
    decreases events.len(),
{
    if events.len() > 0 {
        lemma_one_export_per_given_channel(channels, events.drop_last());
        lemma_orderly_step(
            RunView::enter(channels, Seq::empty()).run(events.drop_last()),
            events.last(),
        );
    }
}

/// Whether a list of events takes the export of a channel from its start to
/// its end and no further: after all of them the export is over, and before
/// the last of them it is not.
pub open spec fn settles(channel: ChannelView, round: Seq<EventView>) -> bool {
    &&& SessionView::start(channel).run(round).is_over()
    &&& forall|k: int|
        0 <= k < round.len() ==> !(#[trigger] SessionView::start(channel).run(round.take(k))).is_over()
}

/// The events of an export channel by channel: the events of each channel's
/// export, then `Closed`.
pub open spec fn rounds_events(rounds: Seq<Seq<EventView>>) -> Seq<EventView>
    decreases rounds.len(),
{
    if rounds.len() == 0 {
        Seq::empty()
    } else {
        rounds_events(rounds.drop_last()) + rounds.last().push(EventView::Closed)
    }
}

/// How the exports of the first channels end, each told the events of its
/// round.
pub open spec fn rounds_outcomes(
    channels: Seq<ChannelView>,
    rounds: Seq<Seq<EventView>>,
) -> Seq<OutcomeView> {
    Seq::new(
        rounds.len(),
        |i: int|
            match SessionView::start(channels[i]).run(rounds[i]).outcome() {
                Some(outcome) => outcome,
                None => OutcomeView::Done,
            },
    )
}

/// Running two lists of events one after the other is running them as one
/// list.
pub proof fn lemma_run_concat(s: RunView, first: Seq<EventView>, second: Seq<EventView>)
    ensures
        s.run(first + second) == s.run(first).run(second),
    decreases second.len(),
{
    if second.len() == 0 {
        assert(first + second == first);
    } else {
        lemma_run_concat(s, first, second.drop_last());
        assert((first + second).drop_last() == first + second.drop_last());
        assert((first + second).last() == second.last());
    }
}

/// While a channel's export is under way, what the export is told goes to
/// the channel's session and changes nothing else.
pub proof fn lemma_round_goes_to_session(s: RunView, session: SessionView, round: Seq<EventView>)
    requires
        s.stage == RunStageView::Exporting(session),
        forall|k: int| 0 <= k < round.len() ==> !(#[trigger] session.run(round.take(k))).is_over(),
    ensures
        s.run(round) == (RunView { stage: RunStageView::Exporting(session.run(round)), ..s }),
    decreases round.len(),
{
    if round.len() > 0 {
        let shorter = round.drop_last();
        assert forall|k: int| 0 <= k < shorter.len() implies !(#[trigger] session.run(
            shorter.take(k),
        )).is_over() by {
            assert(shorter.take(k) == round.take(k));
        }
        lemma_round_goes_to_session(s, session, shorter);
        assert(round.take(round.len() - 1) == shorter);
    }
}

/// Every channel listed is exported, once and in its turn: where the
/// export of each channel comes to its end, however it ends, the export as
/// a whole finishes with one outcome for each channel, in the order of the
/// channels, each the outcome of a session of its own that started without
/// a cursor. It has succeeded exactly if every one of them is done.
pub proof fn lemma_every_channel_is_exported(
    channels: Seq<ChannelView>,
    rounds: Seq<Seq<EventView>>,
)
    requires
        rounds.len() == channels.len(),
        forall|i: int| 0 <= i < channels.len() ==> settles(channels[i], #[trigger] rounds[i]),
    ensures
        ({
            let end = RunView::enter(channels, Seq::empty()).run(rounds_events(rounds));
            &&& end.stage is Finished
            &&& end.channels == channels
            &&& end.outcomes == rounds_outcomes(channels, rounds)
            &&& end.attempts() == channels.len()
            &&& end.action() == (ActionView::Exit { success: all_done(end.outcomes) })
            &&& end.succeeded() == all_done(rounds_outcomes(channels, rounds))
        }),
{
    lemma_rounds(channels, rounds, channels.len() as int);
    assert(rounds.take(channels.len() as int) == rounds);
}

proof fn lemma_rounds(channels: Seq<ChannelView>, rounds: Seq<Seq<EventView>>, n: int)
    requires
        rounds.len() == channels.len(),
        0 <= n <= channels.len(),
        forall|i: int| 0 <= i < channels.len() ==> settles(channels[i], #[trigger] rounds[i]),
    ensures
        RunView::enter(channels, Seq::empty()).run(rounds_events(rounds.take(n))) == RunView::enter(
            channels,
            rounds_outcomes(channels, rounds.take(n)),
        ),
    decreases n,
{
    let start = RunView::enter(channels, Seq::empty());
    if n == 0 {
        assert(rounds.take(0) == Seq::<Seq<EventView>>::empty());
        assert(rounds_outcomes(channels, rounds.take(0)) == Seq::<OutcomeView>::empty());
    } else {
        lemma_rounds(channels, rounds, n - 1);
        let done = rounds.take(n - 1);
        let round = rounds[n - 1];
        let outcomes = rounds_outcomes(channels, done);
        let before = RunView::enter(channels, outcomes);
        let session = SessionView::start(channels[n - 1]);
        assert(rounds.take(n).drop_last() == done);
        assert(rounds.take(n).last() == round);
        assert(settles(channels[n - 1], round));
        lemma_run_concat(start, rounds_events(done), round.push(EventView::Closed));
        assert(before.stage == RunStageView::Exporting(session));
        lemma_round_goes_to_session(before, session, round);
        assert(round.push(EventView::Closed).drop_last() == round);
        let over = session.run(round);
        assert(over.is_over());
        assert(before.run(round.push(EventView::Closed)) == before.run(round).step(
            EventView::Closed,
        ));
        assert(outcomes.push(over.outcome()->0) == rounds_outcomes(channels, rounds.take(n))) by {
            let left = outcomes.push(over.outcome()->0);
            let right = rounds_outcomes(channels, rounds.take(n));
            assert(left.len() == right.len());
            assert forall|i: int| 0 <= i < left.len() implies left[i] == right[i] by {
                if i < n - 1 {
                    assert(done[i] == rounds.take(n)[i]);
                }
            }
        }
    }
}

/// While the channels are listed, what the export is told goes to the
/// listing; with the event that ends the listing the export turns to the
/// first channel, or is over where the listing has failed or is empty.
pub proof fn lemma_listing_goes_to_listing(events: Seq<EventView>)
    requires
        forall|k: int|
            0 <= k < events.len() ==> !(#[trigger] ListingView::start().run(events.take(k))).is_over(),
    ensures
        RunView::start().run(events) == RunView::start().listed(ListingView::start().run(events)),
    decreases events.len(),
{
    if events.len() > 0 {
        let shorter = events.drop_last();
        assert forall|k: int| 0 <= k < shorter.len() implies !(#[trigger] ListingView::start().run(
            shorter.take(k),
        )).is_over() by {
            assert(shorter.take(k) == events.take(k));
        }
        lemma_listing_goes_to_listing(shorter);
        assert(events.take(events.len() - 1) == shorter);
    }
}

/// A whole export that goes its way: the listing is answered page by page
/// to its end, then the export of each channel listed comes to its end,
/// however it ends. The export then finishes with the channels of all pages
/// of the listing, in the order received, and one outcome for each of them,
/// in that order; it has succeeded exactly if every one of them is done.
pub proof fn lemma_workspace_is_exported(
    bodies: Seq<Seq<char>>,
    pages: Seq<ChannelPageView>,
    rounds: Seq<Seq<EventView>>,
)
    requires
        bodies.len() == pages.len(),
        bodies.len() > 0,
        forall|i: int|
            0 <= i < bodies.len() ==> #[trigger] channel_page_of_text(bodies[i]) == Ok::<
                ChannelPageView,
                ExportErrorView,
            >(pages[i]),
        forall|i: int|
            0 <= i < pages.len() - 1 ==> (#[trigger] pages[i]).has_more
                && pages[i].next_cursor is Some,
        pages.last().continuation() is None,
        rounds.len() == gathered(pages).len(),
        forall|i: int|
            0 <= i < rounds.len() ==> settles(gathered(pages)[i], #[trigger] rounds[i]),
    ensures
        ({
            let end = RunView::start().run(answers(bodies) + rounds_events(rounds));
            &&& end.stage is Finished
            &&& end.channels == gathered(pages)
            &&& end.outcomes == rounds_outcomes(gathered(pages), rounds)
            &&& end.attempts() == gathered(pages).len()
            &&& end.action() == (ActionView::Exit { success: all_done(end.outcomes) })
            &&& end.succeeded() == all_done(rounds_outcomes(gathered(pages), rounds))
        }),
{
    lemma_listing_completes(bodies, pages);
    lemma_listing_goes_to_listing(answers(bodies));
    lemma_run_concat(RunView::start(), answers(bodies), rounds_events(rounds));
    lemma_every_channel_is_exported(gathered(pages), rounds);
}

/// A step begins at most one export, that of the channel whose turn it is;
/// it never takes back an outcome, and leaves the channels as listed once
/// they are listed.
pub proof fn lemma_step_begins_one(s: RunView, event: EventView)
    requires
        s.orderly(),
    ensures
        s.attempts() <= s.step(event).attempts() <= s.attempts() + 1,
        s.outcomes.len() <= s.step(event).outcomes.len(),
        forall|i: int| 0 <= i < s.outcomes.len() ==> s.step(event).outcomes[i] == s.outcomes[i],
        !(s.stage is Listing) ==> s.step(event).channels == s.channels,
        s.step(event).attempts() == s.attempts() + 1 ==> s.step(event).stage
            == RunStageView::Exporting(
            SessionView::start(s.step(event).channels[s.attempts() as int]),
        ),
{
}

/// A channel whose export has failed does not stop the export: once its
/// archive is released, its failure is recorded and the export turns to the
/// next channel, which starts without a cursor, or finishes where none is
/// left. The export as a whole then does not count as succeeded.
pub proof fn lemma_failure_goes_on(
    s: RunView,
    session: SessionView,
    error: ExportErrorView,
    events: Seq<EventView>,
)
    requires
        s.orderly(),
        s.stage == RunStageView::Exporting(session),
        session.stage == StageView::Failed(error),
    ensures
        s.action() == (ActionView::Close { channel: session.channel.name, failure: Some(error) }),
        s.step(EventView::Closed).outcomes == s.outcomes.push(OutcomeView::Failed(error)),
        s.outcomes.len() + 1 < s.channels.len() ==> s.step(EventView::Closed).stage
            == RunStageView::Exporting(
            SessionView::start(s.channels[s.outcomes.len() as int + 1]),
        ),
        s.outcomes.len() + 1 == s.channels.len() ==> s.step(EventView::Closed).stage
            == RunStageView::Finished,
        !s.step(EventView::Closed).run(events).succeeded(),
    decreases events.len(),
{
    let next = s.step(EventView::Closed);
    assert(next.outcomes[s.outcomes.len() as int] is Failed);
    lemma_failed_stays(next, s.outcomes.len() as int, events);
}

proof fn lemma_failed_stays(s: RunView, k: int, events: Seq<EventView>)
    requires
        s.orderly(),
        0 <= k < s.outcomes.len(),
        s.outcomes[k] is Failed,
    ensures
        s.run(events).orderly(),
        k < s.run(events).outcomes.len(),
        s.run(events).outcomes[k] is Failed,
        !s.run(events).succeeded(),
    decreases events.len(),
{
    if events.len() > 0 {
        lemma_failed_stays(s, k, events.drop_last());
        let before = s.run(events.drop_last());
        lemma_step_begins_one(before, events.last());
        lemma_orderly_step(before, events.last());
    }
}

/// A listing that fails ends the export at once: no channel's export
/// begins, nothing is asked for but to stop, and the export has not
/// succeeded.
pub proof fn lemma_failed_listing_aborts(
    s: RunView,
    listing: ListingView,
    event: EventView,
    error: ExportErrorView,
    events: Seq<EventView>,
)
    requires
        s.orderly(),
        s.stage == RunStageView::Listing(listing),
        listing.step(event).outcome() == Some(Err::<Seq<ChannelView>, ExportErrorView>(error)),
    ensures
        s.step(event).stage == RunStageView::Aborted(error),
        s.step(event).action() == (ActionView::Exit { success: false }),
        s.step(event).attempts() == 0,
        s.step(event).run(events) == s.step(event),
        !s.step(event).succeeded(),
    decreases events.len(),
{
    if events.len() > 0 {
        lemma_failed_listing_aborts(s, listing, event, error, events.drop_last());
    }
}

enum RunStage {
    Listing(Enumeration),
    Exporting(ChannelExport),
    Finished,
    Aborted(ExportError),
}

impl View for RunStage {
    type V = RunStageView;

    closed spec fn view(&self) -> RunStageView {
        match self {
            RunStage::Listing(listing) => RunStageView::Listing(listing@),
            RunStage::Exporting(session) => RunStageView::Exporting(session@),
            RunStage::Finished => RunStageView::Finished,
            RunStage::Aborted(e) => RunStageView::Aborted(e@),
        }
    }
}

/// A whole export: the channels, the outcomes so far, and the listing or
/// the session that is under way.
pub struct Run {
    channels: Vec<Channel>,
    outcomes: Vec<Outcome>,
    stage: RunStage,
}

impl View for Run {
    type V = RunView;

    closed spec fn view(&self) -> RunView {
        RunView {
            channels: channels_view(self.channels@),
            outcomes: outcomes_view(self.outcomes@),
            stage: self.stage@,
        }
    }
}

fn enter(channels: Vec<Channel>, outcomes: Vec<Outcome>) -> (run: Run)
    requires
        outcomes.len() <= channels.len(),
    ensures
        run@ == RunView::enter(channels_view(channels@), outcomes_view(outcomes@)),
{
    let stage = if outcomes.len() < channels.len() {
        RunStage::Exporting(ChannelExport::begin(channels[outcomes.len()].clone()))
    } else {
        RunStage::Finished
    };
    Run { channels, outcomes, stage }
}

fn listed(channels: Vec<Channel>, outcomes: Vec<Outcome>, next: Enumeration) -> (run: Run)
    requires
        channels.len() == 0,
        outcomes.len() == 0,
    ensures
        run@ == (RunView {
            channels: channels_view(channels@),
            outcomes: outcomes_view(outcomes@),
            stage: RunStageView::Listing(next@),
        }).listed(next@),
{
    match next.finish() {
        Listed::Pending(next) => Run { channels, outcomes, stage: RunStage::Listing(next) },
        Listed::Channels(listed) => {
            let none: Vec<Outcome> = Vec::new();
            assert(outcomes_view(none@) == Seq::<OutcomeView>::empty());
            enter(listed, none)
        },
        Listed::Failed(e) => Run { channels, outcomes, stage: RunStage::Aborted(e) },
    }
}

impl Run {
    #[verifier::type_invariant]
    spec fn well_formed(self) -> bool {
        self@.orderly()
    }

    /// Begins the export of the channels given, in their order, without
    /// listing any.
    pub fn of_channels(channels: Vec<Channel>) -> (run: Run)
        ensures
            run@ == RunView::enter(channels_view(channels@), Seq::empty()),
    {
        let none: Vec<Outcome> = Vec::new();
        assert(outcomes_view(none@) == Seq::<OutcomeView>::empty());
        enter(channels, none)
    }

    /// Takes in a page of the listing, as what reading it has come to.
    pub fn receive_listing(self, page: Result<ChannelPage, ExportError>) -> (next: Run)
        ensures
            next@ == self@.receive_listing(channel_result_view(page)),
    {
        proof {
            use_type_invariant(&self);
        }
        let Run { channels, outcomes, stage } = self;
        match stage {
            RunStage::Listing(listing) => listed(channels, outcomes, listing.receive(page)),
            stage => Run { channels, outcomes, stage },
        }
    }

    /// Takes in a page of the channel under way: the body as received, and
    /// what reading it has come to.
    pub fn receive_page(self, body: String, page: Result<HistoryPage, ExportError>) -> (next: Run)
        ensures
            next@ == self@.receive_page(body@, history_result_view(page)),
    {
        proof {
            use_type_invariant(&self);
        }
        let Run { channels, outcomes, stage } = self;
        match stage {
            RunStage::Exporting(session) => Run {
                channels,
                outcomes,
                stage: RunStage::Exporting(session.receive(body, page)),
            },
            stage => Run { channels, outcomes, stage },
        }
    }

    /// Begins an export: the channels are to be listed.
    pub fn begin() -> (run: Run)
        ensures
            run@ == RunView::start(),
    {
        let run = Run {
            channels: Vec::new(),
            outcomes: Vec::new(),
            stage: RunStage::Listing(Enumeration::begin()),
        };
        assert(channels_view(run.channels@) == Seq::<ChannelView>::empty());
        assert(outcomes_view(run.outcomes@) == Seq::<OutcomeView>::empty());
        run
    }

    /// The channels to export, in the order listed.
    pub fn channels(&self) -> (channels: &Vec<Channel>)
        ensures
            channels_view(channels@) == self@.channels,
    {
        &self.channels
    }

    /// How the exports that are over have ended, in the order of the
    /// channels.
    pub fn outcomes(&self) -> (outcomes: &Vec<Outcome>)
        ensures
            outcomes_view(outcomes@) == self@.outcomes,
    {
        &self.outcomes
    }

    /// The error that the listing failed with, if it failed.
    pub fn listing_error(&self) -> (error: Option<&ExportError>)
        ensures
            match error {
                Some(e) => self@.stage == RunStageView::Aborted(e@),
                None => !(self@.stage is Aborted),
            },
    {
        match &self.stage {
            RunStage::Aborted(e) => Some(e),
            _ => None,
        }
    }

    /// Whether the export is over.
    pub fn is_over(&self) -> (over: bool)
        ensures
            over == self@.is_over(),
    {
        match &self.stage {
            RunStage::Finished => true,
            RunStage::Aborted(_) => true,
            _ => false,
        }
    }

    fn all_done(&self) -> (done: bool)
        ensures
            done == all_done(self@.outcomes),
    {
        let mut i: usize = 0;
        while i < self.outcomes.len()
            invariant
                i <= self.outcomes.len(),
                forall|k: int| 0 <= k < i ==> outcomes_view(self.outcomes@)[k] is Done,
            decreases self.outcomes.len() - i,
        {
            match &self.outcomes[i] {
                Outcome::Done => {},
                Outcome::Failed(_) => {
                    assert(outcomes_view(self.outcomes@)[i as int] is Failed);
                    return false;
                },
            }
            i += 1;
        }
        true
    }

    /// Whether the export has come to its end with the channels listed and
    /// the export of every one of them done. An export goes through its
    /// channels one by one.
    pub fn succeeded(&self) -> (success: bool)
        ensures
            success == self@.succeeded(),
            self@.orderly(),
    {
        proof {
            use_type_invariant(self);
        }
        match &self.stage {
            RunStage::Finished => self.all_done(),
            _ => false,
        }
    }

    /// What is to be done next.
    pub fn action(&self) -> (action: Action<'_>)
        ensures
            action@ == self@.action(),
    {
        match &self.stage {
            RunStage::Listing(listing) => match listing.request() {
                Some(request) => Action::Fetch(request),
                None => Action::Exit { success: false },
            },
            RunStage::Exporting(session) => session.action(),
            RunStage::Finished => Action::Exit { success: self.all_done() },
            RunStage::Aborted(_) => Action::Exit { success: false },
        }
    }

    /// Takes in the answer to what the export has asked for.
    pub fn step(self, event: Event) -> (next: Run)
        ensures
            next@ == self@.step(event@),
    {
        proof {
            use_type_invariant(&self);
            lemma_orderly_step(self@, event@);
        }
        let Run { channels, outcomes, stage } = self;
        match stage {
            RunStage::Listing(listing) => {
                listed(channels, outcomes, listing.step(event))
            },
            RunStage::Exporting(session) => {
                match session.outcome() {
                    None => Run {
                        channels,
                        outcomes,
                        stage: RunStage::Exporting(session.step(event)),
                    },
                    Some(outcome) => match event {
                        Event::Closed => {
                            let ghost before = outcomes_view(outcomes@);
                            let mut outcomes = outcomes;
                            outcomes.push(outcome);
                            assert(outcomes_view(outcomes@) == before.push(outcome@));
                            enter(channels, outcomes)
                        },
                        _ => Run { channels, outcomes, stage: RunStage::Exporting(session) },
                    },
                }
            },
            RunStage::Finished => Run { channels, outcomes, stage: RunStage::Finished },
            RunStage::Aborted(e) => Run { channels, outcomes, stage: RunStage::Aborted(e) },
        }
    }
}

} // verus!
