//! The consumer side of a download: turns download events into what the
//! progress display shows, and says when to close it.
use crate::download::{
    lemma_cancel_before_end, run, DownloadError, DownloadErrorView, DownloadEvent, EventView, InputView,
    Phase, SessionView,
};
use vstd::prelude::*;

verus! {

/// What the progress display shows.
pub struct ProgressRelay {
    pub bytes_done: u64,
    pub rate_bytes_per_sec: u64,
    pub eta: String,
    pub bytes_total: u64,
    pub indeterminate: bool,
    pub finished: bool,
}

pub struct RelayView {
    pub bytes_done: nat,
    pub rate_bytes_per_sec: nat,
    pub eta: Seq<char>,
    pub bytes_total: nat,
    pub indeterminate: bool,
    pub finished: bool,
}

impl View for ProgressRelay {
    type V = RelayView;

    open spec fn view(&self) -> RelayView {
        RelayView {
            bytes_done: self.bytes_done as nat,
            rate_bytes_per_sec: self.rate_bytes_per_sec as nat,
            eta: self.eta@,
            bytes_total: self.bytes_total as nat,
            indeterminate: self.indeterminate,
            finished: self.finished,
        }
    }
}

/// What the consumer does after an event.
#[derive(Debug)]
pub enum RelayOutcome {
    /// Wait for the next event.
    Continue,
    /// The download is over: hide the display and stop consuming.
    Close,
    /// The download failed: stop consuming and hand the error to the caller.
    Fail(DownloadError),
}

pub enum OutcomeView {
    Continue,
    Close,
    Fail(DownloadErrorView),
}

impl View for RelayOutcome {
    type V = OutcomeView;

    open spec fn view(&self) -> OutcomeView {
        match self {
            RelayOutcome::Continue => OutcomeView::Continue,
            RelayOutcome::Close => OutcomeView::Close,
            RelayOutcome::Fail(e) => OutcomeView::Fail(e@),
        }
    }
}

/// The display after one event, and what follows.
pub open spec fn relay_step(r: RelayView, e: EventView) -> (RelayView, OutcomeView) {
    match e {
        EventView::Advance { bytes_downloaded, rate_bytes_per_sec, eta } => (
            RelayView { bytes_done: bytes_downloaded, rate_bytes_per_sec, eta, ..r },
            OutcomeView::Continue,
        ),
        EventView::SetTotal(t) => (RelayView { bytes_total: t, ..r }, OutcomeView::Continue),
        EventView::SetDeterminacy(d) => (RelayView { indeterminate: !d, ..r }, OutcomeView::Continue),
        EventView::Finish => (RelayView { finished: true, ..r }, OutcomeView::Close),
        EventView::Error(c) => (r, OutcomeView::Fail(c)),
    }
}

/// The display after consuming `evs` in order, up to the first event that
/// ends the consumption, and what the last event said.
pub open spec fn relay_run(r: RelayView, evs: Seq<EventView>) -> (RelayView, OutcomeView)
    decreases evs.len(),
{
    if evs.len() == 0 {
        (r, OutcomeView::Continue)
    } else {
        let (r1, o) = relay_step(r, evs[0]);
        if o is Continue {
            relay_run(r1, evs.drop_first())
        } else {
            (r1, o)
        }
    }
}

/// Events that hold no error and end with `Finish` leave the display closed
/// as finished.
pub proof fn lemma_relay_reaches_finish(r: RelayView, evs: Seq<EventView>)
    requires
        evs.len() > 0,
        evs.last() == EventView::Finish,
        forall|j: int| 0 <= j < evs.len() ==> !(#[trigger] evs[j] is Error),
    ensures
        relay_run(r, evs).1 == OutcomeView::Close,
        relay_run(r, evs).0.finished,
    decreases evs.len(),
{
    if !(evs[0] is Finish) {
        assert(!(evs[0] is Error));
        let rest = evs.drop_first();
        assert(rest.last() == evs.last());
        assert forall|j: int| 0 <= j < rest.len() implies !(#[trigger] rest[j] is Error) by {
            assert(rest[j] == evs[j + 1]);
        }
        lemma_relay_reaches_finish(relay_step(r, evs[0]).0, rest);
    }
}

/// A download cancelled before the end of its body still has the display
/// observe `Finish`: it closes as finished, not as failed.
pub proof fn lemma_cancelled_download_finishes_relay(
    s: SessionView,
    inputs: Seq<InputView>,
    k: int,
    r: RelayView,
)
    requires
        0 <= k < inputs.len(),
        run(s, inputs.take(k)).0.phase == Phase::AwaitCancelCheck,
        inputs[k] == InputView::CancelChecked(true),
    ensures
        relay_run(r, run(s, inputs).1).1 == OutcomeView::Close,
        relay_run(r, run(s, inputs).1).0.finished,
{
    lemma_cancel_before_end(s, inputs, k);
    lemma_relay_reaches_finish(r, run(s, inputs).1);
}

impl ProgressRelay {
    /// A display with nothing received, in determinate mode.
    pub fn new() -> (r: ProgressRelay)
        ensures
            r@ == (RelayView {
                bytes_done: 0,
                rate_bytes_per_sec: 0,
                eta: Seq::empty(),
                bytes_total: 0,
                indeterminate: false,
                finished: false,
            }),
    {
        ProgressRelay {
            bytes_done: 0,
            rate_bytes_per_sec: 0,
            eta: String::new(),
            bytes_total: 0,
            indeterminate: false,
            finished: false,
        }
    }

    /// Applies one event, as `relay_step` does.
    pub fn apply(&mut self, event: DownloadEvent) -> (r: RelayOutcome)
        ensures
            (final(self)@, r@) == relay_step(old(self)@, event@),
    {
        match event {
            DownloadEvent::Advance { bytes_downloaded, rate_bytes_per_sec, eta } => {
                self.bytes_done = bytes_downloaded;
                self.rate_bytes_per_sec = rate_bytes_per_sec;
                self.eta = eta;
                RelayOutcome::Continue
            },
            DownloadEvent::SetTotal(t) => {
                self.bytes_total = t;
                RelayOutcome::Continue
            },
            DownloadEvent::SetDeterminacy(d) => {
                self.indeterminate = !d;
                RelayOutcome::Continue
            },
            DownloadEvent::Finish => {
                self.finished = true;
                RelayOutcome::Close
            },
            DownloadEvent::Error(e) => RelayOutcome::Fail(e),
        }
    }

    /// The producer went away without a final event: taken as a finish,
    /// since waiting on would never end.
    pub fn disconnected(&mut self) -> (r: RelayOutcome)
        ensures
            final(self)@ == (RelayView { finished: true, ..old(self)@ }),
            r@ == OutcomeView::Close,
    {
        self.finished = true;
        RelayOutcome::Close
    }
}

} // verus!
