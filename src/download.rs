//! The decisions of one download: from the response to the cache file,
//! with progress events and cooperative cancellation. The caller performs
//! each action and hands back what came of it.
use crate::text::{push_duration, time_text};
use vstd::prelude::*;

verus! {

/// Why a download failed.
#[derive(Clone, Debug)]
pub enum DownloadError {
    /// The request or a chunk read failed.
    Network(String),
    /// The cache file could not be written.
    Filesystem(String),
    /// No bundle is published for the operating system.
    UnsupportedPlatform,
}

pub enum DownloadErrorView {
    Network(Seq<char>),
    Filesystem(Seq<char>),
    UnsupportedPlatform,
}

impl View for DownloadError {
    type V = DownloadErrorView;

    open spec fn view(&self) -> DownloadErrorView {
        match self {
            DownloadError::Network(c) => DownloadErrorView::Network(c@),
            DownloadError::Filesystem(c) => DownloadErrorView::Filesystem(c@),
            DownloadError::UnsupportedPlatform => DownloadErrorView::UnsupportedPlatform,
        }
    }
}

/// What the progress display is told.
#[derive(Clone, Debug)]
pub enum DownloadEvent {
    /// Bytes received so far, the average rate, and the remaining time.
    Advance { bytes_downloaded: u64, rate_bytes_per_sec: u64, eta: String },
    /// The size announced by the server, 0 when it announced none.
    SetTotal(u64),
    /// Whether the total is known.
    SetDeterminacy(bool),
    /// The download is over without error.
    Finish,
    /// The download failed.
    Error(DownloadError),
}

pub enum EventView {
    Advance { bytes_downloaded: nat, rate_bytes_per_sec: nat, eta: Seq<char> },
    SetTotal(nat),
    SetDeterminacy(bool),
    Finish,
    Error(DownloadErrorView),
}

impl View for DownloadEvent {
    type V = EventView;

    open spec fn view(&self) -> EventView {
        match self {
            DownloadEvent::Advance { bytes_downloaded, rate_bytes_per_sec, eta } => EventView::Advance {
                bytes_downloaded: *bytes_downloaded as nat,
                rate_bytes_per_sec: *rate_bytes_per_sec as nat,
                eta: eta@,
            },
            DownloadEvent::SetTotal(t) => EventView::SetTotal(*t as nat),
            DownloadEvent::SetDeterminacy(d) => EventView::SetDeterminacy(*d),
            DownloadEvent::Finish => EventView::Finish,
            DownloadEvent::Error(e) => EventView::Error(e@),
        }
    }
}

/// What the caller reports back.
#[derive(Debug)]
pub enum DownloadInput {
    /// The server answered, with the size it announced if any.
    Responded { content_length: Option<u64> },
    /// The request failed.
    RequestFailed(String),
    /// The cancellation flag was read.
    CancelChecked(bool),
    /// The next chunk of the body, and the milliseconds since the session
    /// began. An empty chunk is the end of the body.
    Chunk { bytes: Vec<u8>, elapsed_ms: u64 },
    /// Reading a chunk failed.
    ReadFailed(String),
    /// The cache file was written.
    Written,
    /// Writing the cache file failed.
    WriteFailed(String),
}

pub enum InputView {
    Responded { content_length: Option<nat> },
    RequestFailed(Seq<char>),
    CancelChecked(bool),
    Chunk { bytes: Seq<u8>, elapsed_ms: nat },
    ReadFailed(Seq<char>),
    Written,
    WriteFailed(Seq<char>),
}

impl View for DownloadInput {
    type V = InputView;

    open spec fn view(&self) -> InputView {
        match self {
            DownloadInput::Responded { content_length } => InputView::Responded {
                content_length: match content_length {
                    Some(n) => Some(*n as nat),
                    None => None,
                },
            },
            DownloadInput::RequestFailed(c) => InputView::RequestFailed(c@),
            DownloadInput::CancelChecked(b) => InputView::CancelChecked(*b),
            DownloadInput::Chunk { bytes, elapsed_ms } => InputView::Chunk {
                bytes: bytes@,
                elapsed_ms: *elapsed_ms as nat,
            },
            DownloadInput::ReadFailed(c) => InputView::ReadFailed(c@),
            DownloadInput::Written => InputView::Written,
            DownloadInput::WriteFailed(c) => InputView::WriteFailed(c@),
        }
    }
}

/// What the caller does next.
#[derive(Clone, Copy, Debug, PartialEq, Eq, Structural)]
pub enum DownloadAction {
    /// Send the request and report `Responded` or `RequestFailed`.
    SendRequest,
    /// Read the cancellation flag and report `CancelChecked`.
    CheckCancel,
    /// Read the next chunk and report `Chunk` or `ReadFailed`.
    ReadChunk,
    /// Wait a short while (to pace the display), then read the cancellation
    /// flag and report `CancelChecked`.
    PauseThenCheckCancel,
    /// Write `data()` to the cache file, creating its directory, and report
    /// `Written` or `WriteFailed`.
    WriteFile,
    /// Nothing more: the session is over.
    Stop,
}

/// Where a session stands.
#[derive(Clone, Copy, Debug, PartialEq, Eq, Structural)]
pub enum Phase {
    Requesting,
    AwaitCancelCheck,
    AwaitChunk,
    Writing,
    Completed,
    Cancelled,
    Failed,
}

/// One download in flight: its phase, the announced size (0 when unknown)
/// and the bytes received so far.
pub struct DownloadSession {
    phase: Phase,
    total: u64,
    data: Vec<u8>,
}

pub struct SessionView {
    pub phase: Phase,
    pub total: nat,
    pub data: Seq<u8>,
}

impl View for DownloadSession {
    type V = SessionView;

    closed spec fn view(&self) -> SessionView {
        SessionView { phase: self.phase, total: self.total as nat, data: self.data@ }
    }
}

/// The session is over.
pub open spec fn is_terminal(p: Phase) -> bool {
    p == Phase::Completed || p == Phase::Cancelled || p == Phase::Failed
}

/// How far a phase is along: phases never go back.
pub open spec fn rank(p: Phase) -> int {
    match p {
        Phase::Requesting => 0,
        Phase::AwaitCancelCheck => 1,
        Phase::AwaitChunk => 1,
        Phase::Writing => 2,
        _ => 3,
    }
}

/// What the caller is asked for in a phase.
pub open spec fn expected_action(p: Phase) -> DownloadAction {
    match p {
        Phase::Requesting => DownloadAction::SendRequest,
        Phase::AwaitCancelCheck => DownloadAction::CheckCancel,
        Phase::AwaitChunk => DownloadAction::ReadChunk,
        Phase::Writing => DownloadAction::WriteFile,
        _ => DownloadAction::Stop,
    }
}

/// The average rate in bytes per second, 0 before any time has passed,
/// at most `u64::MAX`.
pub open spec fn rate_of(downloaded: nat, elapsed_ms: nat) -> nat {
    if elapsed_ms == 0 {
        0
    } else if downloaded * 1000 / elapsed_ms > u64::MAX {
        u64::MAX as nat
    } else {
        downloaded * 1000 / elapsed_ms
    }
}

/// The remaining time, or `unknown` where the total or the rate is not
/// known.
pub open spec fn eta_text(total: nat, downloaded: nat, rate: nat) -> Seq<char> {
    if total == 0 || rate == 0 {
        "unknown"@
    } else if total <= downloaded {
        time_text(0)
    } else {
        time_text((total - downloaded) / (rate as int))
    }
}

/// One step of a session: the next session, the events it emits, and what
/// the caller does next. An input that does not fit the phase changes
/// nothing and repeats the request.
pub open spec fn step_spec(s: SessionView, i: InputView) -> (SessionView, Seq<EventView>, DownloadAction) {
    let unchanged = (s, Seq::<EventView>::empty(), expected_action(s.phase));
    let failed = |e: DownloadErrorView|
        (
            SessionView { phase: Phase::Failed, total: s.total, data: Seq::empty() },
            seq![EventView::Error(e)],
            DownloadAction::Stop,
        );
    match s.phase {
        Phase::Requesting => match i {
            InputView::Responded { content_length } => {
                let total = match content_length {
                    Some(n) => n,
                    None => 0,
                };
                (
                    SessionView { phase: Phase::AwaitCancelCheck, total, data: s.data },
                    seq![EventView::SetTotal(total), EventView::SetDeterminacy(total != 0)],
                    DownloadAction::CheckCancel,
                )
            },
            InputView::RequestFailed(c) => failed(DownloadErrorView::Network(c)),
            _ => unchanged,
        },
        Phase::AwaitCancelCheck => match i {
            InputView::CancelChecked(true) => (
                SessionView { phase: Phase::Cancelled, total: s.total, data: Seq::empty() },
                seq![EventView::Finish],
                DownloadAction::Stop,
            ),
            InputView::CancelChecked(false) => (
                SessionView { phase: Phase::AwaitChunk, ..s },
                Seq::empty(),
                DownloadAction::ReadChunk,
            ),
            _ => unchanged,
        },
        Phase::AwaitChunk => match i {
            InputView::Chunk { bytes, elapsed_ms } => if bytes.len() == 0 {
                (
                    SessionView { phase: Phase::Writing, ..s },
                    seq![EventView::SetDeterminacy(false)],
                    DownloadAction::WriteFile,
                )
            } else {
                let data = s.data + bytes;
                let rate = rate_of(data.len(), elapsed_ms);
                (
                    SessionView { phase: Phase::AwaitCancelCheck, total: s.total, data },
                    seq![
                        EventView::Advance {
                            bytes_downloaded: data.len(),
                            rate_bytes_per_sec: rate,
                            eta: eta_text(s.total, data.len(), rate),
                        },
                    ],
                    DownloadAction::PauseThenCheckCancel,
                )
            },
            InputView::ReadFailed(c) => failed(DownloadErrorView::Network(c)),
            _ => unchanged,
        },
        Phase::Writing => match i {
            InputView::Written => (
                SessionView { phase: Phase::Completed, total: s.total, data: Seq::empty() },
                seq![EventView::Finish],
                DownloadAction::Stop,
            ),
            InputView::WriteFailed(c) => failed(DownloadErrorView::Filesystem(c)),
            _ => unchanged,
        },
        _ => unchanged,
    }
}

/// A session fed `inputs` in order: the last session, every event emitted
/// and every action asked for.
pub open spec fn run(s: SessionView, inputs: Seq<InputView>) -> (
    SessionView,
    Seq<EventView>,
    Seq<DownloadAction>,
)
    decreases inputs.len(),
{
    if inputs.len() == 0 {
        (s, Seq::empty(), Seq::empty())
    } else {
        let (s1, ev, a) = step_spec(s, inputs[0]);
        let (sf, evs, acts) = run(s1, inputs.drop_first());
        (sf, ev + evs, seq![a] + acts)
    }
}

/// What one step can do: it never moves a session back, asks for a write
/// only as it enters `Writing`, emits a final event only as it ends the
/// session, announces a total only from `Requesting`, and does nothing once
/// the session is over.
pub proof fn lemma_step_facts(s: SessionView, i: InputView)
    ensures
        rank(step_spec(s, i).0.phase) >= rank(s.phase),
        step_spec(s, i).2 == DownloadAction::WriteFile ==> step_spec(s, i).0.phase == Phase::Writing,
        forall|k: int|
            0 <= k < step_spec(s, i).1.len() && (#[trigger] step_spec(s, i).1[k] is Finish
                || step_spec(s, i).1[k] is Error) ==> is_terminal(step_spec(s, i).0.phase),
        forall|k: int|
            0 <= k < step_spec(s, i).1.len() && #[trigger] step_spec(s, i).1[k] is SetTotal
                ==> s.phase == Phase::Requesting,
        is_terminal(s.phase) ==> step_spec(s, i) == (s, Seq::<EventView>::empty(), DownloadAction::Stop),
{
}

/// A session that is over stays over, silent, asking for nothing.
pub proof fn lemma_run_after_end(s: SessionView, inputs: Seq<InputView>)
    requires
        is_terminal(s.phase),
    ensures
        run(s, inputs).0 == s,
        run(s, inputs).1.len() == 0,
        forall|k: int| 0 <= k < run(s, inputs).2.len() ==> #[trigger] run(s, inputs).2[k] == DownloadAction::Stop,
    decreases inputs.len(),
{
    if inputs.len() > 0 {
        lemma_step_facts(s, inputs[0]);
        lemma_run_after_end(s, inputs.drop_first());
        let acts = run(s, inputs).2;
        assert forall|k: int| 0 <= k < acts.len() implies #[trigger] acts[k] == DownloadAction::Stop by {
            if k > 0 {
                assert(acts[k] == run(s, inputs.drop_first()).2[k - 1]);
            }
        }
    }
}

/// Phases never go back over a run.
pub proof fn lemma_run_rank(s: SessionView, inputs: Seq<InputView>)
    ensures
        rank(run(s, inputs).0.phase) >= rank(s.phase),
    decreases inputs.len(),
{
    if inputs.len() > 0 {
        lemma_step_facts(s, inputs[0]);
        lemma_run_rank(step_spec(s, inputs[0]).0, inputs.drop_first());
    }
}

/// A session fed `inputs` that reaches a cancellation check and reads the
/// flag set never asks for the cache file to be written, ends cancelled,
/// emits no error, and its last event is `Finish`.
pub proof fn lemma_cancel_before_end(s: SessionView, inputs: Seq<InputView>, k: int)
    requires
        0 <= k < inputs.len(),
        run(s, inputs.take(k)).0.phase == Phase::AwaitCancelCheck,
        inputs[k] == InputView::CancelChecked(true),
    ensures
        forall|j: int|
            0 <= j < run(s, inputs).2.len() ==> #[trigger] run(s, inputs).2[j] != DownloadAction::WriteFile,
        run(s, inputs).0.phase == Phase::Cancelled,
        forall|j: int| 0 <= j < run(s, inputs).1.len() ==> !(#[trigger] run(s, inputs).1[j] is Error),
        run(s, inputs).1.len() > 0,
        run(s, inputs).1.last() == EventView::Finish,
    decreases k,
{
    let (s1, ev, a) = step_spec(s, inputs[0]);
    let rest = inputs.drop_first();
    lemma_step_facts(s, inputs[0]);
    if k == 0 {
        assert(inputs.take(0) =~= Seq::<InputView>::empty());
        assert(s.phase == Phase::AwaitCancelCheck);
        lemma_run_after_end(s1, rest);
        assert(run(s, inputs).1 =~= seq![EventView::Finish]);
    } else {
        assert(inputs.take(k).drop_first() =~= rest.take(k - 1));
        assert(inputs.take(k)[0] == inputs[0]);
        lemma_run_rank(s1, rest.take(k - 1));
        lemma_cancel_before_end(s1, rest, k - 1);
        let (sf, evs, acts) = run(s1, rest);
        assert forall|j: int| 0 <= j < run(s, inputs).2.len() implies #[trigger] run(s, inputs).2[j]
            != DownloadAction::WriteFile by {
            if j > 0 {
                assert(run(s, inputs).2[j] == acts[j - 1]);
            }
        }
        assert forall|j: int| 0 <= j < run(s, inputs).1.len() implies !(#[trigger] run(
            s,
            inputs,
        ).1[j] is Error) by {
            if j >= ev.len() {
                assert(run(s, inputs).1[j] == evs[j - ev.len()]);
            } else {
                assert(run(s, inputs).1[j] == ev[j]);
            }
        }
        assert(run(s, inputs).1.last() == evs.last());
    }
}

/// A session emits at most one final event (`Finish` or `Error`), and
/// nothing after it.
pub proof fn lemma_final_event_is_last(s: SessionView, inputs: Seq<InputView>, i: int)
    requires
        0 <= i < run(s, inputs).1.len(),
        run(s, inputs).1[i] is Finish || run(s, inputs).1[i] is Error,
    ensures
        i == run(s, inputs).1.len() - 1,
    decreases inputs.len(),
{
    let (s1, ev, a) = step_spec(s, inputs[0]);
    let rest = inputs.drop_first();
    let evs = run(s1, rest).1;
    lemma_step_facts(s, inputs[0]);
    if i < ev.len() {
        assert(run(s, inputs).1[i] == ev[i]);
        assert(is_terminal(s1.phase));
        assert(ev.len() == 1);
        lemma_run_after_end(s1, rest);
    } else {
        assert(run(s, inputs).1[i] == evs[i - ev.len()]);
        lemma_final_event_is_last(s1, rest, i - ev.len());
    }
}

/// Past `Requesting` no total is announced.
pub proof fn lemma_no_total_after_request(s: SessionView, inputs: Seq<InputView>)
    requires
        s.phase != Phase::Requesting,
    ensures
        forall|j: int| 0 <= j < run(s, inputs).1.len() ==> !(#[trigger] run(s, inputs).1[j] is SetTotal),
    decreases inputs.len(),
{
    if inputs.len() > 0 {
        let (s1, ev, a) = step_spec(s, inputs[0]);
        lemma_step_facts(s, inputs[0]);
        assert(rank(s.phase) >= 1);
        lemma_no_total_after_request(s1, inputs.drop_first());
        let evs = run(s1, inputs.drop_first()).1;
        assert forall|j: int| 0 <= j < run(s, inputs).1.len() implies !(#[trigger] run(
            s,
            inputs,
        ).1[j] is SetTotal) by {
            if j >= ev.len() {
                assert(run(s, inputs).1[j] == evs[j - ev.len()]);
            } else {
                assert(run(s, inputs).1[j] == ev[j]);
            }
        }
    }
}

/// When the server announces no size, the display is switched to
/// indeterminate mode before any progress, and no nonzero total is ever
/// announced.
pub proof fn lemma_unknown_size_is_indeterminate(s: SessionView, inputs: Seq<InputView>)
    requires
        s.phase == Phase::Requesting,
        inputs.len() > 0,
        inputs[0] == (InputView::Responded { content_length: None }),
    ensures
        run(s, inputs).1.len() >= 2,
        run(s, inputs).1[0] == EventView::SetTotal(0),
        run(s, inputs).1[1] == EventView::SetDeterminacy(false),
        forall|j: int| 0 <= j < run(s, inputs).1.len() && #[trigger] run(s, inputs).1[j] is Advance ==> j >= 2,
        forall|j: int|
            0 <= j < run(s, inputs).1.len() && #[trigger] run(s, inputs).1[j] is SetTotal ==> run(
                s,
                inputs,
            ).1[j] == EventView::SetTotal(0),
{
    let (s1, ev, a) = step_spec(s, inputs[0]);
    lemma_no_total_after_request(s1, inputs.drop_first());
    let evs = run(s1, inputs.drop_first()).1;
    assert forall|j: int|
        0 <= j < run(s, inputs).1.len() && #[trigger] run(s, inputs).1[j] is SetTotal implies run(
            s,
            inputs,
        ).1[j] == EventView::SetTotal(0) by {
        if j >= 2 {
            assert(run(s, inputs).1[j] == evs[j - 2]);
        }
    }
}

impl DownloadSession {
    /// A session that has not sent its request yet.
    pub fn new() -> (r: DownloadSession)
        ensures
            r@ == (SessionView { phase: Phase::Requesting, total: 0, data: Seq::empty() }),
    {
        DownloadSession { phase: Phase::Requesting, total: 0, data: Vec::new() }
    }

    /// The phase the session is in.
    pub fn phase(&self) -> (r: Phase)
        ensures
            r == self@.phase,
    {
        self.phase
    }

    /// The bytes received so far: in the `Writing` phase, what goes to the
    /// cache file.
    pub fn data(&self) -> (r: &Vec<u8>)
        ensures
            r@ == self@.data,
    {
        &self.data
    }

    /// Takes one input and says what follows, as `step_spec` does.
    pub fn step(&mut self, input: DownloadInput) -> (r: (Vec<DownloadEvent>, DownloadAction))
        ensures
            (final(self)@, r.0@.map_values(|e: DownloadEvent| e@), r.1) == step_spec(
                old(self)@,
                input@,
            ),
    {
        let ghost s = self@;
        let ghost i = input@;
        let mut events: Vec<DownloadEvent> = Vec::new();
        let action = match self.phase {
            Phase::Requesting => match input {
                DownloadInput::Responded { content_length } => {
                    let total = match content_length {
                        Some(n) => n,
                        None => 0,
                    };
                    self.total = total;
                    self.phase = Phase::AwaitCancelCheck;
                    events.push(DownloadEvent::SetTotal(total));
                    events.push(DownloadEvent::SetDeterminacy(total != 0));
                    DownloadAction::CheckCancel
                },
                DownloadInput::RequestFailed(c) => {
                    self.fail(&mut events, DownloadError::Network(c));
                    DownloadAction::Stop
                },
                _ => DownloadAction::SendRequest,
            },
            Phase::AwaitCancelCheck => match input {
                DownloadInput::CancelChecked(cancelled) => {
                    if cancelled {
                        self.phase = Phase::Cancelled;
                        self.data = Vec::new();
                        events.push(DownloadEvent::Finish);
                        DownloadAction::Stop
                    } else {
                        self.phase = Phase::AwaitChunk;
                        DownloadAction::ReadChunk
                    }
                },
                _ => DownloadAction::CheckCancel,
            },
            Phase::AwaitChunk => match input {
                DownloadInput::Chunk { bytes, elapsed_ms } => {
                    if bytes.len() == 0 {
                        self.phase = Phase::Writing;
                        events.push(DownloadEvent::SetDeterminacy(false));
                        DownloadAction::WriteFile
                    } else {
                        let mut bytes = bytes;
                        self.data.append(&mut bytes);
                        let downloaded = self.data.len() as u64;
                        let rate = rate(downloaded, elapsed_ms);
                        let mut eta = String::new();
                        if self.total == 0 || rate == 0 {
                            eta.append("unknown");
                        } else if self.total <= downloaded {
                            push_duration(&mut eta, 0);
                        } else {
                            push_duration(&mut eta, (self.total - downloaded) / rate);
                        }
                        self.phase = Phase::AwaitCancelCheck;
                        events.push(
                            DownloadEvent::Advance {
                                bytes_downloaded: downloaded,
                                rate_bytes_per_sec: rate,
                                eta,
                            },
                        );
                        DownloadAction::PauseThenCheckCancel
                    }
                },
                DownloadInput::ReadFailed(c) => {
                    self.fail(&mut events, DownloadError::Network(c));
                    DownloadAction::Stop
                },
                _ => DownloadAction::ReadChunk,
            },
            Phase::Writing => match input {
                DownloadInput::Written => {
                    self.phase = Phase::Completed;
                    self.data = Vec::new();
                    events.push(DownloadEvent::Finish);
                    DownloadAction::Stop
                },
                DownloadInput::WriteFailed(c) => {
                    self.fail(&mut events, DownloadError::Filesystem(c));
                    DownloadAction::Stop
                },
                _ => DownloadAction::WriteFile,
            },
            _ => DownloadAction::Stop,
        };
        assert(events@.map_values(|e: DownloadEvent| e@) =~= step_spec(s, i).1);
        (events, action)
    }

    fn fail(&mut self, events: &mut Vec<DownloadEvent>, e: DownloadError)
        requires
            old(events)@.len() == 0,
        ensures
            final(self)@ == (SessionView {
                phase: Phase::Failed,
                total: old(self)@.total,
                data: Seq::empty(),
            }),
            final(events)@.len() == 1,
            final(events)@[0]@ == EventView::Error(e@),
    {
        self.phase = Phase::Failed;
        self.data = Vec::new();
        events.push(DownloadEvent::Error(e));
    }
}

fn rate(downloaded: u64, elapsed_ms: u64) -> (r: u64)
    ensures
        r as nat == rate_of(downloaded as nat, elapsed_ms as nat),
{
    if elapsed_ms == 0 {
        0
    } else {
        let r = (downloaded as u128 * 1000) / (elapsed_ms as u128);
        if r > u64::MAX as u128 {
            u64::MAX
        } else {
            r as u64
        }
    }
}

} // verus!
