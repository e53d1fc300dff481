//! The utterance pipeline: the state machine that couples the trigger
//! commands, the audio capture, the recognizer, the optional corrector
//! and the keystroke injector, strictly one utterance at a time.
//!
//! The orchestrator consumes events and returns the actions the caller
//! must perform (drive the capture stream, publish UI events, move the
//! indicator, run the recognizer, send the correction request, inject
//! text). Its whole behaviour is the spec function [`step`] over the
//! model [`OrchModel`]; the laws at the end of this module state that
//! every reachable trace walks the legal state diagram, that `Idle`
//! means a released guard and an empty buffer, and that no utterance can
//! start while one is being processed.

use vstd::prelude::*;
use crate::indicator::IndicatorColor;
use crate::input::InputEvent;
use crate::storage::{HistoryItem, LlmConfig};
use crate::text::{all_space, is_blank};

verus! {

/// The pipeline stage. One utterance occupies `Transcribing`,
/// `Correcting` and `Injecting`; while one does, the processing guard is
/// set and every trigger is dropped.
#[derive(Clone, Copy, PartialEq, Eq, Structural, Debug)]
pub enum Phase {
    Idle,
    Recording,
    Transcribing,
    Correcting,
    Injecting,
}

/// What the caller must do after an orchestrator step, in order.
pub enum Action {
    /// Clear the device buffer and unpause the capture stream.
    StartCapture,
    /// Pause the capture stream.
    StopCapture,
    /// Publish the recording flag to the UI.
    EmitRecordingStatus(bool),
    /// Publish the correction-in-flight flag to the UI.
    EmitLlmProcessing(bool),
    /// Turn publication of pointer moves on or off.
    TrackPointer(bool),
    /// Show the indicator marker in this color.
    ShowIndicator(IndicatorColor),
    /// Hide the indicator marker.
    HideIndicator,
    /// Move the indicator marker to this position.
    MoveIndicator(i64, i64),
    /// Run the recognizer over these samples at this rate.
    Transcribe(Vec<i32>, u32),
    /// Send this raw transcript to the corrector.
    Correct(String),
    /// Record this finished utterance in the history and announce it.
    Record(HistoryItem),
    /// Type this text into the focused window.
    Inject(String),
}

/// The orchestrator's mathematical model.
#[verifier::ext_equal]
pub ghost struct OrchModel {
    pub phase: Phase,
    /// The processing guard: true exactly while an utterance is past
    /// `Recording` and not yet back to `Idle`.
    pub processing: bool,
    /// The utterance buffer of mono fixed-point samples.
    pub buffer: Seq<i32>,
    pub sample_rate: u32,
    /// The raw transcript, held while a correction is in flight.
    pub pending: Option<Seq<char>>,
    /// Capture length of the utterance in flight, in milliseconds.
    pub pending_duration_ms: u64,
    /// Correlation number of the most recent utterance.
    pub serial: u64,
}

/// An event the orchestrator consumes.
pub ghost enum OrchEvent {
    /// A trigger command from the input hook.
    Command(InputEvent),
    /// A block of captured mono samples from the device callback.
    Samples(Seq<i32>),
    /// The recognizer finished: its text, or nothing on failure; and
    /// whether correction is active for this utterance.
    Transcribed(Option<Seq<char>>, bool),
    /// The corrector finished: the corrected text, or nothing when the
    /// step failed in any way.
    CorrectionDone(Option<Seq<char>>),
    /// The injector finished (successfully or not).
    Injected,
}

/// How long the injector waits before typing, in milliseconds: the
/// triggering input event must drain from the foreground window's queue,
/// or some native controls drop the first characters.
pub const INJECTION_QUIESCENCE_MS: u64 = 80;

/// Correction runs only when enabled and a key is present.
pub open spec fn correction_active(c: LlmConfig) -> bool {
    c.enabled && c.api_key@.len() > 0
}

/// The next correlation number, wrapping at the type bound.
pub open spec fn next_serial(s: u64) -> u64 {
    if s == u64::MAX {
        0
    } else {
        (s + 1) as u64
    }
}

/// Capture length in milliseconds of `len` samples at `rate` Hz (clamped
/// at the type bound for lengths no real capture reaches).
pub open spec fn duration_ms_of(len: nat, rate: u32) -> u64
    recommends
        rate >= 1,
{
    if len <= 0xffff_ffff_ffff {
        ((len * 1000) as int / rate as int) as u64
    } else {
        u64::MAX
    }
}

/// The edge `Recording -> Transcribing`: the guard is taken, the buffer
/// is drained into the recognizer, and the utterance gets its number.
pub open spec fn to_transcribing(m: OrchModel) -> OrchModel {
    OrchModel {
        phase: Phase::Transcribing,
        processing: true,
        buffer: Seq::empty(),
        pending: None,
        pending_duration_ms: duration_ms_of(m.buffer.len(), m.sample_rate),
        serial: next_serial(m.serial),
        ..m
    }
}

/// The edge back to `Idle`: the guard is released on every path.
pub open spec fn to_idle(m: OrchModel) -> OrchModel {
    OrchModel { phase: Phase::Idle, processing: false, pending: None, ..m }
}

/// One trigger command against the model. Any command that arrives while
/// the guard is set is dropped silently.
pub open spec fn step_command(m: OrchModel, cmd: InputEvent) -> OrchModel {
    match cmd {
        InputEvent::Start => if m.phase is Idle && !m.processing {
            OrchModel { phase: Phase::Recording, buffer: Seq::empty(), ..m }
        } else {
            m
        },
        InputEvent::Stop => if m.phase is Recording && !m.processing {
            to_transcribing(m)
        } else {
            m
        },
        InputEvent::Toggle => if m.phase is Recording && !m.processing {
            to_transcribing(m)
        } else if m.phase is Idle && !m.processing {
            OrchModel { phase: Phase::Recording, buffer: Seq::empty(), ..m }
        } else {
            m
        },
        InputEvent::MouseMove { .. } => m,
    }
}

/// The whole state machine: one event in, the next model out.
pub open spec fn step(m: OrchModel, ev: OrchEvent) -> OrchModel {
    match ev {
        OrchEvent::Command(cmd) => step_command(m, cmd),
        OrchEvent::Samples(frame) => if m.phase is Recording {
            OrchModel { buffer: m.buffer + frame, ..m }
        } else {
            m
        },
        OrchEvent::Transcribed(text, llm_on) => if !(m.phase is Transcribing) {
            m
        } else {
            match text {
                None => to_idle(m),
                Some(t) => if all_space(t) {
                    to_idle(m)
                } else if llm_on {
                    OrchModel { phase: Phase::Correcting, pending: Some(t), ..m }
                } else {
                    OrchModel { phase: Phase::Injecting, pending: None, ..m }
                },
            }
        },
        OrchEvent::CorrectionDone(opt) => if !(m.phase is Correcting) {
            m
        } else {
            let orig = if m.pending is Some {
                m.pending->0
            } else {
                Seq::<char>::empty()
            };
            let chosen = if opt is Some {
                opt->0
            } else {
                orig
            };
            if all_space(chosen) {
                to_idle(m)
            } else {
                OrchModel { phase: Phase::Injecting, pending: None, ..m }
            }
        },
        OrchEvent::Injected => if m.phase is Injecting {
            to_idle(m)
        } else {
            m
        },
    }
}

/// The orchestrator's well-formedness: the guard is set exactly in the
/// three processing stages, the buffer only holds samples while
/// recording, a pending transcript exists exactly while correcting.
pub open spec fn inv(m: OrchModel) -> bool {
    &&& (m.processing <==> (m.phase is Transcribing || m.phase is Correcting
        || m.phase is Injecting))
    &&& (m.phase is Recording || m.buffer.len() == 0)
    &&& ((m.pending is Some) <==> m.phase is Correcting)
    &&& m.sample_rate >= 1
}

/// The legal edges of the pipeline diagram, self-loops (dropped events)
/// included. `Transcribing` exits to `Correcting`, `Injecting` or — on
/// an error or an empty transcript — straight to `Idle`; `Correcting`
/// exits to `Injecting` or, when the corrected text is empty, to `Idle`.
pub open spec fn valid_edge(a: Phase, b: Phase) -> bool {
    ||| a == b
    ||| (a is Idle && b is Recording)
    ||| (a is Recording && b is Transcribing)
    ||| (a is Transcribing && (b is Correcting || b is Injecting || b is Idle))
    ||| (a is Correcting && (b is Injecting || b is Idle))
    ||| (a is Injecting && b is Idle)
}

/// Every single step follows a legal edge, whatever the event.
pub proof fn lemma_step_valid_edge(m: OrchModel, ev: OrchEvent)
    ensures
        valid_edge(m.phase, step(m, ev).phase),
{
}

/// Every step preserves well-formedness.
pub proof fn lemma_step_preserves_inv(m: OrchModel, ev: OrchEvent)
    requires
        inv(m),
    ensures
        inv(step(m, ev)),
{
}

/// The model after a whole sequence of events.
pub open spec fn run(m: OrchModel, evs: Seq<OrchEvent>) -> OrchModel
    decreases evs.len(),
{
    if evs.len() == 0 {
        m
    } else {
        run(step(m, evs[0]), evs.drop_first())
    }
}

proof fn lemma_run_snoc(m: OrchModel, evs: Seq<OrchEvent>, ev: OrchEvent)
    ensures
        run(m, evs.push(ev)) == step(run(m, evs), ev),
    decreases evs.len(),
{
    if evs.len() == 0 {
        assert(evs.push(ev)[0] == ev);
        assert(evs.push(ev).drop_first() =~= Seq::<OrchEvent>::empty());
    } else {
        assert(evs.push(ev)[0] == evs[0]);
        assert(evs.push(ev).drop_first() =~= evs.drop_first().push(ev));
        lemma_run_snoc(step(m, evs[0]), evs.drop_first(), ev);
    }
}

proof fn lemma_run_preserves_inv(m: OrchModel, evs: Seq<OrchEvent>)
    requires
        inv(m),
    ensures
        inv(run(m, evs)),
    decreases evs.len(),
{
    if evs.len() > 0 {
        lemma_step_preserves_inv(m, evs[0]);
        lemma_run_preserves_inv(step(m, evs[0]), evs.drop_first());
    }
}

/// For every event sequence, the observable state sequence is a valid
/// path in the pipeline diagram: each consecutive pair of states along
/// the trace is a legal edge.
pub proof fn lemma_trace_is_valid_path(m: OrchModel, evs: Seq<OrchEvent>, k: int)
    requires
        0 <= k < evs.len(),
    ensures
        valid_edge(run(m, evs.take(k)).phase, run(m, evs.take(k + 1)).phase),
{
    assert(evs.take(k + 1) =~= evs.take(k).push(evs[k]));
    lemma_run_snoc(m, evs.take(k), evs[k]);
    lemma_step_valid_edge(run(m, evs.take(k)), evs[k]);
}

/// After any event sequence that leaves the system `Idle`, the
/// processing guard is false and the utterance buffer is empty.
pub proof fn lemma_idle_means_quiescent(m: OrchModel, evs: Seq<OrchEvent>)
    requires
        inv(m),
    ensures
        run(m, evs).phase is Idle ==> !run(m, evs).processing && run(m, evs).buffer.len() == 0,
{
    lemma_run_preserves_inv(m, evs);
}

/// An accepted `Start` edge: the step enters `Recording` from outside.
pub open spec fn accepted_start(m: OrchModel, ev: OrchEvent) -> bool {
    !(m.phase is Recording) && step(m, ev).phase is Recording
}

/// How many `Start` edges a run accepts at moments when the processing
/// guard is set.
pub open spec fn starts_accepted_while_processing(m: OrchModel, evs: Seq<OrchEvent>) -> nat
    decreases evs.len(),
{
    if evs.len() == 0 {
        0
    } else {
        (if m.processing && accepted_start(m, evs[0]) {
            1nat
        } else {
            0nat
        }) + starts_accepted_while_processing(step(m, evs[0]), evs.drop_first())
    }
}

/// While the processing guard is true, a command leaves the model
/// untouched: it is dropped silently.
pub proof fn lemma_processing_drops_commands(m: OrchModel, cmd: InputEvent)
    requires
        inv(m),
        m.processing,
    ensures
        step(m, OrchEvent::Command(cmd)) == m,
{
}

/// While the processing guard is true, the number of `Start` edges
/// accepted is zero, over any event sequence.
pub proof fn lemma_no_start_while_processing(m: OrchModel, evs: Seq<OrchEvent>)
    requires
        inv(m),
    ensures
        starts_accepted_while_processing(m, evs) == 0,
    decreases evs.len(),
{
    if evs.len() > 0 {
        if m.processing {
            assert(!(step(m, evs[0]).phase is Recording));
        }
        lemma_step_preserves_inv(m, evs[0]);
        lemma_no_start_while_processing(step(m, evs[0]), evs.drop_first());
    }
}

/// Relies on `uuid::Uuid::new_v4` and its hyphenated `Display` form:
/// a fresh random 128-bit identifier, rendered as 36 characters.
#[verifier::external_body]
fn new_utterance_id() -> (r: String)
    ensures
        r@.len() == 36,
{
    uuid::Uuid::new_v4().to_string()
}

/// Relies on `chrono::Local::now` and `DateTime::format`: the wall-clock
/// time, rendered `YYYY-MM-DD HH:MM:SS`. The value depends on the clock,
/// so nothing is promised of it.
#[verifier::external_body]
fn now_timestamp() -> (r: String) {
    chrono::Local::now().format("%Y-%m-%d %H:%M:%S").to_string()
}

/// The history record of one finished utterance: this text, this
/// duration, a fresh identifier and the current wall-clock timestamp.
pub fn make_history_item(text: String, duration_ms: u64) -> (r: HistoryItem)
    ensures
        r.text == text,
        r.duration_ms == duration_ms,
        r.id@.len() == 36,
{
    HistoryItem { id: new_utterance_id(), timestamp: now_timestamp(), text, duration_ms }
}

/// The orchestrator state. Its behaviour is [`step`] over its view.
pub struct Orchestrator {
    pub phase: Phase,
    pub processing: bool,
    pub buffer: Vec<i32>,
    pub sample_rate: u32,
    pub pending_text: Option<String>,
    pub pending_duration_ms: u64,
    pub serial: u64,
}

impl View for Orchestrator {
    type V = OrchModel;

    open spec fn view(&self) -> OrchModel {
        OrchModel {
            phase: self.phase,
            processing: self.processing,
            buffer: self.buffer@,
            sample_rate: self.sample_rate,
            pending: match self.pending_text {
                Some(t) => Some(t@),
                None => None,
            },
            pending_duration_ms: self.pending_duration_ms,
            serial: self.serial,
        }
    }
}

/// The actions of an accepted `Start`: arm the capture, tell the UI,
/// follow the pointer, show the recording color.
pub open spec fn start_actions(a: Seq<Action>) -> bool {
    a == seq![
        Action::StartCapture,
        Action::EmitRecordingStatus(true),
        Action::TrackPointer(true),
        Action::ShowIndicator(IndicatorColor::Recording),
    ]
}

/// The actions of an accepted `Stop`: tell the UI, stop following, hide
/// the marker, pause the capture, and hand the drained utterance to the
/// recognizer.
pub open spec fn stop_actions(a: Seq<Action>, buf: Seq<i32>, rate: u32) -> bool {
    &&& a.len() == 5
    &&& a[0] == Action::EmitRecordingStatus(false)
    &&& a[1] == Action::TrackPointer(false)
    &&& a[2] == Action::HideIndicator
    &&& a[3] == Action::StopCapture
    &&& (a[4] matches Action::Transcribe(b, r) && b@ == buf && r == rate)
}

/// The record-and-inject tail of a finished utterance: one history
/// record carrying exactly the final text, then its injection.
pub open spec fn deliver_actions(a: Seq<Action>, i: int, text: Seq<char>, duration_ms: u64) -> bool {
    &&& (a[i] matches Action::Record(item) && item.text@ == text && item.duration_ms == duration_ms
        && item.id@.len() == 36)
    &&& (a[i + 1] matches Action::Inject(t) && t@ == text)
}

impl Orchestrator {
    /// A fresh pipeline at rest, capturing at `sample_rate` Hz.
    pub fn new(sample_rate: u32) -> (r: Self)
        requires
            sample_rate >= 1,
        ensures
            r@ == (OrchModel {
                phase: Phase::Idle,
                processing: false,
                buffer: Seq::empty(),
                sample_rate,
                pending: None,
                pending_duration_ms: 0,
                serial: 0,
            }),
            inv(r@),
    {
        let r = Orchestrator {
            phase: Phase::Idle,
            processing: false,
            buffer: Vec::new(),
            sample_rate,
            pending_text: None,
            pending_duration_ms: 0,
            serial: 0,
        };
        proof {
            assert(r@ =~~= OrchModel {
                phase: Phase::Idle,
                processing: false,
                buffer: Seq::empty(),
                sample_rate,
                pending: None,
                pending_duration_ms: 0,
                serial: 0,
            });
        }
        r
    }

    /// Consume one trigger command. Pointer moves place the indicator
    /// beside the pointer; any other command is dropped while the guard
    /// is set.
    pub fn on_command(&mut self, cmd: InputEvent) -> (actions: Vec<Action>)
        requires
            inv(old(self)@),
        ensures
            final(self)@ == step(old(self)@, OrchEvent::Command(cmd)),
            inv(final(self)@),
            ({
                let m = old(self)@;
                match cmd {
                    InputEvent::Start => if m.phase is Idle && !m.processing {
                        start_actions(actions@)
                    } else {
                        actions@ == Seq::<Action>::empty()
                    },
                    InputEvent::Stop => if m.phase is Recording && !m.processing {
                        stop_actions(actions@, m.buffer, m.sample_rate)
                    } else {
                        actions@ == Seq::<Action>::empty()
                    },
                    InputEvent::Toggle => if m.phase is Recording && !m.processing {
                        stop_actions(actions@, m.buffer, m.sample_rate)
                    } else if m.phase is Idle && !m.processing {
                        start_actions(actions@)
                    } else {
                        actions@ == Seq::<Action>::empty()
                    },
                    InputEvent::MouseMove { x, y } => {
                        &&& actions@.len() == 1
                        &&& (actions@[0] matches Action::MoveIndicator(nx, ny)
                            && nx == crate::indicator::spec_indicator_x(x)
                            && ny == crate::indicator::spec_indicator_y(y))
                    },
                }
            }),
    {
        let mut actions: Vec<Action> = Vec::new();
        match cmd {
            InputEvent::Start => {
                if matches!(self.phase, Phase::Idle) && !self.processing {
                    self.begin_recording(&mut actions);
                }
            },
            InputEvent::Stop => {
                if matches!(self.phase, Phase::Recording) && !self.processing {
                    self.begin_transcribing(&mut actions);
                }
            },
            InputEvent::Toggle => {
                if matches!(self.phase, Phase::Recording) && !self.processing {
                    self.begin_transcribing(&mut actions);
                } else if matches!(self.phase, Phase::Idle) && !self.processing {
                    self.begin_recording(&mut actions);
                }
            },
            InputEvent::MouseMove { x, y } => {
                let (nx, ny) = crate::indicator::indicator_position(x, y);
                actions.push(Action::MoveIndicator(nx, ny));
            },
        }
        proof {
            assert(final(self)@ =~~= step(old(self)@, OrchEvent::Command(cmd)));
        }
        actions
    }

    /// The accepted `Start`: clear the utterance buffer, arm the
    /// capture, show the marker.
    fn begin_recording(&mut self, actions: &mut Vec<Action>)
        requires
            old(self).phase is Idle,
            !old(self).processing,
            old(actions)@.len() == 0,
        ensures
            final(self)@ == (OrchModel { phase: Phase::Recording, buffer: Seq::empty(), ..old(
                self,
            )@ }),
            start_actions(final(actions)@),
    {
        self.buffer.clear();
        self.phase = Phase::Recording;
        actions.push(Action::StartCapture);
        actions.push(Action::EmitRecordingStatus(true));
        actions.push(Action::TrackPointer(true));
        actions.push(Action::ShowIndicator(IndicatorColor::Recording));
        proof {
            assert(final(self)@ =~~= OrchModel {
                phase: Phase::Recording,
                buffer: Seq::empty(),
                ..old(self)@
            });
            assert(final(actions)@ =~= seq![
                Action::StartCapture,
                Action::EmitRecordingStatus(true),
                Action::TrackPointer(true),
                Action::ShowIndicator(IndicatorColor::Recording),
            ]);
        }
    }

    /// The accepted `Stop`: take the guard, drain the buffer to the
    /// recognizer, number the utterance.
    fn begin_transcribing(&mut self, actions: &mut Vec<Action>)
        requires
            old(self).phase is Recording,
            !old(self).processing,
            old(self).sample_rate >= 1,
            old(actions)@.len() == 0,
        ensures
            final(self)@ == to_transcribing(old(self)@),
            stop_actions(final(actions)@, old(self)@.buffer, old(self)@.sample_rate),
    {
        self.phase = Phase::Transcribing;
        self.processing = true;
        self.pending_text = None;
        let len64 = self.buffer.len() as u64;
        self.pending_duration_ms = if len64 <= 0xffff_ffff_ffff {
            (len64 * 1000) / (self.sample_rate as u64)
        } else {
            u64::MAX
        };
        self.serial = if self.serial == u64::MAX {
            0
        } else {
            self.serial + 1
        };
        let mut drained: Vec<i32> = Vec::new();
        core::mem::swap(&mut drained, &mut self.buffer);
        let rate = self.sample_rate;
        actions.push(Action::EmitRecordingStatus(false));
        actions.push(Action::TrackPointer(false));
        actions.push(Action::HideIndicator);
        actions.push(Action::StopCapture);
        actions.push(Action::Transcribe(drained, rate));
        proof {
            assert(final(self)@ =~~= to_transcribing(old(self)@));
        }
    }

    /// Append captured mono samples; they count only while recording.
    pub fn feed(&mut self, mono: &Vec<i32>)
        ensures
            final(self)@ == step(old(self)@, OrchEvent::Samples(mono@)),
    {
        if matches!(self.phase, Phase::Recording) {
            let n = mono.len();
            let mut i: usize = 0;
            while i < n
                invariant
                    i <= n,
                    n == mono@.len(),
                    self.buffer@ == old(self).buffer@ + mono@.take(i as int),
                    self.phase == old(self).phase,
                    self.processing == old(self).processing,
                    self.sample_rate == old(self).sample_rate,
                    self.pending_text == old(self).pending_text,
                    self.pending_duration_ms == old(self).pending_duration_ms,
                    self.serial == old(self).serial,
                decreases n - i,
            {
                proof {
                    assert(old(self).buffer@ + mono@.take(i + 1) =~= (old(self).buffer@
                        + mono@.take(i as int)).push(mono@[i as int]));
                }
                self.buffer.push(mono[i]);
                i = i + 1;
            }
            proof {
                assert(mono@.take(n as int) =~= mono@);
                assert(final(self)@ =~~= step(old(self)@, OrchEvent::Samples(mono@)));
            }
        } else {
            proof {
                assert(final(self)@ =~~= step(old(self)@, OrchEvent::Samples(mono@)));
            }
        }
    }

    /// One block of interleaved device samples, as the capture callback
    /// handles it. While the pipeline is not recording, nothing happens
    /// at all: no sample is kept and no level event is due. While it is,
    /// the frames are down-mixed into the utterance buffer and — at most
    /// once every sixteen milliseconds of wall clock — the block's RMS
    /// numerator and per-channel sample count are handed back for one
    /// level event.
    pub fn on_capture(
        &mut self,
        data: &Vec<i32>,
        channels: u16,
        meter: &mut crate::audio::LevelMeter,
        now_ms: u64,
    ) -> (r: Option<(u64, usize)>)
        requires
            channels >= 1,
            data@.len() as int % (channels as int) == 0,
            crate::audio::normalized(data@),
            data@.len() <= 0x1_0000_0000,
            now_ms >= old(meter).last_emit_ms,
        ensures
            final(self)@ == step(
                old(self)@,
                OrchEvent::Samples(crate::audio::spec_downmix(data@, channels as nat)),
            ),
            !(old(self).phase is Recording) ==> final(self)@ == old(self)@ && *final(meter)
                == *old(meter) && r is None,
            old(self).phase is Recording ==> if now_ms - old(meter).last_emit_ms >= 16 {
                &&& (r matches Some((num, count)) && num == crate::audio::sum_squares(
                    crate::audio::frame_means(data@, channels as nat),
                ) && count == data@.len() as int / channels as int)
                &&& final(meter).last_emit_ms == now_ms
            } else {
                r is None && *final(meter) == *old(meter)
            },
    {
        if !matches!(self.phase, Phase::Recording) {
            proof {
                assert(final(self)@ =~~= step(
                    old(self)@,
                    OrchEvent::Samples(crate::audio::spec_downmix(data@, channels as nat)),
                ));
            }
            return None;
        }
        let mono = crate::audio::downmix(data, channels);
        proof {
            crate::audio::lemma_downmix_values(data@, channels as nat);
            assert(mono@ =~= crate::audio::spec_downmix(data@, channels as nat));
            assert(mono@.map_values(|x: i32| x as int) =~= crate::audio::frame_means(
                data@,
                channels as nat,
            ));
        }
        let count = mono.len();
        let num = crate::audio::rms_numerator(&mono);
        self.feed(&mono);
        if meter.should_emit(now_ms) {
            Some((num, count))
        } else {
            None
        }
    }

    /// Consume the recognizer's outcome. An error or a blank transcript
    /// releases the guard with no output; otherwise the utterance moves
    /// on to correction (when active) or straight to delivery.
    pub fn on_transcribed(&mut self, text: Option<String>, llm: &LlmConfig) -> (actions: Vec<
        Action,
    >)
        requires
            inv(old(self)@),
            old(self).phase is Transcribing,
        ensures
            final(self)@ == step(
                old(self)@,
                OrchEvent::Transcribed(
                    match text {
                        Some(t) => Some(t@),
                        None => None,
                    },
                    correction_active(*llm),
                ),
            ),
            inv(final(self)@),
            ({
                let a = actions@;
                match text {
                    None => a.len() == 0,
                    Some(t) => if all_space(t@) {
                        a.len() == 0
                    } else if correction_active(*llm) {
                        &&& a.len() == 4
                        &&& a[0] == Action::EmitLlmProcessing(true)
                        &&& a[1] == Action::TrackPointer(true)
                        &&& a[2] == Action::ShowIndicator(IndicatorColor::Processing)
                        &&& (a[3] matches Action::Correct(raw) && raw@ == t@)
                    } else {
                        &&& a.len() == 2
                        &&& deliver_actions(a, 0, t@, old(self).pending_duration_ms)
                    },
                }
            }),
    {
        let mut actions: Vec<Action> = Vec::new();
        match text {
            None => {
                self.phase = Phase::Idle;
                self.processing = false;
                self.pending_text = None;
            },
            Some(t) => {
                if is_blank(t.as_str()) {
                    self.phase = Phase::Idle;
                    self.processing = false;
                    self.pending_text = None;
                } else if llm.enabled && llm.api_key.unicode_len() > 0 {
                    self.phase = Phase::Correcting;
                    actions.push(Action::EmitLlmProcessing(true));
                    actions.push(Action::TrackPointer(true));
                    actions.push(Action::ShowIndicator(IndicatorColor::Processing));
                    actions.push(Action::Correct(t.clone()));
                    self.pending_text = Some(t);
                } else {
                    self.phase = Phase::Injecting;
                    self.pending_text = None;
                    let item = make_history_item(t.clone(), self.pending_duration_ms);
                    actions.push(Action::Record(item));
                    actions.push(Action::Inject(t));
                }
            },
        }
        proof {
            assert(final(self)@ =~~= step(
                old(self)@,
                OrchEvent::Transcribed(
                    match text {
                        Some(t) => Some(t@),
                        None => None,
                    },
                    correction_active(*llm),
                ),
            ));
        }
        actions
    }

    /// Consume the corrector's outcome: the corrected text, or nothing
    /// when the step failed — then the raw transcript is delivered
    /// instead, for a correction must never lose text. A blank result
    /// releases the guard with no output.
    pub fn on_correction_done(&mut self, corrected: Option<String>) -> (actions: Vec<Action>)
        requires
            inv(old(self)@),
            old(self).phase is Correcting,
        ensures
            final(self)@ == step(
                old(self)@,
                OrchEvent::CorrectionDone(
                    match corrected {
                        Some(t) => Some(t@),
                        None => None,
                    },
                ),
            ),
            inv(final(self)@),
            ({
                let a = actions@;
                let orig = old(self)@.pending->0;
                let chosen = match corrected {
                    Some(t) => t@,
                    None => orig,
                };
                &&& a[0] == Action::EmitLlmProcessing(false)
                &&& a[1] == Action::TrackPointer(false)
                &&& a[2] == Action::HideIndicator
                &&& if all_space(chosen) {
                    a.len() == 3
                } else {
                    a.len() == 5 && deliver_actions(a, 3, chosen, old(self).pending_duration_ms)
                }
            }),
    {
        let mut actions: Vec<Action> = Vec::new();
        actions.push(Action::EmitLlmProcessing(false));
        actions.push(Action::TrackPointer(false));
        actions.push(Action::HideIndicator);
        let mut held: Option<String> = None;
        core::mem::swap(&mut held, &mut self.pending_text);
        let orig = match held {
            Some(t) => t,
            None => String::new(),
        };
        let chosen = match corrected {
            Some(t) => t,
            None => orig,
        };
        if is_blank(chosen.as_str()) {
            self.phase = Phase::Idle;
            self.processing = false;
        } else {
            self.phase = Phase::Injecting;
            let item = make_history_item(chosen.clone(), self.pending_duration_ms);
            actions.push(Action::Record(item));
            actions.push(Action::Inject(chosen));
        }
        proof {
            assert(final(self)@ =~~= step(
                old(self)@,
                OrchEvent::CorrectionDone(
                    match corrected {
                        Some(t) => Some(t@),
                        None => None,
                    },
                ),
            ));
        }
        actions
    }

    /// The injector finished, successfully or not: the utterance is
    /// over and the guard is released.
    pub fn on_injected(&mut self)
        requires
            inv(old(self)@),
            old(self).phase is Injecting,
        ensures
            final(self)@ == step(old(self)@, OrchEvent::Injected),
            inv(final(self)@),
    {
        self.phase = Phase::Idle;
        self.processing = false;
        self.pending_text = None;
        proof {
            assert(final(self)@ =~~= step(old(self)@, OrchEvent::Injected));
        }
    }
}

} // verus!
