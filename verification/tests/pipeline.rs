use dictation::indicator::IndicatorColor;
use dictation::input::InputEvent;
use dictation::pipeline::{Action, Orchestrator, Phase};
use dictation::storage::LlmConfig;

fn llm_off() -> LlmConfig {
    LlmConfig::default()
}

fn llm_on() -> LlmConfig {
    let mut cfg = LlmConfig::default();
    cfg.enabled = true;
    cfg.api_key = String::from("SECRET-REDACTED");
    cfg
}

#[test]
fn happy_path_correction_disabled() {
    let mut orch = Orchestrator::new(16000);

    let actions = orch.on_command(InputEvent::Start);
    assert_eq!(actions.len(), 4);
    assert!(matches!(actions[0], Action::StartCapture));
    assert!(matches!(actions[1], Action::EmitRecordingStatus(true)));
    assert!(matches!(actions[2], Action::TrackPointer(true)));
    assert!(matches!(actions[3], Action::ShowIndicator(IndicatorColor::Recording)));
    assert_eq!(orch.phase, Phase::Recording);

    // Two seconds of audio at 16 kHz.
    let frame = vec![100i32; 32000];
    orch.feed(&frame);
    assert_eq!(orch.buffer.len(), 32000);

    let actions = orch.on_command(InputEvent::Stop);
    assert_eq!(actions.len(), 5);
    assert!(matches!(actions[0], Action::EmitRecordingStatus(false)));
    assert!(matches!(actions[1], Action::TrackPointer(false)));
    assert!(matches!(actions[2], Action::HideIndicator));
    assert!(matches!(actions[3], Action::StopCapture));
    match &actions[4] {
        Action::Transcribe(buf, rate) => {
            assert_eq!(buf.len(), 32000);
            assert_eq!(*rate, 16000);
        }
        _ => panic!("expected a transcription request"),
    }
    assert_eq!(orch.phase, Phase::Transcribing);
    assert!(orch.processing);
    assert_eq!(orch.pending_duration_ms, 2000);

    let actions = orch.on_transcribed(Some(String::from("hello world")), &llm_off());
    assert_eq!(actions.len(), 2);
    match &actions[0] {
        Action::Record(item) => {
            assert_eq!(item.text, "hello world");
            assert_eq!(item.duration_ms, 2000);
            assert_eq!(item.id.len(), 36);
        }
        _ => panic!("expected a history record"),
    }
    match &actions[1] {
        Action::Inject(text) => assert_eq!(text, "hello world"),
        _ => panic!("expected an injection"),
    }
    assert_eq!(orch.phase, Phase::Injecting);

    orch.on_injected();
    assert_eq!(orch.phase, Phase::Idle);
    assert!(!orch.processing);
    assert_eq!(orch.buffer.len(), 0);
}

#[test]
fn empty_transcript_short_circuits() {
    let mut orch = Orchestrator::new(48000);
    orch.on_command(InputEvent::Start);
    orch.feed(&vec![5i32; 480]);
    orch.on_command(InputEvent::Stop);
    let actions = orch.on_transcribed(Some(String::from("   ")), &llm_off());
    assert!(actions.is_empty());
    assert_eq!(orch.phase, Phase::Idle);
    assert!(!orch.processing);
    assert_eq!(orch.buffer.len(), 0);
}

#[test]
fn recognition_error_releases_guard() {
    let mut orch = Orchestrator::new(48000);
    orch.on_command(InputEvent::Start);
    orch.on_command(InputEvent::Stop);
    let actions = orch.on_transcribed(None, &llm_off());
    assert!(actions.is_empty());
    assert_eq!(orch.phase, Phase::Idle);
    assert!(!orch.processing);
}

#[test]
fn concurrent_trigger_suppressed() {
    let mut orch = Orchestrator::new(16000);
    orch.on_command(InputEvent::Start);
    orch.feed(&vec![1i32; 160]);
    orch.on_command(InputEvent::Stop);
    assert_eq!(orch.phase, Phase::Transcribing);

    // A middle-button press arrives while the guard is set: dropped.
    let actions = orch.on_command(InputEvent::Start);
    assert!(actions.is_empty());
    assert_eq!(orch.phase, Phase::Transcribing);
    assert!(orch.processing);
    let actions = orch.on_command(InputEvent::Toggle);
    assert!(actions.is_empty());
    assert_eq!(orch.phase, Phase::Transcribing);

    // The first utterance still completes normally.
    let actions = orch.on_transcribed(Some(String::from("first")), &llm_off());
    assert_eq!(actions.len(), 2);
    orch.on_injected();
    assert_eq!(orch.phase, Phase::Idle);
    assert!(!orch.processing);
}

#[test]
fn llm_failure_falls_back_to_raw_transcript() {
    let mut orch = Orchestrator::new(16000);
    orch.on_command(InputEvent::Start);
    orch.feed(&vec![7i32; 16000]);
    orch.on_command(InputEvent::Stop);

    let actions = orch.on_transcribed(Some(String::from("raw words")), &llm_on());
    assert_eq!(actions.len(), 4);
    assert!(matches!(actions[0], Action::EmitLlmProcessing(true)));
    assert!(matches!(actions[1], Action::TrackPointer(true)));
    assert!(matches!(actions[2], Action::ShowIndicator(IndicatorColor::Processing)));
    match &actions[3] {
        Action::Correct(raw) => assert_eq!(raw, "raw words"),
        _ => panic!("expected a correction request"),
    }
    assert_eq!(orch.phase, Phase::Correcting);

    // The corrector failed (say, a server error): no corrected text.
    let actions = orch.on_correction_done(None);
    assert!(matches!(actions[0], Action::EmitLlmProcessing(false)));
    assert!(matches!(actions[1], Action::TrackPointer(false)));
    assert!(matches!(actions[2], Action::HideIndicator));
    match &actions[3] {
        Action::Record(item) => {
            assert_eq!(item.text, "raw words");
            assert_eq!(item.duration_ms, 1000);
        }
        _ => panic!("expected a history record"),
    }
    match &actions[4] {
        Action::Inject(text) => assert_eq!(text, "raw words"),
        _ => panic!("expected an injection"),
    }
    orch.on_injected();
    assert!(!orch.processing);
}

#[test]
fn corrected_text_is_delivered() {
    let mut orch = Orchestrator::new(16000);
    orch.on_command(InputEvent::Start);
    orch.on_command(InputEvent::Toggle);
    let actions = orch.on_transcribed(Some(String::from("helo")), &llm_on());
    assert_eq!(actions.len(), 4);
    let actions = orch.on_correction_done(Some(String::from("hello")));
    assert_eq!(actions.len(), 5);
    match &actions[4] {
        Action::Inject(text) => assert_eq!(text, "hello"),
        _ => panic!("expected an injection"),
    }
}

#[test]
fn blank_corrected_text_short_circuits() {
    let mut orch = Orchestrator::new(16000);
    orch.on_command(InputEvent::Start);
    orch.on_command(InputEvent::Stop);
    orch.on_transcribed(Some(String::from("something")), &llm_on());
    let actions = orch.on_correction_done(Some(String::from("  \n ")));
    assert_eq!(actions.len(), 3);
    assert_eq!(orch.phase, Phase::Idle);
    assert!(!orch.processing);
}

#[test]
fn toggle_starts_and_stops() {
    let mut orch = Orchestrator::new(16000);
    let actions = orch.on_command(InputEvent::Toggle);
    assert_eq!(actions.len(), 4);
    assert_eq!(orch.phase, Phase::Recording);
    let actions = orch.on_command(InputEvent::Toggle);
    assert_eq!(actions.len(), 5);
    assert_eq!(orch.phase, Phase::Transcribing);
}

#[test]
fn samples_ignored_while_not_recording() {
    let mut orch = Orchestrator::new(16000);
    orch.feed(&vec![1i32, 2, 3]);
    assert_eq!(orch.buffer.len(), 0);
    orch.on_command(InputEvent::Start);
    orch.feed(&vec![1i32, 2, 3]);
    assert_eq!(orch.buffer.len(), 3);
}

#[test]
fn serial_number_counts_utterances() {
    let mut orch = Orchestrator::new(16000);
    assert_eq!(orch.serial, 0);
    orch.on_command(InputEvent::Start);
    orch.on_command(InputEvent::Stop);
    assert_eq!(orch.serial, 1);
    orch.on_transcribed(None, &llm_off());
    orch.on_command(InputEvent::Start);
    orch.on_command(InputEvent::Stop);
    assert_eq!(orch.serial, 2);
}

#[test]
fn mouse_move_places_indicator() {
    let mut orch = Orchestrator::new(16000);
    let actions = orch.on_command(InputEvent::MouseMove { x: 100, y: 50 });
    assert_eq!(actions.len(), 1);
    match actions[0] {
        Action::MoveIndicator(x, y) => {
            assert_eq!(x, 112);
            assert_eq!(y, 38);
        }
        _ => panic!("expected an indicator move"),
    }
}

#[test]
fn capture_does_nothing_while_unarmed() {
    let mut orch = Orchestrator::new(48000);
    let mut meter = dictation::audio::LevelMeter::new(0);
    let frames = vec![100i32, 200, 300, 400];
    let level = orch.on_capture(&frames, 2, &mut meter, 100);
    assert_eq!(level, None);
    assert_eq!(orch.buffer.len(), 0);
    assert_eq!(meter.last_emit_ms, 0);
}

#[test]
fn capture_downmixes_and_throttles_levels() {
    let mut orch = Orchestrator::new(48000);
    let mut meter = dictation::audio::LevelMeter::new(0);
    orch.on_command(InputEvent::Start);
    // Two stereo frames: means 150 and 350; 16 ms elapsed, so one level
    // event with the sum of squares over two per-channel samples.
    let level = orch.on_capture(&vec![100i32, 200, 300, 400], 2, &mut meter, 16);
    assert_eq!(orch.buffer, vec![150, 350]);
    assert_eq!(level, Some((150 * 150 + 350 * 350, 2)));
    assert_eq!(meter.last_emit_ms, 16);
    // Ten milliseconds later: samples are kept, but no level event yet.
    let level = orch.on_capture(&vec![10i32, 30], 2, &mut meter, 26);
    assert_eq!(orch.buffer, vec![150, 350, 20]);
    assert_eq!(level, None);
    assert_eq!(meter.last_emit_ms, 16);
}

#[test]
fn start_clears_previous_buffer() {
    let mut orch = Orchestrator::new(16000);
    orch.on_command(InputEvent::Start);
    orch.feed(&vec![9i32; 10]);
    // Drop back to idle through an error, then start again.
    orch.on_command(InputEvent::Stop);
    orch.on_transcribed(None, &llm_off());
    orch.on_command(InputEvent::Start);
    assert_eq!(orch.buffer.len(), 0);
}
