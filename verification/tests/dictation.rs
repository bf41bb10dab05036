use std::{
    io::Cursor,
    sync::{
        atomic::{AtomicBool, Ordering},
        Mutex,
    },
};

use trinity::dictation::{
    clip_from_samples, encode_wav, inject_text, response_body, text_to_inject, u16_sample_to_i16, AudioClip,
    DictationConfig, DictationError, DictationManager, DictationStatus, SpeechToText,
    TextInjector,
};

#[derive(Default)]
struct RecordingInjector {
    text: Mutex<Option<String>>,
}

impl RecordingInjector {
    fn take(&self) -> Option<String> {
        self.text
            .lock()
            .unwrap_or_else(|err| err.into_inner())
            .take()
    }
}

impl TextInjector for RecordingInjector {
    fn input_text(&self, text: &str) -> Result<(), DictationError> {
        *self.text.lock().unwrap_or_else(|err| err.into_inner()) = Some(text.to_string());
        Ok(())
    }
}

struct FailingInjector;

impl TextInjector for FailingInjector {
    fn input_text(&self, _text: &str) -> Result<(), DictationError> {
        Err(DictationError::TextInjection("failed".to_string()))
    }
}

struct StubTranscriber {
    text: String,
    fail: bool,
    called: AtomicBool,
}

impl StubTranscriber {
    fn new(text: &str) -> Self {
        Self {
            text: text.to_string(),
            fail: false,
            called: AtomicBool::new(false),
        }
    }
}

impl SpeechToText for StubTranscriber {
    fn transcribe(
        &self,
        _audio: AudioClip,
        _config: &DictationConfig,
    ) -> Result<String, DictationError> {
        self.called.store(true, Ordering::Relaxed);
        if self.fail {
            Err(DictationError::Http("failed".to_string()))
        } else {
            Ok(self.text.clone())
        }
    }
}

fn configured_dictation() -> DictationConfig {
    DictationConfig {
        api_key: "test-key".to_string(),
        ..Default::default()
    }
}

#[test]
fn inject_text_skips_blank_transcription() {
    let injector = RecordingInjector::default();

    inject_text(&injector, "  ".to_string()).expect("blank text should be ignored");

    assert_eq!(injector.take(), None);
}

#[test]
fn inject_text_passes_trimmed_text_to_injector() {
    let injector = RecordingInjector::default();

    inject_text(&injector, " hello ".to_string()).expect("text should inject");

    assert_eq!(injector.take(), Some("hello".to_string()));
}

#[test]
fn inject_text_returns_injection_error() {
    let injector = FailingInjector;

    assert!(matches!(
        inject_text(&injector, "hello".to_string()),
        Err(DictationError::TextInjection(_))
    ));
}

#[test]
fn encode_wav_writes_readable_pcm_audio() {
    let clip = encode_wav(vec![0, i16::MAX, i16::MIN], 16_000, 1)
        .expect("wav encoding should succeed");
    let reader = hound::WavReader::new(Cursor::new(clip.bytes()))
        .expect("encoded wav should be readable");

    assert_eq!(reader.spec().sample_rate, 16_000);
    assert_eq!(reader.spec().channels, 1);
}

#[test]
fn encode_wav_lays_out_header_and_little_endian_samples() {
    let clip = encode_wav(vec![1, -2], 8_000, 2).expect("wav encoding should succeed");
    let bytes = clip.bytes();
    assert_eq!(bytes.len(), 48);
    assert_eq!(&bytes[0..4], b"RIFF");
    assert_eq!(&bytes[4..8], &40u32.to_le_bytes());
    assert_eq!(&bytes[8..16], b"WAVEfmt ");
    assert_eq!(&bytes[22..24], &2u16.to_le_bytes());
    assert_eq!(&bytes[24..28], &8_000u32.to_le_bytes());
    assert_eq!(&bytes[28..32], &32_000u32.to_le_bytes());
    assert_eq!(&bytes[32..34], &4u16.to_le_bytes());
    assert_eq!(&bytes[36..40], b"data");
    assert_eq!(&bytes[40..44], &4u32.to_le_bytes());
    assert_eq!(&bytes[44..48], &[1, 0, 0xfe, 0xff]);
    assert_eq!(clip.file_name(), "trinity-dictation.wav");
    let reader = hound::WavReader::new(Cursor::new(bytes)).expect("readable");
    let samples: Vec<i16> = reader.into_samples::<i16>().map(|s| s.unwrap()).collect();
    assert_eq!(samples, vec![1, -2]);
}

#[test]
fn encode_wav_rejects_overflowing_rate_and_block_align() {
    assert_eq!(
        encode_wav(vec![1], u32::MAX, 2).map(|c| c.bytes().len()),
        Err(DictationError::Audio("invalid WAV byte rate".to_string()))
    );
    assert_eq!(
        encode_wav(vec![1], 1, 40_000).map(|c| c.bytes().len()),
        Err(DictationError::Audio("invalid WAV block align".to_string()))
    );
}

#[test]
fn empty_recording_is_an_audio_error() {
    assert_eq!(
        clip_from_samples(Vec::new(), 16_000, 1).map(|c| c.bytes().len()),
        Err(DictationError::Audio("no microphone samples captured".to_string()))
    );
    assert_eq!(u16_sample_to_i16(0), i16::MIN);
    assert_eq!(u16_sample_to_i16(32768), 0);
    assert_eq!(u16_sample_to_i16(u16::MAX), i16::MAX);
}

#[test]
fn text_to_inject_trims_and_drops_blank_text() {
    assert_eq!(text_to_inject("\u{3000} hi there\n"), Some("hi there".to_string()));
    assert_eq!(text_to_inject(" \t "), None);
}

#[test]
fn manager_rejects_start_without_api_key() {
    let mut manager = DictationManager::new(DictationConfig::default());

    assert!(matches!(
        manager.start_recording(),
        Err(DictationError::Config(_))
    ));
    assert!(matches!(manager.status(), DictationStatus::Error(_)));
}

#[test]
fn manager_rejects_unknown_provider() {
    let mut manager = DictationManager::new(DictationConfig {
        provider: "other".to_string(),
        ..configured_dictation()
    });
    assert_eq!(
        manager.start_recording(),
        Err(DictationError::Config(
            "unsupported dictation provider: other".to_string()
        ))
    );
}

#[test]
fn manager_reports_not_recording_on_stop() {
    let mut manager = DictationManager::new(configured_dictation());

    assert_eq!(
        manager.stop_and_transcribe(),
        Err(DictationError::NotRecording)
    );
    assert_eq!(manager.status(), DictationStatus::Idle);
}

#[test]
fn manager_runs_record_transcribe_cycle() {
    let mut manager = DictationManager::new(configured_dictation());
    assert_eq!(manager.start_recording(), Ok(()));
    manager.recording_started();
    assert_eq!(manager.status(), DictationStatus::Recording);
    assert_eq!(
        manager.start_recording(),
        Err(DictationError::AlreadyRecording)
    );
    assert_eq!(manager.stop_and_transcribe(), Ok(()));
    assert_eq!(manager.status(), DictationStatus::Transcribing);
    assert_eq!(manager.start_recording(), Err(DictationError::Busy));
}

#[test]
fn finish_transcription_sets_idle_on_success() {
    let mut manager = DictationManager::new(configured_dictation());

    manager.finish_transcription(Ok(()));

    assert_eq!(manager.status(), DictationStatus::Idle);
}

#[test]
fn finish_transcription_sets_error_on_failure() {
    let mut manager = DictationManager::new(configured_dictation());

    manager.finish_transcription(Err(DictationError::TextInjection("denied".to_string())));

    assert_eq!(
        manager.status(),
        DictationStatus::Error("text injection error: denied".to_string())
    );
}

#[test]
fn manager_finishes_after_background_transcription() {
    let injector = RecordingInjector::default();
    let mut manager = DictationManager::new(configured_dictation());

    manager.finish_transcription(
        StubTranscriber::new("hello")
            .transcribe(AudioClip::wav(vec![1, 2, 3]), &configured_dictation())
            .and_then(|text| inject_text(&injector, text)),
    );

    assert_eq!(manager.status(), DictationStatus::Idle);
    assert_eq!(injector.take(), Some("hello".to_string()));
}

#[test]
fn stub_transcriber_can_signal_failure() {
    let transcriber = StubTranscriber {
        text: "hello".to_string(),
        fail: true,
        called: AtomicBool::new(false),
    };

    assert!(matches!(
        transcriber.transcribe(AudioClip::wav(vec![1]), &configured_dictation()),
        Err(DictationError::Http(_))
    ));
}

#[test]
fn error_messages_match_their_kind() {
    assert_eq!(
        DictationError::Audio("x".to_string()).message(),
        "audio error: x"
    );
    assert_eq!(
        DictationError::Http("y".to_string()).message(),
        "speech-to-text error: y"
    );
    assert_eq!(DictationError::Config("z".to_string()).message(), "z");
    assert_eq!(
        DictationError::NoInputDevice.message(),
        "no default microphone input device available"
    );
}

#[test]
fn failed_reply_quotes_status_and_body() {
    assert_eq!(
        response_body(true, "200 OK", "{\"text\":\"hi\"}".to_string()),
        Ok("{\"text\":\"hi\"}".to_string())
    );
    assert_eq!(
        response_body(false, "401 Unauthorized", "denied".to_string()),
        Err(DictationError::Http(
            "ElevenLabs request failed with 401 Unauthorized: denied".to_string()
        ))
    );
}
