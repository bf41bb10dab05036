//! Voice dictation: the recording/transcribing state machine, WAV encoding
//! of the captured samples, and what is typed into the focused input.
use vstd::prelude::*;

use crate::text::{trim, trimmed};

verus! {

/// Initializes the dictation module.
pub fn init() {
}

/// Where dictation stands.
#[derive(Debug, Clone, PartialEq, Eq)]
pub enum DictationStatus {
    Idle,
    Recording,
    Transcribing,
    Error(String),
}

/// Why dictation failed.
#[derive(Debug, Clone, PartialEq, Eq)]
pub enum DictationError {
    AlreadyRecording,
    Busy,
    NotRecording,
    NoInputDevice,
    Config(String),
    Audio(String),
    Http(String),
    TextInjection(String),
}

/// The text shown for an error.
pub open spec fn error_message(e: DictationError) -> Seq<char> {
    match e {
        DictationError::AlreadyRecording => "dictation is already recording"@,
        DictationError::Busy => "dictation is already transcribing"@,
        DictationError::NotRecording => "dictation is not recording"@,
        DictationError::NoInputDevice => "no default microphone input device available"@,
        DictationError::Config(m) => m@,
        DictationError::Audio(m) => "audio error: "@ + m@,
        DictationError::Http(m) => "speech-to-text error: "@ + m@,
        DictationError::TextInjection(m) => "text injection error: "@ + m@,
    }
}

fn concat_str(prefix: &str, rest: &str) -> (r: String)
    ensures
        r@ == prefix@ + rest@,
{
    let mut r = String::from_str(prefix);
    r.append(rest);
    r
}

impl DictationError {
    /// The text shown for the error.
    pub fn message(&self) -> (r: String)
        ensures
            r@ == error_message(*self),
    {
        match self {
            DictationError::AlreadyRecording => String::from_str("dictation is already recording"),
            DictationError::Busy => String::from_str("dictation is already transcribing"),
            DictationError::NotRecording => String::from_str("dictation is not recording"),
            DictationError::NoInputDevice => String::from_str(
                "no default microphone input device available",
            ),
            DictationError::Config(m) => m.clone(),
            DictationError::Audio(m) => concat_str("audio error: ", m.as_str()),
            DictationError::Http(m) => concat_str("speech-to-text error: ", m.as_str()),
            DictationError::TextInjection(m) => concat_str("text injection error: ", m.as_str()),
        }
    }
}

/// Dictation settings.
#[derive(Debug, Clone, PartialEq, Eq)]
pub struct DictationConfig {
    pub provider: String,
    pub api_key: String,
    pub model_id: String,
    pub language_code: Option<String>,
}

impl DictationConfig {
    pub const DEFAULT_PROVIDER: &'static str = "elevenlabs";

    pub const DEFAULT_MODEL_ID: &'static str = "scribe_v2";
}

impl Default for DictationConfig {
    fn default() -> (c: Self)
        ensures
            c.provider@ == DictationConfig::DEFAULT_PROVIDER@,
            c.api_key@ == Seq::<char>::empty(),
            c.model_id@ == DictationConfig::DEFAULT_MODEL_ID@,
            c.language_code is None,
    {
        DictationConfig {
            provider: String::from_str(Self::DEFAULT_PROVIDER),
            api_key: String::new(),
            model_id: String::from_str(Self::DEFAULT_MODEL_ID),
            language_code: None,
        }
    }
}

/// Recorded audio ready to be sent for transcription.
#[derive(Debug, Clone)]
pub struct AudioClip {
    bytes: Vec<u8>,
    file_name: String,
}

impl AudioClip {
    pub closed spec fn bytes_spec(self) -> Seq<u8> {
        self.bytes@
    }

    pub closed spec fn file_name_spec(self) -> Seq<char> {
        self.file_name@
    }

    /// A WAV clip holding `bytes`, named `trinity-dictation.wav`.
    pub fn wav(bytes: Vec<u8>) -> (c: Self)
        ensures
            c.bytes_spec() == bytes@,
            c.file_name_spec() == "trinity-dictation.wav"@,
    {
        AudioClip { bytes, file_name: String::from_str("trinity-dictation.wav") }
    }

    /// The encoded audio.
    pub fn bytes(&self) -> (r: &[u8])
        ensures
            r@ == self.bytes_spec(),
    {
        self.bytes.as_slice()
    }

    /// The file name the audio is uploaded under.
    pub fn file_name(&self) -> (r: &str)
        ensures
            r@ == self.file_name_spec(),
    {
        self.file_name.as_str()
    }
}

/// A speech-to-text service.
pub trait SpeechToText: Send + Sync {
    fn transcribe(&self, audio: AudioClip, config: &DictationConfig) -> Result<
        String,
        DictationError,
    >;
}

/// Types text into the focused input.
pub trait TextInjector: Send + Sync {
    /// Whether `r` is an outcome of typing `text`. An implementation may
    /// say which outcomes it gives; by default every outcome is possible.
    open spec fn types_as(&self, text: Seq<char>, r: Result<(), DictationError>) -> bool {
        true
    }

    /// Types `text` into the focused input.
    fn input_text(&self, text: &str) -> (r: Result<(), DictationError>)
        ensures
            self.types_as(text@, r),
    ;
}

/// What is typed for a transcription: the trimmed text, or nothing when it
/// is blank.
pub fn text_to_inject(text: &str) -> (r: Option<String>)
    ensures
        match r {
            Some(t) => trim(text@).len() > 0 && t@ == trim(text@),
            None => trim(text@).len() == 0,
        },
{
    let t = trimmed(text);
    if t.unicode_len() == 0 {
        None
    } else {
        Some(t)
    }
}

/// The speech-to-text service's reply: its body when the status is a
/// success, otherwise an error that quotes the status and the body.
pub fn response_body(success: bool, status: &str, body: String) -> (r: Result<
    String,
    DictationError,
>)
    ensures
        success ==> r == Ok::<String, DictationError>(body),
        !success ==> (r matches Err(DictationError::Http(m)) && m@ == "ElevenLabs request failed with "@
            + status@ + ": "@ + body@),
{
    if success {
        Ok(body)
    } else {
        let mut m = concat_str("ElevenLabs request failed with ", status);
        m.append(": ");
        m.append(body.as_str());
        Err(DictationError::Http(m))
    }
}

/// Types the trimmed transcription into the focused input; a blank
/// transcription types nothing and succeeds. Otherwise the trimmed text is
/// handed to the injector and its outcome is returned.
pub fn inject_text(injector: &dyn TextInjector, text: String) -> (r: Result<(), DictationError>)
    ensures
        trim(text@).len() == 0 ==> r is Ok,
        trim(text@).len() > 0 ==> injector.types_as(trim(text@), r),
{
    match text_to_inject(text.as_str()) {
        None => Ok(()),
        Some(t) => injector.input_text(t.as_str()),
    }
}

/// `x` as 2 little-endian bytes.
pub open spec fn le16(x: int) -> Seq<u8> {
    seq![(x % 256) as u8, ((x / 256) % 256) as u8]
}

/// `x` as 4 little-endian bytes.
pub open spec fn le32(x: int) -> Seq<u8> {
    seq![
        (x % 256) as u8,
        ((x / 256) % 256) as u8,
        ((x / 65536) % 256) as u8,
        ((x / 16777216) % 256) as u8,
    ]
}

/// The little-endian bytes of the samples, in order.
pub open spec fn pcm16(samples: Seq<i16>) -> Seq<u8>
    decreases samples.len(),
{
    if samples.len() == 0 {
        Seq::empty()
    } else {
        pcm16(samples.drop_last()) + le16(
            if samples.last() < 0 {
                samples.last() + 65536
            } else {
                samples.last() as int
            },
        )
    }
}

/// The bytes of an ASCII text.
pub open spec fn ascii(s: Seq<char>) -> Seq<u8> {
    s.map_values(|c: char| c as u8)
}

/// The RIFF chunk header: `RIFF`, the file size less 8, `WAVE`.
pub open spec fn riff_part(data_len: int) -> Seq<u8> {
    ascii("RIFF"@) + le32(36 + data_len) + ascii("WAVE"@)
}

/// The `fmt ` chunk of 16-bit PCM: size 16, format 1, channels, sample
/// rate, byte rate, block size, 16 bits per sample.
pub open spec fn fmt_part(sample_rate: int, channels: int) -> Seq<u8> {
    ascii("fmt "@) + le32(16) + le16(1) + le16(channels) + le32(sample_rate) + le32(
        sample_rate * channels * 2,
    ) + le16(channels * 2) + le16(16)
}

/// The `data` chunk header: `data` and the data size.
pub open spec fn data_part(data_len: int) -> Seq<u8> {
    ascii("data"@) + le32(data_len)
}

/// The 44-byte header of a 16-bit PCM WAV file.
pub open spec fn wav_header(data_len: int, sample_rate: int, channels: int) -> Seq<u8> {
    riff_part(data_len) + fmt_part(sample_rate, channels) + data_part(data_len)
}

fn push_le16(bytes: &mut Vec<u8>, x: u16)
    ensures
        final(bytes)@ == old(bytes)@ + le16(x as int),
{
    bytes.push((x % 256) as u8);
    bytes.push((x / 256) as u8);
    proof {
        assert(final(bytes)@ =~= old(bytes)@ + le16(x as int));
    }
}

fn push_le32(bytes: &mut Vec<u8>, x: u32)
    ensures
        final(bytes)@ == old(bytes)@ + le32(x as int),
{
    bytes.push((x % 256) as u8);
    bytes.push(((x / 256) % 256) as u8);
    bytes.push(((x / 65536) % 256) as u8);
    bytes.push((x / 16777216) as u8);
    proof {
        assert(final(bytes)@ =~= old(bytes)@ + le32(x as int));
    }
}

fn push_ascii4(bytes: &mut Vec<u8>, a: u8, b: u8, c: u8, d: u8)
    ensures
        final(bytes)@ == old(bytes)@ + seq![a, b, c, d],
{
    bytes.push(a);
    bytes.push(b);
    bytes.push(c);
    bytes.push(d);
    proof {
        assert(final(bytes)@ =~= old(bytes)@ + seq![a, b, c, d]);
    }
}

/// A sample as the 16-bit two's-complement pattern it is stored as.
fn sample_bits(s: i16) -> (r: u16)
    ensures
        r == if s < 0 {
            s + 65536
        } else {
            s as int
        },
{
    if s < 0 {
        (s as i32 + 65536) as u16
    } else {
        s as u16
    }
}

/// Encodes 16-bit PCM samples as a WAV file. Fails when the data does not
/// fit a WAV size field (more than `u32::MAX` bytes), when the byte rate
/// overflows 32 bits, or when the block size overflows 16 bits.
pub fn encode_wav(samples: Vec<i16>, sample_rate: u32, channels: u16) -> (r: Result<
    AudioClip,
    DictationError,
>)
    requires
        samples.len() * 2 > u32::MAX || samples.len() * 2 + 36 <= u32::MAX,
    ensures
        match r {
            Ok(clip) => {
                &&& samples.len() * 2 <= u32::MAX
                &&& sample_rate * channels * 2 <= u32::MAX
                &&& channels * 2 <= u16::MAX
                &&& clip.bytes_spec() == wav_header(
                    samples.len() * 2,
                    sample_rate as int,
                    channels as int,
                ) + pcm16(samples@)
                &&& clip.file_name_spec() == "trinity-dictation.wav"@
            },
            Err(DictationError::Audio(m)) => {
                ||| samples.len() * 2 > u32::MAX && m@ == "recording is too large for WAV"@
                ||| samples.len() * 2 <= u32::MAX && sample_rate * channels * 2 > u32::MAX && m@
                    == "invalid WAV byte rate"@
                ||| samples.len() * 2 <= u32::MAX && sample_rate * channels * 2 <= u32::MAX
                    && channels * 2 > u16::MAX && m@ == "invalid WAV block align"@
            },
            Err(_) => false,
        },
{
    if samples.len() > 2147483647 {
        return Err(DictationError::Audio(String::from_str("recording is too large for WAV")));
    }
    let data_len: u32 = (samples.len() * 2) as u32;
    let sr: u64 = sample_rate as u64;
    let ch: u64 = channels as u64;
    assert(sr * ch <= 0xffff_ffff * 0xffff) by (nonlinear_arith)
        requires
            sr <= 0xffff_ffff,
            ch <= 0xffff,
    ;
    let rate64: u64 = sr * ch * 2;
    if rate64 > 4294967295 {
        return Err(DictationError::Audio(String::from_str("invalid WAV byte rate")));
    }
    let byte_rate: u32 = rate64 as u32;
    if channels > 32767 {
        return Err(DictationError::Audio(String::from_str("invalid WAV block align")));
    }
    let block_align: u16 = channels * 2;
    let mut bytes: Vec<u8> = Vec::new();
    push_ascii4(&mut bytes, 82, 73, 70, 70);
    push_le32(&mut bytes, 36 + data_len);
    push_ascii4(&mut bytes, 87, 65, 86, 69);
    push_ascii4(&mut bytes, 102, 109, 116, 32);
    push_le32(&mut bytes, 16);
    push_le16(&mut bytes, 1);
    push_le16(&mut bytes, channels);
    push_le32(&mut bytes, sample_rate);
    push_le32(&mut bytes, byte_rate);
    push_le16(&mut bytes, block_align);
    push_le16(&mut bytes, 16);
    push_ascii4(&mut bytes, 100, 97, 116, 97);
    push_le32(&mut bytes, data_len);
    let ghost header = bytes@;
    proof {
        reveal_strlit("RIFF");
        reveal_strlit("WAVE");
        reveal_strlit("fmt ");
        reveal_strlit("data");
        assert(header =~= wav_header(samples.len() * 2, sample_rate as int, channels as int));
    }
    let mut i: usize = 0;
    while i < samples.len()
        invariant
            i <= samples.len(),
            bytes@ == header + pcm16(samples@.take(i as int)),
        decreases samples.len() - i,
    {
        push_le16(&mut bytes, sample_bits(samples[i]));
        proof {
            assert(samples@.take(i + 1).drop_last() =~= samples@.take(i as int));
        }
        i = i + 1;
    }
    proof {
        assert(samples@.take(samples.len() as int) =~= samples@);
    }
    Ok(AudioClip::wav(bytes))
}

/// Whether `n` samples at `sample_rate` with `channels` fit the WAV
/// format's size fields: the data size and the byte rate in 32 bits, the
/// block size in 16.
pub open spec fn wav_fits(n: int, sample_rate: int, channels: int) -> bool {
    &&& n * 2 <= u32::MAX
    &&& sample_rate * channels * 2 <= u32::MAX
    &&& channels * 2 <= u16::MAX
}

/// The clip for the samples captured by a recording: an error when none
/// were captured, otherwise their WAV encoding.
pub fn clip_from_samples(samples: Vec<i16>, sample_rate: u32, channels: u16) -> (r: Result<
    AudioClip,
    DictationError,
>)
    requires
        samples.len() * 2 > u32::MAX || samples.len() * 2 + 36 <= u32::MAX,
    ensures
        samples.len() == 0 ==> (r matches Err(DictationError::Audio(m)) && m@
            == "no microphone samples captured"@),
        samples.len() > 0 ==> match r {
            Ok(clip) => clip.bytes_spec() == wav_header(
                samples.len() * 2,
                sample_rate as int,
                channels as int,
            ) + pcm16(samples@),
            Err(e) => e is Audio,
        },
        samples.len() > 0 ==> (r is Ok <==> wav_fits(
            samples.len() as int,
            sample_rate as int,
            channels as int,
        )),
        samples.len() > 0 ==> match r {
            Ok(clip) => clip.file_name_spec() == "trinity-dictation.wav"@,
            Err(DictationError::Audio(m)) => {
                ||| samples.len() * 2 > u32::MAX && m@ == "recording is too large for WAV"@
                ||| samples.len() * 2 <= u32::MAX && sample_rate * channels * 2 > u32::MAX && m@
                    == "invalid WAV byte rate"@
                ||| samples.len() * 2 <= u32::MAX && sample_rate * channels * 2 <= u32::MAX
                    && channels * 2 > u16::MAX && m@ == "invalid WAV block align"@
            },
            Err(_) => false,
        },
{
    if samples.len() == 0 {
        return Err(DictationError::Audio(String::from_str("no microphone samples captured")));
    }
    encode_wav(samples, sample_rate, channels)
}

/// An unsigned 16-bit microphone sample as a signed one (shifted down by
/// 32768).
pub fn u16_sample_to_i16(sample: u16) -> (r: i16)
    ensures
        r == sample - 32768,
{
    (sample as i32 - 32767 - 1) as i16
}

/// A copy of a status.
fn copy_status(s: &DictationStatus) -> (r: DictationStatus)
    ensures
        r == *s,
{
    match s {
        DictationStatus::Idle => DictationStatus::Idle,
        DictationStatus::Recording => DictationStatus::Recording,
        DictationStatus::Transcribing => DictationStatus::Transcribing,
        DictationStatus::Error(m) => DictationStatus::Error(m.clone()),
    }
}

/// The dictation state machine: the configuration, the status, and whether
/// a recording is running. The host starts and stops the microphone and
/// runs the transcription when it is told to.
#[derive(Debug)]
pub struct DictationManager {
    config: DictationConfig,
    status: DictationStatus,
    recording: bool,
}

impl DictationManager {
    pub closed spec fn config_spec(self) -> DictationConfig {
        self.config
    }

    pub closed spec fn status_spec(self) -> DictationStatus {
        self.status
    }

    pub closed spec fn recording_spec(self) -> bool {
        self.recording
    }

    /// An idle manager with `config`.
    pub fn new(config: DictationConfig) -> (m: Self)
        ensures
            m.config_spec() == config,
            m.status_spec() == DictationStatus::Idle,
            !m.recording_spec(),
    {
        DictationManager { config, status: DictationStatus::Idle, recording: false }
    }

    /// Applies new settings.
    pub fn reload_config(&mut self, config: DictationConfig)
        ensures
            final(self).config_spec() == config,
            final(self).status_spec() == old(self).status_spec(),
            final(self).recording_spec() == old(self).recording_spec(),
    {
        self.config = config;
    }

    /// The current status.
    pub fn status(&self) -> (r: DictationStatus)
        ensures
            r == self.status_spec(),
    {
        copy_status(&self.status)
    }

    /// Decides whether a recording may start. While recording or
    /// transcribing it is refused; a provider other than ElevenLabs, or a
    /// missing API key, is a configuration error that also becomes the
    /// status. `Ok` means the host is to start the microphone and then call
    /// `recording_started`.
    pub fn start_recording(&mut self) -> (r: Result<(), DictationError>)
        ensures
            final(self).config_spec() == old(self).config_spec(),
            final(self).recording_spec() == old(self).recording_spec(),
            old(self).status_spec() is Recording ==> r == Err::<(), DictationError>(
                DictationError::AlreadyRecording,
            ) && final(self).status_spec() == old(self).status_spec(),
            old(self).status_spec() is Transcribing ==> r == Err::<(), DictationError>(
                DictationError::Busy,
            ) && final(self).status_spec() == old(self).status_spec(),
            (old(self).status_spec() is Idle || old(self).status_spec() is Error) ==> {
                if old(self).config_spec().provider@ != DictationConfig::DEFAULT_PROVIDER@ {
                    &&& r matches Err(DictationError::Config(m))
                    &&& m@ == "unsupported dictation provider: "@ + old(
                        self,
                    ).config_spec().provider@
                    &&& final(self).status_spec() == DictationStatus::Error(m)
                } else if old(self).config_spec().api_key@.len() == 0 {
                    &&& r matches Err(DictationError::Config(m))
                    &&& m@ == "ElevenLabs API key is required"@
                    &&& final(self).status_spec() == DictationStatus::Error(m)
                } else {
                    r is Ok && final(self).status_spec() == old(self).status_spec()
                }
            },
    {
        match self.status {
            DictationStatus::Recording => {
                return Err(DictationError::AlreadyRecording);
            },
            DictationStatus::Transcribing => {
                return Err(DictationError::Busy);
            },
            _ => {},
        }
        let default_provider = String::from_str(DictationConfig::DEFAULT_PROVIDER);
        if self.config.provider != default_provider {
            let message = concat_str(
                "unsupported dictation provider: ",
                self.config.provider.as_str(),
            );
            self.status = DictationStatus::Error(message.clone());
            return Err(DictationError::Config(message));
        }
        if self.config.api_key.unicode_len() == 0 {
            let message = String::from_str("ElevenLabs API key is required");
            self.status = DictationStatus::Error(message.clone());
            return Err(DictationError::Config(message));
        }
        Ok(())
    }

    /// The microphone is running: the status becomes `Recording`.
    pub fn recording_started(&mut self)
        ensures
            final(self).config_spec() == old(self).config_spec(),
            final(self).status_spec() == DictationStatus::Recording,
            final(self).recording_spec(),
    {
        self.recording = true;
        self.status = DictationStatus::Recording;
    }

    /// Decides whether a recording can be stopped and transcribed: refused
    /// when none is running; otherwise the status becomes `Transcribing`
    /// and the host is to stop the microphone, transcribe the clip and call
    /// `finish_transcription`.
    pub fn stop_and_transcribe(&mut self) -> (r: Result<(), DictationError>)
        ensures
            final(self).config_spec() == old(self).config_spec(),
            !final(self).recording_spec(),
            !old(self).recording_spec() ==> r == Err::<(), DictationError>(
                DictationError::NotRecording,
            ) && final(self).status_spec() == old(self).status_spec(),
            old(self).recording_spec() ==> r is Ok && final(self).status_spec()
                == DictationStatus::Transcribing,
    {
        if !self.recording {
            return Err(DictationError::NotRecording);
        }
        self.recording = false;
        self.status = DictationStatus::Transcribing;
        Ok(())
    }

    /// The transcription ended: back to idle on success, otherwise the
    /// error's text becomes the status.
    pub fn finish_transcription(&mut self, result: Result<(), DictationError>)
        ensures
            final(self).config_spec() == old(self).config_spec(),
            final(self).recording_spec() == old(self).recording_spec(),
            match result {
                Ok(()) => final(self).status_spec() == DictationStatus::Idle,
                Err(e) => (final(self).status_spec() matches DictationStatus::Error(m) && m@
                    == error_message(e)),
            },
    {
        self.status = match result {
            Ok(()) => DictationStatus::Idle,
            Err(err) => DictationStatus::Error(err.message()),
        };
    }
}

/// The number held by 2 little-endian bytes.
pub open spec fn read_le16(b: Seq<u8>) -> int {
    b[0] + 256 * b[1]
}

/// The number held by 4 little-endian bytes.
pub open spec fn read_le32(b: Seq<u8>) -> int {
    b[0] + 256 * b[1] + 65536 * b[2] + 16777216 * b[3]
}

/// Reading back 2 written little-endian bytes gives the number written.
pub proof fn lemma_le16_roundtrip(x: int)
    requires
        0 <= x < 65536,
    ensures
        le16(x).len() == 2,
        read_le16(le16(x)) == x,
{
    let b = le16(x);
    assert(x == 256 * (x / 256) + x % 256) by (nonlinear_arith)
        requires
            x >= 0,
    ;
    assert(0 <= x / 256 < 256) by (nonlinear_arith)
        requires
            0 <= x < 65536,
    ;
    assert(b[0] == x % 256);
    assert(b[1] == (x / 256) % 256);
}

/// Reading back 4 written little-endian bytes gives the number written.
pub proof fn lemma_le32_roundtrip(x: int)
    requires
        0 <= x < 4294967296,
    ensures
        le32(x).len() == 4,
        read_le32(le32(x)) == x,
{
    let b = le32(x);
    let q1 = x / 256;
    let q2 = x / 65536;
    let q3 = x / 16777216;
    assert(x == 256 * q1 + x % 256) by (nonlinear_arith)
        requires
            x >= 0,
            q1 == x / 256,
    ;
    assert(q1 == 256 * q2 + q1 % 256 && q2 == x / 65536) by (nonlinear_arith)
        requires
            x >= 0,
            q1 == x / 256,
            q2 == x / 65536,
    ;
    assert(q2 == 256 * q3 + q2 % 256 && q3 == q2 / 256) by (nonlinear_arith)
        requires
            x >= 0,
            q2 == x / 65536,
            q3 == x / 16777216,
    ;
    assert(0 <= q3 < 256) by (nonlinear_arith)
        requires
            0 <= x < 4294967296,
            q3 == x / 16777216,
    ;
    assert(b[0] == x % 256);
    assert(b[1] == q1 % 256);
    assert(b[2] == q2 % 256);
    assert(b[3] == q3 % 256);
}

proof fn lemma_riff_part(data_len: int)
    requires
        0 <= data_len,
        data_len + 36 <= u32::MAX,
    ensures
        riff_part(data_len).len() == 12,
        read_le32(riff_part(data_len).subrange(4, 8)) == data_len + 36,
{
    reveal_strlit("RIFF");
    reveal_strlit("WAVE");
    lemma_le32_roundtrip(data_len + 36);
    assert(riff_part(data_len).subrange(4, 8) =~= le32(data_len + 36));
}

proof fn lemma_data_part(data_len: int)
    requires
        0 <= data_len <= u32::MAX,
    ensures
        data_part(data_len).len() == 8,
        read_le32(data_part(data_len).subrange(4, 8)) == data_len,
{
    reveal_strlit("data");
    lemma_le32_roundtrip(data_len);
    assert(data_part(data_len).subrange(4, 8) =~= le32(data_len));
}

proof fn lemma_fmt_part(sample_rate: int, channels: int)
    requires
        0 <= sample_rate <= u32::MAX,
        0 <= channels,
        sample_rate * channels * 2 <= u32::MAX,
        channels * 2 <= u16::MAX,
    ensures
        fmt_part(sample_rate, channels).len() == 24,
        read_le16(fmt_part(sample_rate, channels).subrange(8, 10)) == 1,
        read_le16(fmt_part(sample_rate, channels).subrange(10, 12)) == channels,
        read_le32(fmt_part(sample_rate, channels).subrange(12, 16)) == sample_rate,
        read_le32(fmt_part(sample_rate, channels).subrange(16, 20)) == sample_rate * channels
            * 2,
        read_le16(fmt_part(sample_rate, channels).subrange(20, 22)) == channels * 2,
        read_le16(fmt_part(sample_rate, channels).subrange(22, 24)) == 16,
{
    reveal_strlit("fmt ");
    assert(0 <= sample_rate * channels * 2) by (nonlinear_arith)
        requires
            0 <= sample_rate,
            0 <= channels,
    ;
    lemma_le16_roundtrip(1);
    lemma_le16_roundtrip(channels);
    lemma_le32_roundtrip(sample_rate);
    lemma_le32_roundtrip(sample_rate * channels * 2);
    lemma_le16_roundtrip(channels * 2);
    lemma_le16_roundtrip(16);
    lemma_le32_roundtrip(16);
    let f = fmt_part(sample_rate, channels);
    assert(f.subrange(8, 10) =~= le16(1));
    assert(f.subrange(10, 12) =~= le16(channels));
    assert(f.subrange(12, 16) =~= le32(sample_rate));
    assert(f.subrange(16, 20) =~= le32(sample_rate * channels * 2));
    assert(f.subrange(20, 22) =~= le16(channels * 2));
    assert(f.subrange(22, 24) =~= le16(16));
}

/// The WAV header is 44 bytes and records, little-endian at their offsets,
/// the file size less 8, the format (1, PCM), the channel count, the sample
/// rate, the byte rate, the block size, 16 bits per sample, and the data
/// size.
pub proof fn lemma_wav_header_fields(data_len: int, sample_rate: int, channels: int)
    requires
        0 <= data_len,
        data_len + 36 <= u32::MAX,
        0 <= sample_rate <= u32::MAX,
        0 <= channels,
        sample_rate * channels * 2 <= u32::MAX,
        channels * 2 <= u16::MAX,
    ensures
        ({
            let h = wav_header(data_len, sample_rate, channels);
            &&& h.len() == 44
            &&& read_le32(h.subrange(4, 8)) == data_len + 36
            &&& read_le16(h.subrange(20, 22)) == 1
            &&& read_le16(h.subrange(22, 24)) == channels
            &&& read_le32(h.subrange(24, 28)) == sample_rate
            &&& read_le32(h.subrange(28, 32)) == sample_rate * channels * 2
            &&& read_le16(h.subrange(32, 34)) == channels * 2
            &&& read_le16(h.subrange(34, 36)) == 16
            &&& read_le32(h.subrange(40, 44)) == data_len
        }),
{
    lemma_riff_part(data_len);
    lemma_fmt_part(sample_rate, channels);
    lemma_data_part(data_len);
    let r = riff_part(data_len);
    let f = fmt_part(sample_rate, channels);
    let d = data_part(data_len);
    let h = wav_header(data_len, sample_rate, channels);
    assert(h.subrange(4, 8) =~= r.subrange(4, 8));
    assert(h.subrange(20, 22) =~= f.subrange(8, 10));
    assert(h.subrange(22, 24) =~= f.subrange(10, 12));
    assert(h.subrange(24, 28) =~= f.subrange(12, 16));
    assert(h.subrange(28, 32) =~= f.subrange(16, 20));
    assert(h.subrange(32, 34) =~= f.subrange(20, 22));
    assert(h.subrange(34, 36) =~= f.subrange(22, 24));
    assert(h.subrange(40, 44) =~= d.subrange(4, 8));
}

/// The sample data holds two bytes per sample, and each sample reads back
/// (as a 16-bit two's-complement number) from its two bytes.
pub proof fn lemma_pcm16_samples(samples: Seq<i16>)
    ensures
        pcm16(samples).len() == 2 * samples.len(),
        forall|i: int|
            0 <= i < samples.len() ==> #[trigger] read_le16(pcm16(samples).subrange(2 * i, 2 * i + 2))
                == if samples[i] < 0 {
                samples[i] + 65536
            } else {
                samples[i] as int
            },
    decreases samples.len(),
{
    if samples.len() > 0 {
        let init = samples.drop_last();
        lemma_pcm16_samples(init);
        let last = samples.last();
        let bits = if last < 0 {
            last + 65536
        } else {
            last as int
        };
        lemma_le16_roundtrip(bits);
        let p = pcm16(samples);
        let pi = pcm16(init);
        assert(p == pi + le16(bits));
        assert forall|i: int| 0 <= i < samples.len() implies #[trigger] read_le16(
            p.subrange(2 * i, 2 * i + 2),
        ) == if samples[i] < 0 {
            samples[i] + 65536
        } else {
            samples[i] as int
        } by {
            if i < init.len() {
                assert(p.subrange(2 * i, 2 * i + 2) =~= pi.subrange(2 * i, 2 * i + 2));
                assert(samples[i] == init[i]);
            } else {
                assert(p.subrange(2 * i, 2 * i + 2) =~= le16(bits));
            }
        }
    }
}

} // verus!
