//! Decision logic of the streaming transcription session.
//!
//! The session multiplexes three inputs: control commands, captured audio,
//! and inbound service messages.  The loop itself, the network connection
//! and the JSON framing live outside the library; each input's effect on
//! the session state — what to send, what to emit, when the session ends —
//! is decided here.

use vstd::prelude::*;
use vstd::string::StringExecFns;
use crate::pcm::{spec_wire_bytes, to_pcm16_mono_16k};
use crate::transcript::{render_tokens, spec_render, Token};

verus! {

/// Bytes of audio sent between two telemetry reports.
pub const BYTES_REPORT_INTERVAL: usize = 48000;

/// Options a session is opened with.
#[derive(Debug, Clone)]
pub struct SonioxOptions {
    pub api_key: String,
    /// `"auto"` or `"pcm_s16le"`.
    pub audio_format: String,
    /// `"none"`, `"one_way"` or `"two_way"`.
    pub translation: String,
}

/// One captured buffer on its way to the session.
#[derive(Debug, Clone)]
pub struct AudioChunk {
    pub samples: Vec<i16>,
    pub channels: u16,
    pub sample_rate: u32,
}

/// A command on the session's control channel.
#[derive(Debug, Clone)]
pub enum SonioxControl {
    ClearTranscript,
}

/// The translation part of the session configuration.
#[derive(Debug, Clone)]
pub enum Translation {
    NoTranslation,
    OneWay { target_language: String },
    TwoWay { language_a: String, language_b: String },
}

/// The configuration message sent once when a session opens, as plain
/// values; the shell serializes it.
#[derive(Debug, Clone)]
pub struct WireConfig {
    pub api_key: String,
    pub model: String,
    pub language_hints: Vec<String>,
    pub enable_language_identification: bool,
    pub enable_speaker_diarization: bool,
    pub enable_endpoint_detection: bool,
    /// `"auto"` or `"pcm_s16le"`.
    pub audio_format: String,
    /// Fixed at the wire rate when raw PCM is sent.
    pub sample_rate: Option<u32>,
    /// Fixed at mono when raw PCM is sent.
    pub num_channels: Option<u16>,
    pub translation: Translation,
}

/// Builds the session configuration: raw PCM at 16 kHz mono unless the
/// caller asked for server-side detection, and the translation mode the
/// caller named.
pub fn wire_config(opts: &SonioxOptions) -> (r: WireConfig)
    ensures
        r.api_key@ == opts.api_key@,
        r.model@ == "stt-rt-preview-v2"@,
        r.language_hints@.len() == 2,
        r.language_hints@[0]@ == "en"@,
        r.language_hints@[1]@ == "pl"@,
        r.enable_language_identification,
        r.enable_speaker_diarization,
        r.enable_endpoint_detection,
        opts.audio_format@ == "auto"@ ==> r.audio_format@ == "auto"@ && r.sample_rate is None
            && r.num_channels is None,
        opts.audio_format@ != "auto"@ ==> r.audio_format@ == "pcm_s16le"@ && r.sample_rate
            == Some(16000u32) && r.num_channels == Some(1u16),
        opts.translation@ == "one_way"@ ==> (r.translation matches Translation::OneWay {
            target_language,
        } && target_language@ == "es"@),
        opts.translation@ == "two_way"@ ==> (r.translation matches Translation::TwoWay {
            language_a,
            language_b,
        } && language_a@ == "en"@ && language_b@ == "es"@),
        (opts.translation@ != "one_way"@ && opts.translation@ != "two_way"@)
            ==> r.translation is NoTranslation,
{
    proof {
        reveal_strlit("one_way");
        reveal_strlit("two_way");
        assert("one_way"@[0] == 'o');
        assert("two_way"@[0] == 't');
        assert("one_way"@ != "two_way"@);
    }
    let mut hints: Vec<String> = Vec::new();
    hints.push(String::from_str("en"));
    hints.push(String::from_str("pl"));
    let auto = crate::text::str_eq(opts.audio_format.as_str(), "auto");
    let (audio_format, sample_rate, num_channels) = if auto {
        (String::from_str("auto"), None, None)
    } else {
        (String::from_str("pcm_s16le"), Some(16000u32), Some(1u16))
    };
    let translation = if crate::text::str_eq(opts.translation.as_str(), "one_way") {
        Translation::OneWay { target_language: String::from_str("es") }
    } else if crate::text::str_eq(opts.translation.as_str(), "two_way") {
        Translation::TwoWay {
            language_a: String::from_str("en"),
            language_b: String::from_str("es"),
        }
    } else {
        Translation::NoTranslation
    };
    WireConfig {
        api_key: opts.api_key.clone(),
        model: String::from_str("stt-rt-preview-v2"),
        language_hints: hints,
        enable_language_identification: true,
        enable_speaker_diarization: true,
        enable_endpoint_detection: true,
        audio_format,
        sample_rate,
        num_channels,
        translation,
    }
}

/// One inbound service message, already parsed to plain values by the
/// shell: an error (terminal), zero or more tokens, and the finished flag.
#[derive(Debug, Clone)]
pub struct InboundMessage {
    /// The rendered error code, when the message carries one.
    pub error_code: Option<String>,
    /// The rendered error message accompanying an error code.
    pub error_message: String,
    pub tokens: Vec<Token>,
    pub finished: bool,
}

/// What the session loop should do after one inbound message.
#[derive(Debug, Clone)]
pub enum TranscriptEvent {
    /// Emit this error and end the session.
    Failed(String),
    /// Emit this rendered transcript.
    Emit(String),
    /// Emit nothing: the rendering matched the text just cleared.
    Suppressed,
    /// Emit the no-speech placeholder.
    NoSpeech,
}

/// Outcome of one inbound message.
#[derive(Debug, Clone)]
pub struct MessageOutcome {
    pub event: TranscriptEvent,
    /// The service declared the session finished.
    pub finished: bool,
    /// The loop should end.
    pub ends_session: bool,
}

/// The final tokens of a message that carry any text.
pub open spec fn kept_finals(toks: Seq<Token>) -> Seq<Token>
    decreases toks.len(),
{
    if toks.len() == 0 {
        Seq::<Token>::empty()
    } else {
        let pre = kept_finals(toks.drop_last());
        let t = toks.last();
        if t.text@.len() > 0 && t.is_final {
            pre.push(t)
        } else {
            pre
        }
    }
}

/// The non-final tokens of a message that carry any text.
pub open spec fn kept_nonfinals(toks: Seq<Token>) -> Seq<Token>
    decreases toks.len(),
{
    if toks.len() == 0 {
        Seq::<Token>::empty()
    } else {
        let pre = kept_nonfinals(toks.drop_last());
        let t = toks.last();
        if t.text@.len() > 0 && !t.is_final {
            pre.push(t)
        } else {
            pre
        }
    }
}

/// Whether any token of a message carries text.
pub open spec fn any_token_text(toks: Seq<Token>) -> bool {
    exists|i: int| 0 <= i < toks.len() && #[trigger] toks[i].text@.len() > 0
}

/// The session's accumulated transcript state and telemetry counter.
pub struct SessionState {
    final_tokens: Vec<Token>,
    last_emitted_text: String,
    suppress_repeat: Option<String>,
    sent_bytes: usize,
}

impl SessionState {
    pub closed spec fn spec_final_tokens(self) -> Seq<Token> {
        self.final_tokens@
    }

    pub closed spec fn spec_last_emitted(self) -> Seq<char> {
        self.last_emitted_text@
    }

    pub closed spec fn spec_suppress(self) -> Option<Seq<char>> {
        match self.suppress_repeat {
            Some(s) => Some(s@),
            None => None,
        }
    }

    pub closed spec fn spec_sent_bytes(self) -> int {
        self.sent_bytes as int
    }

    /// The byte counter stays below the reporting interval between calls.
    pub open spec fn wf(self) -> bool {
        self.spec_sent_bytes() < BYTES_REPORT_INTERVAL
    }

    pub fn new() -> (r: SessionState)
        ensures
            r.wf(),
            r.spec_final_tokens() == Seq::<Token>::empty(),
            r.spec_last_emitted() == Seq::<char>::empty(),
            r.spec_suppress() is None,
            r.spec_sent_bytes() == 0,
    {
        SessionState {
            final_tokens: Vec::new(),
            last_emitted_text: String::new(),
            suppress_repeat: None,
            sent_bytes: 0,
        }
    }

    /// Clears the accumulated transcript on a control command, arming a
    /// one-shot suppression so the next rendering is not re-emitted if it
    /// equals what was just cleared.
    pub fn handle_clear(&mut self)
        ensures
            final(self).wf() == old(self).wf(),
            final(self).spec_final_tokens() == Seq::<Token>::empty(),
            final(self).spec_last_emitted() == Seq::<char>::empty(),
            final(self).spec_suppress() == (if old(self).spec_suppress() is None {
                Some(old(self).spec_last_emitted())
            } else {
                old(self).spec_suppress()
            }),
            final(self).spec_sent_bytes() == old(self).spec_sent_bytes(),
    {
        if self.suppress_repeat.is_none() {
            self.suppress_repeat = Some(self.last_emitted_text.clone());
        }
        self.final_tokens.clear();
        self.last_emitted_text = String::new();
    }

    /// Converts one captured chunk to the wire format and accounts the
    /// bytes: when the running count reaches the reporting interval it is
    /// reported and reset.
    pub fn handle_audio(&mut self, chunk: &AudioChunk) -> (r: (Vec<u8>, Option<usize>))
        requires
            old(self).wf(),
            chunk.channels >= 1,
            chunk.sample_rate >= 1,
            chunk.samples@.len() * 32000 + chunk.sample_rate as int + 48000 <= usize::MAX,
            chunk.samples@.len() + chunk.channels as int <= usize::MAX,
        ensures
            final(self).wf(),
            r.0@ == spec_wire_bytes(
                chunk.samples@,
                chunk.channels as int,
                chunk.sample_rate as int,
            ),
            ({
                let total = old(self).spec_sent_bytes() + r.0@.len();
                if total >= BYTES_REPORT_INTERVAL {
                    &&& r.1 matches Some(n) && n as int == total
                    &&& final(self).spec_sent_bytes() == 0
                } else {
                    &&& r.1 is None
                    &&& final(self).spec_sent_bytes() == total
                }
            }),
            final(self).spec_final_tokens() == old(self).spec_final_tokens(),
            final(self).spec_last_emitted() == old(self).spec_last_emitted(),
            final(self).spec_suppress() == old(self).spec_suppress(),
    {
        let frame = to_pcm16_mono_16k(chunk.samples.as_slice(), chunk.channels, chunk.sample_rate);
        let total = self.sent_bytes + frame.len();
        if total >= BYTES_REPORT_INTERVAL {
            self.sent_bytes = 0;
            (frame, Some(total))
        } else {
            self.sent_bytes = total;
            (frame, None)
        }
    }

    /// Applies one inbound message: a terminal error ends the session;
    /// otherwise the message's final tokens accumulate, its non-final
    /// tokens replace the overlay wholesale, and the rendering is emitted,
    /// suppressed once after a clear, or replaced by the no-speech
    /// placeholder when the message carried no text.
    pub fn handle_message(&mut self, msg: &InboundMessage) -> (outcome: MessageOutcome)
        requires
            old(self).wf(),
        ensures
            final(self).wf(),
            final(self).spec_sent_bytes() == old(self).spec_sent_bytes(),
            msg.error_code matches Some(code) ==> {
                &&& outcome.event matches TranscriptEvent::Failed(m) && m@ == code@ + " - "@
                    + msg.error_message@
                &&& outcome.ends_session
                &&& !outcome.finished
                &&& *final(self) == *old(self)
            },
            msg.error_code is None ==> {
                let finals_new = old(self).spec_final_tokens() + kept_finals(msg.tokens@);
                let rendered = spec_render(finals_new, kept_nonfinals(msg.tokens@));
                &&& final(self).spec_final_tokens() == finals_new
                &&& (if any_token_text(msg.tokens@) || rendered.len() > 0 {
                    if old(self).spec_suppress() matches Some(s) && s == rendered {
                        &&& outcome.event is Suppressed
                        &&& !outcome.finished
                        &&& !outcome.ends_session
                        &&& final(self).spec_last_emitted() == old(self).spec_last_emitted()
                        &&& final(self).spec_suppress() == old(self).spec_suppress()
                    } else {
                        &&& outcome.event matches TranscriptEvent::Emit(text) && text@ == rendered
                        &&& outcome.finished == msg.finished
                        &&& outcome.ends_session == msg.finished
                        &&& final(self).spec_last_emitted() == rendered
                        &&& final(self).spec_suppress() is None
                    }
                } else {
                    &&& outcome.event is NoSpeech
                    &&& outcome.finished == msg.finished
                    &&& outcome.ends_session == msg.finished
                    &&& final(self).spec_last_emitted() == "[no speech detected]"@
                    &&& final(self).spec_suppress() == old(self).spec_suppress()
                })
            },
    {
        if let Some(code) = &msg.error_code {
            let mut m = code.clone();
            m.append(" - ");
            m.append(msg.error_message.as_str());
            return MessageOutcome {
                event: TranscriptEvent::Failed(m),
                finished: false,
                ends_session: true,
            };
        }

        let ghost toks = msg.tokens@;
        let mut non_final: Vec<Token> = Vec::new();
        let mut has_tokens = false;
        let mut i: usize = 0;
        while i < msg.tokens.len()
            invariant
                i <= toks.len(),
                toks == msg.tokens@,
                self.final_tokens@ == old(self).final_tokens@ + kept_finals(
                    toks.subrange(0, i as int),
                ),
                non_final@ == kept_nonfinals(toks.subrange(0, i as int)),
                has_tokens == any_token_text(toks.subrange(0, i as int)),
                self.last_emitted_text == old(self).last_emitted_text,
                self.suppress_repeat == old(self).suppress_repeat,
                self.sent_bytes == old(self).sent_bytes,
            decreases toks.len() - i,
        {
            proof {
                assert(toks.subrange(0, i as int + 1).drop_last() =~= toks.subrange(0, i as int));
            }
            let t = &msg.tokens[i];
            if !t.text.as_str().is_empty() {
                has_tokens = true;
                if t.is_final {
                    self.final_tokens.push(clone_token(t));
                } else {
                    non_final.push(clone_token(t));
                }
                proof {
                    assert(toks.subrange(0, i as int + 1)[i as int].text@.len() > 0);
                    assert(any_token_text(toks.subrange(0, i as int + 1)));
                }
            } else {
                proof {
                    if any_token_text(toks.subrange(0, i as int + 1)) {
                        let w = choose|w: int|
                            0 <= w < i + 1 && #[trigger] toks.subrange(0, i as int + 1)[w].text@.len()
                                > 0;
                        assert(toks.subrange(0, i as int)[w] == toks.subrange(0, i as int + 1)[w]);
                    }
                }
            }
            i = i + 1;
        }
        proof {
            assert(toks.subrange(0, toks.len() as int) =~= toks);
        }

        let rendered = render_tokens(&self.final_tokens, &non_final);

        if has_tokens || !rendered.as_str().is_empty() {
            let mut suppressed = false;
            if let Some(s) = &self.suppress_repeat {
                if s.eq(&rendered) {
                    suppressed = true;
                }
            }
            if suppressed {
                return MessageOutcome {
                    event: TranscriptEvent::Suppressed,
                    finished: false,
                    ends_session: false,
                };
            }
            self.suppress_repeat = None;
            self.last_emitted_text = rendered.clone();
            MessageOutcome {
                event: TranscriptEvent::Emit(rendered),
                finished: msg.finished,
                ends_session: msg.finished,
            }
        } else {
            self.last_emitted_text = String::from_str("[no speech detected]");
            MessageOutcome {
                event: TranscriptEvent::NoSpeech,
                finished: msg.finished,
                ends_session: msg.finished,
            }
        }
    }

    /// The text last emitted to the UI.
    pub fn last_emitted(&self) -> (r: &String)
        ensures
            r@ == self.spec_last_emitted(),
    {
        &self.last_emitted_text
    }
}

/// The streaming transcription providers the session layer knows.
#[derive(Debug, Clone, Copy, PartialEq, Eq, Structural)]
pub enum ProviderKind {
    Soniox,
}

/// A real-time transcription provider, as the session layer sees one.
pub trait TranscriptionProvider {
    fn kind(&self) -> ProviderKind;
}

/// Copies a token.
fn clone_token(t: &Token) -> (r: Token)
    ensures
        r == *t,
{
    Token {
        text: t.text.clone(),
        is_final: t.is_final,
        speaker: t.speaker,
        language: match &t.language {
            Some(l) => Some(l.clone()),
            None => None,
        },
    }
}

} // verus!
