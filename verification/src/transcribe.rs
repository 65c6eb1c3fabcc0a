//! The transcription driver: accumulates mono fixed-point samples into a
//! bounded segment, hands full segments out for inference, keeps the running
//! transcript, and queues events for the host to publish.
//!
//! Inference itself is an external collaborator: it is CPU-bound and must
//! never run on the audio path, so the driver returns each full segment to
//! the host, which runs the recognizer on a background execution context and
//! reports the outcome back through [`TranscriptionManager::accept_transcription`]
//! or [`TranscriptionManager::report_inference_error`].

use vstd::prelude::*;
use crate::config::SpeechSettings;

verus! {

/// The sample rate the recognizer expects, in frames per second.
pub const WHISPER_SAMPLE_RATE: u32 = 16000;

/// The largest supported segment duration, in milliseconds.
pub const MAX_SEGMENT_MILLIS: u32 = 3_600_000;

/// The bound on the running transcript, in characters; the oldest content is
/// dropped beyond it.
pub const MAX_TEXT_LENGTH: usize = 8192;

/// Failures around transcription.
#[derive(Debug, Clone)]
pub enum TranscriptionError {
    /// Failed to initialize the speech model.
    ModelInitialization(String),
    /// Failed to create the recognizer state.
    StateCreation(String),
    /// Failed to run inference.
    InferenceFailure(String),
    /// Failed to process transcription segments.
    SegmentProcessing(String),
    /// Task cancelled.
    TaskCancelled(String),
    /// Input or output error.
    IoError(String),
}

impl TranscriptionError {
    /// The message carried by the error.
    pub fn detail(&self) -> (r: &str)
        ensures
            match self {
                TranscriptionError::ModelInitialization(m) => r@ == m@,
                TranscriptionError::StateCreation(m) => r@ == m@,
                TranscriptionError::InferenceFailure(m) => r@ == m@,
                TranscriptionError::SegmentProcessing(m) => r@ == m@,
                TranscriptionError::TaskCancelled(m) => r@ == m@,
                TranscriptionError::IoError(m) => r@ == m@,
            },
    {
        match self {
            TranscriptionError::ModelInitialization(m) => m.as_str(),
            TranscriptionError::StateCreation(m) => m.as_str(),
            TranscriptionError::InferenceFailure(m) => m.as_str(),
            TranscriptionError::SegmentProcessing(m) => m.as_str(),
            TranscriptionError::TaskCancelled(m) => m.as_str(),
            TranscriptionError::IoError(m) => m.as_str(),
        }
    }
}

/// Transcription events, queued oldest first for the host to publish.
#[derive(Debug, Clone)]
pub enum TranscriptionEvent {
    /// New transcription available.
    Transcription(String),
    /// Partial transcription available.
    PartialTranscription(String),
    /// Transcription started.
    Started,
    /// Transcription stopped.
    Stopped,
    /// Transcription error.
    Error(String),
}

/// The driver's phase.
#[derive(Debug, Clone, PartialEq)]
pub enum TranscriptionState {
    /// Not initialized.
    Uninitialized,
    /// Ready to transcribe.
    Ready,
    /// Currently transcribing.
    Transcribing,
    /// Stopped, with one final segment still out for inference.
    Flushing,
    /// Paused.
    Paused,
    /// Error state.
    Error(String),
}

/// A transcript delta appended to the running transcript: joined with a
/// single space unless the transcript is empty or already ends in a space,
/// then bounded by keeping only the last `max` characters.
pub open spec fn append_delta(cur: Seq<char>, delta: Seq<char>, max: int) -> Seq<char> {
    let joined = if cur.len() > 0 && cur.last() != ' ' {
        cur + seq![' '] + delta
    } else {
        cur + delta
    };
    if joined.len() > max {
        joined.skip(joined.len() - max)
    } else {
        joined
    }
}

/// True when the event is a transcription of the given text.
pub open spec fn is_transcription_event(e: TranscriptionEvent, text: Seq<char>) -> bool {
    match e {
        TranscriptionEvent::Transcription(t) => t@ == text,
        _ => false,
    }
}

/// True when the event is an error with the given message.
pub open spec fn is_error_event(e: TranscriptionEvent, msg: Seq<char>) -> bool {
    match e {
        TranscriptionEvent::Error(m) => m@ == msg,
        _ => false,
    }
}

/// The segment-buffering transcription driver.
pub struct TranscriptionManager {
    /// Transcription settings.
    settings: SpeechSettings,
    /// The driver's phase.
    state: TranscriptionState,
    /// The running transcript.
    current_text: String,
    /// The segment under accumulation: mono fixed-point samples at the
    /// recognizer's rate.
    audio_buffer: Vec<i32>,
    /// The segment capacity, in samples.
    capacity: usize,
    /// Queued events, oldest first.
    events: Vec<TranscriptionEvent>,
}

impl TranscriptionManager {
    /// The driver's phase.
    pub closed spec fn phase(&self) -> TranscriptionState {
        self.state
    }

    /// The running transcript.
    pub closed spec fn transcript(&self) -> Seq<char> {
        self.current_text@
    }

    /// The samples accumulated toward the next segment.
    pub closed spec fn buffered(&self) -> Seq<i32> {
        self.audio_buffer@
    }

    /// The segment capacity in samples.
    pub closed spec fn segment_capacity(&self) -> int {
        self.capacity as int
    }

    /// The queued events.
    pub closed spec fn events_view(&self) -> Seq<TranscriptionEvent> {
        self.events@
    }

    /// The settings.
    pub closed spec fn settings_view(&self) -> SpeechSettings {
        self.settings
    }

    /// The buffer stays under its capacity, which is positive.
    pub closed spec fn wf(&self) -> bool {
        self.audio_buffer@.len() < self.capacity && 1 <= self.capacity
            <= 0x1000_0000
    }

    /// Creates a driver for the given settings; the segment capacity is the
    /// configured segment duration at the recognizer's sample rate. The
    /// duration bound is a machine limit keeping the capacity addressable.
    pub fn new(settings: SpeechSettings) -> (r: Self)
        requires
            1 <= settings.segment_duration <= MAX_SEGMENT_MILLIS,
        ensures
            r.wf(),
            r.phase() == TranscriptionState::Uninitialized,
            r.transcript().len() == 0,
            r.buffered().len() == 0,
            r.events_view().len() == 0,
            r.segment_capacity() == (settings.segment_duration as int) * (WHISPER_SAMPLE_RATE
                as int) / 1000,
            r.settings_view() == settings,
    {
        let cap64: u64 = (settings.segment_duration as u64) * (WHISPER_SAMPLE_RATE as u64) / 1000;
        proof {
            assert((settings.segment_duration as int) * (WHISPER_SAMPLE_RATE as int)
                <= 3_600_000 * 16000) by (nonlinear_arith)
                requires
                    1 <= settings.segment_duration <= 3_600_000,
            ;
            assert((settings.segment_duration as int) * (WHISPER_SAMPLE_RATE as int) >= 16000) by (
            nonlinear_arith)
                requires
                    settings.segment_duration >= 1,
            ;
            assert(cap64 >= 16) by {
                vstd::arithmetic::div_mod::lemma_div_is_ordered(
                    16000,
                    (settings.segment_duration as int) * (WHISPER_SAMPLE_RATE as int),
                    1000,
                );
            }
            assert(cap64 <= 0x1000_0000u64) by {
                vstd::arithmetic::div_mod::lemma_div_is_ordered(
                    (settings.segment_duration as int) * (WHISPER_SAMPLE_RATE as int),
                    3_600_000int * 16000,
                    1000,
                );
            }
        }
        let capacity: usize = cap64 as usize;
        TranscriptionManager {
            settings,
            state: TranscriptionState::Uninitialized,
            current_text: String::new(),
            audio_buffer: Vec::new(),
            capacity,
            events: Vec::new(),
        }
    }

    /// Marks the driver ready; loading the model itself is the host's job.
    pub fn initialize(&mut self) -> (r: Result<(), TranscriptionError>)
        requires
            old(self).wf(),
        ensures
            final(self).wf(),
            r is Ok,
            final(self).phase() == TranscriptionState::Ready,
            final(self).transcript() == old(self).transcript(),
            final(self).buffered() == old(self).buffered(),
            final(self).events_view() == old(self).events_view(),
            final(self).segment_capacity() == old(self).segment_capacity(),
            final(self).settings_view() == old(self).settings_view(),
    {
        self.state = TranscriptionState::Ready;
        Ok(())
    }

    /// Starts transcription: initializes first if needed; a repeated start is
    /// a no-op success; otherwise the segment buffer is cleared and `Started`
    /// is reported.
    pub fn start(&mut self) -> (r: Result<(), TranscriptionError>)
        requires
            old(self).wf(),
        ensures
            final(self).wf(),
            r is Ok,
            final(self).transcript() == old(self).transcript(),
            final(self).segment_capacity() == old(self).segment_capacity(),
            final(self).settings_view() == old(self).settings_view(),
            old(self).phase() == TranscriptionState::Transcribing ==> *final(self) == *old(self),
            old(self).phase() != TranscriptionState::Transcribing ==> final(self).phase()
                == TranscriptionState::Transcribing && final(self).buffered().len() == 0 && final(self).events_view() == old(self).events_view().push(TranscriptionEvent::Started),
    {
        match &self.state {
            TranscriptionState::Transcribing => Ok(()),
            _ => {
                self.state = TranscriptionState::Transcribing;
                self.audio_buffer.clear();
                self.events.push(TranscriptionEvent::Started);
                Ok(())
            },
        }
    }

    /// Accepts one frame of mono samples for the current segment. When the
    /// segment reaches capacity it is returned for inference and collection
    /// restarts; frames are ignored unless transcribing. The frame bound is a
    /// machine limit.
    pub fn process_audio(&mut self, samples: &[i32]) -> (r: Option<Vec<i32>>)
        requires
            old(self).wf(),
            samples@.len() <= 0x1000_0000,
        ensures
            final(self).wf(),
            final(self).phase() == old(self).phase(),
            final(self).transcript() == old(self).transcript(),
            final(self).events_view() == old(self).events_view(),
            final(self).segment_capacity() == old(self).segment_capacity(),
            final(self).settings_view() == old(self).settings_view(),
            old(self).phase() != TranscriptionState::Transcribing ==> r is None && final(self).buffered() == old(self).buffered(),
            old(self).phase() == TranscriptionState::Transcribing ==> ({
                let joined = old(self).buffered() + samples@;
                if joined.len() >= old(self).segment_capacity() {
                    r matches Some(seg) && seg@ == joined && final(self).buffered().len() == 0
                } else {
                    r is None && final(self).buffered() == joined
                }
            }),
    {
        match &self.state {
            TranscriptionState::Transcribing => {
                let ghost before = self.audio_buffer@;
                let mut i: usize = 0;
                while i < samples.len()
                    invariant
                        i <= samples@.len(),
                        samples@.len() <= 0x1000_0000,
                        self.audio_buffer@ == before + samples@.take(i as int),
                        before.len() < 0x1000_0000,
                        self.state == old(self).state,
                        self.current_text == old(self).current_text,
                        self.events == old(self).events,
                        self.capacity == old(self).capacity,
                        self.settings == old(self).settings,
                        before == old(self).audio_buffer@,
                    decreases samples@.len() - i,
                {
                    self.audio_buffer.push(samples[i]);
                    proof {
                        assert(before + samples@.take(i + 1) =~= (before + samples@.take(
                            i as int,
                        )).push(samples@[i as int]));
                    }
                    i = i + 1;
                }
                proof {
                    assert(before + samples@.take(samples@.len() as int) =~= before + samples@);
                }
                if self.audio_buffer.len() >= self.capacity {
                    let mut segment: Vec<i32> = Vec::new();
                    core::mem::swap(&mut segment, &mut self.audio_buffer);
                    Some(segment)
                } else {
                    None
                }
            },
            _ => None,
        }
    }

    /// Stops transcription. Stopping when not transcribing is a no-op
    /// success. A non-empty partial segment is returned for exactly one more
    /// inference pass, and `Stopped` is reported only after its outcome comes
    /// back; with nothing buffered the driver reports `Stopped` at once.
    pub fn stop(&mut self) -> (r: Option<Vec<i32>>)
        requires
            old(self).wf(),
        ensures
            final(self).wf(),
            final(self).transcript() == old(self).transcript(),
            final(self).segment_capacity() == old(self).segment_capacity(),
            final(self).settings_view() == old(self).settings_view(),
            old(self).phase() != TranscriptionState::Transcribing ==> r is None && *final(self)
                == *old(self),
            old(self).phase() == TranscriptionState::Transcribing ==> final(self).buffered().len() == 0 && (if old(self).buffered().len() > 0 {
                r matches Some(seg) && seg@ == old(self).buffered() && final(self).phase()
                    == TranscriptionState::Flushing && final(self).events_view() == old(self).events_view()
            } else {
                r is None && final(self).phase() == TranscriptionState::Ready && final(self).events_view() == old(self).events_view().push(TranscriptionEvent::Stopped)
            }),
    {
        match &self.state {
            TranscriptionState::Transcribing => {
                if self.audio_buffer.len() > 0 {
                    self.state = TranscriptionState::Flushing;
                    let mut segment: Vec<i32> = Vec::new();
                    core::mem::swap(&mut segment, &mut self.audio_buffer);
                    Some(segment)
                } else {
                    self.state = TranscriptionState::Ready;
                    self.events.push(TranscriptionEvent::Stopped);
                    None
                }
            },
            _ => None,
        }
    }

    /// Accepts the text a segment's inference produced. An empty result
    /// (after trimming) means no speech and changes nothing; otherwise the
    /// delta joins the running transcript, bounded to its maximum length,
    /// and is reported. After the final flush, `Stopped` follows.
    pub fn accept_transcription(&mut self, text: &str)
        requires
            old(self).wf(),
        ensures
            final(self).wf(),
            final(self).buffered() == old(self).buffered(),
            final(self).segment_capacity() == old(self).segment_capacity(),
            final(self).settings_view() == old(self).settings_view(),
            ({
                let empty = crate::text::trim_spec(text@).len() == 0;
                let base = old(self).events_view();
                &&& final(self).transcript() == (if empty {
                    old(self).transcript()
                } else {
                    append_delta(old(self).transcript(), text@, MAX_TEXT_LENGTH as int)
                })
                &&& (!empty ==> final(self).events_view().len() == base.len() + (if old(self).phase() == TranscriptionState::Flushing {
                    2int
                } else {
                    1int
                }) && final(self).events_view().take(base.len() as int) == base
                    && is_transcription_event(final(self).events_view()[base.len() as int], text@))
                &&& (empty ==> final(self).events_view().len() == base.len() + (if old(self).phase() == TranscriptionState::Flushing {
                    1int
                } else {
                    0int
                }) && final(self).events_view().take(base.len() as int) == base)
                &&& (old(self).phase() == TranscriptionState::Flushing ==> final(self).phase()
                    == TranscriptionState::Ready && final(self).events_view().last()
                    == TranscriptionEvent::Stopped)
                &&& (old(self).phase() != TranscriptionState::Flushing ==> final(self).phase()
                    == old(self).phase())
            }),
    {
        let trimmed = crate::text::trim_str(text);
        if trimmed.unicode_len() > 0 {
            self.push_delta(text);
            self.events.push(TranscriptionEvent::Transcription(String::from_str(text)));
        }
        match &self.state {
            TranscriptionState::Flushing => {
                self.state = TranscriptionState::Ready;
                self.events.push(TranscriptionEvent::Stopped);
            },
            _ => {},
        }
        proof {
            assert(final(self).events_view().take(old(self).events_view().len() as int)
                =~= old(self).events_view());
        }
    }

    /// Reports a failed inference: the segment is already discarded, the
    /// failure becomes an event, and collection goes on. After the final
    /// flush, `Stopped` follows.
    pub fn report_inference_error(&mut self, message: &str)
        requires
            old(self).wf(),
        ensures
            final(self).wf(),
            final(self).buffered() == old(self).buffered(),
            final(self).transcript() == old(self).transcript(),
            final(self).segment_capacity() == old(self).segment_capacity(),
            final(self).settings_view() == old(self).settings_view(),
            final(self).events_view().len() == old(self).events_view().len() + (if old(self).phase() == TranscriptionState::Flushing {
                2int
            } else {
                1int
            }),
            final(self).events_view().take(old(self).events_view().len() as int) == old(self).events_view(),
            is_error_event(
                final(self).events_view()[old(self).events_view().len() as int],
                message@,
            ),
            old(self).phase() == TranscriptionState::Flushing ==> final(self).phase()
                == TranscriptionState::Ready && final(self).events_view().last()
                == TranscriptionEvent::Stopped,
            old(self).phase() != TranscriptionState::Flushing ==> final(self).phase() == old(self).phase(),
    {
        self.events.push(TranscriptionEvent::Error(String::from_str(message)));
        match &self.state {
            TranscriptionState::Flushing => {
                self.state = TranscriptionState::Ready;
                self.events.push(TranscriptionEvent::Stopped);
            },
            _ => {},
        }
        proof {
            assert(final(self).events_view().take(old(self).events_view().len() as int)
                =~= old(self).events_view());
        }
    }

    fn push_delta(&mut self, text: &str)
        requires
            old(self).wf(),
        ensures
            final(self).wf(),
            final(self).transcript() == append_delta(
                old(self).transcript(),
                text@,
                MAX_TEXT_LENGTH as int,
            ),
            final(self).buffered() == old(self).buffered(),
            final(self).events_view() == old(self).events_view(),
            final(self).phase() == old(self).phase(),
            final(self).segment_capacity() == old(self).segment_capacity(),
            final(self).settings_view() == old(self).settings_view(),
    {
        let n = self.current_text.as_str().unicode_len();
        if n > 0 && self.current_text.as_str().get_char(n - 1) != ' ' {
            self.current_text.append(" ");
            proof {
                reveal_strlit(" ");
            }
        }
        self.current_text.append(text);
        let total = self.current_text.as_str().unicode_len();
        if total > MAX_TEXT_LENGTH {
            let kept = substr_tail(self.current_text.as_str(), total - MAX_TEXT_LENGTH);
            self.current_text = kept;
        }
    }

    /// The current transcription text.
    pub fn get_current_text(&self) -> (r: String)
        ensures
            r@ == self.transcript(),
    {
        self.current_text.clone()
    }

    /// Empties the running transcript.
    pub fn clear_transcription(&mut self)
        requires
            old(self).wf(),
        ensures
            final(self).wf(),
            final(self).transcript().len() == 0,
            final(self).buffered() == old(self).buffered(),
            final(self).events_view() == old(self).events_view(),
            final(self).phase() == old(self).phase(),
            final(self).segment_capacity() == old(self).segment_capacity(),
            final(self).settings_view() == old(self).settings_view(),
    {
        self.current_text = String::new();
    }

    /// Whether the driver is transcribing.
    pub fn is_transcribing(&self) -> (r: bool)
        ensures
            r == (self.phase() == TranscriptionState::Transcribing),
    {
        match &self.state {
            TranscriptionState::Transcribing => true,
            _ => false,
        }
    }

    /// The name of the configured model size.
    pub fn get_model_size_string(&self) -> (r: &'static str)
        ensures
            r@ == model_size_name(self.settings_view().model_size),
    {
        match &self.settings.model_size {
            crate::config::WhisperModelSize::Tiny => "tiny",
            crate::config::WhisperModelSize::Base => "base",
            crate::config::WhisperModelSize::Small => "small",
            crate::config::WhisperModelSize::Medium => "medium",
            crate::config::WhisperModelSize::Large => "large",
        }
    }

    /// The transcription settings.
    pub fn get_settings(&self) -> (r: &SpeechSettings)
        ensures
            *r == self.settings_view(),
    {
        &self.settings
    }

    /// Replaces the transcription settings; the segment capacity keeps its
    /// value until the driver is recreated.
    pub fn update_settings(&mut self, settings: SpeechSettings)
        requires
            old(self).wf(),
        ensures
            final(self).wf(),
            final(self).settings_view() == settings,
            final(self).transcript() == old(self).transcript(),
            final(self).buffered() == old(self).buffered(),
            final(self).events_view() == old(self).events_view(),
            final(self).phase() == old(self).phase(),
            final(self).segment_capacity() == old(self).segment_capacity(),
    {
        self.settings = settings;
    }

    /// Hands the queued events to the host and clears the queue.
    pub fn take_events(&mut self) -> (r: Vec<TranscriptionEvent>)
        requires
            old(self).wf(),
        ensures
            final(self).wf(),
            r@ == old(self).events_view(),
            final(self).events_view().len() == 0,
            final(self).transcript() == old(self).transcript(),
            final(self).buffered() == old(self).buffered(),
            final(self).phase() == old(self).phase(),
            final(self).segment_capacity() == old(self).segment_capacity(),
            final(self).settings_view() == old(self).settings_view(),
    {
        let mut drained: Vec<TranscriptionEvent> = Vec::new();
        core::mem::swap(&mut drained, &mut self.events);
        drained
    }
}

/// The name of a model size.
pub open spec fn model_size_name(m: crate::config::WhisperModelSize) -> Seq<char> {
    match m {
        crate::config::WhisperModelSize::Tiny => "tiny"@,
        crate::config::WhisperModelSize::Base => "base"@,
        crate::config::WhisperModelSize::Small => "small"@,
        crate::config::WhisperModelSize::Medium => "medium"@,
        crate::config::WhisperModelSize::Large => "large"@,
    }
}

/// Copies the characters from `from` to the end of `s` into a fresh string.
fn substr_tail(s: &str, from: usize) -> (r: String)
    requires
        from <= s@.len(),
    ensures
        r@ == s@.skip(from as int),
{
    let n = s.unicode_len();
    let r = crate::text::substr_string(s, from, n);
    proof {
        assert(s@.subrange(from as int, s@.len() as int) =~= s@.skip(from as int));
    }
    r
}

} // verus!
