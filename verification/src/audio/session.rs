//! The transcode session: a state machine that is told what the demultiplexer
//! and the decoder produced, and answers with what to do next.
//!
//! The session itself touches no codec. Its caller opens the container, reads
//! packets and runs the decoder, and reports each outcome as an `Event`; the
//! session converts the frames, keeps the PCM sink, and decides the next
//! `Action`. Events that do not answer the pending action change nothing.

use vstd::prelude::*;
use vstd::string::*;
use crate::audio::frame::{DecodedFrame, SampleFormat};
use crate::audio::sink::{PcmSink, SinkModel};
use crate::audio::wav::{container_accepts, wav_image};
use crate::error::TranscodeError;

verus! {

/// Where a session stands. `Finalized` and `Failed` are terminal.
#[derive(Debug, Clone, Copy, PartialEq, Eq, Structural)]
pub enum SessionState {
    Uninitialized,
    StreamSelected,
    Decoding,
    Flushing,
    Finalized,
    Failed,
}

/// What the caller is asked to do next.
#[derive(Debug, Clone, Copy, PartialEq, Eq, Structural)]
pub enum Action {
    /// Open the container, pick the best audio stream and open its decoder.
    SelectStream,
    /// Read the next packet from the container.
    ReadPacket,
    /// Submit the packet just read to the decoder, then try to receive a frame.
    SubmitPacket,
    /// Try to receive another frame.
    ReceiveFrame,
    /// Signal end of stream to the decoder, then try to receive a frame.
    SignalEndOfStream,
    /// The session has ended; call `finish`.
    Stop,
}

/// What the caller reports back.
#[derive(Debug, Clone, PartialEq, Eq)]
pub enum Event {
    /// An audio stream was selected and its decoder opened.
    StreamSelected { index: usize, channels: u16, sample_rate: u32 },
    /// The container holds no audio stream.
    NoAudioStream,
    /// No decoder exists for the selected stream's codec.
    UnsupportedCodec,
    /// A packet was read; it belongs to the stream with this index.
    Packet { stream_index: usize },
    /// The container has no more packets.
    EndOfPackets,
    /// The decoder produced a frame in a supported layout.
    Frame(DecodedFrame),
    /// The decoder produced a frame whose sample format is not supported.
    UnsupportedFrame { format_name: String },
    /// The decoder has no frame ready.
    NoFrameReady,
    /// The container or the codec reported a hard failure.
    CodecError { diagnostic: String },
}

/// The session as a mathematical value.
pub struct SessionModel {
    pub state: SessionState,
    /// The action that the caller was last asked to perform.
    pub pending: Action,
    /// The index of the selected stream, once one is selected.
    pub stream_index: usize,
    /// The sample layout, fixed by the first frame.
    pub format: Option<SampleFormat>,
    pub sink: SinkModel,
    /// Why the session failed, if it did.
    pub error: Option<TranscodeError>,
}

impl SessionModel {
    pub open spec fn initial() -> SessionModel {
        SessionModel {
            state: SessionState::Uninitialized,
            pending: Action::SelectStream,
            stream_index: 0,
            format: None,
            sink: SinkModel::empty(),
            error: None,
        }
    }

    pub open spec fn is_terminal(self) -> bool {
        self.state == SessionState::Finalized || self.state == SessionState::Failed
    }

    /// The failed session: the error is kept, what the sink held is dropped.
    pub open spec fn fail(self, error: TranscodeError) -> SessionModel {
        SessionModel {
            state: SessionState::Failed,
            pending: Action::Stop,
            sink: SinkModel::empty(),
            error: Some(error),
            ..self
        }
    }

    /// Whether a frame agrees with the session: its data has the announced
    /// shape, its channel count and sample rate are the stream's, and its
    /// layout is the one fixed by the first frame.
    pub open spec fn frame_is_consistent(self, frame: DecodedFrame) -> bool {
        &&& frame.well_formed()
        &&& frame.channels == self.sink.channels
        &&& frame.sample_rate == self.sink.sample_rate
        &&& (self.format matches Some(format) ==> format == frame.format_spec())
    }

    /// A frame arrives while the session waits for one.
    pub open spec fn accept_frame(self, frame: DecodedFrame) -> SessionModel {
        if !self.frame_is_consistent(frame) {
            self.fail(TranscodeError::InconsistentStream)
        } else if !self.sink.has_room(frame.pcm().len()) {
            self.fail(TranscodeError::Container)
        } else {
            SessionModel {
                pending: Action::ReceiveFrame,
                format: Some(frame.format_spec()),
                sink: self.sink.append(frame.pcm()),
                ..self
            }
        }
    }

    /// The answer to `SelectStream`.
    pub open spec fn on_selection(self, event: Event) -> SessionModel {
        match event {
            Event::StreamSelected { index, channels, sample_rate } => {
                if container_accepts(channels, sample_rate) {
                    SessionModel {
                        state: SessionState::StreamSelected,
                        pending: Action::ReadPacket,
                        stream_index: index,
                        sink: self.sink.tag(channels, sample_rate),
                        ..self
                    }
                } else {
                    self.fail(TranscodeError::Container)
                }
            },
            Event::NoAudioStream => self.fail(TranscodeError::NoAudioStream),
            Event::UnsupportedCodec => self.fail(TranscodeError::UnsupportedCodec),
            _ => self,
        }
    }

    /// The answer to `ReadPacket`. Packets of other streams are skipped.
    pub open spec fn on_packet(self, event: Event) -> SessionModel {
        match event {
            Event::Packet { stream_index } => SessionModel {
                state: SessionState::Decoding,
                pending: if stream_index == self.stream_index {
                    Action::SubmitPacket
                } else {
                    Action::ReadPacket
                },
                ..self
            },
            Event::EndOfPackets => SessionModel {
                state: SessionState::Flushing,
                pending: Action::SignalEndOfStream,
                ..self
            },
            _ => self,
        }
    }

    /// The answer to `SubmitPacket`, `ReceiveFrame` or `SignalEndOfStream`.
    pub open spec fn on_decoder_output(self, event: Event) -> SessionModel {
        match event {
            Event::Frame(frame) => self.accept_frame(frame),
            Event::UnsupportedFrame { format_name } => self.fail(
                TranscodeError::UnsupportedFormat(format_name),
            ),
            Event::NoFrameReady => if self.state == SessionState::Flushing {
                SessionModel { state: SessionState::Finalized, pending: Action::Stop, ..self }
            } else {
                SessionModel { pending: Action::ReadPacket, ..self }
            },
            _ => self,
        }
    }

    /// The transition function. A terminal session absorbs every event; a hard
    /// failure fails any other session; otherwise the pending action decides
    /// which events count.
    pub open spec fn step(self, event: Event) -> SessionModel {
        if self.is_terminal() {
            self
        } else if event is CodecError {
            self.fail(TranscodeError::Decode(event->diagnostic))
        } else {
            match self.pending {
                Action::SelectStream => self.on_selection(event),
                Action::ReadPacket => self.on_packet(event),
                Action::SubmitPacket | Action::ReceiveFrame | Action::SignalEndOfStream =>
                    self.on_decoder_output(event),
                Action::Stop => self,
            }
        }
    }

    /// The session after a sequence of events, in order.
    pub open spec fn run(self, events: Seq<Event>) -> SessionModel
        decreases events.len(),
    {
        if events.len() == 0 {
            self
        } else {
            self.run(events.drop_last()).step(events.last())
        }
    }

    /// What holds of every session: state, pending action, sink and error go together.
    pub open spec fn well_formed(self) -> bool {
        &&& self.sink.well_formed()
        &&& self.error is Some <==> self.state == SessionState::Failed
        &&& match self.state {
            SessionState::Uninitialized => {
                &&& self.pending == Action::SelectStream
                &&& self.sink == SinkModel::empty()
                &&& self.format is None
            },
            SessionState::StreamSelected => {
                &&& self.pending == Action::ReadPacket
                &&& self.sink.tagged
                &&& self.sink.samples.len() == 0
                &&& self.format is None
            },
            SessionState::Decoding => {
                &&& (self.pending == Action::ReadPacket || self.pending == Action::SubmitPacket
                    || self.pending == Action::ReceiveFrame)
                &&& self.sink.tagged
            },
            SessionState::Flushing => {
                &&& (self.pending == Action::SignalEndOfStream || self.pending
                    == Action::ReceiveFrame)
                &&& self.sink.tagged
            },
            SessionState::Finalized => self.pending == Action::Stop && self.sink.tagged,
            SessionState::Failed => self.pending == Action::Stop && self.sink == SinkModel::empty(),
        }
    }

    /// Whether an event is an answer to the pending action.
    pub open spec fn answers(self, event: Event) -> bool {
        match self.pending {
            Action::SelectStream => event is StreamSelected || event is NoAudioStream
                || event is UnsupportedCodec || event is CodecError,
            Action::ReadPacket => event is Packet || event is EndOfPackets || event is CodecError,
            Action::SubmitPacket | Action::ReceiveFrame | Action::SignalEndOfStream =>
                event is Frame || event is UnsupportedFrame || event is NoFrameReady
                    || event is CodecError,
            Action::Stop => false,
        }
    }

    /// Whether every event of the sequence answers the action that was pending
    /// when it came.
    pub open spec fn in_turn(self, events: Seq<Event>) -> bool
        decreases events.len(),
    {
        events.len() == 0 || (self.in_turn(events.drop_last()) && self.run(
            events.drop_last(),
        ).answers(events.last()))
    }

    /// What `finish` may return for this session: a failed session yields its
    /// error and never any bytes; a finalized one yields the container of
    /// everything it gathered; a session that has not ended yields a `Decode`
    /// error.
    pub open spec fn finish_allows(self, r: Result<Vec<u8>, TranscodeError>) -> bool {
        match self.state {
            SessionState::Failed => r == Err::<Vec<u8>, TranscodeError>(self.error->0),
            SessionState::Finalized => r matches Ok(bytes) && bytes@ == wav_image(
                self.sink.channels,
                self.sink.sample_rate,
                self.sink.samples,
            ),
            _ => r matches Err(TranscodeError::Decode(diagnostic)) && diagnostic@
                == "the session has not ended"@,
        }
    }

    /// The order of the states: a session only ever moves forward in it.
    pub open spec fn progress(self) -> nat {
        match self.state {
            SessionState::Uninitialized => 0,
            SessionState::StreamSelected => 1,
            SessionState::Decoding => 2,
            SessionState::Flushing => 3,
            SessionState::Finalized => 4,
            SessionState::Failed => 5,
        }
    }
}

/// Every step keeps the session's invariant.
pub proof fn lemma_step_keeps_well_formed(session: SessionModel, event: Event)
    requires
        session.well_formed(),
    ensures
        session.step(event).well_formed(),
{
    if !session.is_terminal() && !(event is CodecError) {
        match session.pending {
            Action::SubmitPacket | Action::ReceiveFrame | Action::SignalEndOfStream => {
                if let Event::Frame(frame) = event {
                    if session.frame_is_consistent(frame) && session.sink.has_room(
                        frame.pcm().len(),
                    ) {
                        vstd::arithmetic::div_mod::lemma_add_mod_noop(
                            session.sink.samples.len() as int,
                            frame.pcm().len() as int,
                            session.sink.channels as int,
                        );
                    }
                }
            },
            _ => {},
        }
    }
}

/// No step moves a session back to an earlier state.
pub proof fn lemma_step_moves_forward(session: SessionModel, event: Event)
    requires
        session.well_formed(),
    ensures
        session.step(event).progress() >= session.progress(),
{
}

/// A terminal session stays as it is, whatever is reported to it.
pub proof fn lemma_terminal_absorbs(session: SessionModel, events: Seq<Event>)
    requires
        session.is_terminal(),
    ensures
        session.run(events) == session,
    decreases events.len(),
{
    if events.len() > 0 {
        lemma_terminal_absorbs(session, events.drop_last());
    }
}

/// Running one more event is one more step.
pub proof fn lemma_run_push(session: SessionModel, events: Seq<Event>, event: Event)
    ensures
        session.run(events.push(event)) == session.run(events).step(event),
{
    assert(events.push(event).drop_last() =~= events);
}

/// A container without an audio stream fails the session with `NoAudioStream`
/// at once, and whatever is reported afterwards, the session never decodes.
pub proof fn lemma_no_audio_stream_never_decodes(later: Seq<Event>)
    ensures
        SessionModel::initial().step(Event::NoAudioStream).run(later).state
            == SessionState::Failed,
        SessionModel::initial().step(Event::NoAudioStream).run(later).error == Some(
            TranscodeError::NoAudioStream,
        ),
{
    lemma_terminal_absorbs(SessionModel::initial().step(Event::NoAudioStream), later);
}

/// A frame that the session accepts adds exactly its own canonical samples:
/// `samples * channels` of them, after those already held.
pub proof fn lemma_accepted_frame_extends(session: SessionModel, frame: DecodedFrame)
    requires
        session.frame_is_consistent(frame),
        session.sink.has_room(frame.pcm().len()),
    ensures
        session.accept_frame(frame).sink.samples == session.sink.samples + frame.pcm(),
        session.accept_frame(frame).sink.samples.len() == session.sink.samples.len()
            + frame.samples * frame.channels,
{
}

/// What a session holds changes in two ways only: a frame that arrives in turn
/// and is accepted adds its canonical samples at the end, and a failure drops
/// everything. Every other step leaves the samples as they are.
pub proof fn lemma_samples_change_by_frames_only(session: SessionModel, event: Event)
    ensures
        ({
            let next = session.step(event);
            ||| next.sink.samples == session.sink.samples
            ||| (event matches Event::Frame(frame) && next.sink.samples == session.sink.samples
                + frame.pcm())
            ||| (next.state == SessionState::Failed && next.sink.samples.len() == 0)
        }),
{
}

/// The canonical samples of all the frames in a sequence of events, in order.
pub open spec fn decoded(events: Seq<Event>) -> Seq<i16>
    decreases events.len(),
{
    if events.len() == 0 {
        Seq::empty()
    } else if events.last() is Frame {
        decoded(events.drop_last()) + events.last()->Frame_0.pcm()
    } else {
        decoded(events.drop_last())
    }
}

/// Every run from a well-formed session ends in a well-formed session.
pub proof fn lemma_run_keeps_well_formed(session: SessionModel, events: Seq<Event>)
    requires
        session.well_formed(),
    ensures
        session.run(events).well_formed(),
    decreases events.len(),
{
    if events.len() > 0 {
        lemma_run_keeps_well_formed(session, events.drop_last());
        lemma_step_keeps_well_formed(session.run(events.drop_last()), events.last());
    }
}

/// The output is all the frames and nothing else: when every event came in
/// turn and the session has not failed, it holds exactly the canonical samples
/// of the frames reported to it, in the order in which they came.
pub proof fn lemma_output_is_all_frames(events: Seq<Event>)
    requires
        SessionModel::initial().in_turn(events),
        SessionModel::initial().run(events).state != SessionState::Failed,
    ensures
        SessionModel::initial().run(events).sink.samples == decoded(events),
    decreases events.len(),
{
    let start = SessionModel::initial();
    if events.len() > 0 {
        let before = start.run(events.drop_last());
        let event = events.last();
        let after = before.step(event);
        assert(start.run(events) == after);
        lemma_run_keeps_well_formed(start, events.drop_last());
        assert(before.state != SessionState::Failed);
        assert(before.answers(event));
        lemma_output_is_all_frames(events.drop_last());
        if event is Frame {
            assert(after == before.accept_frame(event->Frame_0));
            assert(after.sink.samples == before.sink.samples + event->Frame_0.pcm());
        } else {
            assert(after.sink.samples == before.sink.samples);
        }
    } else {
        assert(start.sink.samples =~= decoded(events));
    }
}

/// Packets of other streams are skipped silently: such a packet is never
/// submitted to the decoder, and it leaves what the session gathered, its
/// layout and its error as they were. The session asks for the next packet.
pub proof fn lemma_other_streams_are_skipped(session: SessionModel, stream_index: usize)
    requires
        !session.is_terminal(),
        session.pending == Action::ReadPacket,
        stream_index != session.stream_index,
    ensures
        ({
            let next = session.step(Event::Packet { stream_index });
            &&& next.pending == Action::ReadPacket
            &&& next.state == SessionState::Decoding
            &&& next.sink == session.sink
            &&& next.format == session.format
            &&& next.error == session.error
            &&& next.stream_index == session.stream_index
        }),
{
}

/// End of stream is signalled once: while a session flushes, no answer of the
/// decoder makes it ask for the signal again.
pub proof fn lemma_end_of_stream_is_signalled_once(session: SessionModel, event: Event)
    requires
        session.well_formed(),
        session.state == SessionState::Flushing,
        event is Frame || event is UnsupportedFrame || event is NoFrameReady || event is CodecError,
    ensures
        session.step(event).pending != Action::SignalEndOfStream,
{
}

/// One transcode session over one compressed input.
pub struct TranscodeSession {
    state: SessionState,
    pending: Action,
    stream_index: usize,
    format: Option<SampleFormat>,
    sink: PcmSink,
    error: Option<TranscodeError>,
}

impl View for TranscodeSession {
    type V = SessionModel;

    closed spec fn view(&self) -> SessionModel {
        SessionModel {
            state: self.state,
            pending: self.pending,
            stream_index: self.stream_index,
            format: self.format,
            sink: self.sink@,
            error: self.error,
        }
    }
}

impl TranscodeSession {
    #[verifier::type_invariant]
    spec fn inv(self) -> bool {
        self@.well_formed()
    }

    /// A session that has not looked at its input yet. It asks for `SelectStream`.
    pub fn new() -> (session: TranscodeSession)
        ensures
            session@ == SessionModel::initial(),
    {
        TranscodeSession {
            state: SessionState::Uninitialized,
            pending: Action::SelectStream,
            stream_index: 0,
            format: None,
            sink: PcmSink::new(),
            error: None,
        }
    }

    pub fn state(&self) -> (state: SessionState)
        ensures
            state == self@.state,
            self@.well_formed(),
    {
        proof {
            use_type_invariant(self);
        }
        self.state
    }

    /// The action that the session waits for.
    pub fn pending(&self) -> (action: Action)
        ensures
            action == self@.pending,
    {
        self.pending
    }

    /// The layout fixed by the first frame, if a frame has arrived.
    pub fn format(&self) -> (format: Option<SampleFormat>)
        ensures
            format == self@.format,
    {
        self.format
    }

    /// Why the session failed, if it did.
    pub fn error(&self) -> (error: &Option<TranscodeError>)
        ensures
            *error == self@.error,
    {
        &self.error
    }

    /// The channel count of the selected stream; zero while none is selected, and
    /// after a failure.
    pub fn channels(&self) -> (channels: u16)
        ensures
            channels == self@.sink.channels,
    {
        self.sink.channels()
    }

    /// The sample rate of the selected stream; zero while none is selected, and
    /// after a failure.
    pub fn sample_rate(&self) -> (sample_rate: u32)
        ensures
            sample_rate == self@.sink.sample_rate,
    {
        self.sink.sample_rate()
    }

    /// The number of canonical samples gathered so far.
    pub fn sample_count(&self) -> (n: usize)
        ensures
            n == self@.sink.samples.len(),
    {
        self.sink.len()
    }

    fn failed(stream_index: usize, format: Option<SampleFormat>, error: TranscodeError) -> (next:
        (TranscodeSession, Action))
        ensures
            next.0@ == (SessionModel {
                state: SessionState::Failed,
                pending: Action::Stop,
                stream_index,
                format,
                sink: SinkModel::empty(),
                error: Some(error),
            }),
            next.1 == Action::Stop,
    {
        (
            TranscodeSession {
                state: SessionState::Failed,
                pending: Action::Stop,
                stream_index,
                format,
                sink: PcmSink::new(),
                error: Some(error),
            },
            Action::Stop,
        )
    }

    /// Takes one event and answers with the next action.
    pub fn step(self, event: &Event) -> (next: (TranscodeSession, Action))
        ensures
            next.0@ == self@.step(*event),
            next.1 == next.0@.pending,
    {
        proof {
            use_type_invariant(&self);
            lemma_step_keeps_well_formed(self@, *event);
        }
        let TranscodeSession { state, pending, stream_index, format, sink, error } = self;
        if state == SessionState::Finalized || state == SessionState::Failed {
            return (TranscodeSession { state, pending, stream_index, format, sink, error }, pending);
        }
        if let Event::CodecError { diagnostic } = event {
            return Self::failed(stream_index, format, TranscodeError::Decode(diagnostic.clone()));
        }
        match pending {
            Action::SelectStream => match event {
                Event::StreamSelected { index, channels, sample_rate } => {
                    let mut sink = sink;
                    match sink.tag(*channels, *sample_rate) {
                        Ok(()) => (
                            TranscodeSession {
                                state: SessionState::StreamSelected,
                                pending: Action::ReadPacket,
                                stream_index: *index,
                                format,
                                sink,
                                error,
                            },
                            Action::ReadPacket,
                        ),
                        Err(refusal) => Self::failed(stream_index, format, refusal),
                    }
                },
                Event::NoAudioStream => Self::failed(
                    stream_index,
                    format,
                    TranscodeError::NoAudioStream,
                ),
                Event::UnsupportedCodec => Self::failed(
                    stream_index,
                    format,
                    TranscodeError::UnsupportedCodec,
                ),
                _ => (TranscodeSession { state, pending, stream_index, format, sink, error }, pending),
            },
            Action::ReadPacket => match event {
                Event::Packet { stream_index: origin } => {
                    let action = if *origin == stream_index {
                        Action::SubmitPacket
                    } else {
                        Action::ReadPacket
                    };
                    (
                        TranscodeSession {
                            state: SessionState::Decoding,
                            pending: action,
                            stream_index,
                            format,
                            sink,
                            error,
                        },
                        action,
                    )
                },
                Event::EndOfPackets => (
                    TranscodeSession {
                        state: SessionState::Flushing,
                        pending: Action::SignalEndOfStream,
                        stream_index,
                        format,
                        sink,
                        error,
                    },
                    Action::SignalEndOfStream,
                ),
                _ => (TranscodeSession { state, pending, stream_index, format, sink, error }, pending),
            },
            Action::SubmitPacket | Action::ReceiveFrame | Action::SignalEndOfStream => match event {
                Event::Frame(frame) => {
                    let agrees = frame.is_well_formed() && frame.channels == sink.channels()
                        && frame.sample_rate == sink.sample_rate() && match format {
                        Some(fixed) => fixed == frame.format(),
                        None => true,
                    };
                    if !agrees {
                        return Self::failed(stream_index, format, TranscodeError::InconsistentStream);
                    }
                    let mut pcm: Vec<i16> = Vec::new();
                    frame.write_samples(&mut pcm);
                    assert(pcm@ =~= frame.pcm());
                    let mut sink = sink;
                    match sink.append(pcm.as_slice()) {
                        Ok(()) => (
                            TranscodeSession {
                                state,
                                pending: Action::ReceiveFrame,
                                stream_index,
                                format: Some(frame.format()),
                                sink,
                                error,
                            },
                            Action::ReceiveFrame,
                        ),
                        Err(refusal) => Self::failed(stream_index, format, refusal),
                    }
                },
                Event::UnsupportedFrame { format_name } => Self::failed(
                    stream_index,
                    format,
                    TranscodeError::UnsupportedFormat(format_name.clone()),
                ),
                Event::NoFrameReady => {
                    if state == SessionState::Flushing {
                        (
                            TranscodeSession {
                                state: SessionState::Finalized,
                                pending: Action::Stop,
                                stream_index,
                                format,
                                sink,
                                error,
                            },
                            Action::Stop,
                        )
                    } else {
                        (
                            TranscodeSession {
                                state,
                                pending: Action::ReadPacket,
                                stream_index,
                                format,
                                sink,
                                error,
                            },
                            Action::ReadPacket,
                        )
                    }
                },
                _ => (TranscodeSession { state, pending, stream_index, format, sink, error }, pending),
            },
            Action::Stop => (
                TranscodeSession { state, pending, stream_index, format, sink, error },
                pending,
            ),
        }
    }

    /// Ends the session and hands out its result; see `finish_allows`.
    pub fn finish(self) -> (r: Result<Vec<u8>, TranscodeError>)
        ensures
            self@.finish_allows(r),
    {
        proof {
            use_type_invariant(&self);
        }
        let TranscodeSession { state, pending, stream_index, format, sink, error } = self;
        match state {
            SessionState::Failed => match error {
                Some(e) => Err(e),
                None => Err(TranscodeError::Container),
            },
            SessionState::Finalized => sink.finalize(),
            _ => Err(TranscodeError::Decode(String::from_str("the session has not ended"))),
        }
    }
}

} // verus!
