//! Whole conversions: a recorded run of the demultiplexer and decoder, turned
//! into a container in one call.

use vstd::prelude::*;
use crate::audio::session::{
    decoded, lemma_output_is_all_frames, lemma_run_push, Event, SessionModel, SessionState,
    TranscodeSession,
};
use crate::audio::wav::wav_image;
use crate::error::TranscodeError;

verus! {

/// A conversion that ends in order succeeds and holds every frame and nothing
/// else: when each event came in turn and the session reached `Finalized`, the
/// result is the container of the frames' canonical samples, in the order of
/// the frames, under the stream's channel count and sample rate.
pub proof fn lemma_transcode_holds_all_frames(
    events: Seq<Event>,
    r: Result<Vec<u8>, TranscodeError>,
)
    requires
        SessionModel::initial().in_turn(events),
        SessionModel::initial().run(events).state == SessionState::Finalized,
        SessionModel::initial().run(events).finish_allows(r),
    ensures
        r matches Ok(bytes) && bytes@ == wav_image(
            SessionModel::initial().run(events).sink.channels,
            SessionModel::initial().run(events).sink.sample_rate,
            decoded(events),
        ),
{
    lemma_output_is_all_frames(events);
}

/// Converts browser-recorded audio to WAVE.
pub struct AudioConverter;

impl AudioConverter {
    /// Runs a session over `events`, in order, and finishes it.
    ///
    /// The result is that of `TranscodeSession::finish` on the session that
    /// the events lead to: the container if they end in `Finalized`, the
    /// session's error if they fail it, a `Decode` error if they stop short.
    pub fn transcode(events: &[Event]) -> (r: Result<Vec<u8>, TranscodeError>)
        ensures
            SessionModel::initial().run(events@).finish_allows(r),
    {
        let mut session = TranscodeSession::new();
        let mut i: usize = 0;
        while i < events.len()
            invariant
                i <= events@.len(),
                session@ == SessionModel::initial().run(events@.take(i as int)),
            decreases events@.len() - i,
        {
            let (next, _) = session.step(&events[i]);
            proof {
                lemma_run_push(SessionModel::initial(), events@.take(i as int), events@[i as int]);
                assert(events@.take(i + 1) == events@.take(i as int).push(events@[i as int]));
            }
            session = next;
            i += 1;
        }
        proof {
            assert(events@.take(events@.len() as int) == events@);
        }
        session.finish()
    }
}

} // verus!
