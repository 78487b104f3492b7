//! The voice-activity detector of the `webrtc-vad` crate, as the library sees it.

use vstd::prelude::*;

verus! {

/// The detector itself. Its state is hidden: the library only carries it
/// from frame to frame.
#[verifier::external_type_specification]
#[verifier::external_body]
pub struct ExVad(webrtc_vad::Vad);

/// The sample rates the detector accepts, in Hz.
pub open spec fn supported_rate(sample_rate: u32) -> bool {
    sample_rate == 8000 || sample_rate == 16000 || sample_rate == 32000 || sample_rate == 48000
}

/// `webrtc_vad::Vad::new`: a detector for audio at `sample_rate` Hz.
///
/// The call makes a detector and sets its sample rate, which succeeds for
/// exactly 8000, 16000, 32000 and 48000 (a rate beyond `i32::MAX` wraps to a
/// negative number and is refused): a detector comes back exactly for those
/// four rates.
#[verifier::external_body]
pub(crate) fn detector_for_rate(sample_rate: u32) -> (detector: Option<webrtc_vad::Vad>)
    ensures
        detector.is_some() <==> supported_rate(sample_rate),
{
    webrtc_vad::Vad::new(sample_rate as i32).ok()
}

/// `webrtc_vad::Vad::is_voice_segment` on one frame.
///
/// The answer depends on what the detector heard before, so nothing is
/// claimed of it. The call reads the first sample of the frame, hence the
/// frame may not be empty.
#[verifier::external_body]
pub(crate) fn classify_frame(detector: &mut webrtc_vad::Vad, frame: &[i16]) -> (answer: Result<
    bool,
    (),
>)
    requires
        frame@.len() > 0,
{
    detector.is_voice_segment(frame)
}

} // verus!
