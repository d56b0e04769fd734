//! Decoding the embedded alert tones from MP3 to raw PCM.  The MP3 decoder
//! itself is an outside collaborator; the core only drives it frame by
//! frame and concatenates the decoded samples.

use vstd::prelude::*;

verus! {

#[verifier::external_type_specification]
#[verifier::external_body]
#[verifier::reject_recursive_types(R)]
pub struct ExDecoder<R>(minimp3::Decoder<R>);

/// Relies on minimp3::Decoder::new: wraps the reader into a fresh decoder.
#[verifier::external_body]
fn decoder_from_bytes<'a>(bytes: &'a [u8]) -> minimp3::Decoder<&'a [u8]> {
    minimp3::Decoder::new(bytes)
}

/// Relies on minimp3::Decoder::next_frame: yields the interleaved samples
/// of the next MP3 frame, or nothing once the reader is exhausted or the
/// decoder fails.  What comes back depends on the decoder's internal state,
/// so nothing more is promised of it.
#[verifier::external_body]
fn decoder_next_frame<'a>(decoder: &mut minimp3::Decoder<&'a [u8]>) -> (r: Option<Vec<i16>>) {
    match decoder.next_frame() {
        Ok(frame) => Some(frame.data),
        Err(_) => None,
    }
}

/// Decode an MP3 blob to raw interleaved PCM samples: the decoded frames,
/// concatenated in the order the decoder yields them.  Decoding stops at
/// the end of the blob or on the first decoder failure; what was decoded so
/// far is returned.  An empty blob decodes to no samples.  Nothing more is
/// promised: each frame comes from the decoder's hidden state, of which the
/// trusted surface can name nothing.
pub fn decode_bytes(bytes: &[u8]) -> (r: Vec<i16>)
    ensures
        bytes@.len() == 0 ==> r@.len() == 0,
{
    let mut decoder = decoder_from_bytes(bytes);
    let mut samples: Vec<i16> = Vec::new();
    // Every MP3 frame consumes at least one input byte, so the input length
    // bounds the number of frames; the bound only serves termination.
    let mut remaining_frames = bytes.len();
    while remaining_frames > 0
        invariant
            bytes@.len() == 0 ==> samples@.len() == 0,
            remaining_frames <= bytes@.len(),
        decreases remaining_frames,
    {
        match decoder_next_frame(&mut decoder) {
            Some(mut frame) => {
                samples.append(&mut frame);
            },
            None => {
                break ;
            },
        }
        remaining_frames = remaining_frames - 1;
    }
    samples
}

} // verus!
