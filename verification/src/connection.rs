use vstd::prelude::*;
use crate::dataframe::{
    spec_decode_err, spec_frame_valid, spec_opcode, spec_payload, utf8_lossy_of, DataframeBuilder,
};
use crate::message::Message;
use crate::{WsGonzaleError, WsGonzaleResult};

verus! {

/// What the reader does after peeking at the head of the stream: treat a
/// zero-byte peek as an aborted transport, a close first byte as an orderly
/// close, anything else as a frame to read.
pub enum PeekDecision {
    Aborted,
    Close,
    ReadFrame,
}

/// Classifies the head of the stream from a peek: `peeked` is how many
/// bytes the transport returned into `buffer`.
pub fn classify_peek(peeked: usize, buffer: &Vec<u8>) -> (r: PeekDecision)
    ensures
        peeked == 0 ==> r is Aborted,
        peeked != 0 && buffer@.len() > 0 && buffer@[0] == 136 ==> r is Close,
        peeked != 0 && !(buffer@.len() > 0 && buffer@[0] == 136) ==> r is ReadFrame,
{
    if peeked == 0 {
        PeekDecision::Aborted
    } else if buffer.len() > 0 && buffer[0] == 136 {
        PeekDecision::Close
    } else {
        PeekDecision::ReadFrame
    }
}

/// Decodes one complete frame and maps it to its message. Fails exactly as
/// the decoder does: a close frame as `ConnectionClosed`, anything
/// malformed as `InvalidPayload`.
pub fn message_from_frame(buffer: Vec<u8>) -> (r: WsGonzaleResult<Message>)
    ensures
        r is Ok <==> spec_frame_valid(buffer@),
        r matches Err(e) ==> e == spec_decode_err(buffer@),
        r matches Ok(m) ==> (if spec_opcode(buffer@) == 1 {
            m matches Message::Text(s) && s@ == utf8_lossy_of(spec_payload(buffer@))
        } else if spec_opcode(buffer@) == 2 {
            m matches Message::Binary(p) && p@ == spec_payload(buffer@)
        } else {
            m is Unknown
        }),
{
    let dataframe = match DataframeBuilder::new(buffer) {
        Ok(df) => df,
        Err(e) => {
            return Err(e);
        },
    };
    let message = match dataframe.get_message() {
        Ok(m) => m,
        Err(_) => Message::Unknown,
    };
    Ok(message)
}

} // verus!
