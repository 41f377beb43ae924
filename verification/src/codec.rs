use vstd::prelude::*;

use crate::acks::SeqNum;
use crate::broadcasts::Broadcast;

verus! {

/// A gossip message, with the broadcasts piggybacked on it.
#[derive(Clone, Debug, PartialEq, Eq)]
pub enum Msg {
    Ping(SeqNum, Vec<Broadcast>),
    Ack(SeqNum, Vec<Broadcast>),
    PingReq(SeqNum, Vec<Broadcast>),
    NAck(SeqNum, Vec<Broadcast>),
}

/// The encoded message that a received buffer holds: none in an empty
/// buffer, otherwise the whole buffer.
pub open spec fn frame_of(buf: Seq<u8>) -> Option<Seq<u8>> {
    if buf.len() == 0 {
        None
    } else {
        Some(buf)
    }
}

/// A message encoded into a fresh buffer is decoded from it as it was:
/// every non-empty encoding comes back whole.
pub proof fn law_frame_round_trip(data: Seq<u8>)
    requires
        data.len() > 0,
    ensures
        frame_of(Seq::<u8>::empty() + data) == Some(data),
{
    assert(Seq::<u8>::empty() + data =~= data);
}

/// Frames gossip messages in datagrams: one message per datagram.
#[derive(Clone, Copy, Debug)]
pub struct MsgCodec;

impl MsgCodec {
    /// The encoded message that a received buffer holds: none in an empty
    /// buffer, otherwise the whole buffer.
    pub fn decode(&mut self, buf: &[u8]) -> (frame: Option<Vec<u8>>)
        ensures
            frame is None <==> frame_of(buf@) is None,
            frame matches Some(f) ==> frame_of(buf@) == Some(f@),
    {
        if buf.len() != 0 {
            let mut frame: Vec<u8> = Vec::new();
            let mut i: usize = 0;
            while i < buf.len()
                invariant
                    i <= buf@.len(),
                    frame@ == buf@.take(i as int),
                decreases buf@.len() - i,
            {
                frame.push(buf[i]);
                assert(buf@.take(i + 1) == buf@.take(i as int).push(buf@[i as int]));
                i = i + 1;
            }
            assert(buf@.take(buf@.len() as int) == buf@);
            Some(frame)
        } else {
            None
        }
    }

    /// Appends an encoded message to the outgoing buffer.
    pub fn encode(&mut self, data: &[u8], buf: &mut Vec<u8>)
        ensures
            final(buf)@ == old(buf)@ + data@,
    {
        let mut i: usize = 0;
        while i < data.len()
            invariant
                i <= data@.len(),
                buf@ == old(buf)@ + data@.take(i as int),
            decreases data@.len() - i,
        {
            buf.push(data[i]);
            assert(data@.take(i + 1) == data@.take(i as int).push(data@[i as int]));
            i = i + 1;
        }
        assert(data@.take(data@.len() as int) == data@);
    }
}

} // verus!
