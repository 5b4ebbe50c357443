//! Framing of the streamed translation response.
use vstd::prelude::*;

verus! {

/// The four bytes of `v`, most significant first.
pub open spec fn be_bytes(v: u32) -> Seq<u8> {
    seq![(v / 0x100_0000) as u8, ((v / 0x1_0000) % 0x100) as u8, ((v / 0x100) % 0x100) as u8, (v % 0x100) as u8]
}

/// One frame of the streamed translation response: a type byte, the payload's length as a
/// big-endian `u32` (the length cut to 32 bits), then the payload.
pub fn build_message(message_type: u8, data: &[u8]) -> (r: Vec<u8>)
    ensures
        r@ == seq![message_type] + be_bytes(data@.len() as u32) + data@,
{
    let size = data.len() as u32;
    let mut message: Vec<u8> = Vec::new();
    message.push(message_type);
    message.push((size / 0x100_0000) as u8);
    message.push(((size / 0x1_0000) % 0x100) as u8);
    message.push(((size / 0x100) % 0x100) as u8);
    message.push((size % 0x100) as u8);
    let ghost head = message@;
    let mut i: usize = 0;
    while i < data.len()
        invariant
            i <= data@.len(),
            head == seq![message_type] + be_bytes(size),
            message@ == head + data@.subrange(0, i as int),
        decreases data@.len() - i,
    {
        message.push(data[i]);
        i = i + 1;
        assert(message@ =~= head + data@.subrange(0, i as int));
    }
    assert(data@.subrange(0, data@.len() as int) =~= data@);
    message
}

} // verus!
