//! The binary ZAP frame: four magic bytes `ZAP\x01`, one message-type
//! byte, then the JSON payload as UTF-8.
use vstd::prelude::*;

verus! {

/// The magic bytes that open every binary frame: "ZAP" and version 1.
pub open spec fn magic() -> Seq<u8> {
    seq![0x5Au8, 0x41u8, 0x50u8, 0x01u8]
}

/// Length of the frame header: the magic and the type byte.
pub open spec fn header_len() -> nat {
    5
}

/// The frame of a message of type `msg_type` with the given payload bytes.
pub open spec fn frame(msg_type: u8, payload: Seq<u8>) -> Seq<u8> {
    magic() + seq![msg_type] + payload
}

/// Why bytes are not a ZAP frame.
#[derive(Clone, Copy, Debug, PartialEq, Eq, Structural)]
pub enum FrameError {
    /// Fewer bytes than the header.
    TooShort,
    /// The first four bytes are not the magic.
    BadMagic,
}

/// What a frame holds: its type byte and its payload, or why it is none.
pub open spec fn unframe_spec(bytes: Seq<u8>) -> Result<(u8, Seq<u8>), FrameError> {
    if bytes.len() < header_len() {
        Err(FrameError::TooShort)
    } else if bytes.take(4) != magic() {
        Err(FrameError::BadMagic)
    } else {
        Ok((bytes[4], bytes.skip(5)))
    }
}

/// Appends `src` to `dst`.
fn append_bytes(dst: &mut Vec<u8>, src: &[u8])
    ensures
        final(dst)@ == old(dst)@ + src@,
{
    let ghost start = dst@;
    let mut i: usize = 0;
    while i < src.len()
        invariant
            i <= src@.len(),
            dst@ == start + src@.take(i as int),
        decreases src@.len() - i,
    {
        dst.push(src[i]);
        assert(src@.take(i as int + 1) =~= src@.take(i as int).push(src@[i as int]));
        i = i + 1;
    }
    assert(src@.take(src@.len() as int) =~= src@);
}

/// Builds the frame of a message: magic, type byte, payload.
pub fn frame_bytes(msg_type: u8, payload: &[u8]) -> (out: Vec<u8>)
    ensures
        out@ == frame(msg_type, payload@),
{
    let mut out: Vec<u8> = Vec::new();
    out.push(0x5A);
    out.push(0x41);
    out.push(0x50);
    out.push(0x01);
    out.push(msg_type);
    append_bytes(&mut out, payload);
    assert(out@ =~= frame(msg_type, payload@));
    out
}

/// Splits a frame into its type byte and payload. The length is checked
/// before the magic: four correct magic bytes alone are too short.
pub fn unframe(bytes: &[u8]) -> (r: Result<(u8, Vec<u8>), FrameError>)
    ensures
        match r {
            Ok((t, p)) => unframe_spec(bytes@) == Ok::<(u8, Seq<u8>), FrameError>((t, p@)),
            Err(e) => unframe_spec(bytes@) == Err::<(u8, Seq<u8>), FrameError>(e),
        },
{
    if bytes.len() < 5 {
        return Err(FrameError::TooShort);
    }
    if bytes[0] != 0x5A || bytes[1] != 0x41 || bytes[2] != 0x50 || bytes[3] != 0x01 {
        proof {
            if bytes@.take(4) == magic() {
                assert(bytes@[0] == bytes@.take(4)[0]);
                assert(bytes@[1] == bytes@.take(4)[1]);
                assert(bytes@[2] == bytes@.take(4)[2]);
                assert(bytes@[3] == bytes@.take(4)[3]);
            }
        }
        return Err(FrameError::BadMagic);
    }
    assert(bytes@.take(4) =~= magic());
    let mut payload: Vec<u8> = Vec::new();
    let mut i: usize = 5;
    while i < bytes.len()
        invariant
            5 <= i <= bytes@.len(),
            payload@ == bytes@.subrange(5, i as int),
        decreases bytes@.len() - i,
    {
        payload.push(bytes[i]);
        assert(bytes@.subrange(5, i as int + 1) =~= bytes@.subrange(5, i as int).push(bytes@[i as int]));
        i = i + 1;
    }
    assert(payload@ =~= bytes@.skip(5));
    Ok((bytes[4], payload))
}

/// Unframing a frame gives back its type byte and payload.
pub proof fn lemma_unframe_frame(msg_type: u8, payload: Seq<u8>)
    ensures
        unframe_spec(frame(msg_type, payload)) == Ok::<(u8, Seq<u8>), FrameError>((msg_type, payload)),
{
    let f = frame(msg_type, payload);
    assert(f.take(4) =~= magic());
    assert(f[4] == msg_type);
    assert(f.skip(5) =~= payload);
}

/// Bytes that unframe are exactly the frame of what they unframe to.
pub proof fn lemma_frame_unframe(bytes: Seq<u8>)
    ensures
        unframe_spec(bytes) matches Ok((t, p)) ==> frame(t, p) == bytes,
{
    if let Ok((t, p)) = unframe_spec(bytes) {
        assert(bytes =~= bytes.take(4) + seq![bytes[4]] + bytes.skip(5));
        assert(frame(t, p) =~= bytes);
    }
}

} // verus!
