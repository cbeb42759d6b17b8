//! The ZAP message codec: a message is either a binary frame or, in text
//! mode, the JSON envelope `{"t":<type>,"d":<payload>}`.
use crate::codes::MessageType;
use crate::json::{
    json_accepts, json_error_text, json_member_of, json_member_value, json_u64_member,
    json_u64_member_of, json_value, one_member, parse_json, two_members, utf8_error_text,
    utf8_string,
};
use crate::text::{member, object, decimal, ObjectWriter};
use crate::wire::{frame, frame_bytes, unframe, unframe_spec, FrameError, lemma_unframe_frame};
use vstd::prelude::*;
use vstd::string::StringExecFns;
use vstd::utf8::{decode_utf8, encode_utf8, valid_utf8};

verus! {

broadcast use vstd::utf8::encode_utf8_valid_utf8, vstd::utf8::encode_utf8_decode_utf8;

/// A message as it travels over the socket.
#[derive(Clone, Debug)]
pub enum WireMessage {
    /// A text message: the JSON envelope.
    Text(String),
    /// A binary message: a ZAP frame.
    Binary(Vec<u8>),
}

/// Why an incoming message could not be decoded.
#[derive(Clone, Debug)]
pub enum DecodeError {
    /// A binary message shorter than the frame header.
    TooShort,
    /// A binary message that does not start with the magic bytes.
    BadMagic,
    /// A frame whose payload is not UTF-8, with the decoder's message.
    InvalidUtf8(String),
    /// A payload or envelope that is not JSON, with the parser's message.
    InvalidJson(String),
}

impl DecodeError {
    /// The text reported for this error.
    pub fn message(&self) -> (m: String)
        ensures
            self is TooShort ==> m@ == "Message too short"@,
            self is BadMagic ==> m@ == "Invalid ZAP magic"@,
            self matches DecodeError::InvalidUtf8(s) ==> m@ == s@,
            self matches DecodeError::InvalidJson(s) ==> m@ == s@,
    {
        match self {
            DecodeError::TooShort => String::from_str("Message too short"),
            DecodeError::BadMagic => String::from_str("Invalid ZAP magic"),
            DecodeError::InvalidUtf8(s) => s.clone(),
            DecodeError::InvalidJson(s) => s.clone(),
        }
    }
}

/// A decoded message: its type code, when the message carries one, and its
/// parsed JSON payload, when it carries one.
#[derive(Clone, Debug)]
pub struct Decoded {
    pub msg_type: Option<u8>,
    pub payload: Option<serde_json::Value>,
}

/// The text of an optional JSON text: the payload of an outgoing message,
/// or the parameters of a request.
pub open spec fn payload_view(payload: Option<&str>) -> Option<Seq<char>> {
    match payload {
        Some(p) => Some(p@),
        None => None,
    }
}

/// The text envelope of a message: its type under `t` and, when there is a
/// payload, the payload under `d`.
pub open spec fn envelope(msg_type: u8, payload: Option<Seq<char>>) -> Seq<char> {
    match payload {
        Some(p) => object(seq![member("t"@, decimal(msg_type as nat)), member("d"@, p)]),
        None => object(seq![member("t"@, decimal(msg_type as nat))]),
    }
}

/// The payload bytes of a binary frame: the UTF-8 of the payload text, or
/// nothing when there is no payload.
pub open spec fn payload_bytes(payload: Option<Seq<char>>) -> Seq<u8> {
    match payload {
        Some(p) => encode_utf8(p),
        None => Seq::empty(),
    }
}

/// `w` is the encoding of a message of type `msg_type` with the given
/// payload text: its frame in binary mode, its envelope in text mode.
pub open spec fn encoded_as(
    w: WireMessage,
    binary: bool,
    msg_type: u8,
    payload: Option<Seq<char>>,
) -> bool {
    match w {
        WireMessage::Binary(b) => binary && b@ == frame(msg_type, payload_bytes(payload)),
        WireMessage::Text(s) => !binary && s@ == envelope(msg_type, payload),
    }
}

/// What decoding a binary message comes to.
pub enum BinaryVerdict {
    TooShort,
    BadMagic,
    /// The payload is not UTF-8; the decoder's message.
    BadUtf8(Seq<char>),
    /// The payload is not JSON; the parser's message.
    BadJson(Seq<char>),
    /// A well-formed message: its type byte and its JSON payload text.
    Message(u8, Seq<char>),
}

/// The verdict on a binary message: the frame checks, then UTF-8, then JSON.
pub open spec fn binary_verdict(bytes: Seq<u8>) -> BinaryVerdict {
    match unframe_spec(bytes) {
        Err(FrameError::TooShort) => BinaryVerdict::TooShort,
        Err(FrameError::BadMagic) => BinaryVerdict::BadMagic,
        Ok((t, p)) => if !valid_utf8(p) {
            BinaryVerdict::BadUtf8(utf8_error_text(p))
        } else if !json_accepts(decode_utf8(p)) {
            BinaryVerdict::BadJson(json_error_text(decode_utf8(p)))
        } else {
            BinaryVerdict::Message(t, decode_utf8(p))
        },
    }
}

/// A decode result agrees with a verdict on a binary message.
pub open spec fn matches_verdict(r: Result<Decoded, DecodeError>, v: BinaryVerdict) -> bool {
    match v {
        BinaryVerdict::TooShort => r matches Err(DecodeError::TooShort),
        BinaryVerdict::BadMagic => r matches Err(DecodeError::BadMagic),
        BinaryVerdict::BadUtf8(m) => r matches Err(DecodeError::InvalidUtf8(e)) && e@ == m,
        BinaryVerdict::BadJson(m) => r matches Err(DecodeError::InvalidJson(e)) && e@ == m,
        BinaryVerdict::Message(t, text) => r matches Ok(d) && d.msg_type == Some(t)
            && d.payload == json_value(text) && d.payload is Some,
    }
}

/// The type code read from a text envelope's `t` member: the low byte of
/// the number, when `t` is a non-negative integer.
fn envelope_type(t: Option<u64>) -> (r: Option<u8>)
    ensures
        r == match t {
            Some(n) => Some((n % 256) as u8),
            None => None::<u8>,
        },
{
    match t {
        Some(n) => Some((n % 256) as u8),
        None => None,
    }
}

/// Decodes a binary frame: checks its length and magic, decodes its payload
/// as UTF-8 and parses it as JSON.
pub fn decode_binary(bytes: &[u8]) -> (r: Result<Decoded, DecodeError>)
    ensures
        matches_verdict(r, binary_verdict(bytes@)),
{
    let (msg_type, payload) = match unframe(bytes) {
        Ok(parts) => parts,
        Err(FrameError::TooShort) => return Err(DecodeError::TooShort),
        Err(FrameError::BadMagic) => return Err(DecodeError::BadMagic),
    };
    let text = match utf8_string(payload) {
        Ok(s) => s,
        Err(m) => return Err(DecodeError::InvalidUtf8(m)),
    };
    match parse_json(text.as_str()) {
        Ok(v) => Ok(Decoded { msg_type: Some(msg_type), payload: Some(v) }),
        Err(m) => Err(DecodeError::InvalidJson(m)),
    }
}

/// What decoding a text message gives: it succeeds exactly on JSON text;
/// the type is the low byte of the member `t` when that is a non-negative
/// integer, and the payload is the member `d`. In particular, an envelope
/// written by `envelope` decodes to its type and to the payload it holds,
/// whenever that payload is JSON.
pub open spec fn text_decoded(text: Seq<char>, r: Result<Decoded, DecodeError>) -> bool {
    &&& (r is Ok <==> json_accepts(text))
    &&& (r is Err ==> (r matches Err(DecodeError::InvalidJson(m)) && m@ == json_error_text(text)))
    &&& (r matches Ok(x) ==> x.msg_type == match json_u64_member(text, "t"@) {
        Some(n) => Some((n % 256) as u8),
        None => None::<u8>,
    } && x.payload == json_member_value(text, "d"@))
    &&& forall|n: u8, p: Option<Seq<char>>|
        #![trigger envelope(n, p)]
        text == envelope(n, p) && (p matches Some(q) ==> json_accepts(q)) && json_accepts(text)
            ==> (r matches Ok(x) && x.msg_type == Some(n) && x.payload == match p {
            Some(q) => json_value(q),
            None => None::<serde_json::Value>,
        })
}

/// What decoding a message gives: a binary one is read as a frame, a text
/// one as an envelope.
pub open spec fn decoded_as(msg: WireMessage, r: Result<Decoded, DecodeError>) -> bool {
    match msg {
        WireMessage::Binary(b) => matches_verdict(r, binary_verdict(b@)),
        WireMessage::Text(s) => text_decoded(s@, r),
    }
}

/// Decodes a text envelope: parses it as JSON and reads its `t` and `d`
/// members.
pub fn decode_text(text: &str) -> (r: Result<Decoded, DecodeError>)
    ensures
        text_decoded(text@, r),
{
    let t = match json_u64_member_of(text, "t") {
        Ok(t) => t,
        Err(m) => return Err(DecodeError::InvalidJson(m)),
    };
    let d = match json_member_of(text, "d") {
        Ok(d) => d,
        Err(m) => return Err(DecodeError::InvalidJson(m)),
    };
    let r = Ok(Decoded { msg_type: envelope_type(t), payload: d });
    proof {
        reveal_strlit("t");
        reveal_strlit("d");
        assert("t"@ != "d"@) by {
            assert("t"@[0] != "d"@[0]);
        }
        assert forall|n: u8, p: Option<Seq<char>>|
            #![trigger envelope(n, p)]
            text@ == envelope(n, p) && (p matches Some(q) ==> json_accepts(q)) && json_accepts(
                text@,
            ) implies (r matches Ok(x) && x.msg_type == Some(n) && x.payload == match p {
            Some(q) => json_value(q),
            None => None::<serde_json::Value>,
        }) by {
            match p {
                Some(q) => {
                    assert(text@ == two_members("t"@, n as u64, "d"@, q));
                    assert(text@ == two_members("t"@, n as u64, "d"@, q));
                },
                None => {
                    assert(text@ == one_member("t"@, n as u64));
                },
            }
            assert((n as u64) % 256 == n);
        }
    }
    r
}

/// Writes the text envelope of a message.
pub fn envelope_text(msg_type: u8, payload: Option<&str>) -> (s: String)
    ensures
        s@ == envelope(msg_type, payload_view(payload)),
{
    let mut w = ObjectWriter::new();
    w.number("t", msg_type as u64);
    match payload {
        Some(p) => {
            w.raw("d", p);
        },
        None => {},
    }
    let s = w.finish();
    proof {
        match payload {
            Some(p) => {
                assert(seq![member("t"@, decimal(msg_type as nat))].push(member("d"@, p@))
                    =~= seq![member("t"@, decimal(msg_type as nat)), member("d"@, p@)]);
            },
            None => {
                assert(Seq::<Seq<char>>::empty().push(member("t"@, decimal(msg_type as nat)))
                    =~= seq![member("t"@, decimal(msg_type as nat))]);
            },
        }
    }
    s
}

/// Encoder and decoder of ZAP messages, in binary or text mode.
pub struct Protocol {
    binary: bool,
}

impl Protocol {
    /// Whether this codec writes binary frames (else text envelopes).
    pub closed spec fn is_binary(&self) -> bool {
        self.binary
    }

    /// A codec in the given mode; binary when no mode is given.
    pub fn new(binary: Option<bool>) -> (p: Protocol)
        ensures
            p.is_binary() == match binary {
                Some(b) => b,
                None => true,
            },
    {
        Protocol {
            binary: match binary {
                Some(b) => b,
                None => true,
            },
        }
    }

    /// Whether this codec writes binary frames.
    pub fn binary(&self) -> (b: bool)
        ensures
            b == self.is_binary(),
    {
        self.binary
    }

    /// Encodes a message of type `msg_type` whose payload has the given
    /// JSON text (`None` when the payload has no JSON form): a frame in
    /// binary mode, the envelope in text mode.
    pub fn encode(&self, msg_type: u8, payload: Option<&str>) -> (w: WireMessage)
        ensures
            encoded_as(w, self.is_binary(), msg_type, payload_view(payload)),
    {
        if !self.binary {
            return WireMessage::Text(envelope_text(msg_type, payload));
        }
        let empty: Vec<u8> = Vec::new();
        let framed = match payload {
            Some(p) => frame_bytes(msg_type, p.as_bytes()),
            None => frame_bytes(msg_type, empty.as_slice()),
        };
        WireMessage::Binary(framed)
    }

    /// Decodes an incoming message. Text messages are read as envelopes and
    /// binary ones as frames, whatever this codec's mode.
    pub fn decode(&self, msg: &WireMessage) -> (r: Result<Decoded, DecodeError>)
        ensures
            decoded_as(*msg, r),
    {
        match msg {
            WireMessage::Text(s) => decode_text(s.as_str()),
            WireMessage::Binary(b) => decode_binary(b.as_slice()),
        }
    }

    /// Encodes a handshake whose JSON text is given.
    pub fn encode_handshake(&self, handshake: Option<&str>) -> (w: WireMessage)
        ensures
            encoded_as(w, self.is_binary(), MessageType::Handshake.code_of(), payload_view(handshake)),
    {
        self.encode(1, handshake)
    }

    /// Encodes a request whose JSON text is given.
    pub fn encode_request(&self, request: Option<&str>) -> (w: WireMessage)
        ensures
            encoded_as(w, self.is_binary(), MessageType::Request.code_of(), payload_view(request)),
    {
        self.encode(3, request)
    }

    /// Encodes a response whose JSON text is given.
    pub fn encode_response(&self, response: Option<&str>) -> (w: WireMessage)
        ensures
            encoded_as(w, self.is_binary(), MessageType::Response.code_of(), payload_view(response)),
    {
        self.encode(4, response)
    }

    /// Encodes a ping stamped with the given time, written as a JSON number.
    pub fn encode_ping(&self, ts: &str) -> (w: WireMessage)
        ensures
            encoded_as(w, self.is_binary(), MessageType::Ping.code_of(), Some(object(seq![member("ts"@, ts@)]))),
    {
        let body = stamp_text(ts);
        self.encode(6, Some(body.as_str()))
    }

    /// Encodes a pong that echoes the given time, written as a JSON number.
    pub fn encode_pong(&self, ts: &str) -> (w: WireMessage)
        ensures
            encoded_as(w, self.is_binary(), MessageType::Pong.code_of(), Some(object(seq![member("ts"@, ts@)]))),
    {
        let body = stamp_text(ts);
        self.encode(7, Some(body.as_str()))
    }
}

/// The body `{"ts":<ts>}` of a ping or pong.
fn stamp_text(ts: &str) -> (s: String)
    ensures
        s@ == object(seq![member("ts"@, ts@)]),
{
    let mut w = ObjectWriter::new();
    w.raw("ts", ts);
    let s = w.finish();
    assert(Seq::<Seq<char>>::empty().push(member("ts"@, ts@)) =~= seq![member("ts"@, ts@)]);
    s
}

/// Decoding what the binary codec encodes gives back the message type and
/// the payload text, whenever the payload text is JSON.
pub proof fn lemma_binary_round_trip(msg_type: u8, payload: Seq<char>)
    ensures
        binary_verdict(frame(msg_type, encode_utf8(payload))) == if json_accepts(payload) {
            BinaryVerdict::Message(msg_type, payload)
        } else {
            BinaryVerdict::BadJson(json_error_text(payload))
        },
{
    lemma_unframe_frame(msg_type, encode_utf8(payload));
}

/// What one codec encodes, any codec decodes to the same type and payload:
/// a message of type `t` whose payload is the JSON text `p` (or, in text
/// mode, that has no payload) decodes to type `t` and to what `p` parses
/// to. In text mode the whole envelope must parse too, which can fail only
/// by serde_json's nesting limit.
pub proof fn lemma_round_trip(
    w: WireMessage,
    binary: bool,
    t: u8,
    payload: Option<Seq<char>>,
    r: Result<Decoded, DecodeError>,
)
    requires
        encoded_as(w, binary, t, payload),
        decoded_as(w, r),
        binary ==> payload is Some,
        payload matches Some(p) ==> json_accepts(p),
        !binary ==> json_accepts(envelope(t, payload)),
    ensures
        r matches Ok(d) && d.msg_type == Some(t) && d.payload == match payload {
            Some(p) => json_value(p),
            None => None::<serde_json::Value>,
        },
{
    match w {
        WireMessage::Binary(b) => {
            let p = payload->0;
            lemma_binary_round_trip(t, p);
        },
        WireMessage::Text(s) => {
            assert(s@ == envelope(t, payload));
        },
    }
}

} // verus!
