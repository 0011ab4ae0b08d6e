//! The frame codec: one chat message in one fixed-width, zero-padded frame.

use vstd::prelude::*;
use vstd::slice::slice_to_vec;
use vstd::string::StringSliceAdditionalSpecFns;
use vstd::utf8::*;
use crate::message::{
    is_message, lemma_message_until_nul, lemma_until_nul_is_message, until_nul,
};

verus! {

/// The byte that fills a frame behind its message.
pub const PADDING: u8 = 0;

/// Width of a frame in the bare protocol.
pub const BARE_FRAME_SIZE: usize = 32;

/// Width of a frame in the interactive profile.
pub const INTERACTIVE_FRAME_SIZE: usize = 512;

/// The deployment profile, which fixes the width of every frame on the wire.
#[derive(Clone, Copy, Debug, PartialEq, Eq, Structural)]
pub enum Profile {
    /// 32-byte frames.
    Bare,
    /// 512-byte frames.
    Interactive,
}

impl Profile {
    /// The width of a frame under this profile.
    pub open spec fn spec_frame_size(self) -> nat {
        match self {
            Profile::Bare => 32,
            Profile::Interactive => 512,
        }
    }

    /// The width of a frame under this profile.
    pub fn frame_size(self) -> (n: usize)
        ensures
            n == self.spec_frame_size(),
    {
        match self {
            Profile::Bare => BARE_FRAME_SIZE,
            Profile::Interactive => INTERACTIVE_FRAME_SIZE,
        }
    }
}

/// Why the codec turned a message or a frame down.
#[derive(Clone, Copy, Debug, PartialEq, Eq, Structural)]
pub enum CodecError {
    /// The message has more bytes than a frame holds.
    MessageTooLong,
    /// The bytes in front of the frame's terminator are not UTF-8.
    InvalidEncoding,
}

/// The number of bytes of `frame` that stand in front of its first padding
/// byte, or all of them where it holds none.
pub open spec fn payload_len(frame: Seq<u8>) -> nat
    decreases frame.len(),
{
    if frame.len() == 0 || frame[0] == PADDING {
        0
    } else {
        1 + payload_len(frame.drop_first())
    }
}

/// The bytes of `frame` in front of its first padding byte.
pub open spec fn payload(frame: Seq<u8>) -> Seq<u8> {
    frame.subrange(0, payload_len(frame) as int)
}

/// `n` padding bytes.
pub open spec fn padding(n: nat) -> Seq<u8> {
    Seq::new(n, |i: int| PADDING)
}

/// What encoding `text` under `profile` gives: the UTF-8 bytes of the text,
/// padded to the frame's width, unless they are too many.
pub open spec fn spec_encode(profile: Profile, text: Seq<char>) -> Result<Seq<u8>, CodecError> {
    let bytes = encode_utf8(text);
    if bytes.len() > profile.spec_frame_size() {
        Err(CodecError::MessageTooLong)
    } else {
        Ok(bytes + padding((profile.spec_frame_size() - bytes.len()) as nat))
    }
}

/// What decoding `frame` gives: the text that its payload spells in UTF-8,
/// where it spells one.
pub open spec fn spec_decode(frame: Seq<u8>) -> Result<Seq<char>, CodecError> {
    if valid_utf8(payload(frame)) {
        Ok(decode_utf8(payload(frame)))
    } else {
        Err(CodecError::InvalidEncoding)
    }
}

/// A cut at `n` that has no padding byte in front of it and one behind it,
/// or the end of the frame, is where the payload ends.
pub proof fn lemma_payload_ends_at(frame: Seq<u8>, n: int)
    requires
        0 <= n <= frame.len(),
        forall|i: int| 0 <= i < n ==> frame[i] != PADDING,
        n < frame.len() ==> frame[n] == PADDING,
    ensures
        payload_len(frame) == n,
    decreases frame.len(),
{
    if n > 0 {
        let rest = frame.drop_first();
        assert forall|i: int| 0 <= i < n - 1 implies rest[i] != PADDING by {
            assert(rest[i] == frame[i + 1]);
        }
        lemma_payload_ends_at(rest, n - 1);
    }
}

/// No byte in the UTF-8 encoding of a scalar other than NUL is zero.
proof fn lemma_scalar_has_no_padding(scalar: u32)
    requires
        is_scalar(scalar),
        scalar != 0,
    ensures
        forall|i: int|
            0 <= i < encode_scalar(scalar).len() ==> #[trigger] encode_scalar(scalar)[i]
                != PADDING,
{
    assert(scalar <= 0x7F ==> (scalar & 0x7F) as u8 != 0) by (bit_vector)
        requires
            scalar != 0,
    ;
    assert(0xC0u8 | ((scalar >> 6) & 0x1F) as u8 != 0) by (bit_vector);
    assert(0xE0u8 | ((scalar >> 12) & 0x0F) as u8 != 0) by (bit_vector);
    assert(0xF0u8 | ((scalar >> 18) & 0x7) as u8 != 0) by (bit_vector);
    assert(0x80u8 | (scalar & 0x3F) as u8 != 0) by (bit_vector);
    assert(0x80u8 | ((scalar >> 6) & 0x3F) as u8 != 0) by (bit_vector);
    assert(0x80u8 | ((scalar >> 12) & 0x3F) as u8 != 0) by (bit_vector);
}

/// The UTF-8 bytes of a message hold no padding byte.
pub proof fn lemma_message_has_no_padding(text: Seq<char>)
    requires
        is_message(text),
    ensures
        forall|i: int|
            0 <= i < encode_utf8(text).len() ==> #[trigger] encode_utf8(text)[i] != PADDING,
    decreases text.len(),
{
    if text.len() > 0 {
        let head = encode_scalar(text[0] as u32);
        let rest = text.drop_first();
        char_is_scalar(text[0]);
        assert(text[0] as u32 != 0) by {
            if text[0] as u32 == 0 {
                char_u32_cast(text[0], 0);
                char_u32_cast('\0', 0);
            }
        }
        lemma_scalar_has_no_padding(text[0] as u32);
        assert forall|i: int| 0 <= i < rest.len() implies rest[i] != '\0' by {
            assert(rest[i] == text[i + 1]);
        }
        lemma_message_has_no_padding(rest);
        assert forall|i: int| 0 <= i < encode_utf8(text).len() implies #[trigger] encode_utf8(
            text,
        )[i] != PADDING by {
            if i < head.len() {
                assert(encode_utf8(text)[i] == head[i]);
            } else {
                assert(encode_utf8(text)[i] == encode_utf8(rest)[i - head.len()]);
            }
        }
    }
}

/// The payload of a frame holds no padding byte.
pub proof fn lemma_payload_has_no_padding(frame: Seq<u8>)
    ensures
        payload_len(frame) <= frame.len(),
        forall|i: int| 0 <= i < payload_len(frame) ==> frame[i] != PADDING,
        payload_len(frame) < frame.len() ==> frame[payload_len(frame) as int] == PADDING,
    decreases frame.len(),
{
    if frame.len() > 0 && frame[0] != PADDING {
        let rest = frame.drop_first();
        lemma_payload_has_no_padding(rest);
        assert forall|i: int| 0 <= i < payload_len(frame) implies frame[i] != PADDING by {
            if i > 0 {
                assert(frame[i] == rest[i - 1]);
            }
        }
        let end = payload_len(rest) as int;
        assert(end < rest.len() ==> frame[end + 1] == rest[end]);
    }
}

/// The UTF-8 encoding of a text is the encoding of its first part followed
/// by the encoding of the rest.
proof fn lemma_encode_utf8_split(text: Seq<char>, at: int)
    requires
        0 <= at <= text.len(),
    ensures
        encode_utf8(text) == encode_utf8(text.take(at)) + encode_utf8(text.skip(at)),
    decreases at,
{
    if at == 0 {
        assert(text.skip(0) =~= text);
        assert(encode_utf8(text.take(0)) =~= Seq::<u8>::empty());
        assert(Seq::<u8>::empty() + encode_utf8(text) =~= encode_utf8(text));
    } else {
        let rest = text.drop_first();
        lemma_encode_utf8_split(rest, at - 1);
        assert(text.take(at).drop_first() =~= rest.take(at - 1));
        assert(text.skip(at) =~= rest.skip(at - 1));
        assert(text.take(at)[0] == text[0]);
        assert(encode_utf8(text) =~= encode_utf8(text.take(at)) + encode_utf8(text.skip(at)));
    }
}

/// The UTF-8 encoding of a text goes on with a padding byte behind the
/// encoding of what stands in front of its first NUL, unless it ends there.
proof fn lemma_encode_utf8_until_nul(text: Seq<char>)
    ensures
        encode_utf8(until_nul(text)).len() <= encode_utf8(text).len(),
        encode_utf8(text).subrange(0, encode_utf8(until_nul(text)).len() as int) == encode_utf8(
            until_nul(text),
        ),
        encode_utf8(until_nul(text)).len() < encode_utf8(text).len() ==> encode_utf8(
            text,
        )[encode_utf8(until_nul(text)).len() as int] == PADDING,
    decreases text.len(),
{
    let bytes = encode_utf8(text);
    if text.len() == 0 {
        assert(bytes.subrange(0, 0) =~= Seq::<u8>::empty());
    } else if text[0] == '\0' {
        assert(bytes.subrange(0, 0) =~= Seq::<u8>::empty());
        assert(encode_utf8(until_nul(text)) =~= Seq::<u8>::empty());
        assert((0u32 & 0x7F) as u8 == 0) by (bit_vector);
        assert(bytes[0] == encode_scalar(0)[0]);
    } else {
        let head = encode_scalar(text[0] as u32);
        let rest = text.drop_first();
        let front = until_nul(rest);
        lemma_encode_utf8_until_nul(rest);
        assert(until_nul(text).drop_first() =~= front);
        assert(encode_utf8(until_nul(text)) == head + encode_utf8(front));
        let cut = encode_utf8(front).len() as int;
        assert(bytes.subrange(0, head.len() + cut) =~= head + encode_utf8(rest).subrange(0, cut));
        assert(cut < encode_utf8(rest).len() ==> bytes[head.len() + cut] == encode_utf8(rest)[cut]);
    }
}

/// A text that holds a NUL has a padding byte in its UTF-8 encoding.
proof fn lemma_nul_makes_padding(text: Seq<char>, at: int)
    requires
        0 <= at < text.len(),
        text[at] == '\0',
    ensures
        exists|i: int| 0 <= i < encode_utf8(text).len() && encode_utf8(text)[i] == PADDING,
{
    lemma_encode_utf8_split(text, at);
    let front = encode_utf8(text.take(at));
    let back = encode_utf8(text.skip(at));
    assert(text.skip(at)[0] == '\0');
    assert((0u32 & 0x7F) as u8 == 0) by (bit_vector);
    assert(back[0] == encode_scalar(0)[0]);
    assert(encode_utf8(text)[front.len() as int] == back[0]);
}

/// Whatever `decode` reads out of a frame is a message: it holds no NUL.
pub proof fn lemma_decoded_is_message(frame: Seq<u8>)
    requires
        spec_decode(frame) is Ok,
    ensures
        is_message(spec_decode(frame)->Ok_0),
{
    let text = spec_decode(frame)->Ok_0;
    lemma_payload_has_no_padding(frame);
    decode_utf8_encode_utf8(payload(frame));
    assert forall|at: int| 0 <= at < text.len() implies text[at] != '\0' by {
        if text[at] == '\0' {
            lemma_nul_makes_padding(text, at);
            let i = choose|i: int|
                0 <= i < encode_utf8(text).len() && encode_utf8(text)[i] == PADDING;
            assert(payload(frame)[i] == frame[i]);
        }
    }
}

/// What `decode` reads out of a frame fits into a frame of the same width.
pub proof fn lemma_decoded_fits(frame: Seq<u8>)
    requires
        spec_decode(frame) is Ok,
    ensures
        encode_utf8(spec_decode(frame)->Ok_0).len() <= frame.len(),
{
    lemma_payload_has_no_padding(frame);
    decode_utf8_encode_utf8(payload(frame));
}

/// Decoding what was encoded, for every text that fits into a frame: what
/// comes out is the text up to its first NUL. The frame cannot tell a NUL in
/// the text from its own padding.
pub proof fn lemma_decode_encode_until_nul(profile: Profile, text: Seq<char>)
    requires
        encode_utf8(text).len() <= profile.spec_frame_size(),
    ensures
        spec_encode(profile, text) is Ok,
        spec_decode(spec_encode(profile, text)->Ok_0) == Ok::<Seq<char>, CodecError>(
            until_nul(text),
        ),
{
    let bytes = encode_utf8(text);
    let kept = encode_utf8(until_nul(text));
    let frame = spec_encode(profile, text)->Ok_0;
    lemma_encode_utf8_until_nul(text);
    lemma_until_nul_is_message(text);
    lemma_message_has_no_padding(until_nul(text));
    assert forall|i: int| 0 <= i < kept.len() implies frame[i] != PADDING by {
        assert(frame[i] == bytes.subrange(0, kept.len() as int)[i]);
    }
    lemma_payload_ends_at(frame, kept.len() as int);
    assert(payload(frame) =~= bytes.subrange(0, kept.len() as int));
    encode_utf8_valid_utf8(until_nul(text));
    encode_utf8_decode_utf8(until_nul(text));
}

/// Round trip: a message that fits into a frame comes out of `decode`
/// exactly as it went into `encode`.
pub proof fn lemma_decode_encode(profile: Profile, text: Seq<char>)
    requires
        is_message(text),
        encode_utf8(text).len() <= profile.spec_frame_size(),
    ensures
        spec_encode(profile, text) is Ok,
        spec_decode(spec_encode(profile, text)->Ok_0) == Ok::<Seq<char>, CodecError>(text),
{
    lemma_decode_encode_until_nul(profile, text);
    lemma_message_until_nul(text);
}

/// Length bound: a message with more bytes than the frame is wide is turned
/// down as too long, whatever it holds.
pub proof fn lemma_encode_too_long(profile: Profile, text: Seq<char>)
    requires
        encode_utf8(text).len() > profile.spec_frame_size(),
    ensures
        spec_encode(profile, text) == Err::<Seq<u8>, CodecError>(CodecError::MessageTooLong),
{
}

/// Every frame that `encode` builds has the width of its profile.
pub proof fn lemma_encode_width(profile: Profile, text: Seq<char>)
    requires
        spec_encode(profile, text) is Ok,
    ensures
        spec_encode(profile, text)->Ok_0.len() == profile.spec_frame_size(),
{
}

/// One message on the wire: exactly as many bytes as its profile prescribes.
#[derive(Debug, PartialEq, Eq)]
pub struct Frame {
    profile: Profile,
    bytes: Vec<u8>,
}

impl View for Frame {
    type V = Seq<u8>;

    closed spec fn view(&self) -> Seq<u8> {
        self.bytes@
    }
}

impl Frame {
    #[verifier::type_invariant]
    spec fn full_width(&self) -> bool {
        self.bytes@.len() == self.profile.spec_frame_size()
    }

    /// The profile that this frame was built for.
    pub closed spec fn spec_profile(&self) -> Profile {
        self.profile
    }

    /// The profile that this frame was built for.
    #[verifier::when_used_as_spec(spec_profile)]
    pub fn profile(&self) -> (p: Profile)
        ensures
            p == self.spec_profile(),
    {
        self.profile
    }

    /// Takes `bytes` as a frame of `profile`, if they have its width.
    pub fn from_bytes(profile: Profile, bytes: Vec<u8>) -> (r: Option<Frame>)
        ensures
            r is Some <==> bytes@.len() == profile.spec_frame_size(),
            r matches Some(frame) ==> frame@ == bytes@ && frame.profile() == profile,
    {
        if bytes.len() == profile.frame_size() {
            Some(Frame { profile, bytes })
        } else {
            None
        }
    }

    /// The bytes to put on the wire.
    pub fn as_bytes(&self) -> (bytes: &[u8])
        ensures
            bytes@ == self@,
            bytes@.len() == self.profile().spec_frame_size(),
    {
        proof {
            use_type_invariant(self);
        }
        self.bytes.as_slice()
    }
}

/// Encodes `message` as one frame of `profile`.
///
/// Fails with `MessageTooLong` exactly when the message has more UTF-8 bytes
/// than the frame is wide. Otherwise the frame starts with those bytes and
/// is padding from there on.
pub fn encode(profile: Profile, message: &str) -> (r: Result<Frame, CodecError>)
    ensures
        match r {
            Ok(frame) => frame.profile() == profile && spec_encode(profile, message@) == Ok::<
                Seq<u8>,
                CodecError,
            >(frame@),
            Err(e) => spec_encode(profile, message@) == Err::<Seq<u8>, CodecError>(e),
        },
{
    let size = profile.frame_size();
    let text = message.as_bytes();
    if text.len() > size {
        return Err(CodecError::MessageTooLong);
    }
    let mut bytes = slice_to_vec(text);
    bytes.resize(size, PADDING);
    assert(bytes@ =~= text@ + padding((size - text@.len()) as nat));
    Ok(Frame { profile, bytes })
}

/// The error of `String::from_utf8`. Nothing is read out of it.
#[verifier::external_type_specification]
#[verifier::external_body]
pub struct ExFromUtf8Error(std::string::FromUtf8Error);

/// `String::from_utf8` accepts exactly the byte vectors that are well-formed
/// UTF-8, and the string it then returns is made of those same bytes.
pub assume_specification[ String::from_utf8 ](vec: Vec<u8>) -> (r: Result<
    String,
    std::string::FromUtf8Error,
>)
    ensures
        r is Ok <==> valid_utf8(vec@),
        r matches Ok(text) ==> encode_utf8(text@) == vec@,
;

/// Decodes the message that `frame` carries.
///
/// The message ends in front of the first padding byte, or at the end of the
/// frame where it holds none. Fails with `InvalidEncoding` exactly when the
/// bytes up to there are not UTF-8.
pub fn decode(frame: &Frame) -> (r: Result<String, CodecError>)
    ensures
        match r {
            Ok(text) => spec_decode(frame@) == Ok::<Seq<char>, CodecError>(text@),
            Err(e) => spec_decode(frame@) == Err::<Seq<char>, CodecError>(e),
        },
{
    let bytes = frame.as_bytes();
    let mut text: Vec<u8> = Vec::new();
    let mut end: usize = 0;
    while end < bytes.len() && bytes[end] != PADDING
        invariant
            end <= bytes@.len(),
            text@ == bytes@.subrange(0, end as int),
            forall|i: int| 0 <= i < end ==> bytes@[i] != PADDING,
        decreases bytes@.len() - end,
    {
        text.push(bytes[end]);
        end += 1;
        assert(text@ =~= bytes@.subrange(0, end as int));
    }
    proof {
        lemma_payload_ends_at(bytes@, end as int);
    }
    match String::from_utf8(text) {
        Ok(message) => {
            proof {
                encode_utf8_decode_utf8(message@);
            }
            Ok(message)
        },
        Err(_) => Err(CodecError::InvalidEncoding),
    }
}

} // verus!
