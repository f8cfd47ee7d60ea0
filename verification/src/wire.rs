//! Field formats of the wire protocol: single bytes, big-endian integers,
//! zero-terminated strings and runs of raw bytes.
//!
//! Every format comes as a pair of specification functions, one that gives the
//! bytes of a value and one that parses a value off the front of an input, and a
//! pair of executable functions that are proved against them.

use vstd::prelude::*;
use vstd::slice::*;
use vstd::string::*;
use vstd::utf8::*;

verus! {

/// Why a frame, or a field of it, could not be decoded.
#[derive(Debug, Clone, Copy, PartialEq, Eq)]
pub enum DecodeError {
    /// Fewer than sixteen bytes were there for the header.
    TruncatedHeader,
    /// The input ends before all mandatory fields of the body were read.
    TruncatedBody,
    /// An optional parameter is cut short, or declares more bytes than are left.
    TruncatedTlv,
    /// A string field has no zero byte before the input ends.
    UnterminatedString,
    /// The bytes of a string field are not valid UTF-8.
    InvalidEncoding,
    /// The command id has no body layout.
    UnsupportedCommand,
    /// The length that the header declares is not the length of the frame.
    LengthMismatch,
}

/// What a parser gives: the value and the input that follows it, or the reason
/// for which there is no value.
pub type Parsed<T> = Result<(T, Seq<u8>), DecodeError>;

/// Goes on with `next` behind a field that was read, or stops at the error of
/// that field.
pub open spec fn and_then<A, B>(field: Parsed<A>, next: spec_fn(A, Seq<u8>) -> Parsed<B>) -> Parsed<
    B,
> {
    match field {
        Err(e) => Err(e),
        Ok((value, input)) => next(value, input),
    }
}

/// The input that is left of `buf` at position `offset`: nothing where `offset`
/// lies outside the buffer.
pub open spec fn tail(buf: Seq<u8>, offset: int) -> Seq<u8> {
    if 0 <= offset <= buf.len() {
        buf.skip(offset)
    } else {
        Seq::empty()
    }
}

/// The number of bytes that a parser took at `offset` when it left `rest`.
pub open spec fn consumed(buf: Seq<u8>, offset: int, rest: Seq<u8>) -> int {
    tail(buf, offset).len() - rest.len()
}

/// The wire form of one byte.
pub open spec fn byte(x: u8) -> Seq<u8> {
    seq![x]
}

/// Takes one byte off the input.
#[verifier::opaque]
pub open spec fn parse_u8(input: Seq<u8>) -> Parsed<u8> {
    if input.len() < 1 {
        Err(DecodeError::TruncatedBody)
    } else {
        Ok((input[0], input.skip(1)))
    }
}

/// The two bytes of `x`, most significant first.
pub open spec fn be16(x: u16) -> Seq<u8> {
    seq![(x / 0x100) as u8, (x % 0x100) as u8]
}

/// The number that two bytes hold, most significant first.
pub open spec fn be16_value(b: Seq<u8>) -> u16
    recommends
        b.len() == 2,
{
    (b[0] * 0x100 + b[1]) as u16
}

/// The four bytes of `x`, most significant first.
pub open spec fn be32(x: u32) -> Seq<u8> {
    seq![
        (x / 0x100_0000) as u8,
        (x / 0x1_0000 % 0x100) as u8,
        (x / 0x100 % 0x100) as u8,
        (x % 0x100) as u8,
    ]
}

/// The number that four bytes hold, most significant first.
pub open spec fn be32_value(b: Seq<u8>) -> u32
    recommends
        b.len() == 4,
{
    (b[0] * 0x100_0000 + b[1] * 0x1_0000 + b[2] * 0x100 + b[3]) as u32
}

/// The four bytes of a signed number: those of its two's complement.
pub open spec fn be32_signed(x: i32) -> Seq<u8> {
    be32(x as u32)
}

/// Takes a signed big-endian number of four bytes off the input.
#[verifier::opaque]
pub open spec fn parse_i32(input: Seq<u8>) -> Parsed<i32> {
    if input.len() < 4 {
        Err(DecodeError::TruncatedBody)
    } else {
        Ok((be32_value(input.subrange(0, 4)) as i32, input.skip(4)))
    }
}

/// The wire form of a string: its UTF-8 bytes and one zero byte.
pub open spec fn cstring(text: Seq<char>) -> Seq<u8> {
    encode_utf8(text) + seq![0u8]
}

/// True of a text that a string field can carry: it holds no NUL character,
/// so that the terminator is the first zero byte.
pub open spec fn c_text(text: Seq<char>) -> bool {
    forall|i: int| 0 <= i < text.len() ==> text[i] != '\0'
}

/// True when the first zero byte of `input` is the one at position `n`.
pub open spec fn terminated_at(input: Seq<u8>, n: int) -> bool {
    &&& 0 <= n < input.len()
    &&& input[n] == 0
    &&& forall|i: int| 0 <= i < n ==> input[i] != 0
}

/// True when `input` holds a zero byte.
pub open spec fn has_terminator(input: Seq<u8>) -> bool {
    exists|n: int| terminated_at(input, n)
}

/// The position of the first zero byte of `input`, where it has one.
pub open spec fn terminator(input: Seq<u8>) -> int
    recommends
        has_terminator(input),
{
    choose|n: int| terminated_at(input, n)
}

/// Takes a zero-terminated string off the input: the bytes before the first
/// zero byte are its text, the input goes on behind that byte.
#[verifier::opaque]
pub open spec fn parse_cstring(input: Seq<u8>) -> Parsed<Seq<char>> {
    if !has_terminator(input) {
        Err(DecodeError::UnterminatedString)
    } else if !valid_utf8(input.subrange(0, terminator(input))) {
        Err(DecodeError::InvalidEncoding)
    } else {
        Ok((decode_utf8(input.subrange(0, terminator(input))), input.skip(terminator(input) + 1)))
    }
}

/// Takes `n` raw bytes off the input.
#[verifier::opaque]
pub open spec fn parse_octets(input: Seq<u8>, n: int) -> Parsed<Seq<u8>> {
    if n < 0 || input.len() < n {
        Err(DecodeError::TruncatedBody)
    } else {
        Ok((input.subrange(0, n), input.skip(n)))
    }
}

/// True when two byte strings are the same. It marks the byte strings that
/// [`lemma_same_bytes_regroup`] is meant for.
pub open spec fn same_bytes(a: Seq<u8>, b: Seq<u8>) -> bool {
    a == b
}

/// The tail of a buffer from its start is the buffer.
pub broadcast proof fn lemma_tail_start(buf: Seq<u8>)
    ensures
        #[trigger] tail(buf, 0) == buf,
{
    assert(buf.skip(0) =~= buf);
}

/// A string is read off an input however the bytes of that input were put
/// together.
pub broadcast proof fn lemma_parse_cstring_regroup(a: Seq<u8>, b: Seq<u8>, c: Seq<u8>)
    ensures
        #[trigger] parse_cstring((a + b) + c) == parse_cstring(a + (b + c)),
{
    assert((a + b) + c =~= a + (b + c));
}

/// A byte is read off an input however the bytes of that input were put
/// together.
pub broadcast proof fn lemma_parse_u8_regroup(a: Seq<u8>, b: Seq<u8>, c: Seq<u8>)
    ensures
        #[trigger] parse_u8((a + b) + c) == parse_u8(a + (b + c)),
{
    assert((a + b) + c =~= a + (b + c));
}

/// Bytes that were put together field by field are the same however they are
/// grouped.
pub broadcast proof fn lemma_same_bytes_regroup(a: Seq<u8>, b: Seq<u8>, c: Seq<u8>, d: Seq<u8>)
    ensures
        #[trigger] same_bytes((a + b) + c, d) == same_bytes(a + (b + c), d),
{
    assert((a + b) + c =~= a + (b + c));
}

/// Two bytes written most significant first hold the number they were made of.
pub broadcast proof fn lemma_be16_value(x: u16)
    ensures
        #[trigger] be16(x).len() == 2,
        be16_value(be16(x)) == x,
{
}

/// Two bytes are the bytes of the number they hold.
pub proof fn lemma_be16_of_value(b: Seq<u8>)
    requires
        b.len() == 2,
    ensures
        be16(be16_value(b)) == b,
{
    assert(be16(be16_value(b)) =~= b);
}

/// Four bytes written most significant first hold the number they were made of.
pub broadcast proof fn lemma_be32_value(x: u32)
    ensures
        #[trigger] be32(x).len() == 4,
        be32_value(be32(x)) == x,
{
}

/// Four bytes are the bytes of the number they hold.
pub proof fn lemma_be32_of_value(b: Seq<u8>)
    requires
        b.len() == 4,
    ensures
        be32(be32_value(b)) == b,
{
    let (b0, b1, b2, b3) = (b[0], b[1], b[2], b[3]);
    let x: u32 = be32_value(b);
    assert(x == (b0 as u32) * 0x100_0000 + (b1 as u32) * 0x1_0000 + (b2 as u32) * 0x100 + (
    b3 as u32));
    assert((x / 0x100_0000) as u8 == b0 && (x / 0x1_0000 % 0x100) as u8 == b1 && (x / 0x100
        % 0x100) as u8 == b2 && (x % 0x100) as u8 == b3) by (bit_vector)
        requires
            x == (b0 as u32) * 0x100_0000 + (b1 as u32) * 0x1_0000 + (b2 as u32) * 0x100 + (
            b3 as u32),
    ;
    assert(be32(x) =~= b);
}

/// A zero byte with none before it is the terminator.
pub proof fn lemma_terminator(input: Seq<u8>, n: int)
    requires
        terminated_at(input, n),
    ensures
        has_terminator(input),
        terminator(input) == n,
{
    let m = terminator(input);
    assert(terminated_at(input, m));
    if m < n {
        assert(input[m] != 0);
    }
    if n < m {
        assert(input[n] != 0);
    }
}

/// An input without a zero byte has no terminator.
pub proof fn lemma_no_terminator(input: Seq<u8>)
    requires
        forall|i: int| 0 <= i < input.len() ==> input[i] != 0,
    ensures
        !has_terminator(input),
{
    if has_terminator(input) {
        let n = terminator(input);
        assert(terminated_at(input, n));
        assert(input[n] != 0);
    }
}

/// A string field that no zero byte ends before the input does is
/// unterminated.
pub proof fn law_unterminated_string(input: Seq<u8>)
    requires
        forall|i: int| 0 <= i < input.len() ==> input[i] != 0,
    ensures
        parse_cstring(input) == Err::<(Seq<char>, Seq<u8>), DecodeError>(
            DecodeError::UnterminatedString,
        ),
{
    reveal(parse_cstring);
    lemma_no_terminator(input);
}

/// No byte of the UTF-8 form of a character other than NUL is zero.
proof fn lemma_scalar_bytes(scalar: u32)
    requires
        is_scalar(scalar),
        scalar != 0,
    ensures
        forall|i: int| 0 <= i < encode_scalar(scalar).len() ==> encode_scalar(scalar)[i] != 0,
{
    assert(0 < scalar <= 0x7F ==> (scalar & 0x7F) as u8 != 0) by (bit_vector);
    assert(0xC0u8 | ((scalar >> 6) & 0x1F) as u8 != 0) by (bit_vector);
    assert(0xE0u8 | ((scalar >> 12) & 0x0F) as u8 != 0) by (bit_vector);
    assert(0xF0u8 | ((scalar >> 18) & 0x7) as u8 != 0) by (bit_vector);
    assert(0x80u8 | (scalar & 0x3F) as u8 != 0) by (bit_vector);
    assert(0x80u8 | ((scalar >> 6) & 0x3F) as u8 != 0) by (bit_vector);
    assert(0x80u8 | ((scalar >> 12) & 0x3F) as u8 != 0) by (bit_vector);
}

/// The UTF-8 form of a text without NUL characters has no zero byte.
pub proof fn lemma_c_text_bytes(text: Seq<char>)
    requires
        c_text(text),
    ensures
        forall|i: int| 0 <= i < encode_utf8(text).len() ==> encode_utf8(text)[i] != 0,
    decreases text.len(),
{
    if text.len() > 0 {
        let first = encode_scalar(text[0] as u32);
        let others = encode_utf8(text.drop_first());
        char_is_scalar(text[0]);
        assert(text[0] as u32 != 0) by {
            assert('\0' as u32 == 0);
            char_u32_cast(text[0], text[0] as u32);
            char_u32_cast('\0', 0);
        }
        lemma_scalar_bytes(text[0] as u32);
        assert(c_text(text.drop_first())) by {
            assert forall|i: int| 0 <= i < text.drop_first().len() implies text.drop_first()[i]
                != '\0' by {
                assert(text.drop_first()[i] == text[i + 1]);
            }
        }
        lemma_c_text_bytes(text.drop_first());
        assert forall|i: int| 0 <= i < encode_utf8(text).len() implies encode_utf8(text)[i]
            != 0 by {
            if i < first.len() {
                assert(encode_utf8(text)[i] == first[i]);
            } else {
                assert(encode_utf8(text)[i] == others[i - first.len()]);
            }
        }
    }
}

/// The UTF-8 form of a text with a NUL character has a zero byte.
proof fn lemma_nul_byte(text: Seq<char>, at: int)
    requires
        0 <= at < text.len(),
        text[at] == '\0',
    ensures
        exists|i: int| 0 <= i < encode_utf8(text).len() && encode_utf8(text)[i] == 0,
    decreases text.len(),
{
    let first = encode_scalar(text[0] as u32);
    let others = encode_utf8(text.drop_first());
    if at == 0 {
        assert('\0' as u32 == 0);
        assert((0u32 & 0x7F) as u8 == 0) by (bit_vector);
        assert(encode_utf8(text)[0] == 0);
    } else {
        lemma_nul_byte(text.drop_first(), at - 1);
        let i = choose|i: int| 0 <= i < others.len() && others[i] == 0;
        assert(encode_utf8(text)[first.len() + i] == others[i]);
    }
}

/// A byte that was written is the byte that is read.
pub broadcast proof fn lemma_parse_u8(x: u8, rest: Seq<u8>)
    ensures
        #[trigger] parse_u8(byte(x) + rest) == Ok::<(u8, Seq<u8>), DecodeError>((x, rest)),
{
    reveal(parse_u8);
    assert((byte(x) + rest).skip(1) =~= rest);
}

/// A signed number that was written is the number that is read.
pub broadcast proof fn lemma_parse_i32(x: i32, rest: Seq<u8>)
    ensures
        #[trigger] parse_i32(be32_signed(x) + rest) == Ok::<(i32, Seq<u8>), DecodeError>((x, rest)),
{
    reveal(parse_i32);
    let input = be32_signed(x) + rest;
    lemma_be32_value(x as u32);
    assert(input.subrange(0, 4) =~= be32(x as u32));
    assert(input.skip(4) =~= rest);
    assert((x as u32) as i32 == x) by (bit_vector);
}

/// A text without NUL characters that was written is the text that is read.
pub broadcast proof fn lemma_parse_cstring(text: Seq<char>, rest: Seq<u8>)
    requires
        c_text(text),
    ensures
        #[trigger] parse_cstring(cstring(text) + rest) == Ok::<(Seq<char>, Seq<u8>), DecodeError>(
            (text, rest),
        ),
{
    reveal(parse_cstring);
    let raw = encode_utf8(text);
    let input = cstring(text) + rest;
    let n = raw.len() as int;
    lemma_c_text_bytes(text);
    assert(input[n] == 0);
    assert forall|i: int| 0 <= i < n implies input[i] != 0 by {
        assert(input[i] == raw[i]);
    }
    lemma_terminator(input, n);
    assert(input.subrange(0, n) =~= raw);
    assert(input.skip(n + 1) =~= rest);
    encode_utf8_valid_utf8(text);
    encode_utf8_decode_utf8(text);
}

/// Raw bytes that were written are the bytes that are read.
pub broadcast proof fn lemma_parse_octets(bytes: Seq<u8>, rest: Seq<u8>)
    ensures
        #[trigger] parse_octets(bytes + rest, bytes.len() as int) == Ok::<
            (Seq<u8>, Seq<u8>),
            DecodeError,
        >((bytes, rest)),
{
    reveal(parse_octets);
    let input = bytes + rest;
    assert(input.subrange(0, bytes.len() as int) =~= bytes);
    assert(input.skip(bytes.len() as int) =~= rest);
}

/// A byte that is read stood at the front of the input.
pub broadcast proof fn lemma_parsed_u8(input: Seq<u8>)
    ensures
        #![trigger parse_u8(input)]
        parse_u8(input) matches Ok((x, rest)) ==> input == byte(x) + rest,
{
    reveal(parse_u8);
    if let Ok((x, rest)) = parse_u8(input) {
        assert(input =~= byte(x) + rest);
    }
}

/// A signed number that is read stood at the front of the input.
pub broadcast proof fn lemma_parsed_i32(input: Seq<u8>)
    ensures
        #![trigger parse_i32(input)]
        parse_i32(input) matches Ok((x, rest)) ==> input == be32_signed(x) + rest,
{
    reveal(parse_i32);
    if let Ok((x, rest)) = parse_i32(input) {
        let value = be32_value(input.subrange(0, 4));
        lemma_be32_of_value(input.subrange(0, 4));
        assert((value as i32) as u32 == value) by (bit_vector);
        assert(input =~= input.subrange(0, 4) + rest);
    }
}

/// A string that is read stood at the front of the input, and holds no NUL
/// character.
pub broadcast proof fn lemma_parsed_cstring(input: Seq<u8>)
    ensures
        #![trigger parse_cstring(input)]
        parse_cstring(input) matches Ok((text, rest)) ==> c_text(text) && input == cstring(text)
            + rest,
{
    reveal(parse_cstring);
    if let Ok((text, rest)) = parse_cstring(input) {
        let n = terminator(input);
        let raw = input.subrange(0, n);
        assert(terminated_at(input, n));
        decode_utf8_encode_utf8(raw);
        assert(input =~= cstring(text) + rest);
        assert forall|i: int| 0 <= i < text.len() implies text[i] != '\0' by {
            if text[i] == '\0' {
                lemma_nul_byte(text, i);
                let j = choose|j: int| 0 <= j < raw.len() && raw[j] == 0;
                assert(input[j] == raw[j]);
            }
        }
    }
}

/// Raw bytes that are read stood at the front of the input, as many as were
/// asked for.
pub broadcast proof fn lemma_parsed_octets(input: Seq<u8>, n: int)
    ensures
        #![trigger parse_octets(input, n)]
        parse_octets(input, n) matches Ok((bytes, rest)) ==> bytes.len() == n && input == bytes
            + rest,
{
    reveal(parse_octets);
    if let Ok((bytes, rest)) = parse_octets(input, n) {
        assert(input =~= bytes + rest);
    }
}

/// Appends one byte.
pub fn write_u8(buf: &mut Vec<u8>, x: u8)
    ensures
        final(buf)@ == old(buf)@ + byte(x),
{
    buf.push(x);
    assert(buf@ =~= old(buf)@ + byte(x));
}

/// Appends `x` as two bytes, most significant first.
pub fn write_u16(buf: &mut Vec<u8>, x: u16)
    ensures
        final(buf)@ == old(buf)@ + be16(x),
{
    buf.push((x / 0x100) as u8);
    buf.push((x % 0x100) as u8);
    assert(buf@ =~= old(buf)@ + be16(x));
}

/// Appends `x` as four bytes, most significant first.
pub fn write_u32(buf: &mut Vec<u8>, x: u32)
    ensures
        final(buf)@ == old(buf)@ + be32(x),
{
    buf.push((x / 0x100_0000) as u8);
    buf.push((x / 0x1_0000 % 0x100) as u8);
    buf.push((x / 0x100 % 0x100) as u8);
    buf.push((x % 0x100) as u8);
    assert(buf@ =~= old(buf)@ + be32(x));
}

/// Appends a signed number as the four bytes of its two's complement.
pub fn write_i32(buf: &mut Vec<u8>, x: i32)
    ensures
        final(buf)@ == old(buf)@ + be32_signed(x),
{
    write_u32(buf, x as u32);
}

/// Appends the UTF-8 bytes of `s` and the zero byte that ends a string field.
pub fn write_cstring(buf: &mut Vec<u8>, s: &str)
    ensures
        final(buf)@ == old(buf)@ + cstring(s@),
{
    buf.extend_from_slice(s.as_bytes());
    buf.push(0);
    assert(buf@ =~= old(buf)@ + cstring(s@));
}

/// Appends raw bytes.
pub fn write_octets(buf: &mut Vec<u8>, bytes: &[u8])
    ensures
        final(buf)@ == old(buf)@ + bytes@,
{
    buf.extend_from_slice(bytes);
    assert(buf@ =~= old(buf)@ + bytes@);
}

/// The number that the two bytes at `at` hold, most significant first.
pub(crate) fn u16_at(buf: &[u8], at: usize) -> (x: u16)
    requires
        at + 2 <= buf@.len(),
    ensures
        x == be16_value(buf@.subrange(at as int, at + 2)),
{
    let hi: u16 = buf[at] as u16;
    let lo: u16 = buf[at + 1] as u16;
    hi * 0x100 + lo
}

/// The number that the four bytes at `at` hold, most significant first.
pub(crate) fn u32_at(buf: &[u8], at: usize) -> (x: u32)
    requires
        at + 4 <= buf@.len(),
    ensures
        x == be32_value(buf@.subrange(at as int, at + 4)),
{
    let b0: u32 = buf[at] as u32;
    let b1: u32 = buf[at + 1] as u32;
    let b2: u32 = buf[at + 2] as u32;
    let b3: u32 = buf[at + 3] as u32;
    b0 * 0x100_0000 + b1 * 0x1_0000 + b2 * 0x100 + b3
}

/// Reads one byte at `offset` and moves `offset` behind it.
pub fn read_u8(buf: &[u8], offset: &mut usize) -> (r: Result<u8, DecodeError>)
    ensures
        match parse_u8(tail(buf@, *old(offset) as int)) {
            Ok((x, rest)) => {
                &&& r == Ok::<u8, DecodeError>(x)
                &&& tail(buf@, *final(offset) as int) == rest
                &&& *final(offset) == *old(offset) + consumed(buf@, *old(offset) as int, rest)
            },
            Err(e) => r == Err::<u8, DecodeError>(e) && *final(offset) == *old(offset),
        },
{
    proof {
        reveal(parse_u8);
    }
    let at = *offset;
    if at >= buf.len() {
        return Err(DecodeError::TruncatedBody);
    }
    let x = buf[at];
    *offset = at + 1;
    assert(buf@.skip(at + 1) =~= buf@.skip(at as int).skip(1));
    Ok(x)
}

/// Reads a signed big-endian number of four bytes at `offset` and moves
/// `offset` behind it.
pub fn read_i32(buf: &[u8], offset: &mut usize) -> (r: Result<i32, DecodeError>)
    ensures
        match parse_i32(tail(buf@, *old(offset) as int)) {
            Ok((x, rest)) => {
                &&& r == Ok::<i32, DecodeError>(x)
                &&& tail(buf@, *final(offset) as int) == rest
                &&& *final(offset) == *old(offset) + consumed(buf@, *old(offset) as int, rest)
            },
            Err(e) => r == Err::<i32, DecodeError>(e) && *final(offset) == *old(offset),
        },
{
    proof {
        reveal(parse_i32);
    }
    let at = *offset;
    if at > buf.len() || buf.len() - at < 4 {
        return Err(DecodeError::TruncatedBody);
    }
    let x = u32_at(buf, at);
    *offset = at + 4;
    assert(buf@.skip(at + 4) =~= buf@.skip(at as int).skip(4));
    assert(buf@.subrange(at as int, at + 4) =~= buf@.skip(at as int).subrange(0, 4));
    Ok(x as i32)
}

/// Reads `n` raw bytes at `offset` and moves `offset` behind them.
pub fn read_octets(buf: &[u8], offset: &mut usize, n: usize) -> (r: Result<Vec<u8>, DecodeError>)
    ensures
        match parse_octets(tail(buf@, *old(offset) as int), n as int) {
            Ok((bytes, rest)) => {
                &&& r matches Ok(v)
                &&& v@ == bytes
                &&& tail(buf@, *final(offset) as int) == rest
                &&& *final(offset) == *old(offset) + consumed(buf@, *old(offset) as int, rest)
            },
            Err(e) => r == Err::<Vec<u8>, DecodeError>(e) && *final(offset) == *old(offset),
        },
{
    proof {
        reveal(parse_octets);
    }
    let at = *offset;
    let left = if at <= buf.len() {
        buf.len() - at
    } else {
        0
    };
    if left < n {
        return Err(DecodeError::TruncatedBody);
    }
    if n == 0 {
        assert(tail(buf@, at as int).subrange(0, 0) =~= Seq::<u8>::empty());
        assert(tail(buf@, at as int).skip(0) =~= tail(buf@, at as int));
        return Ok(Vec::new());
    }
    let bytes = slice_to_vec(slice_subrange(buf, at, at + n));
    *offset = at + n;
    assert(buf@.skip(at + n) =~= buf@.skip(at as int).skip(n as int));
    assert(buf@.subrange(at as int, at + n) =~= buf@.skip(at as int).subrange(0, n as int));
    Ok(bytes)
}

/// Reads a zero-terminated string at `offset` and moves `offset` behind its
/// terminator. Where there is no string to read, `offset` stays.
pub fn read_cstring(buf: &[u8], offset: &mut usize) -> (r: Result<String, DecodeError>)
    ensures
        match parse_cstring(tail(buf@, *old(offset) as int)) {
            Ok((text, rest)) => {
                &&& r matches Ok(s)
                &&& s@ == text
                &&& tail(buf@, *final(offset) as int) == rest
                &&& *final(offset) == *old(offset) + consumed(buf@, *old(offset) as int, rest)
            },
            Err(e) => r == Err::<String, DecodeError>(e) && *final(offset) == *old(offset),
        },
{
    proof {
        reveal(parse_cstring);
    }
    let start = *offset;
    let ghost input = tail(buf@, start as int);
    if start > buf.len() {
        proof {
            lemma_no_terminator(input);
        }
        return Err(DecodeError::UnterminatedString);
    }
    let mut end = start;
    while end < buf.len() && buf[end] != 0
        invariant
            start <= end <= buf@.len(),
            forall|i: int| start <= i < end ==> buf@[i] != 0,
        decreases buf@.len() - end,
    {
        end += 1;
    }
    if end >= buf.len() {
        proof {
            assert forall|i: int| 0 <= i < input.len() implies input[i] != 0 by {
                assert(input[i] == buf@[start + i]);
            }
            lemma_no_terminator(input);
        }
        return Err(DecodeError::UnterminatedString);
    }
    let raw = slice_subrange(buf, start, end);
    proof {
        assert forall|i: int| 0 <= i < end - start implies input[i] != 0 by {
            assert(input[i] == buf@[start + i]);
        }
        lemma_terminator(input, end - start);
        assert(raw@ =~= input.subrange(0, end - start));
        assert(buf@.skip(end + 1) =~= input.skip(end - start + 1));
    }
    match core::str::from_utf8(raw) {
        Ok(s) => {
            proof {
                encode_utf8_decode_utf8(s@);
            }
            *offset = end + 1;
            Ok(s.to_owned())
        },
        Err(_) => Err(DecodeError::InvalidEncoding),
    }
}

} // verus!
