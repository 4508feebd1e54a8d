//! Wire primitives: fixed-width integer readers and writers, and the error
//! vocabulary shared by every codec in the crate.

use vstd::prelude::*;
use vstd::slice::slice_subrange;

verus! {

/// A field of a wire structure, named when a parser rejects its content.
#[derive(Clone, Copy, Debug, PartialEq, Eq, Structural)]
pub enum Field {
    /// The declared length of an encapsulation body.
    EncapsulationLength,
    /// The type id of a Common Packet Format item.
    CpfTypeId,
    /// The declared length of a Common Packet Format item.
    CpfItemLength,
    /// The eight padding bytes of a socket address item.
    SockAddrPadding,
    /// The leading byte of a path segment.
    SegmentType,
    /// The format bits of a logical segment.
    LogicalFormat,
    /// The pad byte of a wide logical segment.
    LogicalPad,
    /// The port number of a port segment.
    PortIdentifier,
    /// The declared size of a path, in words.
    PathSize,
    /// The reserved byte that follows a route path size.
    RoutePathReserved,
    /// The pad byte that follows an embedded request of odd length.
    EmbeddedPad,
    /// The three reserved bytes of a forward-open request.
    ForwardOpenReserved,
    /// The service byte of a message router response.
    ResponseService,
    /// The items of a connected message: an address item, then a data item.
    ConnectedItems,
}

/// A protocol feature that this crate declines to encode or decode.
#[derive(Clone, Copy, Debug, PartialEq, Eq, Structural)]
pub enum Feature {
    /// A port segment whose link address is longer than one byte.
    ExtendedLinkAddress,
    /// A port segment whose port number does not fit in four bits.
    ExtendedPortIdentifier,
}

/// Why a byte sequence could not be decoded.
#[derive(Clone, Copy, Debug, PartialEq, Eq, Structural)]
pub enum ParseError {
    /// The input ends early; the payload is the number of bytes missing.
    Incomplete(usize),
    /// A field holds a value that the format does not allow.
    Malformed(Field),
    /// A Common Packet Format item has a type id that is not known.
    UnknownCpfItem,
    /// The input uses a feature outside the supported subset.
    NotSupported(Feature),
}

/// An invariant of a wire structure that a value handed to an encoder breaks.
#[derive(Clone, Copy, Debug, PartialEq, Eq, Structural)]
pub enum Reason {
    /// The bytes of a path do not fill a whole number of 16-bit words.
    OddPathLength,
    /// A path is longer than its one-byte word count can express.
    PathTooLong,
    /// A stored length field disagrees with the length of what it describes.
    LengthMismatch,
    /// A payload is longer than its 16-bit length field can express.
    PayloadTooLong,
    /// A list holds more items than its 16-bit count can express.
    TooManyItems,
    /// A stored type id does not belong to the kind of item that stores it.
    TypeIdMismatch,
    /// A logical type does not fit in three bits.
    LogicalType,
    /// A logical format is the reserved one, or too narrow for the value.
    LogicalFormat,
    /// A port number is zero.
    PortIdentifier,
    /// A port segment has no link address.
    LinkAddress,
    /// A response carries a service byte without the reply bit.
    ResponseService,
    /// A connected message does not start with a connected address item
    /// followed by a connected data item.
    ConnectedItems,
}

/// Why a value could not be encoded.
#[derive(Clone, Copy, Debug, PartialEq, Eq, Structural)]
pub enum EncodeError {
    /// The value uses a feature outside the supported subset.
    NotSupported(Feature),
    /// The value breaks an invariant of its wire structure.
    EncodingInvariantViolated(Reason),
}

/// The uniform codec contract: every wire type encodes to bytes and parses
/// from the front of a byte sequence, and both are pinned by specification
/// functions over the type's view. Each implementing type states beside its
/// impl, as `lemma_round_trip`, on which values parsing undoes encoding.
pub trait Serializable: Sized + View {
    /// The bytes that a value encodes to, or why it cannot be encoded.
    spec fn spec_serialize(v: Self::V) -> Result<Seq<u8>, EncodeError>;

    /// What parsing `input` yields: the unread remainder and the value, or
    /// the error.
    spec fn spec_deserialize(input: Seq<u8>) -> Result<(Seq<u8>, Self::V), ParseError>;

    /// Encodes the value.
    fn serialize(&self) -> (r: Result<Vec<u8>, EncodeError>)
        ensures
            match r {
                Ok(bytes) => Self::spec_serialize(self@) == Ok::<Seq<u8>, EncodeError>(bytes@),
                Err(e) => Self::spec_serialize(self@) == Err::<Seq<u8>, EncodeError>(e),
            },
    ;

    /// Parses a value from the front of `input` and hands back what follows
    /// it.
    fn deserialize<'a>(input: &'a [u8]) -> (r: Result<(&'a [u8], Self), ParseError>)
        ensures
            match r {
                Ok((rest, v)) => Self::spec_deserialize(input@) == Ok::<
                    (Seq<u8>, Self::V),
                    ParseError,
                >((rest@, v@)),
                Err(e) => Self::spec_deserialize(input@) == Err::<(Seq<u8>, Self::V), ParseError>(
                    e,
                ),
            },
    ;
}

/// An encoding result with `prefix` put in front of the bytes; an error
/// stays as it is.
pub open spec fn spec_after(prefix: Seq<u8>, r: Result<Seq<u8>, EncodeError>) -> Result<
    Seq<u8>,
    EncodeError,
> {
    match r {
        Ok(bytes) => Ok(prefix + bytes),
        Err(e) => Err(e),
    }
}

/// A parse result for a run of values with `prefix` put in front of the
/// values; an error stays as it is.
pub open spec fn spec_prepend<T>(
    prefix: Seq<T>,
    r: Result<(Seq<u8>, Seq<T>), ParseError>,
) -> Result<(Seq<u8>, Seq<T>), ParseError> {
    match r {
        Ok((rest, values)) => Ok((rest, prefix + values)),
        Err(e) => Err(e),
    }
}

/// Putting two prefixes in front one after the other is putting their
/// concatenation in front.
pub proof fn lemma_after_after(a: Seq<u8>, b: Seq<u8>, r: Result<Seq<u8>, EncodeError>)
    ensures
        spec_after(a, spec_after(b, r)) == spec_after(a + b, r),
{
    match r {
        Ok(bytes) => {
            assert(a + (b + bytes) =~= (a + b) + bytes);
        },
        Err(_) => {},
    }
}

/// Putting a prefix in front of no bytes gives the prefix.
pub proof fn lemma_after_end(a: Seq<u8>)
    ensures
        spec_after(a, Ok(Seq::<u8>::empty())) == Ok::<Seq<u8>, EncodeError>(a),
{
    assert(a + Seq::<u8>::empty() =~= a);
}

/// Putting nothing in front of an encoding result leaves it as it is.
pub proof fn lemma_after_nothing(r: Result<Seq<u8>, EncodeError>)
    ensures
        spec_after(Seq::<u8>::empty(), r) == r,
{
    match r {
        Ok(bytes) => {
            assert(Seq::<u8>::empty() + bytes =~= bytes);
        },
        Err(_) => {},
    }
}

/// Putting nothing in front of a parse result leaves it as it is.
pub proof fn lemma_prepend_nothing<T>(r: Result<(Seq<u8>, Seq<T>), ParseError>)
    ensures
        spec_prepend(Seq::<T>::empty(), r) == r,
{
    match r {
        Ok((rest, values)) => {
            assert(Seq::<T>::empty() + values =~= values);
        },
        Err(_) => {},
    }
}

/// Putting two prefixes in front one after the other is putting their
/// concatenation in front.
pub proof fn lemma_prepend_prepend<T>(
    a: Seq<T>,
    b: Seq<T>,
    r: Result<(Seq<u8>, Seq<T>), ParseError>,
)
    ensures
        spec_prepend(a, spec_prepend(b, r)) == spec_prepend(a + b, r),
{
    match r {
        Ok((rest, values)) => {
            assert(a + (b + values) =~= (a + b) + values);
        },
        Err(_) => {},
    }
}

/// Little-endian value of the two bytes of `s` that start at `at`.
pub open spec fn spec_le_u16(s: Seq<u8>, at: int) -> u16 {
    (s[at] as int + 0x100 * (s[at + 1] as int)) as u16
}

/// Little-endian value of the four bytes of `s` that start at `at`.
pub open spec fn spec_le_u32(s: Seq<u8>, at: int) -> u32 {
    (s[at] as int + 0x100 * (s[at + 1] as int) + 0x1_0000 * (s[at + 2] as int) + 0x100_0000 * (s[at
        + 3] as int)) as u32
}

/// Little-endian value of the eight bytes of `s` that start at `at`.
pub open spec fn spec_le_u64(s: Seq<u8>, at: int) -> u64 {
    (spec_le_u32(s, at) as int + 0x1_0000_0000 * (spec_le_u32(s, at + 4) as int)) as u64
}

/// Big-endian value of the two bytes of `s` that start at `at`.
pub open spec fn spec_be_u16(s: Seq<u8>, at: int) -> u16 {
    (0x100 * (s[at] as int) + s[at + 1] as int) as u16
}

/// Big-endian value of the four bytes of `s` that start at `at`.
pub open spec fn spec_be_u32(s: Seq<u8>, at: int) -> u32 {
    (0x100_0000 * (s[at] as int) + 0x1_0000 * (s[at + 1] as int) + 0x100 * (s[at + 2] as int)
        + s[at + 3] as int) as u32
}

/// Little-endian encoding of `x`.
pub open spec fn spec_u16_le_bytes(x: u16) -> Seq<u8> {
    seq![(x % 0x100) as u8, (x / 0x100) as u8]
}

/// Little-endian encoding of `x`.
pub open spec fn spec_u32_le_bytes(x: u32) -> Seq<u8> {
    seq![
        (x % 0x100) as u8,
        ((x / 0x100) % 0x100) as u8,
        ((x / 0x1_0000) % 0x100) as u8,
        (x / 0x100_0000) as u8,
    ]
}

/// Little-endian encoding of `x`.
pub open spec fn spec_u64_le_bytes(x: u64) -> Seq<u8> {
    spec_u32_le_bytes((x % 0x1_0000_0000) as u32) + spec_u32_le_bytes((x / 0x1_0000_0000) as u32)
}

/// Big-endian encoding of `x`.
pub open spec fn spec_u16_be_bytes(x: u16) -> Seq<u8> {
    seq![(x / 0x100) as u8, (x % 0x100) as u8]
}

/// Big-endian encoding of `x`.
pub open spec fn spec_u32_be_bytes(x: u32) -> Seq<u8> {
    seq![
        (x / 0x100_0000) as u8,
        ((x / 0x1_0000) % 0x100) as u8,
        ((x / 0x100) % 0x100) as u8,
        (x % 0x100) as u8,
    ]
}

/// The little-endian `u16` at offset `at` of `input`.
pub fn le_u16_at(input: &[u8], at: usize) -> (v: u16)
    requires
        at + 2 <= input@.len(),
    ensures
        v == spec_le_u16(input@, at as int),
{
    input[at] as u16 + 0x100 * (input[at + 1] as u16)
}

/// The little-endian `u32` at offset `at` of `input`.
pub fn le_u32_at(input: &[u8], at: usize) -> (v: u32)
    requires
        at + 4 <= input@.len(),
    ensures
        v == spec_le_u32(input@, at as int),
{
    input[at] as u32 + 0x100 * (input[at + 1] as u32) + 0x1_0000 * (input[at + 2] as u32)
        + 0x100_0000 * (input[at + 3] as u32)
}

/// The little-endian `u64` at offset `at` of `input`.
pub fn le_u64_at(input: &[u8], at: usize) -> (v: u64)
    requires
        at + 8 <= input@.len(),
    ensures
        v == spec_le_u64(input@, at as int),
{
    let n: usize = input.len();
    assert(at + 8 <= n);
    let low: u32 = le_u32_at(input, at);
    let high: u32 = le_u32_at(input, at + 4);
    low as u64 + 0x1_0000_0000 * (high as u64)
}

/// The big-endian `u16` at offset `at` of `input`.
pub fn be_u16_at(input: &[u8], at: usize) -> (v: u16)
    requires
        at + 2 <= input@.len(),
    ensures
        v == spec_be_u16(input@, at as int),
{
    0x100 * (input[at] as u16) + input[at + 1] as u16
}

/// The big-endian `u32` at offset `at` of `input`.
pub fn be_u32_at(input: &[u8], at: usize) -> (v: u32)
    requires
        at + 4 <= input@.len(),
    ensures
        v == spec_be_u32(input@, at as int),
{
    0x100_0000 * (input[at] as u32) + 0x1_0000 * (input[at + 1] as u32) + 0x100 * (input[at
        + 2] as u32) + input[at + 3] as u32
}

/// Reads a little-endian `u16` from the front of `input`.
pub fn read_le_u16<'a>(input: &'a [u8]) -> (r: Result<(&'a [u8], u16), ParseError>)
    ensures
        match r {
            Ok((rest, v)) => input@.len() >= 2 && rest@ == input@.skip(2) && v == spec_le_u16(
                input@,
                0,
            ),
            Err(e) => input@.len() < 2 && e == ParseError::Incomplete(
                (2 - input@.len()) as usize,
            ),
        },
{
    let n: usize = input.len();
    if n < 2 {
        return Err(ParseError::Incomplete(2 - n));
    }
    let v: u16 = le_u16_at(input, 0);
    Ok((slice_subrange(input, 2, n), v))
}

/// Appends the little-endian encoding of `x` to `out`.
pub fn push_le_u16(out: &mut Vec<u8>, x: u16)
    ensures
        final(out)@ == old(out)@ + spec_u16_le_bytes(x),
{
    out.push((x % 0x100) as u8);
    out.push((x / 0x100) as u8);
}

/// Appends the little-endian encoding of `x` to `out`.
pub fn push_le_u32(out: &mut Vec<u8>, x: u32)
    ensures
        final(out)@ == old(out)@ + spec_u32_le_bytes(x),
{
    out.push((x % 0x100) as u8);
    out.push(((x / 0x100) % 0x100) as u8);
    out.push(((x / 0x1_0000) % 0x100) as u8);
    out.push((x / 0x100_0000) as u8);
}

/// Appends the little-endian encoding of `x` to `out`.
pub fn push_le_u64(out: &mut Vec<u8>, x: u64)
    ensures
        final(out)@ == old(out)@ + spec_u64_le_bytes(x),
{
    push_le_u32(out, (x % 0x1_0000_0000) as u32);
    push_le_u32(out, (x / 0x1_0000_0000) as u32);
}

/// Appends the big-endian encoding of `x` to `out`.
pub fn push_be_u16(out: &mut Vec<u8>, x: u16)
    ensures
        final(out)@ == old(out)@ + spec_u16_be_bytes(x),
{
    out.push((x / 0x100) as u8);
    out.push((x % 0x100) as u8);
}

/// Appends the big-endian encoding of `x` to `out`.
pub fn push_be_u32(out: &mut Vec<u8>, x: u32)
    ensures
        final(out)@ == old(out)@ + spec_u32_be_bytes(x),
{
    out.push((x / 0x100_0000) as u8);
    out.push(((x / 0x1_0000) % 0x100) as u8);
    out.push(((x / 0x100) % 0x100) as u8);
    out.push((x % 0x100) as u8);
}

/// A run of `n` zero bytes.
pub open spec fn spec_zeros(n: nat) -> Seq<u8> {
    Seq::new(n, |i: int| 0u8)
}

/// Appends `n` zero bytes to `out`.
pub fn push_zeros(out: &mut Vec<u8>, n: usize)
    ensures
        final(out)@ == old(out)@ + spec_zeros(n as nat),
{
    let mut i: usize = 0;
    while i < n
        invariant
            i <= n,
            out@ == old(out)@ + spec_zeros(i as nat),
        decreases n - i,
    {
        out.push(0u8);
        i = i + 1;
        assert(out@ =~= old(out)@ + spec_zeros(i as nat));
    }
}

/// Whether the bytes of `input` from `from` up to `to` are all zero.
pub fn all_zero(input: &[u8], from: usize, to: usize) -> (r: bool)
    requires
        from <= to <= input@.len(),
    ensures
        r <==> input@.subrange(from as int, to as int) == spec_zeros((to - from) as nat),
{
    let mut i: usize = from;
    while i < to
        invariant
            from <= i <= to <= input@.len(),
            input@.subrange(from as int, i as int) == spec_zeros((i - from) as nat),
        decreases to - i,
    {
        if input[i] != 0u8 {
            assert(input@.subrange(from as int, to as int)[i - from] != 0u8);
            return false;
        }
        i = i + 1;
        assert(input@.subrange(from as int, i as int) =~= spec_zeros((i - from) as nat)) by {
            assert forall|k: int| 0 <= k < i - from implies input@.subrange(
                from as int,
                i as int,
            )[k] == 0u8 by {
                if k < i - from - 1 {
                    assert(input@.subrange(from as int, i - 1)[k] == 0u8);
                }
            }
        }
    }
    true
}

/// Appends a copy of `bytes` to `out`.
pub fn push_bytes(out: &mut Vec<u8>, bytes: &[u8])
    ensures
        final(out)@ == old(out)@ + bytes@,
{
    out.extend_from_slice(bytes);
}

/// Reading a little-endian `u16` undoes writing it, wherever in a sequence
/// the two bytes stand.
pub proof fn lemma_u16_le_round_trip(s: Seq<u8>, at: int, x: u16)
    requires
        0 <= at,
        at + 2 <= s.len(),
        s.subrange(at, at + 2) == spec_u16_le_bytes(x),
    ensures
        spec_le_u16(s, at) == x,
{
    let b = s.subrange(at, at + 2);
    assert(b[0] == s[at] && b[1] == s[at + 1]);
}

/// Reading a little-endian `u32` undoes writing it.
pub proof fn lemma_u32_le_round_trip(s: Seq<u8>, at: int, x: u32)
    requires
        0 <= at,
        at + 4 <= s.len(),
        s.subrange(at, at + 4) == spec_u32_le_bytes(x),
    ensures
        spec_le_u32(s, at) == x,
{
    let b = s.subrange(at, at + 4);
    assert(b[0] == s[at] && b[1] == s[at + 1] && b[2] == s[at + 2] && b[3] == s[at + 3]);
}

/// Reading a little-endian `u64` undoes writing it.
pub proof fn lemma_u64_le_round_trip(s: Seq<u8>, at: int, x: u64)
    requires
        0 <= at,
        at + 8 <= s.len(),
        s.subrange(at, at + 8) == spec_u64_le_bytes(x),
    ensures
        spec_le_u64(s, at) == x,
{
    let b = s.subrange(at, at + 8);
    let low = (x % 0x1_0000_0000) as u32;
    let high = (x / 0x1_0000_0000) as u32;
    assert(s.subrange(at, at + 4) =~= spec_u32_le_bytes(low)) by {
        assert forall|i: int| 0 <= i < 4 implies s.subrange(at, at + 4)[i] == spec_u32_le_bytes(
            low,
        )[i] by {
            assert(b[i] == s[at + i]);
        }
    }
    assert(s.subrange(at + 4, at + 8) =~= spec_u32_le_bytes(high)) by {
        assert forall|i: int| 0 <= i < 4 implies s.subrange(at + 4, at + 8)[i]
            == spec_u32_le_bytes(high)[i] by {
            assert(b[i + 4] == s[at + 4 + i]);
        }
    }
    lemma_u32_le_round_trip(s, at, low);
    lemma_u32_le_round_trip(s, at + 4, high);
}

/// Reading a big-endian `u16` undoes writing it.
pub proof fn lemma_u16_be_round_trip(s: Seq<u8>, at: int, x: u16)
    requires
        0 <= at,
        at + 2 <= s.len(),
        s.subrange(at, at + 2) == spec_u16_be_bytes(x),
    ensures
        spec_be_u16(s, at) == x,
{
    let b = s.subrange(at, at + 2);
    assert(b[0] == s[at] && b[1] == s[at + 1]);
}

/// Reading a big-endian `u32` undoes writing it.
pub proof fn lemma_u32_be_round_trip(s: Seq<u8>, at: int, x: u32)
    requires
        0 <= at,
        at + 4 <= s.len(),
        s.subrange(at, at + 4) == spec_u32_be_bytes(x),
    ensures
        spec_be_u32(s, at) == x,
{
    let b = s.subrange(at, at + 4);
    assert(b[0] == s[at] && b[1] == s[at + 1] && b[2] == s[at + 2] && b[3] == s[at + 3]);
}

/// The little-endian encodings of `words`, one after the other.
pub open spec fn spec_words_bytes(words: Seq<u16>) -> Seq<u8> {
    Seq::new(
        2 * words.len(),
        |i: int|
            if i % 2 == 0 {
                (words[i / 2] % 0x100) as u8
            } else {
                (words[i / 2] / 0x100) as u8
            },
    )
}

/// The `count` little-endian 16-bit words of `s` that start at `at`.
pub open spec fn spec_words(s: Seq<u8>, at: int, count: nat) -> Seq<u16> {
    Seq::new(count, |i: int| spec_le_u16(s, at + 2 * i))
}

/// Appends the little-endian encodings of `words` to `out`.
pub fn push_words(out: &mut Vec<u8>, words: &[u16])
    ensures
        final(out)@ == old(out)@ + spec_words_bytes(words@),
{
    let n: usize = words.len();
    let mut i: usize = 0;
    assert(out@ =~= old(out)@ + spec_words_bytes(words@.take(0)));
    while i < n
        invariant
            i <= n,
            n == words@.len(),
            out@ == old(out)@ + spec_words_bytes(words@.take(i as int)),
        decreases n - i,
    {
        let ghost before = out@;
        push_le_u16(out, words[i]);
        i = i + 1;
        assert(out@ =~= old(out)@ + spec_words_bytes(words@.take(i as int))) by {
            let prev = spec_words_bytes(words@.take(i - 1));
            let next = spec_words_bytes(words@.take(i as int));
            assert(prev.len() == 2 * (i - 1));
            assert(next.len() == 2 * i);
            assert forall|k: int| 0 <= k < next.len() implies (prev + spec_u16_le_bytes(
                words@[i - 1],
            ))[k] == next[k] by {
                if k < 2 * (i - 1) {
                    assert(words@.take(i - 1)[k / 2] == words@.take(i as int)[k / 2]);
                } else {
                    assert(k / 2 == i - 1);
                    assert(words@.take(i as int)[k / 2] == words@[i - 1]);
                }
            }
            assert(prev + spec_u16_le_bytes(words@[i - 1]) =~= next);
            assert(before + spec_u16_le_bytes(words@[i - 1]) =~= old(out)@ + (prev
                + spec_u16_le_bytes(words@[i - 1])));
        }
    }
    assert(words@.take(n as int) =~= words@);
}

/// The `count` little-endian 16-bit words of `input` that start at `at`.
pub fn words_at(input: &[u8], at: usize, count: usize) -> (r: Vec<u16>)
    requires
        at + 2 * count <= input@.len(),
    ensures
        r@ == spec_words(input@, at as int, count as nat),
{
    let n: usize = input.len();
    let mut out: Vec<u16> = Vec::new();
    let mut i: usize = 0;
    while i < count
        invariant
            i <= count,
            at + 2 * count <= input@.len(),
            n == input@.len(),
            out@ == spec_words(input@, at as int, i as nat),
        decreases count - i,
    {
        out.push(le_u16_at(input, at + 2 * i));
        i = i + 1;
        assert(out@ =~= spec_words(input@, at as int, i as nat));
    }
    out
}

/// Reading 16-bit words undoes writing them, wherever in a sequence their
/// bytes stand.
pub proof fn lemma_words_round_trip(s: Seq<u8>, at: int, words: Seq<u16>)
    requires
        0 <= at,
        at + 2 * words.len() <= s.len(),
        s.subrange(at, at + 2 * words.len()) == spec_words_bytes(words),
    ensures
        spec_words(s, at, words.len()) == words,
{
    let bytes = s.subrange(at, at + 2 * words.len());
    assert forall|i: int| 0 <= i < words.len() implies spec_le_u16(s, at + 2 * i) == words[i] by {
        assert(bytes[2 * i] == s[at + 2 * i]);
        assert(bytes[2 * i + 1] == s[at + 2 * i + 1]);
        assert((2 * i) / 2 == i && (2 * i) % 2 == 0);
        assert((2 * i + 1) / 2 == i && (2 * i + 1) % 2 == 1);
    }
    assert(spec_words(s, at, words.len()) =~= words);
}

/// A run of values of one wire type with their number in front, as a
/// 16-bit count.
#[derive(Clone, Debug, PartialEq, Eq)]
pub struct ItemCountListPair<T: Serializable> {
    pub length: u16,
    pub data: Vec<T>,
}

/// The mathematical content of a counted run of values.
pub struct ItemCountListPairView<V> {
    pub length: u16,
    pub data: Seq<V>,
}

impl<T: Serializable> View for ItemCountListPair<T> {
    type V = ItemCountListPairView<T::V>;

    open spec fn view(&self) -> ItemCountListPairView<T::V> {
        ItemCountListPairView { length: self.length, data: self.data@.map_values(|t: T| t@) }
    }
}

impl<T: Serializable> ItemCountListPair<T> {
    /// The encodings of `data` one after the other, or the error of the
    /// first value that cannot be encoded.
    pub open spec fn spec_serialize_all(data: Seq<T::V>) -> Result<Seq<u8>, EncodeError>
        decreases data.len(),
    {
        if data.len() == 0 {
            Ok(Seq::<u8>::empty())
        } else {
            match T::spec_serialize(data[0]) {
                Ok(first) => spec_after(first, Self::spec_serialize_all(data.skip(1))),
                Err(e) => Err(e),
            }
        }
    }

    /// What parsing `count` values from the front of `s` yields.
    pub open spec fn spec_parse_all(s: Seq<u8>, count: nat) -> Result<
        (Seq<u8>, Seq<T::V>),
        ParseError,
    >
        decreases count,
    {
        if count == 0 {
            Ok((s, Seq::<T::V>::empty()))
        } else {
            match T::spec_deserialize(s) {
                Ok((rest, value)) => spec_prepend(
                    seq![value],
                    Self::spec_parse_all(rest, (count - 1) as nat),
                ),
                Err(e) => Err(e),
            }
        }
    }

    /// Whether parsing the encoding of `v` gives `v` back and leaves what
    /// followed it, whatever that is.
    pub open spec fn spec_round_trips(v: T::V) -> bool {
        T::spec_serialize(v) is Ok && forall|tail: Seq<u8>|
            #[trigger] T::spec_deserialize(T::spec_serialize(v)->Ok_0 + tail) == Ok::<
                (Seq<u8>, T::V),
                ParseError,
            >((tail, v))
    }

    /// Parsing the encodings of values that each come back from their own
    /// encoding gives the values back in order.
    pub proof fn lemma_all_round_trip(data: Seq<T::V>, tail: Seq<u8>)
        requires
            forall|i: int| 0 <= i < data.len() ==> Self::spec_round_trips(#[trigger] data[i]),
        ensures
            Self::spec_serialize_all(data) is Ok,
            Self::spec_parse_all(Self::spec_serialize_all(data)->Ok_0 + tail, data.len()) == Ok::<
                (Seq<u8>, Seq<T::V>),
                ParseError,
            >((tail, data)),
        decreases data.len(),
    {
        if data.len() == 0 {
            assert(Seq::<u8>::empty() + tail =~= tail);
            assert(data =~= Seq::<T::V>::empty());
        } else {
            let head = data[0];
            let others_v = data.skip(1);
            assert(Self::spec_round_trips(head));
            assert forall|i: int| 0 <= i < others_v.len() implies Self::spec_round_trips(
                #[trigger] others_v[i],
            ) by {
                assert(others_v[i] == data[i + 1]);
            }
            Self::lemma_all_round_trip(others_v, tail);
            let first = T::spec_serialize(head)->Ok_0;
            let others = Self::spec_serialize_all(others_v)->Ok_0;
            let s = (first + others) + tail;
            assert(s =~= first + (others + tail));
            assert(T::spec_deserialize(first + (others + tail)) == Ok::<
                (Seq<u8>, T::V),
                ParseError,
            >((others + tail, head)));
            assert(seq![head] + others_v =~= data);
            assert(Self::spec_parse_all(s, data.len()) == spec_prepend(
                seq![head],
                Self::spec_parse_all(others + tail, (data.len() - 1) as nat),
            ));
        }
    }

    /// Parsing the encoding of a counted run gives the run back and leaves
    /// what followed it, where each value of the run comes back from its own
    /// encoding.
    pub proof fn lemma_round_trip(v: ItemCountListPairView<T::V>, tail: Seq<u8>)
        requires
            v.length == v.data.len(),
            forall|i: int| 0 <= i < v.data.len() ==> Self::spec_round_trips(#[trigger] v.data[i]),
        ensures
            Self::spec_serialize(v) is Ok,
            Self::spec_deserialize(Self::spec_serialize(v)->Ok_0 + tail) == Ok::<
                (Seq<u8>, ItemCountListPairView<T::V>),
                ParseError,
            >((tail, v)),
    {
        Self::lemma_all_round_trip(v.data, tail);
        let body = Self::spec_serialize_all(v.data)->Ok_0;
        let s = (spec_u16_le_bytes(v.length) + body) + tail;
        assert(s.subrange(0, 2) =~= spec_u16_le_bytes(v.length));
        lemma_u16_le_round_trip(s, 0, v.length);
        assert(s.skip(2) =~= body + tail);
    }
}

impl<T: Serializable> Serializable for ItemCountListPair<T> {
    open spec fn spec_serialize(v: ItemCountListPairView<T::V>) -> Result<Seq<u8>, EncodeError> {
        if v.length != v.data.len() {
            Err(EncodeError::EncodingInvariantViolated(Reason::LengthMismatch))
        } else {
            spec_after(spec_u16_le_bytes(v.length), Self::spec_serialize_all(v.data))
        }
    }

    open spec fn spec_deserialize(input: Seq<u8>) -> Result<
        (Seq<u8>, ItemCountListPairView<T::V>),
        ParseError,
    > {
        if input.len() < 2 {
            Err(ParseError::Incomplete((2 - input.len()) as usize))
        } else {
            match Self::spec_parse_all(input.skip(2), spec_le_u16(input, 0) as nat) {
                Ok((rest, data)) => Ok(
                    (rest, ItemCountListPairView { length: spec_le_u16(input, 0), data }),
                ),
                Err(e) => Err(e),
            }
        }
    }

    fn serialize(&self) -> (r: Result<Vec<u8>, EncodeError>) {
        let n: usize = self.data.len();
        if self.length as usize != n {
            return Err(EncodeError::EncodingInvariantViolated(Reason::LengthMismatch));
        }
        let mut out: Vec<u8> = Vec::new();
        push_le_u16(&mut out, self.length);
        assert(out@ =~= spec_u16_le_bytes(self.length));
        assert(self@.data.skip(0) =~= self@.data);
        let mut i: usize = 0;
        while i < n
            invariant
                i <= n,
                n == self.data@.len(),
                self.length == n,
                Self::spec_serialize(self@) == spec_after(
                    out@,
                    Self::spec_serialize_all(self@.data.skip(i as int)),
                ),
            decreases n - i,
        {
            assert(self@.data.skip(i as int)[0] == self.data@[i as int]@);
            assert(self@.data.skip(i as int).skip(1) =~= self@.data.skip(i + 1));
            match self.data[i].serialize() {
                Ok(bytes) => {
                    proof {
                        lemma_after_after(
                            out@,
                            bytes@,
                            Self::spec_serialize_all(self@.data.skip(i + 1)),
                        );
                    }
                    push_bytes(&mut out, bytes.as_slice());
                },
                Err(e) => {
                    return Err(e);
                },
            }
            i = i + 1;
        }
        proof {
            lemma_after_end(out@);
        }
        Ok(out)
    }

    fn deserialize<'a>(input: &'a [u8]) -> (r: Result<(&'a [u8], Self), ParseError>) {
        let (start, count) = match read_le_u16(input) {
            Ok(pair) => pair,
            Err(e) => {
                return Err(e);
            },
        };
        let mut cur: &[u8] = start;
        let mut data: Vec<T> = Vec::new();
        let mut i: u16 = 0;
        let ghost whole = Self::spec_parse_all(input@.skip(2), count as nat);
        proof {
            assert(data@.map_values(|t: T| t@) =~= Seq::<T::V>::empty());
            lemma_prepend_nothing(whole);
        }
        while i < count
            invariant
                i <= count,
                input@.len() >= 2,
                count == spec_le_u16(input@, 0),
                whole == Self::spec_parse_all(input@.skip(2), count as nat),
                whole == spec_prepend(
                    data@.map_values(|t: T| t@),
                    Self::spec_parse_all(cur@, (count - i) as nat),
                ),
            decreases count - i,
        {
            match T::deserialize(cur) {
                Ok((rest, value)) => {
                    proof {
                        lemma_prepend_prepend(
                            data@.map_values(|t: T| t@),
                            seq![value@],
                            Self::spec_parse_all(rest@, (count - i - 1) as nat),
                        );
                        assert(data@.push(value).map_values(|t: T| t@) =~= data@.map_values(
                            |t: T| t@,
                        ) + seq![value@]);
                    }
                    data.push(value);
                    cur = rest;
                    i = i + 1;
                },
                Err(e) => {
                    return Err(e);
                },
            }
        }
        proof {
            assert(data@.map_values(|t: T| t@) + Seq::<T::V>::empty() =~= data@.map_values(
                |t: T| t@,
            ));
        }
        Ok((cur, ItemCountListPair { length: count, data }))
    }
}

} // verus!
