//! The Message Router object: the list of object classes a device
//! implements, and the general status codes of its responses.

use vstd::prelude::*;
use vstd::slice::slice_subrange;
use crate::common::{
    le_u16_at, lemma_u16_le_round_trip, lemma_words_round_trip, push_le_u16, push_words,
    spec_le_u16, spec_u16_le_bytes, spec_words, spec_words_bytes, words_at, EncodeError, ParseError,
    Reason, Serializable,
};

verus! {

/// `sorted` with `x` put in behind the last element that is not greater.
pub open spec fn spec_insert(sorted: Seq<u16>, x: u16) -> Seq<u16>
    decreases sorted.len(),
{
    if sorted.len() == 0 {
        seq![x]
    } else if sorted.last() <= x {
        sorted.push(x)
    } else {
        spec_insert(sorted.drop_last(), x).push(sorted.last())
    }
}

/// The elements of `s` in ascending order.
pub open spec fn spec_sort(s: Seq<u16>) -> Seq<u16>
    decreases s.len(),
{
    if s.len() == 0 {
        s
    } else {
        spec_insert(spec_sort(s.drop_last()), s.last())
    }
}

/// Whether the elements of `s` ascend.
pub open spec fn spec_sorted(s: Seq<u16>) -> bool {
    forall|i: int, j: int| 0 <= i <= j < s.len() ==> s[i] <= s[j]
}

/// Putting `x` into `t` puts it at position `at`, where everything from
/// `at` on is greater than `x` and the element before `at` is not.
pub proof fn lemma_insert_at(t: Seq<u16>, x: u16, at: int)
    requires
        0 <= at <= t.len(),
        forall|k: int| at <= k < t.len() ==> t[k] > x,
        at == 0 || t[at - 1] <= x,
    ensures
        spec_insert(t, x) == t.insert(at, x),
    decreases t.len(),
{
    if t.len() == 0 {
        assert(t.insert(at, x) =~= seq![x]);
    } else if at == t.len() {
        assert(t.insert(at, x) =~= t.push(x));
    } else {
        lemma_insert_at(t.drop_last(), x, at);
        assert(t.drop_last().insert(at, x).push(t.last()) =~= t.insert(at, x));
    }
}

/// Putting a value into an ascending sequence leaves it ascending, one
/// longer, and holding what it held and the value.
pub proof fn lemma_insert(t: Seq<u16>, x: u16)
    requires
        spec_sorted(t),
    ensures
        spec_sorted(spec_insert(t, x)),
        spec_insert(t, x).len() == t.len() + 1,
        spec_insert(t, x).to_multiset() == t.to_multiset().insert(x),
        forall|i: int|
            0 <= i < spec_insert(t, x).len() ==> (#[trigger] spec_insert(t, x)[i] == x || exists|
                j: int,
            |
                0 <= j < t.len() && t[j] == spec_insert(t, x)[i]),
    decreases t.len(),
{
    broadcast use vstd::seq_lib::group_to_multiset_ensures;

    if t.len() == 0 {
        assert(t =~= Seq::<u16>::empty());
        assert(seq![x] =~= Seq::<u16>::empty().push(x));
    } else if t.last() <= x {
        let r = t.push(x);
        assert forall|i: int, j: int| 0 <= i <= j < r.len() implies r[i] <= r[j] by {
            if j < t.len() {
            } else if i < t.len() {
                assert(t[i] <= t.last());
            }
        }
        assert forall|i: int| 0 <= i < r.len() implies (#[trigger] r[i] == x || exists|j: int|
            0 <= j < t.len() && t[j] == r[i]) by {
            if i < t.len() {
                assert(t[i] == r[i]);
            }
        }
    } else {
        let shorter = t.drop_last();
        assert(spec_sorted(shorter));
        lemma_insert(shorter, x);
        let inner = spec_insert(shorter, x);
        let r = inner.push(t.last());
        assert forall|i: int, j: int| 0 <= i <= j < r.len() implies r[i] <= r[j] by {
            if j < inner.len() {
            } else if i < inner.len() {
                if inner[i] == x {
                } else {
                    let k = choose|k: int| 0 <= k < shorter.len() && shorter[k] == inner[i];
                    assert(t[k] <= t.last());
                }
            }
        }
        assert(t =~= shorter.push(t.last()));
        assert(t.to_multiset() =~= shorter.to_multiset().insert(t.last()));
        assert(r.to_multiset() =~= t.to_multiset().insert(x));
        assert forall|i: int| 0 <= i < r.len() implies (#[trigger] r[i] == x || exists|j: int|
            0 <= j < t.len() && t[j] == r[i]) by {
            if i < inner.len() {
                if inner[i] != x {
                    let k = choose|k: int| 0 <= k < shorter.len() && shorter[k] == inner[i];
                    assert(t[k] == r[i]);
                }
            } else {
                assert(t[t.len() - 1] == r[i]);
            }
        }
    }
}

/// Sorting gives an ascending sequence that holds exactly what went in,
/// each value as often as it went in.
pub proof fn lemma_sort(s: Seq<u16>)
    ensures
        spec_sorted(spec_sort(s)),
        spec_sort(s).len() == s.len(),
        spec_sort(s).to_multiset() == s.to_multiset(),
    decreases s.len(),
{
    broadcast use vstd::seq_lib::group_to_multiset_ensures;

    if s.len() == 0 {
    } else {
        lemma_sort(s.drop_last());
        lemma_insert(spec_sort(s.drop_last()), s.last());
        assert(s =~= s.drop_last().push(s.last()));
        assert(s.to_multiset() =~= s.drop_last().to_multiset().insert(s.last()));
    }
}

/// An ascending sequence is its own sorted form.
pub proof fn lemma_sort_sorted(s: Seq<u16>)
    requires
        spec_sorted(s),
    ensures
        spec_sort(s) == s,
    decreases s.len(),
{
    if s.len() > 0 {
        let shorter = s.drop_last();
        assert(spec_sorted(shorter));
        lemma_sort_sorted(shorter);
        if shorter.len() > 0 {
            assert(shorter.last() == s[s.len() - 2]);
            assert(s[s.len() - 2] <= s[s.len() - 1]);
        }
        assert(shorter.push(s.last()) =~= s);
    }
}

/// Sorts `values` into ascending order.
pub fn sort(values: Vec<u16>) -> (r: Vec<u16>)
    ensures
        r@ == spec_sort(values@),
{
    let n: usize = values.len();
    let mut out: Vec<u16> = Vec::new();
    let mut i: usize = 0;
    assert(values@.take(0) =~= Seq::<u16>::empty());
    while i < n
        invariant
            i <= n,
            n == values@.len(),
            out@ == spec_sort(values@.take(i as int)),
            spec_sorted(out@),
            out@.len() == i,
        decreases n - i,
    {
        let x: u16 = values[i];
        let mut at: usize = out.len();
        while at > 0 && out[at - 1] > x
            invariant
                at <= out@.len(),
                forall|k: int| at <= k < out@.len() ==> out@[k] > x,
            decreases at,
        {
            at = at - 1;
        }
        proof {
            lemma_insert_at(out@, x, at as int);
            lemma_insert(out@, x);
            assert(values@.take(i + 1).drop_last() =~= values@.take(i as int));
            assert(values@.take(i + 1).last() == x);
        }
        out.insert(at, x);
        i = i + 1;
    }
    assert(values@.take(n as int) =~= values@);
    out
}

/// The object classes a device implements, as its Message Router lists
/// them, in ascending order.
#[derive(Clone, Debug, PartialEq, Eq)]
pub struct MessageRouter {
    pub objects: Vec<u16>,
}

impl View for MessageRouter {
    type V = Seq<u16>;

    open spec fn view(&self) -> Seq<u16> {
        self.objects@
    }
}

impl MessageRouter {
    /// Parsing the encoding of an ascending class list gives the list back
    /// and leaves what followed it.
    pub proof fn lemma_round_trip(v: Seq<u16>, tail: Seq<u8>)
        requires
            Self::spec_serialize(v) is Ok,
            spec_sorted(v),
        ensures
            Self::spec_deserialize(Self::spec_serialize(v)->Ok_0 + tail) == Ok::<
                (Seq<u8>, Seq<u16>),
                ParseError,
            >((tail, v)),
    {
        let count = v.len() as u16;
        let words = spec_words_bytes(v);
        let s = (spec_u16_le_bytes(count) + words) + tail;
        assert(s.subrange(0, 2) =~= spec_u16_le_bytes(count));
        lemma_u16_le_round_trip(s, 0, count);
        assert(s.subrange(2, 2 + 2 * v.len() as int) =~= words);
        lemma_words_round_trip(s, 2, v);
        assert(s.skip(2 + 2 * v.len() as int) =~= tail);
        lemma_sort_sorted(v);
    }
}

impl Serializable for MessageRouter {
    open spec fn spec_serialize(v: Seq<u16>) -> Result<Seq<u8>, EncodeError> {
        if v.len() > 0xFFFF {
            Err(EncodeError::EncodingInvariantViolated(Reason::TooManyItems))
        } else {
            Ok(spec_u16_le_bytes(v.len() as u16) + spec_words_bytes(v))
        }
    }

    open spec fn spec_deserialize(input: Seq<u8>) -> Result<(Seq<u8>, Seq<u16>), ParseError> {
        if input.len() < 2 {
            Err(ParseError::Incomplete((2 - input.len()) as usize))
        } else {
            let count = spec_le_u16(input, 0) as int;
            if input.len() - 2 < 2 * count {
                Err(ParseError::Incomplete((2 * count - (input.len() - 2)) as usize))
            } else {
                Ok((input.skip(2 + 2 * count), spec_sort(spec_words(input, 2, count as nat))))
            }
        }
    }

    fn serialize(&self) -> (r: Result<Vec<u8>, EncodeError>) {
        let n: usize = self.objects.len();
        if n > 0xFFFF {
            return Err(EncodeError::EncodingInvariantViolated(Reason::TooManyItems));
        }
        let mut out: Vec<u8> = Vec::new();
        push_le_u16(&mut out, n as u16);
        push_words(&mut out, self.objects.as_slice());
        assert(out@ =~= spec_u16_le_bytes(n as u16) + spec_words_bytes(self.objects@));
        Ok(out)
    }

    fn deserialize<'a>(input: &'a [u8]) -> (r: Result<(&'a [u8], Self), ParseError>) {
        let n: usize = input.len();
        if n < 2 {
            return Err(ParseError::Incomplete(2 - n));
        }
        let count: usize = le_u16_at(input, 0) as usize;
        if n - 2 < 2 * count {
            return Err(ParseError::Incomplete(2 * count - (n - 2)));
        }
        let objects: Vec<u16> = sort(words_at(input, 2, count));
        Ok((slice_subrange(input, 2 + 2 * count, n), MessageRouter { objects }))
    }
}

/// The general status codes of a Message Router response.
#[derive(Clone, Copy, Debug, PartialEq, Eq, Structural)]
pub enum MessageRouterResponseStatusCodes {
    Success,
    ConnectionProblem,
    ResourceUnavailable,
    InvalidParameterValue,
    PathSegmentError,
    PathDestinationUnknown,
    PartialTranser,
    ConnectionLost,
    ServiceNotSupported,
    InvalidAttributeValue,
    AttributeListError,
    AlreadyInState,
    ObjectStateConflict,
    ObjectAlreadyExists,
    AttributeNotSettable,
    PrivilegeViolation,
    DeviceStateConflict,
    ReplyToLarge,
    FragmentationOfPrimitive,
    NotEnoughData,
    AttributeNotSupported,
    TooMuchData,
    ObjectDoesNotExist,
    ServiceFragmentationOutOfSequence,
    NoStoreAttribute,
    StorageOperationFailure,
    RequestToLarge,
    ResponeToLarge,
    MissingAttributeList,
    InvalidAttibuteList,
    EmbeddedServiceError,
    VendorSpecifiedError,
    InvalidParameter,
    WriteOnceValue,
    InvalidReply,
    BufferOverflow,
    MessageFormatError,
    KeyFailure,
    PathSizeInvalid,
    UnexpectedAttribute,
    InvalidMemberId,
    MemberNotSettable,
    GroupTwoOnly,
    ModbusError,
    AttributeNotGetable,
    InstanceNotDeletable,
    ServiceNotSupportedForPath,
}

impl MessageRouterResponseStatusCodes {
    /// The number that stands for the variant on the wire.
    pub open spec fn spec_code(self) -> u8 {
        match self {
            MessageRouterResponseStatusCodes::Success => 0x00,
            MessageRouterResponseStatusCodes::ConnectionProblem => 0x01,
            MessageRouterResponseStatusCodes::ResourceUnavailable => 0x02,
            MessageRouterResponseStatusCodes::InvalidParameterValue => 0x03,
            MessageRouterResponseStatusCodes::PathSegmentError => 0x04,
            MessageRouterResponseStatusCodes::PathDestinationUnknown => 0x05,
            MessageRouterResponseStatusCodes::PartialTranser => 0x06,
            MessageRouterResponseStatusCodes::ConnectionLost => 0x07,
            MessageRouterResponseStatusCodes::ServiceNotSupported => 0x08,
            MessageRouterResponseStatusCodes::InvalidAttributeValue => 0x09,
            MessageRouterResponseStatusCodes::AttributeListError => 0x0A,
            MessageRouterResponseStatusCodes::AlreadyInState => 0x0B,
            MessageRouterResponseStatusCodes::ObjectStateConflict => 0x0C,
            MessageRouterResponseStatusCodes::ObjectAlreadyExists => 0x0D,
            MessageRouterResponseStatusCodes::AttributeNotSettable => 0x0E,
            MessageRouterResponseStatusCodes::PrivilegeViolation => 0x0F,
            MessageRouterResponseStatusCodes::DeviceStateConflict => 0x10,
            MessageRouterResponseStatusCodes::ReplyToLarge => 0x11,
            MessageRouterResponseStatusCodes::FragmentationOfPrimitive => 0x12,
            MessageRouterResponseStatusCodes::NotEnoughData => 0x13,
            MessageRouterResponseStatusCodes::AttributeNotSupported => 0x14,
            MessageRouterResponseStatusCodes::TooMuchData => 0x15,
            MessageRouterResponseStatusCodes::ObjectDoesNotExist => 0x16,
            MessageRouterResponseStatusCodes::ServiceFragmentationOutOfSequence => 0x17,
            MessageRouterResponseStatusCodes::NoStoreAttribute => 0x18,
            MessageRouterResponseStatusCodes::StorageOperationFailure => 0x19,
            MessageRouterResponseStatusCodes::RequestToLarge => 0x1A,
            MessageRouterResponseStatusCodes::ResponeToLarge => 0x1B,
            MessageRouterResponseStatusCodes::MissingAttributeList => 0x1C,
            MessageRouterResponseStatusCodes::InvalidAttibuteList => 0x1D,
            MessageRouterResponseStatusCodes::EmbeddedServiceError => 0x1E,
            MessageRouterResponseStatusCodes::VendorSpecifiedError => 0x1F,
            MessageRouterResponseStatusCodes::InvalidParameter => 0x20,
            MessageRouterResponseStatusCodes::WriteOnceValue => 0x21,
            MessageRouterResponseStatusCodes::InvalidReply => 0x22,
            MessageRouterResponseStatusCodes::BufferOverflow => 0x23,
            MessageRouterResponseStatusCodes::MessageFormatError => 0x24,
            MessageRouterResponseStatusCodes::KeyFailure => 0x25,
            MessageRouterResponseStatusCodes::PathSizeInvalid => 0x26,
            MessageRouterResponseStatusCodes::UnexpectedAttribute => 0x27,
            MessageRouterResponseStatusCodes::InvalidMemberId => 0x28,
            MessageRouterResponseStatusCodes::MemberNotSettable => 0x29,
            MessageRouterResponseStatusCodes::GroupTwoOnly => 0x2A,
            MessageRouterResponseStatusCodes::ModbusError => 0x2B,
            MessageRouterResponseStatusCodes::AttributeNotGetable => 0x2C,
            MessageRouterResponseStatusCodes::InstanceNotDeletable => 0x2D,
            MessageRouterResponseStatusCodes::ServiceNotSupportedForPath => 0x2E,
        }
    }

    /// The number that stands for the variant on the wire.
    pub fn code(self) -> (r: u8)
        ensures
            r == self.spec_code(),
    {
        match self {
            MessageRouterResponseStatusCodes::Success => 0x00,
            MessageRouterResponseStatusCodes::ConnectionProblem => 0x01,
            MessageRouterResponseStatusCodes::ResourceUnavailable => 0x02,
            MessageRouterResponseStatusCodes::InvalidParameterValue => 0x03,
            MessageRouterResponseStatusCodes::PathSegmentError => 0x04,
            MessageRouterResponseStatusCodes::PathDestinationUnknown => 0x05,
            MessageRouterResponseStatusCodes::PartialTranser => 0x06,
            MessageRouterResponseStatusCodes::ConnectionLost => 0x07,
            MessageRouterResponseStatusCodes::ServiceNotSupported => 0x08,
            MessageRouterResponseStatusCodes::InvalidAttributeValue => 0x09,
            MessageRouterResponseStatusCodes::AttributeListError => 0x0A,
            MessageRouterResponseStatusCodes::AlreadyInState => 0x0B,
            MessageRouterResponseStatusCodes::ObjectStateConflict => 0x0C,
            MessageRouterResponseStatusCodes::ObjectAlreadyExists => 0x0D,
            MessageRouterResponseStatusCodes::AttributeNotSettable => 0x0E,
            MessageRouterResponseStatusCodes::PrivilegeViolation => 0x0F,
            MessageRouterResponseStatusCodes::DeviceStateConflict => 0x10,
            MessageRouterResponseStatusCodes::ReplyToLarge => 0x11,
            MessageRouterResponseStatusCodes::FragmentationOfPrimitive => 0x12,
            MessageRouterResponseStatusCodes::NotEnoughData => 0x13,
            MessageRouterResponseStatusCodes::AttributeNotSupported => 0x14,
            MessageRouterResponseStatusCodes::TooMuchData => 0x15,
            MessageRouterResponseStatusCodes::ObjectDoesNotExist => 0x16,
            MessageRouterResponseStatusCodes::ServiceFragmentationOutOfSequence => 0x17,
            MessageRouterResponseStatusCodes::NoStoreAttribute => 0x18,
            MessageRouterResponseStatusCodes::StorageOperationFailure => 0x19,
            MessageRouterResponseStatusCodes::RequestToLarge => 0x1A,
            MessageRouterResponseStatusCodes::ResponeToLarge => 0x1B,
            MessageRouterResponseStatusCodes::MissingAttributeList => 0x1C,
            MessageRouterResponseStatusCodes::InvalidAttibuteList => 0x1D,
            MessageRouterResponseStatusCodes::EmbeddedServiceError => 0x1E,
            MessageRouterResponseStatusCodes::VendorSpecifiedError => 0x1F,
            MessageRouterResponseStatusCodes::InvalidParameter => 0x20,
            MessageRouterResponseStatusCodes::WriteOnceValue => 0x21,
            MessageRouterResponseStatusCodes::InvalidReply => 0x22,
            MessageRouterResponseStatusCodes::BufferOverflow => 0x23,
            MessageRouterResponseStatusCodes::MessageFormatError => 0x24,
            MessageRouterResponseStatusCodes::KeyFailure => 0x25,
            MessageRouterResponseStatusCodes::PathSizeInvalid => 0x26,
            MessageRouterResponseStatusCodes::UnexpectedAttribute => 0x27,
            MessageRouterResponseStatusCodes::InvalidMemberId => 0x28,
            MessageRouterResponseStatusCodes::MemberNotSettable => 0x29,
            MessageRouterResponseStatusCodes::GroupTwoOnly => 0x2A,
            MessageRouterResponseStatusCodes::ModbusError => 0x2B,
            MessageRouterResponseStatusCodes::AttributeNotGetable => 0x2C,
            MessageRouterResponseStatusCodes::InstanceNotDeletable => 0x2D,
            MessageRouterResponseStatusCodes::ServiceNotSupportedForPath => 0x2E,
        }
    }

    /// The variant that `code` stands for, if there is one.
    pub fn from_code(code: u8) -> (r: Option<MessageRouterResponseStatusCodes>)
        ensures
            match r {
                Some(v) => v.spec_code() == code,
                None => forall|v: MessageRouterResponseStatusCodes| v.spec_code() != code,
            },
    {
        if code == 0x00 {
            Some(MessageRouterResponseStatusCodes::Success)
        } else if code == 0x01 {
            Some(MessageRouterResponseStatusCodes::ConnectionProblem)
        } else if code == 0x02 {
            Some(MessageRouterResponseStatusCodes::ResourceUnavailable)
        } else if code == 0x03 {
            Some(MessageRouterResponseStatusCodes::InvalidParameterValue)
        } else if code == 0x04 {
            Some(MessageRouterResponseStatusCodes::PathSegmentError)
        } else if code == 0x05 {
            Some(MessageRouterResponseStatusCodes::PathDestinationUnknown)
        } else if code == 0x06 {
            Some(MessageRouterResponseStatusCodes::PartialTranser)
        } else if code == 0x07 {
            Some(MessageRouterResponseStatusCodes::ConnectionLost)
        } else if code == 0x08 {
            Some(MessageRouterResponseStatusCodes::ServiceNotSupported)
        } else if code == 0x09 {
            Some(MessageRouterResponseStatusCodes::InvalidAttributeValue)
        } else if code == 0x0A {
            Some(MessageRouterResponseStatusCodes::AttributeListError)
        } else if code == 0x0B {
            Some(MessageRouterResponseStatusCodes::AlreadyInState)
        } else if code == 0x0C {
            Some(MessageRouterResponseStatusCodes::ObjectStateConflict)
        } else if code == 0x0D {
            Some(MessageRouterResponseStatusCodes::ObjectAlreadyExists)
        } else if code == 0x0E {
            Some(MessageRouterResponseStatusCodes::AttributeNotSettable)
        } else if code == 0x0F {
            Some(MessageRouterResponseStatusCodes::PrivilegeViolation)
        } else if code == 0x10 {
            Some(MessageRouterResponseStatusCodes::DeviceStateConflict)
        } else if code == 0x11 {
            Some(MessageRouterResponseStatusCodes::ReplyToLarge)
        } else if code == 0x12 {
            Some(MessageRouterResponseStatusCodes::FragmentationOfPrimitive)
        } else if code == 0x13 {
            Some(MessageRouterResponseStatusCodes::NotEnoughData)
        } else if code == 0x14 {
            Some(MessageRouterResponseStatusCodes::AttributeNotSupported)
        } else if code == 0x15 {
            Some(MessageRouterResponseStatusCodes::TooMuchData)
        } else if code == 0x16 {
            Some(MessageRouterResponseStatusCodes::ObjectDoesNotExist)
        } else if code == 0x17 {
            Some(MessageRouterResponseStatusCodes::ServiceFragmentationOutOfSequence)
        } else if code == 0x18 {
            Some(MessageRouterResponseStatusCodes::NoStoreAttribute)
        } else if code == 0x19 {
            Some(MessageRouterResponseStatusCodes::StorageOperationFailure)
        } else if code == 0x1A {
            Some(MessageRouterResponseStatusCodes::RequestToLarge)
        } else if code == 0x1B {
            Some(MessageRouterResponseStatusCodes::ResponeToLarge)
        } else if code == 0x1C {
            Some(MessageRouterResponseStatusCodes::MissingAttributeList)
        } else if code == 0x1D {
            Some(MessageRouterResponseStatusCodes::InvalidAttibuteList)
        } else if code == 0x1E {
            Some(MessageRouterResponseStatusCodes::EmbeddedServiceError)
        } else if code == 0x1F {
            Some(MessageRouterResponseStatusCodes::VendorSpecifiedError)
        } else if code == 0x20 {
            Some(MessageRouterResponseStatusCodes::InvalidParameter)
        } else if code == 0x21 {
            Some(MessageRouterResponseStatusCodes::WriteOnceValue)
        } else if code == 0x22 {
            Some(MessageRouterResponseStatusCodes::InvalidReply)
        } else if code == 0x23 {
            Some(MessageRouterResponseStatusCodes::BufferOverflow)
        } else if code == 0x24 {
            Some(MessageRouterResponseStatusCodes::MessageFormatError)
        } else if code == 0x25 {
            Some(MessageRouterResponseStatusCodes::KeyFailure)
        } else if code == 0x26 {
            Some(MessageRouterResponseStatusCodes::PathSizeInvalid)
        } else if code == 0x27 {
            Some(MessageRouterResponseStatusCodes::UnexpectedAttribute)
        } else if code == 0x28 {
            Some(MessageRouterResponseStatusCodes::InvalidMemberId)
        } else if code == 0x29 {
            Some(MessageRouterResponseStatusCodes::MemberNotSettable)
        } else if code == 0x2A {
            Some(MessageRouterResponseStatusCodes::GroupTwoOnly)
        } else if code == 0x2B {
            Some(MessageRouterResponseStatusCodes::ModbusError)
        } else if code == 0x2C {
            Some(MessageRouterResponseStatusCodes::AttributeNotGetable)
        } else if code == 0x2D {
            Some(MessageRouterResponseStatusCodes::InstanceNotDeletable)
        } else if code == 0x2E {
            Some(MessageRouterResponseStatusCodes::ServiceNotSupportedForPath)
        } else {
            None
        }
    }

    /// Every status code, in ascending order of its number.
    pub open spec fn spec_all() -> Seq<MessageRouterResponseStatusCodes> {
        seq![
            MessageRouterResponseStatusCodes::Success,
            MessageRouterResponseStatusCodes::ConnectionProblem,
            MessageRouterResponseStatusCodes::ResourceUnavailable,
            MessageRouterResponseStatusCodes::InvalidParameterValue,
            MessageRouterResponseStatusCodes::PathSegmentError,
            MessageRouterResponseStatusCodes::PathDestinationUnknown,
            MessageRouterResponseStatusCodes::PartialTranser,
            MessageRouterResponseStatusCodes::ConnectionLost,
            MessageRouterResponseStatusCodes::ServiceNotSupported,
            MessageRouterResponseStatusCodes::InvalidAttributeValue,
            MessageRouterResponseStatusCodes::AttributeListError,
            MessageRouterResponseStatusCodes::AlreadyInState,
            MessageRouterResponseStatusCodes::ObjectStateConflict,
            MessageRouterResponseStatusCodes::ObjectAlreadyExists,
            MessageRouterResponseStatusCodes::AttributeNotSettable,
            MessageRouterResponseStatusCodes::PrivilegeViolation,
            MessageRouterResponseStatusCodes::DeviceStateConflict,
            MessageRouterResponseStatusCodes::ReplyToLarge,
            MessageRouterResponseStatusCodes::FragmentationOfPrimitive,
            MessageRouterResponseStatusCodes::NotEnoughData,
            MessageRouterResponseStatusCodes::AttributeNotSupported,
            MessageRouterResponseStatusCodes::TooMuchData,
            MessageRouterResponseStatusCodes::ObjectDoesNotExist,
            MessageRouterResponseStatusCodes::ServiceFragmentationOutOfSequence,
            MessageRouterResponseStatusCodes::NoStoreAttribute,
            MessageRouterResponseStatusCodes::StorageOperationFailure,
            MessageRouterResponseStatusCodes::RequestToLarge,
            MessageRouterResponseStatusCodes::ResponeToLarge,
            MessageRouterResponseStatusCodes::MissingAttributeList,
            MessageRouterResponseStatusCodes::InvalidAttibuteList,
            MessageRouterResponseStatusCodes::EmbeddedServiceError,
            MessageRouterResponseStatusCodes::VendorSpecifiedError,
            MessageRouterResponseStatusCodes::InvalidParameter,
            MessageRouterResponseStatusCodes::WriteOnceValue,
            MessageRouterResponseStatusCodes::InvalidReply,
            MessageRouterResponseStatusCodes::BufferOverflow,
            MessageRouterResponseStatusCodes::MessageFormatError,
            MessageRouterResponseStatusCodes::KeyFailure,
            MessageRouterResponseStatusCodes::PathSizeInvalid,
            MessageRouterResponseStatusCodes::UnexpectedAttribute,
            MessageRouterResponseStatusCodes::InvalidMemberId,
            MessageRouterResponseStatusCodes::MemberNotSettable,
            MessageRouterResponseStatusCodes::GroupTwoOnly,
            MessageRouterResponseStatusCodes::ModbusError,
            MessageRouterResponseStatusCodes::AttributeNotGetable,
            MessageRouterResponseStatusCodes::InstanceNotDeletable,
            MessageRouterResponseStatusCodes::ServiceNotSupportedForPath,
        ]
    }

    /// Every status code, in ascending order of its number.
    pub fn all() -> (r: Vec<MessageRouterResponseStatusCodes>)
        ensures
            r@ == Self::spec_all(),
    {
        let r = vec![
            MessageRouterResponseStatusCodes::Success,
            MessageRouterResponseStatusCodes::ConnectionProblem,
            MessageRouterResponseStatusCodes::ResourceUnavailable,
            MessageRouterResponseStatusCodes::InvalidParameterValue,
            MessageRouterResponseStatusCodes::PathSegmentError,
            MessageRouterResponseStatusCodes::PathDestinationUnknown,
            MessageRouterResponseStatusCodes::PartialTranser,
            MessageRouterResponseStatusCodes::ConnectionLost,
            MessageRouterResponseStatusCodes::ServiceNotSupported,
            MessageRouterResponseStatusCodes::InvalidAttributeValue,
            MessageRouterResponseStatusCodes::AttributeListError,
            MessageRouterResponseStatusCodes::AlreadyInState,
            MessageRouterResponseStatusCodes::ObjectStateConflict,
            MessageRouterResponseStatusCodes::ObjectAlreadyExists,
            MessageRouterResponseStatusCodes::AttributeNotSettable,
            MessageRouterResponseStatusCodes::PrivilegeViolation,
            MessageRouterResponseStatusCodes::DeviceStateConflict,
            MessageRouterResponseStatusCodes::ReplyToLarge,
            MessageRouterResponseStatusCodes::FragmentationOfPrimitive,
            MessageRouterResponseStatusCodes::NotEnoughData,
            MessageRouterResponseStatusCodes::AttributeNotSupported,
            MessageRouterResponseStatusCodes::TooMuchData,
            MessageRouterResponseStatusCodes::ObjectDoesNotExist,
            MessageRouterResponseStatusCodes::ServiceFragmentationOutOfSequence,
            MessageRouterResponseStatusCodes::NoStoreAttribute,
            MessageRouterResponseStatusCodes::StorageOperationFailure,
            MessageRouterResponseStatusCodes::RequestToLarge,
            MessageRouterResponseStatusCodes::ResponeToLarge,
            MessageRouterResponseStatusCodes::MissingAttributeList,
            MessageRouterResponseStatusCodes::InvalidAttibuteList,
            MessageRouterResponseStatusCodes::EmbeddedServiceError,
            MessageRouterResponseStatusCodes::VendorSpecifiedError,
            MessageRouterResponseStatusCodes::InvalidParameter,
            MessageRouterResponseStatusCodes::WriteOnceValue,
            MessageRouterResponseStatusCodes::InvalidReply,
            MessageRouterResponseStatusCodes::BufferOverflow,
            MessageRouterResponseStatusCodes::MessageFormatError,
            MessageRouterResponseStatusCodes::KeyFailure,
            MessageRouterResponseStatusCodes::PathSizeInvalid,
            MessageRouterResponseStatusCodes::UnexpectedAttribute,
            MessageRouterResponseStatusCodes::InvalidMemberId,
            MessageRouterResponseStatusCodes::MemberNotSettable,
            MessageRouterResponseStatusCodes::GroupTwoOnly,
            MessageRouterResponseStatusCodes::ModbusError,
            MessageRouterResponseStatusCodes::AttributeNotGetable,
            MessageRouterResponseStatusCodes::InstanceNotDeletable,
            MessageRouterResponseStatusCodes::ServiceNotSupportedForPath,
        ];
        assert(r@ =~= Self::spec_all());
        r
    }
}

} // verus!
