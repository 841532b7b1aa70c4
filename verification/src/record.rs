//! Self-delimiting binary layout of durable records.
//!
//! A number takes its fixed width, a list or text its length in four bytes and then its elements,
//! an optional value one presence byte and then the value. Every layout that is written can be
//! read back from any place in a buffer, whatever follows it. The layout is this library's own, and
//! no record of the MemoryPack codec is read.

use vstd::prelude::*;

use crate::bytes;
use crate::bytes::{push_i64, push_u32, push_u64, read_i64_at, read_u32_at, read_u64_at};

verus! {

/// Longest list or text, in elements or bytes, that the layout can describe.
pub const MAX_RECORD_LENGTH: usize = 2147483647;

/// A value with a binary layout.
pub trait Record: DeepView + Sized {
    /// Whether the layout can describe `value`.
    spec fn fits(value: Self::V) -> bool;

    /// Whether a reader accepts `value`.
    spec fn valid(value: Self::V) -> bool;

    /// The layout of `value`.
    spec fn layout(value: Self::V) -> Seq<u8>;

    /// The value read from `bytes` at `at`, with the place after it.
    spec fn parse(bytes: Seq<u8>, at: int) -> Option<(Self::V, int)>;

    /// A written value is read back from wherever it stands.
    proof fn lemma_round_trip(value: Self::V, bytes: Seq<u8>, at: int)
        requires
            Self::fits(value),
            Self::valid(value),
            bytes::holds_at(bytes, at, Self::layout(value)),
        ensures
            Self::parse(bytes, at) == Some((value, at + Self::layout(value).len())),
    ;

    /// Reading stays within the buffer and never moves back.
    proof fn lemma_progress(bytes: Seq<u8>, at: int)
        requires
            0 <= at <= bytes.len(),
        ensures
            Self::parse(bytes, at) matches Some((_, next)) ==> at <= next <= bytes.len(),
    ;

    /// Appends the layout of this value, unless it cannot be described.
    fn write(&self, out: &mut Vec<u8>) -> (written: bool)
        ensures
            written == Self::fits(self.deep_view()),
            written ==> final(out)@ == old(out)@ + Self::layout(self.deep_view()),
    ;

    /// Reads a value at `at`.
    fn read(bytes: &[u8], at: usize) -> (result: Option<(Self, usize)>)
        requires
            at <= bytes@.len(),
        ensures
            read_matches(result, Self::parse(bytes@, at as int)),
            result matches Some((_, next)) ==> at <= next <= bytes@.len(),
    ;
}

/// Whether a read returned what the layout says.
pub open spec fn read_matches<T: DeepView>(
    result: Option<(T, usize)>,
    expected: Option<(T::V, int)>,
) -> bool {
    match (result, expected) {
        (Some((value, next)), Some((model, end))) => value.deep_view() == model && next == end,
        (None, None) => true,
        _ => false,
    }
}

impl Record for u8 {
    open spec fn fits(value: u8) -> bool {
        true
    }

    open spec fn valid(value: u8) -> bool {
        true
    }

    open spec fn layout(value: u8) -> Seq<u8> {
        seq![value]
    }

    open spec fn parse(bytes: Seq<u8>, at: int) -> Option<(u8, int)> {
        if 0 <= at < bytes.len() {
            Some((bytes[at], at + 1))
        } else {
            None
        }
    }

    proof fn lemma_round_trip(value: u8, bytes: Seq<u8>, at: int) {
        assert(bytes[at + 0] == seq![value][0]);
    }

    proof fn lemma_progress(bytes: Seq<u8>, at: int) {
    }

    fn write(&self, out: &mut Vec<u8>) -> (written: bool) {
        out.push(*self);
        assert(out@ =~= old(out)@ + seq![*self]);
        true
    }

    fn read(bytes: &[u8], at: usize) -> (result: Option<(u8, usize)>) {
        if at < bytes.len() {
            Some((bytes[at], at + 1))
        } else {
            None
        }
    }
}

/// A flag is the byte 0 or 1.
impl Record for bool {
    open spec fn fits(value: bool) -> bool {
        true
    }

    open spec fn valid(value: bool) -> bool {
        true
    }

    open spec fn layout(value: bool) -> Seq<u8> {
        seq![if value { 1u8 } else { 0u8 }]
    }

    open spec fn parse(bytes: Seq<u8>, at: int) -> Option<(bool, int)> {
        if 0 <= at < bytes.len() && bytes[at] <= 1 {
            Some((bytes[at] == 1, at + 1))
        } else {
            None
        }
    }

    proof fn lemma_round_trip(value: bool, bytes: Seq<u8>, at: int) {
        assert(bytes[at + 0] == Self::layout(value)[0]);
    }

    proof fn lemma_progress(bytes: Seq<u8>, at: int) {
    }

    fn write(&self, out: &mut Vec<u8>) -> (written: bool) {
        let byte: u8 = if *self { 1 } else { 0 };
        out.push(byte);
        assert(out@ =~= old(out)@ + Self::layout(*self));
        true
    }

    fn read(bytes: &[u8], at: usize) -> (result: Option<(bool, usize)>) {
        if at < bytes.len() && bytes[at] <= 1 {
            Some((bytes[at] == 1, at + 1))
        } else {
            None
        }
    }
}

impl Record for u32 {
    open spec fn fits(value: u32) -> bool {
        true
    }

    open spec fn valid(value: u32) -> bool {
        true
    }

    open spec fn layout(value: u32) -> Seq<u8> {
        bytes::be_u32(value)
    }

    open spec fn parse(bytes: Seq<u8>, at: int) -> Option<(u32, int)> {
        if 0 <= at && at + 4 <= bytes.len() {
            Some((bytes::u32_at(bytes, at) as u32, at + 4))
        } else {
            None
        }
    }

    proof fn lemma_round_trip(value: u32, bytes: Seq<u8>, at: int) {
        bytes::lemma_u32_round_trip(bytes, at, value);
    }

    proof fn lemma_progress(bytes: Seq<u8>, at: int) {
    }

    fn write(&self, out: &mut Vec<u8>) -> (written: bool) {
        push_u32(out, *self);
        true
    }

    fn read(bytes: &[u8], at: usize) -> (result: Option<(u32, usize)>) {
        if bytes.len() - at >= 4 {
            Some((read_u32_at(bytes, at), at + 4))
        } else {
            None
        }
    }
}

impl Record for u64 {
    open spec fn fits(value: u64) -> bool {
        true
    }

    open spec fn valid(value: u64) -> bool {
        true
    }

    open spec fn layout(value: u64) -> Seq<u8> {
        bytes::be_u64(value)
    }

    open spec fn parse(bytes: Seq<u8>, at: int) -> Option<(u64, int)> {
        if 0 <= at && at + 8 <= bytes.len() {
            Some((bytes::u64_at(bytes, at) as u64, at + 8))
        } else {
            None
        }
    }

    proof fn lemma_round_trip(value: u64, bytes: Seq<u8>, at: int) {
        bytes::lemma_u64_round_trip(bytes, at, value);
    }

    proof fn lemma_progress(bytes: Seq<u8>, at: int) {
    }

    fn write(&self, out: &mut Vec<u8>) -> (written: bool) {
        push_u64(out, *self);
        true
    }

    fn read(bytes: &[u8], at: usize) -> (result: Option<(u64, usize)>) {
        if bytes.len() - at >= 8 {
            Some((read_u64_at(bytes, at), at + 8))
        } else {
            None
        }
    }
}

impl Record for i64 {
    open spec fn fits(value: i64) -> bool {
        true
    }

    open spec fn valid(value: i64) -> bool {
        true
    }

    open spec fn layout(value: i64) -> Seq<u8> {
        bytes::be_i64(value)
    }

    open spec fn parse(bytes: Seq<u8>, at: int) -> Option<(i64, int)> {
        if 0 <= at && at + 8 <= bytes.len() {
            Some((bytes::i64_at(bytes, at) as i64, at + 8))
        } else {
            None
        }
    }

    proof fn lemma_round_trip(value: i64, bytes: Seq<u8>, at: int) {
        bytes::lemma_i64_round_trip(bytes, at, value);
    }

    proof fn lemma_progress(bytes: Seq<u8>, at: int) {
    }

    fn write(&self, out: &mut Vec<u8>) -> (written: bool) {
        push_i64(out, *self);
        true
    }

    fn read(bytes: &[u8], at: usize) -> (result: Option<(i64, usize)>) {
        if bytes.len() - at >= 8 {
            Some((read_i64_at(bytes, at), at + 8))
        } else {
            None
        }
    }
}

pub open spec fn option_fits<T: Record>(value: Option<T::V>) -> bool {
    value matches Some(inner) ==> T::fits(inner)
}

pub open spec fn option_valid<T: Record>(value: Option<T::V>) -> bool {
    value matches Some(inner) ==> T::valid(inner)
}

/// The layout of an optional value: a presence byte, then the value.
pub open spec fn option_layout<T: Record>(value: Option<T::V>) -> Seq<u8> {
    match value {
        Some(inner) => seq![1u8] + T::layout(inner),
        None => seq![0u8],
    }
}

/// The optional value read at `at`.
pub open spec fn option_parse<T: Record>(bytes: Seq<u8>, at: int) -> Option<(Option<T::V>, int)> {
    match <bool as Record>::parse(bytes, at) {
        Some((true, next)) => match T::parse(bytes, next) {
            Some((inner, end)) => Some((Some(inner), end)),
            None => None,
        },
        Some((false, next)) => Some((None, next)),
        None => None,
    }
}

/// A written optional value is read back.
pub proof fn lemma_option_round_trip<T: Record>(value: Option<T::V>, bytes: Seq<u8>, at: int)
    requires
        option_fits::<T>(value),
        option_valid::<T>(value),
        bytes::holds_at(bytes, at, option_layout::<T>(value)),
    ensures
        option_parse::<T>(bytes, at) == Some((value, at + option_layout::<T>(value).len())),
{
    match value {
        Some(inner) => {
            bytes::lemma_holds_split(bytes, at, seq![1u8], T::layout(inner));
            <bool as Record>::lemma_round_trip(true, bytes, at);
            T::lemma_round_trip(inner, bytes, at + 1);
        },
        None => {
            <bool as Record>::lemma_round_trip(false, bytes, at);
        },
    }
}

/// Reading an optional value never moves back.
pub proof fn lemma_option_progress<T: Record>(bytes: Seq<u8>, at: int)
    requires
        0 <= at <= bytes.len(),
    ensures
        option_parse::<T>(bytes, at) matches Some((_, next)) ==> at <= next <= bytes.len(),
{
    if let Some((true, next)) = <bool as Record>::parse(bytes, at) {
        T::lemma_progress(bytes, next);
    }
}

/// Appends an optional value.
pub fn write_option<T: Record>(value: &Option<T>, out: &mut Vec<u8>) -> (written: bool)
    ensures
        written == option_fits::<T>(value.deep_view()),
        written ==> final(out)@ == old(out)@ + option_layout::<T>(value.deep_view()),
{
    match value {
        Some(inner) => {
            out.push(1);
            let ghost head = out@;
            let written = inner.write(out);
            if written {
                assert(head =~= old(out)@ + seq![1u8]);
                assert(out@ =~= old(out)@ + (seq![1u8] + T::layout(inner.deep_view())));
            }
            written
        },
        None => {
            out.push(0);
            assert(out@ =~= old(out)@ + seq![0u8]);
            true
        },
    }
}

/// Reads an optional value.
pub fn read_option<T: Record>(bytes: &[u8], at: usize) -> (result: Option<(Option<T>, usize)>)
    requires
        at <= bytes@.len(),
    ensures
        read_matches(result, option_parse::<T>(bytes@, at as int)),
        result matches Some((_, next)) ==> at <= next <= bytes@.len(),
{
    match <bool as Record>::read(bytes, at) {
        Some((present, next)) => {
            if present {
                match T::read(bytes, next) {
                    Some((inner, end)) => Some((Some(inner), end)),
                    None => None,
                }
            } else {
                Some((None, next))
            }
        },
        None => None,
    }
}

pub open spec fn elements_fit<T: Record>(values: Seq<T::V>) -> bool {
    forall|i: int| 0 <= i < values.len() ==> #[trigger] T::fits(values[i])
}

pub open spec fn elements_valid<T: Record>(values: Seq<T::V>) -> bool {
    forall|i: int| 0 <= i < values.len() ==> #[trigger] T::valid(values[i])
}

pub open spec fn list_fits<T: Record>(values: Seq<T::V>) -> bool {
    values.len() <= MAX_RECORD_LENGTH && elements_fit::<T>(values)
}

/// The layouts of the elements, one after the other.
pub open spec fn elements_layout<T: Record>(values: Seq<T::V>) -> Seq<u8>
    decreases values.len(),
{
    if values.len() == 0 {
        Seq::empty()
    } else {
        elements_layout::<T>(values.drop_last()) + T::layout(values.last())
    }
}

/// The layout of a list: its length, then its elements.
pub open spec fn list_layout<T: Record>(values: Seq<T::V>) -> Seq<u8> {
    bytes::be_u32(values.len() as u32) + elements_layout::<T>(values)
}

/// The `count` elements read from `at` on.
pub open spec fn elements_parse<T: Record>(bytes: Seq<u8>, at: int, count: nat) -> Option<
    (Seq<T::V>, int),
>
    decreases count,
{
    if count == 0 {
        Some((Seq::empty(), at))
    } else {
        match elements_parse::<T>(bytes, at, (count - 1) as nat) {
            Some((values, next)) => match T::parse(bytes, next) {
                Some((value, end)) => Some((values.push(value), end)),
                None => None,
            },
            None => None,
        }
    }
}

/// The list read at `at`.
pub open spec fn list_parse<T: Record>(bytes: Seq<u8>, at: int) -> Option<(Seq<T::V>, int)> {
    match <u32 as Record>::parse(bytes, at) {
        Some((length, start)) => if length <= MAX_RECORD_LENGTH {
            elements_parse::<T>(bytes, start, length as nat)
        } else {
            None
        },
        None => None,
    }
}

/// Written elements are read back.
pub proof fn lemma_elements_round_trip<T: Record>(values: Seq<T::V>, bytes: Seq<u8>, at: int)
    requires
        elements_fit::<T>(values),
        elements_valid::<T>(values),
        bytes::holds_at(bytes, at, elements_layout::<T>(values)),
    ensures
        elements_parse::<T>(bytes, at, values.len()) == Some(
            (values, at + elements_layout::<T>(values).len()),
        ),
    decreases values.len(),
{
    if values.len() == 0 {
        assert(values =~= Seq::empty());
    } else {
        let init = values.drop_last();
        let last = values.last();
        bytes::lemma_holds_split(bytes, at, elements_layout::<T>(init), T::layout(last));
        assert(elements_fit::<T>(init)) by {
            assert forall|i: int| 0 <= i < init.len() implies #[trigger] T::fits(init[i]) by {
                assert(T::fits(values[i]));
            }
        }
        assert(elements_valid::<T>(init)) by {
            assert forall|i: int| 0 <= i < init.len() implies #[trigger] T::valid(init[i]) by {
                assert(T::valid(values[i]));
            }
        }
        lemma_elements_round_trip::<T>(init, bytes, at);
        assert(T::fits(values[values.len() - 1]));
        assert(T::valid(values[values.len() - 1]));
        T::lemma_round_trip(last, bytes, at + elements_layout::<T>(init).len());
        assert(init.push(last) =~= values);
    }
}

/// A written list is read back.
pub proof fn lemma_list_round_trip<T: Record>(values: Seq<T::V>, bytes: Seq<u8>, at: int)
    requires
        list_fits::<T>(values),
        elements_valid::<T>(values),
        bytes::holds_at(bytes, at, list_layout::<T>(values)),
    ensures
        list_parse::<T>(bytes, at) == Some((values, at + list_layout::<T>(values).len())),
{
    bytes::lemma_holds_split(bytes, at, bytes::be_u32(values.len() as u32), elements_layout::<T>(values));
    bytes::lemma_u32_round_trip(bytes, at, values.len() as u32);
    lemma_elements_round_trip::<T>(values, bytes, at + 4);
}

/// Reading elements never moves back.
pub proof fn lemma_elements_progress<T: Record>(bytes: Seq<u8>, at: int, count: nat)
    requires
        0 <= at <= bytes.len(),
    ensures
        elements_parse::<T>(bytes, at, count) matches Some((values, next)) ==> at <= next
            <= bytes.len() && values.len() == count,
    decreases count,
{
    if count > 0 {
        lemma_elements_progress::<T>(bytes, at, (count - 1) as nat);
        if let Some((_, next)) = elements_parse::<T>(bytes, at, (count - 1) as nat) {
            T::lemma_progress(bytes, next);
        }
    }
}

/// Reading a list never moves back.
pub proof fn lemma_list_progress<T: Record>(bytes: Seq<u8>, at: int)
    requires
        0 <= at <= bytes.len(),
    ensures
        list_parse::<T>(bytes, at) matches Some((_, next)) ==> at <= next <= bytes.len(),
{
    if let Some((length, start)) = <u32 as Record>::parse(bytes, at) {
        lemma_elements_progress::<T>(bytes, start, length as nat);
    }
}

/// Where an element cannot be read, no longer run can be.
proof fn lemma_elements_stop<T: Record>(bytes: Seq<u8>, at: int, count: nat, more: nat)
    requires
        elements_parse::<T>(bytes, at, count) is None,
        count <= more,
    ensures
        elements_parse::<T>(bytes, at, more) is None,
    decreases more,
{
    if count < more {
        lemma_elements_stop::<T>(bytes, at, count, (more - 1) as nat);
    }
}

/// Appends a list, unless it or one of its elements cannot be described.
pub fn write_list<T: Record>(values: &Vec<T>, out: &mut Vec<u8>) -> (written: bool)
    ensures
        written == list_fits::<T>(values.deep_view()),
        written ==> final(out)@ == old(out)@ + list_layout::<T>(values.deep_view()),
{
    let ghost models = values.deep_view();
    if values.len() > MAX_RECORD_LENGTH {
        return false;
    }
    push_u32(out, values.len() as u32);
    let ghost head = out@;
    let mut index: usize = 0;
    assert(models.take(0) =~= Seq::empty());
    assert(out@ =~= head + elements_layout::<T>(models.take(0)));
    while index < values.len()
        invariant
            index <= values.len(),
            models == values.deep_view(),
            elements_fit::<T>(models.take(index as int)),
            out@ == head + elements_layout::<T>(models.take(index as int)),
        decreases values.len() - index,
    {
        let ghost before = out@;
        let ghost prefix = models.take(index as int);
        let ghost longer = models.take(index + 1);
        let written = values[index].write(out);
        assert(longer.drop_last() =~= prefix);
        assert(longer.last() == values@[index as int].deep_view());
        if !written {
            assert(!T::fits(models[index as int]));
            return false;
        }
        assert forall|i: int| 0 <= i < longer.len() implies #[trigger] T::fits(longer[i]) by {
            if i < index {
                assert(T::fits(prefix[i]));
            }
        }
        assert(out@ =~= head + elements_layout::<T>(longer));
        index = index + 1;
    }
    assert(models.take(index as int) =~= models);
    assert(out@ =~= old(out)@ + list_layout::<T>(models));
    true
}

/// Reads a list.
pub fn read_list<T: Record>(bytes: &[u8], at: usize) -> (result: Option<(Vec<T>, usize)>)
    requires
        at <= bytes@.len(),
    ensures
        read_matches(result, list_parse::<T>(bytes@, at as int)),
        result matches Some((_, next)) ==> at <= next <= bytes@.len(),
{
    match <u32 as Record>::read(bytes, at) {
        Some((length, start)) => {
            if length as usize > MAX_RECORD_LENGTH {
                return None;
            }
            let mut values: Vec<T> = Vec::new();
            let mut next: usize = start;
            let mut index: u32 = 0;
            assert(values.deep_view() =~= Seq::empty());
            while index < length
                invariant
                    index <= length <= MAX_RECORD_LENGTH,
                    at <= start <= next <= bytes@.len(),
                    <u32 as Record>::parse(bytes@, at as int) == Some((length, start as int)),
                    elements_parse::<T>(bytes@, start as int, index as nat) == Some(
                        (values.deep_view(), next as int),
                    ),
                decreases length - index,
            {
                match T::read(bytes, next) {
                    Some((value, end)) => {
                        let ghost before = values.deep_view();
                        values.push(value);
                        assert(values.deep_view() =~= before.push(value.deep_view()));
                        next = end;
                        index = index + 1;
                    },
                    None => {
                        proof {
                            lemma_elements_stop::<T>(
                                bytes@,
                                start as int,
                                (index + 1) as nat,
                                length as nat,
                            );
                        }
                        return None;
                    },
                }
            }
            Some((values, next))
        },
        None => None,
    }
}

impl<T: Record> Record for Option<T> {
    open spec fn fits(value: Option<T::V>) -> bool {
        option_fits::<T>(value)
    }

    open spec fn valid(value: Option<T::V>) -> bool {
        option_valid::<T>(value)
    }

    open spec fn layout(value: Option<T::V>) -> Seq<u8> {
        option_layout::<T>(value)
    }

    open spec fn parse(bytes: Seq<u8>, at: int) -> Option<(Option<T::V>, int)> {
        option_parse::<T>(bytes, at)
    }

    proof fn lemma_round_trip(value: Option<T::V>, bytes: Seq<u8>, at: int) {
        lemma_option_round_trip::<T>(value, bytes, at);
    }

    proof fn lemma_progress(bytes: Seq<u8>, at: int) {
        lemma_option_progress::<T>(bytes, at);
    }

    fn write(&self, out: &mut Vec<u8>) -> (written: bool) {
        write_option(self, out)
    }

    fn read(bytes: &[u8], at: usize) -> (result: Option<(Option<T>, usize)>) {
        read_option(bytes, at)
    }
}

impl<T: Record> Record for Vec<T> {
    open spec fn fits(value: Seq<T::V>) -> bool {
        list_fits::<T>(value)
    }

    open spec fn valid(value: Seq<T::V>) -> bool {
        elements_valid::<T>(value)
    }

    open spec fn layout(value: Seq<T::V>) -> Seq<u8> {
        list_layout::<T>(value)
    }

    open spec fn parse(bytes: Seq<u8>, at: int) -> Option<(Seq<T::V>, int)> {
        list_parse::<T>(bytes, at)
    }

    proof fn lemma_round_trip(value: Seq<T::V>, bytes: Seq<u8>, at: int) {
        lemma_list_round_trip::<T>(value, bytes, at);
    }

    proof fn lemma_progress(bytes: Seq<u8>, at: int) {
        lemma_list_progress::<T>(bytes, at);
    }

    fn write(&self, out: &mut Vec<u8>) -> (written: bool) {
        write_list(self, out)
    }

    fn read(bytes: &[u8], at: usize) -> (result: Option<(Vec<T>, usize)>) {
        read_list(bytes, at)
    }
}

/// A pair is its first value, then its second.
impl<A: Record, B: Record> Record for (A, B) {
    open spec fn fits(value: (A::V, B::V)) -> bool {
        A::fits(value.0) && B::fits(value.1)
    }

    open spec fn valid(value: (A::V, B::V)) -> bool {
        A::valid(value.0) && B::valid(value.1)
    }

    open spec fn layout(value: (A::V, B::V)) -> Seq<u8> {
        A::layout(value.0) + B::layout(value.1)
    }

    open spec fn parse(bytes: Seq<u8>, at: int) -> Option<((A::V, B::V), int)> {
        match A::parse(bytes, at) {
            Some((first, middle)) => match B::parse(bytes, middle) {
                Some((second, next)) => Some(((first, second), next)),
                None => None,
            },
            None => None,
        }
    }

    proof fn lemma_round_trip(value: (A::V, B::V), bytes: Seq<u8>, at: int) {
        bytes::lemma_holds_split(bytes, at, A::layout(value.0), B::layout(value.1));
        A::lemma_round_trip(value.0, bytes, at);
        B::lemma_round_trip(value.1, bytes, at + A::layout(value.0).len());
    }

    proof fn lemma_progress(bytes: Seq<u8>, at: int) {
        A::lemma_progress(bytes, at);
        if let Some((_, middle)) = A::parse(bytes, at) {
            B::lemma_progress(bytes, middle);
        }
    }

    fn write(&self, out: &mut Vec<u8>) -> (written: bool) {
        if !self.0.write(out) {
            return false;
        }
        if !self.1.write(out) {
            return false;
        }
        assert(out@ =~= old(out)@ + Self::layout(self.deep_view()));
        true
    }

    fn read(bytes: &[u8], at: usize) -> (result: Option<((A, B), usize)>) {
        match A::read(bytes, at) {
            Some((first, middle)) => match B::read(bytes, middle) {
                Some((second, next)) => Some(((first, second), next)),
                None => None,
            },
            None => None,
        }
    }
}

/// Reads a record that fills the whole buffer.
pub fn read_exact<T: Record>(bytes: &[u8]) -> (result: Option<T>)
    ensures
        match (result, parse_exact::<T>(bytes@)) {
            (Some(value), Some(model)) => value.deep_view() == model,
            (None, None) => true,
            _ => false,
        },
{
    match T::read(bytes, 0) {
        Some((value, next)) => if next == bytes.len() {
            Some(value)
        } else {
            None
        },
        None => None,
    }
}

/// The record that fills the whole of `bytes`.
pub open spec fn parse_exact<T: Record>(bytes: Seq<u8>) -> Option<T::V> {
    match T::parse(bytes, 0) {
        Some((value, next)) => if next == bytes.len() {
            Some(value)
        } else {
            None
        },
        None => None,
    }
}

/// A written record that fills the whole buffer is read back.
pub proof fn lemma_exact_round_trip<T: Record>(value: T::V)
    requires
        T::fits(value),
        T::valid(value),
    ensures
        parse_exact::<T>(T::layout(value)) == Some(value),
{
    T::lemma_round_trip(value, T::layout(value), 0);
}

/// A record never fills a buffer that goes on after it.
pub proof fn lemma_trailing_bytes<T: Record>(value: T::V, tail: Seq<u8>)
    requires
        T::fits(value),
        T::valid(value),
        tail.len() > 0,
    ensures
        parse_exact::<T>(T::layout(value) + tail) is None,
{
    T::lemma_round_trip(value, T::layout(value) + tail, 0);
}

/// A tag before a record leaves the record to be read from the rest.
pub proof fn lemma_tagged_record<T: Record>(tag: u8, value: T::V, tail: Seq<u8>)
    requires
        T::fits(value),
        T::valid(value),
    ensures
        parse_exact::<T>((seq![tag] + T::layout(value)).skip(1)) == Some(value),
        tail.len() > 0 ==> parse_exact::<T>((seq![tag] + T::layout(value) + tail).skip(1)) is None,
{
    lemma_exact_round_trip::<T>(value);
    assert((seq![tag] + T::layout(value)).skip(1) =~= T::layout(value));
    if tail.len() > 0 {
        lemma_trailing_bytes::<T>(value, tail);
        assert((seq![tag] + T::layout(value) + tail).skip(1) =~= T::layout(value) + tail);
    }
}

/// Decodes UTF-8.
///
/// Calls `String::from_utf8` of the standard library, which succeeds exactly on well-formed
/// UTF-8 and then returns the characters that the bytes encode.
#[verifier::external_body]
fn text_from_utf8(bytes: Vec<u8>) -> (result: Option<String>)
    ensures
        match result {
            Some(text) => vstd::utf8::valid_utf8(bytes@) && text@ == vstd::utf8::decode_utf8(bytes@),
            None => !vstd::utf8::valid_utf8(bytes@),
        },
{
    String::from_utf8(bytes).ok()
}

/// Text is the run of its UTF-8 bytes.
impl Record for String {
    open spec fn fits(value: Seq<char>) -> bool {
        list_fits::<u8>(vstd::utf8::encode_utf8(value))
    }

    open spec fn valid(value: Seq<char>) -> bool {
        true
    }

    open spec fn layout(value: Seq<char>) -> Seq<u8> {
        list_layout::<u8>(vstd::utf8::encode_utf8(value))
    }

    open spec fn parse(bytes: Seq<u8>, at: int) -> Option<(Seq<char>, int)> {
        match list_parse::<u8>(bytes, at) {
            Some((run, next)) => if vstd::utf8::valid_utf8(run) {
                Some((vstd::utf8::decode_utf8(run), next))
            } else {
                None
            },
            None => None,
        }
    }

    proof fn lemma_round_trip(value: Seq<char>, bytes: Seq<u8>, at: int) {
        lemma_list_round_trip::<u8>(vstd::utf8::encode_utf8(value), bytes, at);
        vstd::utf8::encode_utf8_valid_utf8(value);
        vstd::utf8::encode_utf8_decode_utf8(value);
    }

    proof fn lemma_progress(bytes: Seq<u8>, at: int) {
        lemma_list_progress::<u8>(bytes, at);
    }

    fn write(&self, out: &mut Vec<u8>) -> (written: bool) {
        let run: Vec<u8> = vstd::slice::slice_to_vec(self.as_str().as_bytes());
        assert(run.deep_view() =~= run@);
        write_list(&run, out)
    }

    fn read(bytes: &[u8], at: usize) -> (result: Option<(String, usize)>) {
        match read_list::<u8>(bytes, at) {
            Some((run, next)) => {
                assert(run.deep_view() =~= run@);
                match text_from_utf8(run) {
                    Some(text) => Some((text, next)),
                    None => None,
                }
            },
            None => None,
        }
    }
}

} // verus!
