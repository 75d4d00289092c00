//! Logic used to deserialize data from a `typedstream`, focussing specifically on
//! `NSAttributedString` archives.
//!
//! The reader is specified as a state machine over [`ReaderState`]: every step of the
//! deserializer has a spec function that maps a state to the state after the step and the
//! step's result, and each executable step is proved to follow it. Recursive steps take a
//! `fuel` bound; every recursive call consumes at least one byte of the stream, so a fuel
//! larger than the number of unread bytes is never exhausted.
use std::collections::HashSet;
use vstd::prelude::*;
use vstd::utf8::*;

use crate::{
    error::typedstream::{TypedStreamError, TypedStreamErrorView},
    util::text::{str_eq, utf8_to_str},
    util::typedstream::models::{
        archivables_view, array_type_of, clone_outputs, clone_types, outputs_view, types_view,
        Archivable, ArchivableView, Class, OutputData,
        ClassResult, ClassResultView, class_result_value, ClassView, OutputDataView, StoredFloat, Type, TypeView,
        type_of_byte,
    },
};

verus! {

/// Indicates an [`i16`] in the byte stream
pub const I_16: u8 = 0x81;

/// Indicates an [`i32`] in the byte stream
pub const I_32: u8 = 0x82;

/// Indicates an [`f32`] or [`f64`] in the byte stream; the [`Type`] determines the size
pub const DECIMAL: u8 = 0x83;

/// Indicates the start of a new object
pub const START: u8 = 0x84;

/// Indicates that there is no more data to parse, for example the end of a class inheritance chain
pub const EMPTY: u8 = 0x85;

/// Indicates the last byte of an object
pub const END: u8 = 0x86;

/// Bytes equal or greater in value than the reference tag indicate an index in the table of already-seen types
pub const REFERENCE_TAG: u64 = 0x92;

/// The state of a [`TypedStreamReader`].
pub struct ReaderState {
    /// The bytes being parsed
    pub stream: Seq<u8>,
    /// The position of the next byte to read
    pub idx: int,
    /// The types seen so far, in order of appearance
    pub types_table: Seq<Seq<TypeView>>,
    /// The archivable data seen so far, in order of appearance
    pub object_table: Seq<ArchivableView>,
    /// The type references whose embedded data was already copied to the object table
    pub seen_embedded_types: Set<u32>,
    /// The position of the current [`Archivable::Placeholder`]
    pub placeholder: Option<usize>,
}

/// A reader step's outcome: the state after the step and its result.
pub type Step<T> = (ReaderState, Result<T, TypedStreamErrorView>);

/// The invariant of a reader: the position is at most one past the end of the stream and a
/// reserved placeholder names an entry of the object table.
pub open spec fn state_wf(st: ReaderState) -> bool {
    &&& 0 <= st.idx <= st.stream.len() + 1
    &&& st.stream.len() <= isize::MAX
    &&& (st.placeholder matches Some(p) ==> p < st.object_table.len())
}

/// The fuel that a step started in `st` needs: more than the number of unread bytes.
pub open spec fn enough_fuel(st: ReaderState, fuel: nat) -> bool {
    fuel > st.stream.len() + 1 - st.idx
}

/// The reader state at the start of a stream.
pub open spec fn initial_state(stream: Seq<u8>) -> ReaderState {
    ReaderState {
        stream,
        idx: 0,
        types_table: seq![],
        object_table: seq![],
        seen_embedded_types: Set::empty(),
        placeholder: None,
    }
}

/// `after` differs from `before` at most in its position.
pub open spec fn only_moved(before: ReaderState, after: ReaderState) -> bool {
    after == with_idx(before, after.idx)
}

/// `st` with the position moved to `i`.
pub open spec fn with_idx(st: ReaderState, i: int) -> ReaderState {
    ReaderState { idx: i, ..st }
}

/// The byte at position `i`, or the out-of-bounds error that reading it gives.
pub open spec fn byte_at(st: ReaderState, i: int) -> Result<u8, TypedStreamErrorView> {
    if 0 <= i < st.stream.len() {
        Ok(st.stream[i])
    } else {
        Err(TypedStreamErrorView::OutOfBounds(i as usize, st.stream.len() as usize))
    }
}

/// Unsigned little-endian value of two bytes.
pub open spec fn le_u16(b: Seq<u8>) -> int {
    b[0] + 256 * b[1]
}

/// Unsigned little-endian value of four bytes.
pub open spec fn le_u32(b: Seq<u8>) -> int {
    b[0] + 256 * b[1] + 65536 * b[2] + 16777216 * b[3]
}

/// Unsigned little-endian value of eight bytes.
pub open spec fn le_u64(b: Seq<u8>) -> int {
    le_u32(b) + 4294967296 * le_u32(b.subrange(4, 8))
}

/// The two's complement value of an unsigned number of `bits` bits.
pub open spec fn twos_complement(v: int, bits: nat) -> int {
    if v >= vstd::arithmetic::power2::pow2((bits - 1) as nat) {
        v - vstd::arithmetic::power2::pow2(bits)
    } else {
        v
    }
}

/// Reading `n` bytes.
pub open spec fn spec_read_exact(st: ReaderState, n: usize) -> Step<Seq<u8>> {
    if st.idx + n <= st.stream.len() {
        (with_idx(st, st.idx + n), Ok(st.stream.subrange(st.idx, st.idx + n)))
    } else {
        (
            st,
            Err(
                TypedStreamErrorView::OutOfBounds(
                    (st.idx as usize).wrapping_add(n),
                    st.stream.len() as usize,
                ),
            ),
        )
    }
}

/// Reading an integer of the width its prefix gives, as a signed value.
pub open spec fn spec_read_signed_int(st: ReaderState, fuel: nat) -> Step<i64>
    decreases fuel,
{
    if fuel == 0 {
        (st, Err(TypedStreamErrorView::InvalidHeader))
    } else {
        match byte_at(st, st.idx) {
            Err(e) => (st, Err(e)),
            Ok(b) => if b == I_16 {
                let (s1, r) = spec_read_exact(with_idx(st, st.idx + 1), 2);
                match r {
                    Err(e) => (s1, Err(e)),
                    Ok(bs) => (s1, Ok(twos_complement(le_u16(bs), 16) as i64)),
                }
            } else if b == I_32 {
                let (s1, r) = spec_read_exact(with_idx(st, st.idx + 1), 4);
                match r {
                    Err(e) => (s1, Err(e)),
                    Ok(bs) => (s1, Ok(twos_complement(le_u32(bs), 32) as i64)),
                }
            } else if b > REFERENCE_TAG {
                match byte_at(st, st.idx + 1) {
                    Err(e) => (st, Err(e)),
                    Ok(next) => if next != END {
                        spec_read_signed_int(with_idx(st, st.idx + 1), (fuel - 1) as nat)
                    } else {
                        (with_idx(st, st.idx + 1), Ok(twos_complement(b as int, 8) as i64))
                    },
                }
            } else {
                (with_idx(st, st.idx + 1), Ok(twos_complement(b as int, 8) as i64))
            },
        }
    }
}

/// Reading an integer of the width its prefix gives, as an unsigned value.
pub open spec fn spec_read_unsigned_int(st: ReaderState) -> Step<u64> {
    match byte_at(st, st.idx) {
        Err(e) => (st, Err(e)),
        Ok(b) => if b == I_16 {
            let (s1, r) = spec_read_exact(with_idx(st, st.idx + 1), 2);
            match r {
                Err(e) => (s1, Err(e)),
                Ok(bs) => (s1, Ok(le_u16(bs) as u64)),
            }
        } else if b == I_32 {
            let (s1, r) = spec_read_exact(with_idx(st, st.idx + 1), 4);
            match r {
                Err(e) => (s1, Err(e)),
                Ok(bs) => (s1, Ok(le_u32(bs) as u64)),
            }
        } else {
            (with_idx(st, st.idx + 1), Ok(b as u64))
        },
    }
}

/// Reading a float stored either as `width` raw bytes after a `DECIMAL` tag, or as an integer.
pub open spec fn spec_read_decimal(st: ReaderState, width: usize, fuel: nat) -> Step<StoredFloat> {
    match byte_at(st, st.idx) {
        Err(e) => (st, Err(e)),
        Ok(b) => if b == DECIMAL {
            let (s1, r) = spec_read_exact(with_idx(st, st.idx + 1), width);
            match r {
                Err(e) => (s1, Err(e)),
                Ok(bs) => (
                    s1,
                    Ok(
                        StoredFloat::Bits(
                            if width == 4 {
                                le_u32(bs) as u64
                            } else {
                                le_u64(bs) as u64
                            },
                        ),
                    ),
                ),
            }
        } else {
            let start = if b == I_16 || b == I_32 {
                st
            } else {
                with_idx(st, st.idx + 1)
            };
            let (s1, r) = spec_read_signed_int(start, fuel);
            match r {
                Err(e) => (s1, Err(e)),
                Ok(v) => (s1, Ok(StoredFloat::Integer(v))),
            }
        },
    }
}

/// A float stored as its bits (tag `0x83`, then `width` bytes, little-endian) reads as those
/// bits and takes up exactly `width + 1` bytes.
pub proof fn lemma_decimal_from_bits(st: ReaderState, width: usize, fuel: nat)
    requires
        width == 4 || width == 8,
        0 <= st.idx,
        st.idx + 1 + width <= st.stream.len(),
        st.stream[st.idx] == 0x83u8,
    ensures
        ({
            let b = |k: int| st.stream[st.idx + 1 + k] as int;
            let low = b(0) + 256 * b(1) + 65536 * b(2) + 16777216 * b(3);
            let bits = if width == 4 {
                low
            } else {
                low + 4294967296 * (b(4) + 256 * b(5) + 65536 * b(6) + 16777216 * b(7))
            };
            spec_read_decimal(st, width, fuel) == (
                with_idx(st, st.idx + 1 + width),
                Ok::<StoredFloat, TypedStreamErrorView>(StoredFloat::Bits(bits as u64)),
            )
        }),
{
    let s1 = with_idx(st, st.idx + 1);
    let bs = s1.stream.subrange(s1.idx, s1.idx + width);
    assert(bs[0] == st.stream[st.idx + 1]);
    assert(bs[1] == st.stream[st.idx + 2]);
    assert(bs[2] == st.stream[st.idx + 3]);
    assert(bs[3] == st.stream[st.idx + 4]);
    if width == 8 {
        let hi = bs.subrange(4, 8);
        assert(hi[0] == st.stream[st.idx + 5]);
        assert(hi[1] == st.stream[st.idx + 6]);
        assert(hi[2] == st.stream[st.idx + 7]);
        assert(hi[3] == st.stream[st.idx + 8]);
    }
    assert(with_idx(s1, s1.idx + width) == with_idx(st, st.idx + 1 + width));
}

/// A float stored as a two-byte integer (tag `0x81`, then the value, little-endian, in two's
/// complement) reads as that integer and takes up exactly three bytes.
pub proof fn lemma_decimal_from_i16(st: ReaderState, width: usize, fuel: nat)
    requires
        fuel > 0,
        0 <= st.idx,
        st.idx + 3 <= st.stream.len(),
        st.stream[st.idx] == 0x81u8,
    ensures
        ({
            let x = st.stream[st.idx + 1] + 256 * st.stream[st.idx + 2];
            spec_read_decimal(st, width, fuel) == (
                with_idx(st, st.idx + 3),
                Ok::<StoredFloat, TypedStreamErrorView>(
                    StoredFloat::Integer(
                        (if x >= 0x8000 {
                            x - 0x10000
                        } else {
                            x
                        }) as i64,
                    ),
                ),
            )
        }),
{
    vstd::arithmetic::power2::lemma2_to64();
    let s1 = with_idx(st, st.idx + 1);
    assert(s1.stream.subrange(s1.idx, s1.idx + 2)[0] == st.stream[st.idx + 1]);
    assert(s1.stream.subrange(s1.idx, s1.idx + 2)[1] == st.stream[st.idx + 2]);
    assert(with_idx(s1, s1.idx + 2) == with_idx(st, st.idx + 3));
}

/// A float stored as a four-byte integer (tag `0x82`, then the value, little-endian, in two's
/// complement) reads as that integer and takes up exactly five bytes.
pub proof fn lemma_decimal_from_i32(st: ReaderState, width: usize, fuel: nat)
    requires
        fuel > 0,
        0 <= st.idx,
        st.idx + 5 <= st.stream.len(),
        st.stream[st.idx] == 0x82u8,
    ensures
        ({
            let x = st.stream[st.idx + 1] + 256 * st.stream[st.idx + 2] + 65536 * st.stream[st.idx
                + 3] + 16777216 * st.stream[st.idx + 4];
            spec_read_decimal(st, width, fuel) == (
                with_idx(st, st.idx + 5),
                Ok::<StoredFloat, TypedStreamErrorView>(
                    StoredFloat::Integer(
                        (if x >= 0x8000_0000 {
                            x - 0x1_0000_0000
                        } else {
                            x
                        }) as i64,
                    ),
                ),
            )
        }),
{
    vstd::arithmetic::power2::lemma2_to64();
    let s1 = with_idx(st, st.idx + 1);
    let bs = s1.stream.subrange(s1.idx, s1.idx + 4);
    assert(bs[0] == st.stream[st.idx + 1]);
    assert(bs[1] == st.stream[st.idx + 2]);
    assert(bs[2] == st.stream[st.idx + 3]);
    assert(bs[3] == st.stream[st.idx + 4]);
    assert(with_idx(s1, s1.idx + 4) == with_idx(st, st.idx + 5));
}

/// Reading `n` bytes as UTF-8 text.
pub open spec fn spec_read_exact_as_string(st: ReaderState, n: usize) -> Step<Seq<char>> {
    let (s1, r) = spec_read_exact(st, n);
    match r {
        Err(e) => (s1, Err(e)),
        Ok(bs) => if valid_utf8(bs) {
            (s1, Ok(decode_utf8(bs)))
        } else {
            (s1, Err(TypedStreamErrorView::StringParseError))
        },
    }
}

/// Reading a length-prefixed string.
pub open spec fn spec_read_string(st: ReaderState) -> Step<Seq<char>> {
    let (s1, r) = spec_read_unsigned_int(st);
    match r {
        Err(e) => (s1, Err(e)),
        Ok(len) => spec_read_exact_as_string(s1, len as usize),
    }
}

/// Reading a reference to a table entry; the position advances even when the byte is no reference.
pub open spec fn spec_read_pointer(st: ReaderState) -> Step<u32> {
    match byte_at(st, st.idx) {
        Err(e) => (st, Err(e)),
        Ok(p) => (
            with_idx(st, st.idx + 1),
            if p >= REFERENCE_TAG {
                Ok((p - REFERENCE_TAG) as u32)
            } else {
                Err(TypedStreamErrorView::InvalidPointer(p))
            },
        ),
    }
}

/// Reading a type encoding: a length-prefixed list of type bytes, or an array declaration.
pub open spec fn spec_read_type(st: ReaderState) -> Step<Seq<TypeView>> {
    let (s1, r) = spec_read_unsigned_int(st);
    match r {
        Err(e) => (s1, Err(e)),
        Ok(len) => {
            let (s2, r2) = spec_read_exact(s1, len as usize);
            match r2 {
                Err(e) => (s2, Err(e)),
                Ok(bs) => if bs.len() > 0 && bs[0] == 0x5b {
                    match array_type_of(bs) {
                        None => (s2, Err(TypedStreamErrorView::InvalidArray)),
                        Some(ts) => (s2, Ok(ts)),
                    }
                } else {
                    (s2, Ok(bs.map_values(|b: u8| type_of_byte(b))))
                },
            }
        },
    }
}

/// Skipping `START` bytes.
pub open spec fn spec_skip_start(st: ReaderState, fuel: nat) -> Step<()>
    decreases fuel,
{
    if fuel == 0 {
        (st, Err(TypedStreamErrorView::InvalidHeader))
    } else {
        match byte_at(st, st.idx) {
            Err(e) => (st, Err(e)),
            Ok(b) => if b == START {
                spec_skip_start(with_idx(st, st.idx + 1), (fuel - 1) as nat)
            } else {
                (st, Ok(()))
            },
        }
    }
}

/// Skipping a byte while the next byte repeats it.
pub open spec fn spec_skip_repeats(st: ReaderState, fuel: nat) -> Step<()>
    decreases fuel,
{
    if fuel == 0 {
        (st, Err(TypedStreamErrorView::InvalidHeader))
    } else {
        match byte_at(st, st.idx) {
            Err(e) => (st, Err(e)),
            Ok(c) => match byte_at(st, st.idx + 1) {
                Err(e) => (st, Err(e)),
                Ok(n) => if c == n {
                    spec_skip_repeats(with_idx(st, st.idx + 1), (fuel - 1) as nat)
                } else {
                    (st, Ok(()))
                },
            },
        }
    }
}

/// Reading a class: a reference to a known one, or a new inheritance chain whose names are
/// added to the types table.
pub open spec fn spec_read_class(st: ReaderState, fuel: nat) -> Step<ClassResultView>
    decreases fuel, 1int,
{
    if fuel == 0 {
        (st, Err(TypedStreamErrorView::InvalidHeader))
    } else {
        match byte_at(st, st.idx) {
            Err(e) => (st, Err(e)),
            Ok(b) => if b == START {
                spec_read_new_class(st, fuel)
            } else if b == EMPTY {
                (with_idx(st, st.idx + 1), Ok(ClassResultView::ClassHierarchy(seq![])))
            } else {
                let (s1, r) = spec_read_pointer(st);
                match r {
                    Err(e) => (s1, Err(e)),
                    Ok(p) => (s1, Ok(ClassResultView::Index(p as usize))),
                }
            },
        }
    }
}

/// Reading a class that starts with `START`: its name length, or a reference when the length
/// is at least the reference tag; then its name, its version and the classes it inherits from.
pub open spec fn spec_read_new_class(st: ReaderState, fuel: nat) -> Step<ClassResultView>
    decreases fuel, 0int,
{
    if fuel == 0 {
        (st, Err(TypedStreamErrorView::InvalidHeader))
    } else {
        let (s1, r1) = spec_skip_start(st, fuel);
        match r1 {
            Err(e) => (s1, Err(e)),
            Ok(_) => {
                let (s2, r2) = spec_read_unsigned_int(s1);
                match r2 {
                    Err(e) => (s2, Err(e)),
                    Ok(length) => if length >= REFERENCE_TAG {
                        (s2, Ok(ClassResultView::Index((length - REFERENCE_TAG) as usize)))
                    } else {
                        let (s3, r3) = spec_read_exact_as_string(s2, length as usize);
                        match r3 {
                            Err(e) => (s3, Err(e)),
                            Ok(name) => {
                                let (s4, r4) = spec_read_unsigned_int(s3);
                                match r4 {
                                    Err(e) => (s4, Err(e)),
                                    Ok(version) => spec_read_class_parents(
                                        ReaderState {
                                            types_table: s4.types_table.push(
                                                seq![TypeView::String(name)],
                                            ),
                                            ..s4
                                        },
                                        ArchivableView::Class(ClassView { name, version }),
                                        (fuel - 1) as nat,
                                    ),
                                }
                            },
                        }
                    },
                }
            },
        }
    }
}

/// Reading the classes that `class` inherits from and prepending `class` to them.
pub open spec fn spec_read_class_parents(
    st: ReaderState,
    class: ArchivableView,
    fuel: nat,
) -> Step<ClassResultView>
    decreases fuel, 2int,
{
    let (s1, r) = spec_read_class(st, fuel);
    match r {
        Err(e) => (s1, Err(e)),
        Ok(ClassResultView::Index(_)) => (s1, Ok(ClassResultView::ClassHierarchy(seq![class]))),
        Ok(ClassResultView::ClassHierarchy(parent)) => (
            s1,
            Ok(ClassResultView::ClassHierarchy(seq![class] + parent)),
        ),
    }
}

/// The entry at `i` of a table, if there is one.
pub open spec fn table_get<T>(table: Seq<T>, i: int) -> Option<T> {
    if 0 <= i < table.len() {
        Some(table[i])
    } else {
        None
    }
}

/// Reading an object: a new class chain is added to the object table and gives nothing; a
/// reference gives the object it refers to.
pub open spec fn spec_read_object(st: ReaderState, fuel: nat) -> Step<Option<ArchivableView>> {
    match byte_at(st, st.idx) {
        Err(e) => (st, Err(e)),
        Ok(b) => if b == START {
            let (s1, r) = spec_read_class(st, fuel);
            match r {
                Err(e) => (s1, Err(e)),
                Ok(ClassResultView::Index(i)) => (s1, Ok(table_get(s1.object_table, i as int))),
                Ok(ClassResultView::ClassHierarchy(classes)) => (
                    ReaderState { object_table: s1.object_table + classes, ..s1 },
                    Ok(None),
                ),
            }
        } else if b == EMPTY {
            (with_idx(st, st.idx + 1), Ok(None))
        } else {
            let (s1, r) = spec_read_pointer(st);
            match r {
                Err(e) => (s1, Err(e)),
                Ok(p) => (s1, Ok(table_get(s1.object_table, p as int))),
            }
        },
    }
}

/// Getting the current types: a new type encoding, which is added to the types table, or a
/// reference to a known one. Embedded types are also recorded in the object table, once per
/// reference.
pub open spec fn spec_get_type(st: ReaderState, embedded: bool, fuel: nat) -> Step<
    Option<Seq<TypeView>>,
> {
    match byte_at(st, st.idx) {
        Err(e) => (st, Err(e)),
        Ok(b) => if b == START {
            let (s1, r) = spec_read_type(with_idx(st, st.idx + 1));
            match r {
                Err(e) => (s1, Err(e)),
                Ok(ts) => {
                    let s2 = if embedded {
                        ReaderState {
                            object_table: s1.object_table.push(ArchivableView::Type(ts)),
                            ..s1
                        }
                    } else {
                        s1
                    };
                    (ReaderState { types_table: s2.types_table.push(ts), ..s2 }, Ok(Some(ts)))
                },
            }
        } else if b == END {
            (st, Ok(None))
        } else {
            let (s1, r1) = spec_skip_repeats(st, fuel);
            match r1 {
                Err(e) => (s1, Err(e)),
                Ok(_) => {
                    let (s2, r2) = spec_read_pointer(s1);
                    match r2 {
                        Err(e) => (s2, Err(e)),
                        Ok(tag) => {
                            let found = table_get(s2.types_table, tag as int);
                            let s3 = if embedded && found is Some
                                && !s2.seen_embedded_types.contains(tag) {
                                ReaderState {
                                    object_table: s2.object_table.push(
                                        ArchivableView::Type(found->0),
                                    ),
                                    seen_embedded_types: s2.seen_embedded_types.insert(tag),
                                    ..s2
                                }
                            } else {
                                s2
                            };
                            (s3, Ok(found))
                        },
                    }
                },
            }
        },
    }
}

/// Reading embedded data: skip the tag, get the embedded types and read their data.
pub open spec fn spec_read_embedded_data(st: ReaderState, fuel: nat) -> Step<
    Option<ArchivableView>,
>
    decreases fuel, 0int,
{
    if fuel == 0 {
        (st, Err(TypedStreamErrorView::InvalidHeader))
    } else {
        let (s1, r) = spec_get_type(with_idx(st, st.idx + 1), true, fuel);
        match r {
            Err(e) => (s1, Err(e)),
            Ok(None) => (s1, Ok(None)),
            Ok(Some(ts)) => spec_read_types_from(s1, ts, 0, seq![], false, (fuel - 1) as nat),
        }
    }
}

/// The outcome of reading the data of one type: go on with the next type, or finish with a
/// result.
pub enum ItemOutcome {
    Continue(ReaderState, Seq<OutputDataView>, bool),
    Finish(ReaderState, Result<Option<ArchivableView>, TypedStreamErrorView>),
}

/// Reading the data of one type other than [`TypeView::EmbeddedData`], having collected `out`.
pub open spec fn spec_read_item(
    st: ReaderState,
    t: TypeView,
    out: Seq<OutputDataView>,
    is_obj: bool,
    fuel: nat,
) -> ItemOutcome {
    match t {
        TypeView::Utf8String => {
            let (s1, r) = spec_read_string(st);
            match r {
                Err(e) => ItemOutcome::Finish(s1, Err(e)),
                Ok(s) => ItemOutcome::Continue(s1, out.push(OutputDataView::String(s)), is_obj),
            }
        },
        TypeView::Object => {
            let spot = st.object_table.len() as usize;
            let s1 = ReaderState {
                placeholder: Some(spot),
                object_table: st.object_table.push(ArchivableView::Placeholder),
                ..st
            };
            let (s2, r) = spec_read_object(s1, fuel);
            match r {
                Err(e) => ItemOutcome::Finish(s2, Err(e)),
                Ok(None) => ItemOutcome::Continue(s2, out, true),
                Ok(Some(object)) => match object {
                    ArchivableView::Object(_, data) => if data.len() > 0 {
                        ItemOutcome::Finish(
                            ReaderState {
                                placeholder: None,
                                object_table: s2.object_table.drop_last(),
                                ..s2
                            },
                            Ok(Some(object)),
                        )
                    } else {
                        ItemOutcome::Continue(s2, out, true)
                    },
                    ArchivableView::Class(c) => ItemOutcome::Continue(
                        s2,
                        out.push(OutputDataView::Class(c)),
                        true,
                    ),
                    ArchivableView::Data(data) => ItemOutcome::Continue(s2, out + data, true),
                    _ => ItemOutcome::Continue(s2, out, true),
                },
            }
        },
        TypeView::SignedInt => {
            let (s1, r) = spec_read_signed_int(st, fuel);
            match r {
                Err(e) => ItemOutcome::Finish(s1, Err(e)),
                Ok(v) => ItemOutcome::Continue(
                    s1,
                    out.push(OutputDataView::SignedInteger(v)),
                    is_obj,
                ),
            }
        },
        TypeView::UnsignedInt => {
            let (s1, r) = spec_read_unsigned_int(st);
            match r {
                Err(e) => ItemOutcome::Finish(s1, Err(e)),
                Ok(v) => ItemOutcome::Continue(
                    s1,
                    out.push(OutputDataView::UnsignedInteger(v)),
                    is_obj,
                ),
            }
        },
        TypeView::Float => {
            let (s1, r) = spec_read_decimal(st, 4, fuel);
            match r {
                Err(e) => ItemOutcome::Finish(s1, Err(e)),
                Ok(v) => ItemOutcome::Continue(s1, out.push(OutputDataView::Float(v)), is_obj),
            }
        },
        TypeView::Double => {
            let (s1, r) = spec_read_decimal(st, 8, fuel);
            match r {
                Err(e) => ItemOutcome::Finish(s1, Err(e)),
                Ok(v) => ItemOutcome::Continue(s1, out.push(OutputDataView::Double(v)), is_obj),
            }
        },
        TypeView::Unknown(b) => ItemOutcome::Continue(st, out.push(OutputDataView::Byte(b)), is_obj),
        TypeView::String(s) => ItemOutcome::Continue(
            st,
            out.push(OutputDataView::String(s)),
            is_obj,
        ),
        TypeView::Array(n) => {
            let (s1, r) = spec_read_exact(st, n);
            match r {
                Err(e) => ItemOutcome::Finish(s1, Err(e)),
                Ok(bs) => ItemOutcome::Continue(s1, out.push(OutputDataView::Array(bs)), is_obj),
            }
        },
        TypeView::EmbeddedData => ItemOutcome::Finish(st, Ok(None)),
    }
}

/// Reading the data of `types[k..]`, having collected `out` so far.
pub open spec fn spec_read_types_from(
    st: ReaderState,
    types: Seq<TypeView>,
    k: int,
    out: Seq<OutputDataView>,
    is_obj: bool,
    fuel: nat,
) -> Step<Option<ArchivableView>>
    decreases fuel, types.len() - k,
{
    if k < 0 || k >= types.len() {
        spec_fill_placeholder(st, out, is_obj)
    } else if types[k] is EmbeddedData {
        spec_read_embedded_data(st, fuel)
    } else {
        match spec_read_item(st, types[k], out, is_obj, fuel) {
            ItemOutcome::Continue(s1, out1, is_obj1) => spec_read_types_from(
                s1,
                types,
                k + 1,
                out1,
                is_obj1,
                fuel,
            ),
            ItemOutcome::Finish(s1, r) => (s1, r),
        }
    }
}

/// Reading the data of `types`.
pub open spec fn spec_read_types(st: ReaderState, types: Seq<TypeView>, fuel: nat) -> Step<
    Option<ArchivableView>,
> {
    spec_read_types_from(st, types, 0, seq![], false, fuel)
}

/// What remains after the data of a list of types was read: without a reserved placeholder,
/// data that is not part of an object is returned as [`ArchivableView::Data`].
pub open spec fn spec_data_result(st: ReaderState, out: Seq<OutputDataView>, is_obj: bool) -> Step<
    Option<ArchivableView>,
> {
    if out.len() > 0 && !is_obj {
        (st, Ok(Some(ArchivableView::Data(out))))
    } else {
        (st, Ok(None))
    }
}

/// Filling the reserved placeholder with the data just read: a class found last starts a new
/// object; otherwise the data goes to the class that follows the placeholder, to the object
/// already there, or becomes plain data.
pub open spec fn spec_fill_placeholder(st: ReaderState, out: Seq<OutputDataView>, is_obj: bool) -> Step<
    Option<ArchivableView>,
> {
    match st.placeholder {
        Some(spot) if out.len() > 0 => {
            let spot = spot as int;
            if out.last() is Class {
                let s1 = ReaderState {
                    object_table: st.object_table.update(
                        spot,
                        ArchivableView::Object(out.last()->Class_0, seq![]),
                    ),
                    ..st
                };
                spec_data_result(s1, out, is_obj)
            } else if spot + 1 < st.object_table.len() && st.object_table[spot + 1] is Class {
                let object = ArchivableView::Object(st.object_table[spot + 1]->Class_0, out);
                (
                    ReaderState {
                        object_table: st.object_table.update(spot, object),
                        placeholder: None,
                        ..st
                    },
                    Ok(Some(object)),
                )
            } else if spot < st.object_table.len() && st.object_table[spot] is Object {
                let object = ArchivableView::Object(
                    st.object_table[spot]->Object_0,
                    st.object_table[spot]->Object_1 + out,
                );
                (
                    ReaderState {
                        object_table: st.object_table.update(spot, object),
                        placeholder: None,
                        ..st
                    },
                    Ok(Some(object)),
                )
            } else {
                let object = ArchivableView::Data(out);
                (
                    ReaderState {
                        object_table: st.object_table.update(spot, object),
                        placeholder: None,
                        ..st
                    },
                    Ok(Some(object)),
                )
            }
        },
        _ => spec_data_result(st, out, is_obj),
    }
}

/// Checking the header: version 4, the signature `streamtyped` and system version 1000.
pub open spec fn spec_validate_header(st: ReaderState, fuel: nat) -> Step<()> {
    let (s1, r1) = spec_read_unsigned_int(st);
    match r1 {
        Err(e) => (s1, Err(e)),
        Ok(version) => {
            let (s2, r2) = spec_read_string(s1);
            match r2 {
                Err(e) => (s2, Err(e)),
                Ok(signature) => {
                    let (s3, r3) = spec_read_signed_int(s2, fuel);
                    match r3 {
                        Err(e) => (s3, Err(e)),
                        Ok(system) => if version != 4 || signature != "streamtyped"@ || system
                            != 1000 {
                            (s3, Err(TypedStreamErrorView::InvalidHeader))
                        } else {
                            (s3, Ok(()))
                        },
                    }
                },
            }
        },
    }
}

/// One step of [`TypedStreamReader::parse`] at a position inside the stream: skip an `END`
/// byte, or get the current types and read their data, keeping the result if it parses.
pub open spec fn spec_parse_step(st: ReaderState, out: Seq<ArchivableView>) -> Step<
    Seq<ArchivableView>,
> {
    let fuel = (st.stream.len() + 2) as nat;
    if st.stream[st.idx] == END {
        (with_idx(st, st.idx + 1), Ok(out))
    } else {
        let (s1, r) = spec_get_type(st, false, fuel);
        match r {
            Err(e) => (s1, Err(e)),
            Ok(None) => (s1, Ok(out)),
            Ok(Some(types)) => {
                let (s2, r2) = spec_read_types(s1, types, fuel);
                match r2 {
                    Ok(Some(a)) => (s2, Ok(out.push(a))),
                    _ => (s2, Ok(out)),
                }
            },
        }
    }
}

/// The body of [`TypedStreamReader::parse`]: until the stream ends, skip `END` bytes and read the
/// data of each type, keeping the results that parse.
pub open spec fn spec_parse_from(st: ReaderState, out: Seq<ArchivableView>, steps: nat) -> Step<
    Seq<ArchivableView>,
>
    decreases steps,
{
    if steps == 0 || !(st.idx < st.stream.len()) {
        (st, Ok(out))
    } else {
        let (s1, r) = spec_parse_step(st, out);
        match r {
            Err(e) => (s1, Err(e)),
            Ok(out1) => spec_parse_from(s1, out1, (steps - 1) as nat),
        }
    }
}

/// Parsing from state `st`: validate the header, then read everything after it.
pub open spec fn spec_parse(st: ReaderState) -> Step<Seq<ArchivableView>> {
    let fuel = (st.stream.len() + 2) as nat;
    let (s1, r) = spec_validate_header(st, fuel);
    match r {
        Err(e) => (s1, Err(e)),
        Ok(_) => spec_parse_from(s1, seq![], fuel),
    }
}

/// The value of a result carrying a reader error.
pub open spec fn result_view<T>(r: Result<T, TypedStreamError>) -> Result<T, TypedStreamErrorView> {
    match r {
        Ok(v) => Ok(v),
        Err(e) => Err(e@),
    }
}

/// The value of a result carrying bytes.
pub open spec fn bytes_result_view(r: Result<&[u8], TypedStreamError>) -> Result<
    Seq<u8>,
    TypedStreamErrorView,
> {
    match r {
        Ok(v) => Ok(v@),
        Err(e) => Err(e@),
    }
}

/// The value of a result carrying text.
pub open spec fn string_result_view(r: Result<String, TypedStreamError>) -> Result<
    Seq<char>,
    TypedStreamErrorView,
> {
    match r {
        Ok(v) => Ok(v@),
        Err(e) => Err(e@),
    }
}

/// The value of a result carrying types.
pub open spec fn types_result_view(r: Result<Vec<Type>, TypedStreamError>) -> Result<
    Seq<TypeView>,
    TypedStreamErrorView,
> {
    match r {
        Ok(v) => Ok(types_view(v@)),
        Err(e) => Err(e@),
    }
}

/// The value of a result carrying optional types.
pub open spec fn opt_types_result_view(r: Result<Option<Vec<Type>>, TypedStreamError>) -> Result<
    Option<Seq<TypeView>>,
    TypedStreamErrorView,
> {
    match r {
        Ok(Some(v)) => Ok(Some(types_view(v@))),
        Ok(None) => Ok(None),
        Err(e) => Err(e@),
    }
}

/// The value of a result carrying an optional archivable.
pub open spec fn opt_archivable_result_view(
    r: Result<Option<Archivable>, TypedStreamError>,
) -> Result<Option<ArchivableView>, TypedStreamErrorView> {
    match r {
        Ok(Some(v)) => Ok(Some(v@)),
        Ok(None) => Ok(None),
        Err(e) => Err(e@),
    }
}

/// The value of a result carrying a class.
pub(crate) open spec fn class_result_view(r: Result<ClassResult, TypedStreamError>) -> Result<
    ClassResultView,
    TypedStreamErrorView,
> {
    match r {
        Ok(v) => Ok(class_result_value(v)),
        Err(e) => Err(e@),
    }
}

/// The value of a result carrying archivables.
pub open spec fn archivables_result_view(r: Result<Vec<Archivable>, TypedStreamError>) -> Result<
    Seq<ArchivableView>,
    TypedStreamErrorView,
> {
    match r {
        Ok(v) => Ok(archivables_view(v@)),
        Err(e) => Err(e@),
    }
}

/// The values of a table of type lists.
pub open spec fn tables_view(t: Seq<Vec<Type>>) -> Seq<Seq<TypeView>> {
    t.map_values(|v: Vec<Type>| types_view(v@))
}

/// Contains logic and data used to deserialize data from a `typedstream`.
///
/// `typedstream` is a binary serialization format developed by NeXT and later adopted by Apple.
/// A `typedstream` begins with a header that includes format version and architecture information,
/// followed by a stream of typed data elements. Each element is prefixed with type information,
/// allowing the [`TypedStreamReader`] to rebuild the data structures that were serialized.
pub struct TypedStreamReader<'a> {
    /// The `typedstream` we want to parse
    stream: &'a [u8],
    /// The current index we are at in the stream
    idx: usize,
    /// As we parse the `typedstream`, build a table of seen [`Type`]s to reference in the future
    types_table: Vec<Vec<Type>>,
    /// As we parse the `typedstream`, build a table of seen archivable data to reference in the future
    object_table: Vec<Archivable>,
    /// We want to copy embedded types the first time they are seen, even if the types were resolved through references
    seen_embedded_types: HashSet<u32>,
    /// Stores the position of the current [`Archivable::Placeholder`]
    placeholder: Option<usize>,
}

impl<'a> View for TypedStreamReader<'a> {
    type V = ReaderState;

    closed spec fn view(&self) -> ReaderState {
        ReaderState {
            stream: self.stream@,
            idx: self.idx as int,
            types_table: tables_view(self.types_table@),
            object_table: archivables_view(self.object_table@),
            seen_embedded_types: self.seen_embedded_types@,
            placeholder: self.placeholder,
        }
    }
}

impl<'a> TypedStreamReader<'a> {
    /// The reader's invariant holds.
    pub closed spec fn wf(&self) -> bool {
        &&& state_wf(self@)
        &&& self.stream@.len() == self.stream.len()
    }

    /// `self` reads the same stream as `other`, from the same position or further on.
    pub closed spec fn progressed(&self, other: &Self) -> bool {
        &&& self.wf()
        &&& self.stream == other.stream
        &&& self.idx >= other.idx
    }

    /// Given a stream, construct a reader instance to parse it.
    pub fn from(stream: &'a [u8]) -> (reader: Self)
        requires
            stream@.len() <= isize::MAX,
        ensures
            reader.wf(),
            reader@ == initial_state(stream@),
    {
        let reader = Self {
            stream,
            idx: 0,
            types_table: Vec::new(),
            object_table: Vec::new(),
            seen_embedded_types: HashSet::new(),
            placeholder: None,
        };
        assert(reader@.types_table =~= seq![]);
        assert(reader@.object_table =~= seq![]);
        reader
    }

    /// Get the byte at a given index, if the index is within the bounds of the `typedstream`
    fn get_byte(&self, byte_idx: usize) -> (r: Result<u8, TypedStreamError>)
        requires
            self.wf(),
        ensures
            result_view(r) == byte_at(self@, byte_idx as int),
    {
        if byte_idx < self.stream.len() {
            return Ok(self.stream[byte_idx]);
        }
        Err(TypedStreamError::OutOfBounds(byte_idx, self.stream.len()))
    }

    /// Read the current byte
    fn get_current_byte(&self) -> (r: Result<u8, TypedStreamError>)
        requires
            self.wf(),
        ensures
            result_view(r) == byte_at(self@, self@.idx),
    {
        self.get_byte(self.idx)
    }

    /// Read the next byte
    fn get_next_byte(&self) -> (r: Result<u8, TypedStreamError>)
        requires
            self.wf(),
        ensures
            result_view(r) == byte_at(self@, self@.idx + 1),
    {
        self.get_byte(self.idx + 1)
    }

    /// Read exactly `n` bytes from the stream
    fn read_exact_bytes(&mut self, n: usize) -> (r: Result<&'a [u8], TypedStreamError>)
        requires
            old(self).wf(),
        ensures
            final(self).progressed(old(self)),
            only_moved(old(self)@, final(self)@),
            (final(self)@, bytes_result_view(r)) == spec_read_exact(old(self)@, n),
    {
        if self.idx <= self.stream.len() && n <= self.stream.len() - self.idx {
            let range = &self.stream[self.idx..self.idx + n];
            self.idx = self.idx + n;
            Ok(range)
        } else {
            Err(TypedStreamError::OutOfBounds(self.idx.wrapping_add(n), self.stream.len()))
        }
    }

    /// Read a signed integer from the stream. Because we don't know the size of the integer ahead of time,
    /// we store it in the largest possible value.
    fn read_signed_int(&mut self, Ghost(fuel): Ghost<nat>) -> (r: Result<i64, TypedStreamError>)
        requires
            old(self).wf(),
            enough_fuel(old(self)@, fuel),
        ensures
            final(self).progressed(old(self)),
            only_moved(old(self)@, final(self)@),
            r is Ok ==> final(self)@.idx <= final(self)@.stream.len(),
            (final(self)@, result_view(r)) == spec_read_signed_int(old(self)@, fuel),
    {
        let ghost st0 = self@;
        let ghost mut g = fuel;
        loop
            invariant
                self.progressed(old(self)),
                only_moved(old(self)@, self@),
                enough_fuel(self@, g),
                spec_read_signed_int(st0, fuel) == spec_read_signed_int(self@, g),
                st0 == old(self)@,
            decreases g,
        {
            let b = self.get_current_byte()?;
            if b == I_16 {
                self.idx = self.idx + 1;
                let bytes = self.read_exact_bytes(2)?;
                let v: u16 = bytes[0] as u16 + 256 * (bytes[1] as u16);
                let value: i64 = if v >= 0x8000 {
                    v as i64 - 0x10000
                } else {
                    v as i64
                };
                proof {
                    vstd::arithmetic::power2::lemma2_to64();
                }
                return Ok(value);
            } else if b == I_32 {
                self.idx = self.idx + 1;
                let bytes = self.read_exact_bytes(4)?;
                let v: u32 = bytes[0] as u32 + 256 * (bytes[1] as u32) + 65536 * (bytes[2] as u32)
                    + 16777216 * (bytes[3] as u32);
                let value: i64 = if v >= 0x8000_0000 {
                    v as i64 - 0x1_0000_0000
                } else {
                    v as i64
                };
                proof {
                    vstd::arithmetic::power2::lemma2_to64();
                }
                return Ok(value);
            } else {
                if b as u64 > REFERENCE_TAG {
                    let next = self.get_next_byte()?;
                    if next != END {
                        self.idx = self.idx + 1;
                        proof {
                            g = (g - 1) as nat;
                        }
                        continue ;
                    }
                }
                let value: i64 = if b >= 0x80 {
                    b as i64 - 0x100
                } else {
                    b as i64
                };
                self.idx = self.idx + 1;
                proof {
                    vstd::arithmetic::power2::lemma2_to64();
                }
                return Ok(value);
            }
        }
    }

    /// Read an unsigned integer from the stream. Because we don't know the size of the integer ahead of time,
    /// we store it in the largest possible value.
    fn read_unsigned_int(&mut self) -> (r: Result<u64, TypedStreamError>)
        requires
            old(self).wf(),
        ensures
            final(self).progressed(old(self)),
            only_moved(old(self)@, final(self)@),
            (final(self)@, result_view(r)) == spec_read_unsigned_int(old(self)@),
    {
        let b = self.get_current_byte()?;
        if b == I_16 {
            self.idx = self.idx + 1;
            let bytes = self.read_exact_bytes(2)?;
            Ok(bytes[0] as u64 + 256 * (bytes[1] as u64))
        } else if b == I_32 {
            self.idx = self.idx + 1;
            let bytes = self.read_exact_bytes(4)?;
            Ok(
                bytes[0] as u64 + 256 * (bytes[1] as u64) + 65536 * (bytes[2] as u64) + 16777216 * (
                bytes[3] as u64),
            )
        } else {
            self.idx = self.idx + 1;
            Ok(b as u64)
        }
    }

    /// Read a float of `width` bytes (4 for single precision, 8 for double precision) from
    /// the byte stream.
    fn read_decimal(&mut self, width: usize, Ghost(fuel): Ghost<nat>) -> (r: Result<
        StoredFloat,
        TypedStreamError,
    >)
        requires
            old(self).wf(),
            enough_fuel(old(self)@, fuel),
            width == 4 || width == 8,
        ensures
            final(self).progressed(old(self)),
            only_moved(old(self)@, final(self)@),
            r is Ok ==> final(self)@.idx <= final(self)@.stream.len(),
            (final(self)@, result_view(r)) == spec_read_decimal(old(self)@, width, fuel),
    {
        let b = self.get_current_byte()?;
        if b == DECIMAL {
            self.idx = self.idx + 1;
            let bytes = self.read_exact_bytes(width)?;
            let low: u64 = bytes[0] as u64 + 256 * (bytes[1] as u64) + 65536 * (bytes[2] as u64)
                + 16777216 * (bytes[3] as u64);
            if width == 4 {
                Ok(StoredFloat::Bits(low))
            } else {
                let high: u64 = bytes[4] as u64 + 256 * (bytes[5] as u64) + 65536 * (
                bytes[6] as u64) + 16777216 * (bytes[7] as u64);
                proof {
                    assert(bytes@.subrange(4, 8)[0] == bytes@[4]);
                    assert(bytes@.subrange(4, 8)[1] == bytes@[5]);
                    assert(bytes@.subrange(4, 8)[2] == bytes@[6]);
                    assert(bytes@.subrange(4, 8)[3] == bytes@[7]);
                }
                Ok(StoredFloat::Bits(low + 4294967296 * high))
            }
        } else {
            if b != I_16 && b != I_32 {
                self.idx = self.idx + 1;
            }
            let v = self.read_signed_int(Ghost(fuel))?;
            Ok(StoredFloat::Integer(v))
        }
    }

    /// Read `n` bytes as a String
    fn read_exact_as_string(&mut self, n: usize) -> (r: Result<String, TypedStreamError>)
        requires
            old(self).wf(),
        ensures
            final(self).progressed(old(self)),
            only_moved(old(self)@, final(self)@),
            (final(self)@, string_result_view(r)) == spec_read_exact_as_string(old(self)@, n),
    {
        let bytes = self.read_exact_bytes(n)?;
        match utf8_to_str(bytes) {
            Ok(s) => Ok(s.to_string()),
            Err(why) => Err(TypedStreamError::StringParseError(why)),
        }
    }

    /// Read some bytes as an array
    fn read_array(&mut self, size: usize) -> (r: Result<Vec<u8>, TypedStreamError>)
        requires
            old(self).wf(),
        ensures
            final(self).progressed(old(self)),
            only_moved(old(self)@, final(self)@),
            (final(self)@, match r {
                Ok(v) => Ok(v@),
                Err(e) => Err(e@),
            }) == spec_read_exact(old(self)@, size),
    {
        let bytes = self.read_exact_bytes(size)?;
        Ok(vstd::slice::slice_to_vec(bytes))
    }

    /// Determine the current types
    fn read_type(&mut self) -> (r: Result<Vec<Type>, TypedStreamError>)
        requires
            old(self).wf(),
        ensures
            final(self).progressed(old(self)),
            only_moved(old(self)@, final(self)@),
            (final(self)@, types_result_view(r)) == spec_read_type(old(self)@),
    {
        let length = self.read_unsigned_int()?;
        let types = self.read_exact_bytes(length as usize)?;

        // Handle array size
        if types.len() > 0 && types[0] == 0x5b {
            return match Type::get_array_length(types) {
                Some(v) => Ok(v),
                None => Err(TypedStreamError::InvalidArray),
            };
        }
        let mut out: Vec<Type> = Vec::new();
        let mut i: usize = 0;
        while i < types.len()
            invariant
                i <= types@.len(),
                out@.len() == i,
                forall|j: int| 0 <= j < i ==> (#[trigger] out@[j])@ == type_of_byte(types@[j]),
            decreases types@.len() - i,
        {
            out.push(Type::from_byte(&types[i]));
            i += 1;
        }
        assert(types_view(out@) =~= types@.map_values(|b: u8| type_of_byte(b)));
        Ok(out)
    }

    /// Read a reference pointer for a Type
    fn read_pointer(&mut self) -> (r: Result<u32, TypedStreamError>)
        requires
            old(self).wf(),
        ensures
            final(self).progressed(old(self)),
            only_moved(old(self)@, final(self)@),
            (final(self)@, result_view(r)) == spec_read_pointer(old(self)@),
    {
        let pointer = self.get_current_byte()?;
        let result = if pointer as u64 >= REFERENCE_TAG {
            Ok((pointer as u64 - REFERENCE_TAG) as u32)
        } else {
            Err(TypedStreamError::InvalidPointer(pointer))
        };
        self.idx = self.idx + 1;
        result
    }

    /// Skip the `START` bytes at the current position
    fn skip_start(&mut self, Ghost(fuel): Ghost<nat>) -> (r: Result<(), TypedStreamError>)
        requires
            old(self).wf(),
            enough_fuel(old(self)@, fuel),
        ensures
            final(self).progressed(old(self)),
            only_moved(old(self)@, final(self)@),
            (final(self)@, result_view(r)) == spec_skip_start(old(self)@, fuel),
    {
        let ghost mut g = fuel;
        loop
            invariant
                self.progressed(old(self)),
                only_moved(old(self)@, self@),
                enough_fuel(self@, g),
                spec_skip_start(old(self)@, fuel) == spec_skip_start(self@, g),
            decreases g,
        {
            let b = self.get_current_byte()?;
            if b != START {
                return Ok(());
            }
            self.idx = self.idx + 1;
            proof {
                g = (g - 1) as nat;
            }
        }
    }

    /// Skip a byte while the next byte repeats it
    fn skip_repeats(&mut self, Ghost(fuel): Ghost<nat>) -> (r: Result<(), TypedStreamError>)
        requires
            old(self).wf(),
            enough_fuel(old(self)@, fuel),
        ensures
            final(self).progressed(old(self)),
            only_moved(old(self)@, final(self)@),
            (final(self)@, result_view(r)) == spec_skip_repeats(old(self)@, fuel),
    {
        let ghost mut g = fuel;
        loop
            invariant
                self.progressed(old(self)),
                only_moved(old(self)@, self@),
                enough_fuel(self@, g),
                spec_skip_repeats(old(self)@, fuel) == spec_skip_repeats(self@, g),
            decreases g,
        {
            let current = self.get_current_byte()?;
            let next = self.get_next_byte()?;
            if current != next {
                return Ok(());
            }
            self.idx = self.idx + 1;
            proof {
                g = (g - 1) as nat;
            }
        }
    }

    /// Read String data
    fn read_string(&mut self) -> (r: Result<String, TypedStreamError>)
        requires
            old(self).wf(),
        ensures
            final(self).progressed(old(self)),
            only_moved(old(self)@, final(self)@),
            (final(self)@, string_result_view(r)) == spec_read_string(old(self)@),
            r is Ok ==> final(self)@.idx <= final(self)@.stream.len(),
    {
        let length = self.read_unsigned_int()?;
        self.read_exact_as_string(length as usize)
    }

    /// Read a class
    fn read_class(&mut self, Ghost(fuel): Ghost<nat>) -> (r: Result<ClassResult, TypedStreamError>)
        requires
            old(self).wf(),
            enough_fuel(old(self)@, fuel),
        ensures
            final(self).progressed(old(self)),
            (final(self)@, class_result_view(r)) == spec_read_class(old(self)@, fuel),
            r is Ok ==> final(self)@.idx <= final(self)@.stream.len(),
            final(self)@.object_table == old(self)@.object_table,
            final(self)@.placeholder == old(self)@.placeholder,
            final(self)@.seen_embedded_types == old(self)@.seen_embedded_types,
        decreases fuel, 1int,
    {
        let b = self.get_current_byte()?;
        if b == START {
            self.read_new_class(Ghost(fuel))
        } else if b == EMPTY {
            self.idx = self.idx + 1;
            let v: Vec<Archivable> = Vec::new();
            proof {
                assert(archivables_view(v@) =~= seq![]);
            }
            Ok(ClassResult::ClassHierarchy(v))
        } else {
            let index = self.read_pointer()?;
            Ok(ClassResult::Index(index as usize))
        }
    }

    /// Read a class at a `START` byte
    fn read_new_class(&mut self, Ghost(fuel): Ghost<nat>) -> (r: Result<ClassResult, TypedStreamError>)
        requires
            old(self).wf(),
            enough_fuel(old(self)@, fuel),
            byte_at(old(self)@, old(self)@.idx) == Ok::<u8, TypedStreamErrorView>(START),
        ensures
            final(self).progressed(old(self)),
            (final(self)@, class_result_view(r)) == spec_read_new_class(old(self)@, fuel),
            r is Ok ==> final(self)@.idx <= final(self)@.stream.len(),
            final(self)@.object_table == old(self)@.object_table,
            final(self)@.placeholder == old(self)@.placeholder,
            final(self)@.seen_embedded_types == old(self)@.seen_embedded_types,
        decreases fuel, 0int,
    {
        // Skip some header bytes
        self.skip_start(Ghost(fuel))?;
        let length = self.read_unsigned_int()?;

        if length >= REFERENCE_TAG {
            let index = length - REFERENCE_TAG;
            return Ok(ClassResult::Index(index as usize));
        }
        let class_name = self.read_exact_as_string(length as usize)?;
        let version = self.read_unsigned_int()?;

        let mut entry: Vec<Type> = Vec::new();
        entry.push(Type::new_string(class_name.clone()));
        let ghost before = self.types_table@;
        proof {
            assert(types_view(entry@) =~= seq![TypeView::String(class_name@)]);
        }
        self.types_table.push(entry);
        proof {
            assert(tables_view(self.types_table@) =~= tables_view(before).push(
                seq![TypeView::String(class_name@)],
            ));
        }
        let ghost class = ArchivableView::Class(ClassView { name: class_name@, version });
        self.read_class_parents(Archivable::Class(Class::new(class_name, version)), Ghost(class), Ghost((fuel - 1) as nat))
    }

    /// Read the classes that `class` inherits from
    fn read_class_parents(
        &mut self,
        class: Archivable,
        Ghost(class_view): Ghost<ArchivableView>,
        Ghost(fuel): Ghost<nat>,
    ) -> (r: Result<ClassResult, TypedStreamError>)
        requires
            old(self).wf(),
            enough_fuel(old(self)@, fuel),
            class@ == class_view,
        ensures
            final(self).progressed(old(self)),
            (final(self)@, class_result_view(r)) == spec_read_class_parents(old(self)@, class_view, fuel),
            r is Ok ==> final(self)@.idx <= final(self)@.stream.len(),
            final(self)@.object_table == old(self)@.object_table,
            final(self)@.placeholder == old(self)@.placeholder,
            final(self)@.seen_embedded_types == old(self)@.seen_embedded_types,
        decreases fuel, 2int,
    {
        let mut out_v: Vec<Archivable> = Vec::new();
        out_v.push(class);
        proof {
            assert(archivables_view(out_v@) =~= seq![class_view]);
        }
        let parent = self.read_class(Ghost(fuel))?;
        if let ClassResult::ClassHierarchy(mut parent) = parent {
            let ghost first = out_v@;
            let ghost second = parent@;
            out_v.append(&mut parent);
            proof {
                assert(archivables_view(out_v@) =~= archivables_view(first) + archivables_view(
                    second,
                ));
            }
        }
        Ok(ClassResult::ClassHierarchy(out_v))
    }

    /// Read an object into the cache, or get an already-cached object
    fn read_object(&mut self, Ghost(fuel): Ghost<nat>) -> (r: Result<Option<Archivable>, TypedStreamError>)
        requires
            old(self).wf(),
            enough_fuel(old(self)@, fuel),
        ensures
            final(self).progressed(old(self)),
            (final(self)@, opt_archivable_result_view(r)) == spec_read_object(old(self)@, fuel),
            r is Ok ==> final(self)@.idx <= final(self)@.stream.len(),
            r matches Ok(Some(_)) ==> final(self)@.object_table == old(self)@.object_table,
            old(self)@.object_table.len() <= final(self)@.object_table.len(),
            final(self)@.placeholder == old(self)@.placeholder,
            final(self)@.seen_embedded_types == old(self)@.seen_embedded_types,
    {
        let b = self.get_current_byte()?;
        if b == START {
            match self.read_class(Ghost(fuel))? {
                ClassResult::Index(idx) => {
                    if idx < self.object_table.len() {
                        Ok(Some(self.object_table[idx].clone()))
                    } else {
                        Ok(None)
                    }
                },
                ClassResult::ClassHierarchy(mut classes) => {
                    let ghost first = self.object_table@;
                    let ghost second = classes@;
                    self.object_table.append(&mut classes);
                    proof {
                        assert(archivables_view(self.object_table@) =~= archivables_view(first)
                            + archivables_view(second));
                    }
                    Ok(None)
                },
            }
        } else if b == EMPTY {
            self.idx = self.idx + 1;
            Ok(None)
        } else {
            let index = self.read_pointer()?;
            let i = index as usize;
            if i < self.object_table.len() {
                Ok(Some(self.object_table[i].clone()))
            } else {
                Ok(None)
            }
        }
    }

    /// Gets the current type from the stream, either by reading it from the stream or reading it from
    /// the specified index of the types table. The result is a copy of the cached data.
    fn get_type(&mut self, embedded: bool, Ghost(fuel): Ghost<nat>) -> (r: Result<
        Option<Vec<Type>>,
        TypedStreamError,
    >)
        requires
            old(self).wf(),
            enough_fuel(old(self)@, fuel),
        ensures
            final(self).progressed(old(self)),
            (final(self)@, opt_types_result_view(r)) == spec_get_type(old(self)@, embedded, fuel),
            r is Ok ==> final(self)@.idx <= final(self)@.stream.len(),
            r matches Ok(Some(_)) ==> final(self)@.idx > old(self)@.idx,
            r is Ok ==> final(self)@.idx > old(self)@.idx || byte_at(old(self)@, old(self)@.idx)
                == Ok::<u8, TypedStreamErrorView>(END),
            old(self)@.object_table.len() <= final(self)@.object_table.len(),
            final(self)@.placeholder == old(self)@.placeholder,
    {
        let b = self.get_current_byte()?;
        if b == START {
            // Ignore repeated types, for example in a dict
            self.idx = self.idx + 1;
            let object_types = self.read_type()?;

            // Embedded data is stored as a C String in the objects table
            if embedded {
                let ghost before = self.object_table@;
                let copy = clone_types(&object_types);
                self.object_table.push(Archivable::Type(copy));
                proof {
                    assert(archivables_view(self.object_table@) =~= archivables_view(before).push(
                        ArchivableView::Type(types_view(object_types@)),
                    ));
                }
            }
            let result = clone_types(&object_types);
            let ghost before = self.types_table@;
            self.types_table.push(object_types);
            proof {
                assert(tables_view(self.types_table@) =~= tables_view(before).push(
                    types_view(result@),
                ));
            }
            Ok(Some(result))
        } else if b == END {
            // This indicates the end of the current object
            Ok(None)
        } else {
            // Ignore repeated types, for example in a dict
            self.skip_repeats(Ghost(fuel))?;
            let ref_tag = self.read_pointer()?;
            let i = ref_tag as usize;
            if i < self.types_table.len() {
                let found = clone_types(&self.types_table[i]);
                if embedded {
                    // We only want to include the first embedded reference tag, not subsequent references to the same embed
                    if !self.seen_embedded_types.contains(&ref_tag) {
                        let ghost before = self.object_table@;
                        let copy = clone_types(&found);
                        self.object_table.push(Archivable::Type(copy));
                        self.seen_embedded_types.insert(ref_tag);
                        proof {
                            assert(archivables_view(self.object_table@) =~= archivables_view(
                                before,
                            ).push(ArchivableView::Type(types_view(found@))));
                        }
                    }
                }
                Ok(Some(found))
            } else {
                Ok(None)
            }
        }
    }

    /// [`Archivable`] data can be embedded on a class or in a C String marked as [`Type::EmbeddedData`]
    fn read_embedded_data(&mut self, Ghost(fuel): Ghost<nat>) -> (r: Result<
        Option<Archivable>,
        TypedStreamError,
    >)
        requires
            old(self).wf(),
            old(self)@.idx <= old(self)@.stream.len(),
            enough_fuel(old(self)@, fuel),
        ensures
            final(self).progressed(old(self)),
            (final(self)@, opt_archivable_result_view(r)) == spec_read_embedded_data(
                old(self)@,
                fuel,
            ),
        decreases fuel, 0int,
    {
        // Skip the 0x84
        self.idx = self.idx + 1;
        match self.get_type(true, Ghost(fuel))? {
            Some(types) => self.read_types(types, Ghost((fuel - 1) as nat)),
            None => Ok(None),
        }
    }

    /// Read the data of an object type into the reserved placeholder
    fn read_object_item(
        &mut self,
        out_v: &mut Vec<OutputData>,
        is_obj: &mut bool,
        Ghost(fuel): Ghost<nat>,
    ) -> (r: Option<Result<Option<Archivable>, TypedStreamError>>)
        requires
            old(self).wf(),
            old(self)@.idx <= old(self)@.stream.len(),
            enough_fuel(old(self)@, fuel),
        ensures
            final(self).progressed(old(self)),
            match r {
                None => spec_read_item(
                    old(self)@,
                    TypeView::Object,
                    outputs_view(old(out_v)@),
                    *old(is_obj),
                    fuel,
                ) == ItemOutcome::Continue(final(self)@, outputs_view(final(out_v)@), *final(is_obj)),
                Some(res) => spec_read_item(
                    old(self)@,
                    TypeView::Object,
                    outputs_view(old(out_v)@),
                    *old(is_obj),
                    fuel,
                ) == ItemOutcome::Finish(final(self)@, opt_archivable_result_view(res)),
            },
            r is None ==> final(self)@.idx <= final(self)@.stream.len(),
    {
        let ghost before = outputs_view(out_v@);
        *is_obj = true;
        let length = self.object_table.len();
        let ghost table = self.object_table@;
        self.object_table.push(Archivable::Placeholder);
        self.placeholder = Some(length);
        proof {
            assert(archivables_view(self.object_table@) =~= archivables_view(table).push(
                ArchivableView::Placeholder,
            ));
        }
        match self.read_object(Ghost(fuel)) {
            Err(e) => Some(Err(e)),
            Ok(Some(object)) => match object {
                Archivable::Object(class, data) => {
                    if data.len() > 0 {
                        self.placeholder = None;
                        let ghost full = self.object_table@;
                        self.object_table.pop();
                        proof {
                            assert(archivables_view(self.object_table@) =~= archivables_view(
                                full,
                            ).drop_last());
                        }
                        return Some(Ok(Some(Archivable::Object(class, data))));
                    }
                    proof {
                        assert(before =~= before + outputs_view(data@));
                    }
                    None
                },
                Archivable::Class(class) => {
                    out_v.push(OutputData::Class(class));
                    proof {
                        assert(outputs_view(out_v@) =~= before.push(OutputDataView::Class(class@)));
                    }
                    None
                },
                Archivable::Data(mut data) => {
                    let ghost second = data@;
                    out_v.append(&mut data);
                    proof {
                        assert(outputs_view(out_v@) =~= before + outputs_view(second));
                    }
                    None
                },
                _ => None,
            },
            Ok(None) => None,
        }
    }

    /// Read the data of one type other than [`Type::EmbeddedData`]; `None` means going on
    /// with the next type
    fn read_item(
        &mut self,
        found_type: &Type,
        out_v: &mut Vec<OutputData>,
        is_obj: &mut bool,
        Ghost(fuel): Ghost<nat>,
    ) -> (r: Option<Result<Option<Archivable>, TypedStreamError>>)
        requires
            old(self).wf(),
            old(self)@.idx <= old(self)@.stream.len(),
            enough_fuel(old(self)@, fuel),
            !(found_type is EmbeddedData),
        ensures
            final(self).progressed(old(self)),
            match r {
                None => spec_read_item(
                    old(self)@,
                    found_type@,
                    outputs_view(old(out_v)@),
                    *old(is_obj),
                    fuel,
                ) == ItemOutcome::Continue(final(self)@, outputs_view(final(out_v)@), *final(is_obj)),
                Some(res) => spec_read_item(
                    old(self)@,
                    found_type@,
                    outputs_view(old(out_v)@),
                    *old(is_obj),
                    fuel,
                ) == ItemOutcome::Finish(final(self)@, opt_archivable_result_view(res)),
            },
            r is None ==> final(self)@.idx <= final(self)@.stream.len(),
    {
        let ghost before = outputs_view(out_v@);
        match found_type {
            Type::Utf8String => {
                match self.read_string() {
                    Ok(s) => {
                        out_v.push(OutputData::String(s));
                        proof {
                            assert(outputs_view(out_v@) =~= before.push(OutputDataView::String(s@)));
                        }
                        return None;
                    },
                    Err(e) => return Some(Err(e)),
                }
            },
            Type::EmbeddedData => {
                return Some(Ok(None));
            },
            Type::Object => {
                return self.read_object_item(out_v, is_obj, Ghost(fuel));
            },
            Type::SignedInt => {
                match self.read_signed_int(Ghost(fuel)) {
                    Ok(v) => {
                        out_v.push(OutputData::SignedInteger(v));
                        proof {
                            assert(outputs_view(out_v@) =~= before.push(OutputDataView::SignedInteger(v)));
                        }
                        return None;
                    },
                    Err(e) => return Some(Err(e)),
                }
            },
            Type::UnsignedInt => {
                match self.read_unsigned_int() {
                    Ok(v) => {
                        out_v.push(OutputData::UnsignedInteger(v));
                        proof {
                            assert(outputs_view(out_v@) =~= before.push(OutputDataView::UnsignedInteger(v)));
                        }
                        return None;
                    },
                    Err(e) => return Some(Err(e)),
                }
            },
            Type::Float => {
                match self.read_decimal(4, Ghost(fuel)) {
                    Ok(v) => {
                        out_v.push(OutputData::Float(v));
                        proof {
                            assert(outputs_view(out_v@) =~= before.push(OutputDataView::Float(v)));
                        }
                        return None;
                    },
                    Err(e) => return Some(Err(e)),
                }
            },
            Type::Double => {
                match self.read_decimal(8, Ghost(fuel)) {
                    Ok(v) => {
                        out_v.push(OutputData::Double(v));
                        proof {
                            assert(outputs_view(out_v@) =~= before.push(OutputDataView::Double(v)));
                        }
                        return None;
                    },
                    Err(e) => return Some(Err(e)),
                }
            },
            Type::Unknown(byte) => {
                out_v.push(OutputData::Byte(*byte));
                proof {
                    assert(outputs_view(out_v@) =~= before.push(OutputDataView::Byte(*byte)));
                }
                return None;
            },
            Type::String(s) => {
                out_v.push(OutputData::String(s.clone()));
                proof {
                    assert(outputs_view(out_v@) =~= before.push(OutputDataView::String(s@)));
                }
                return None;
            },
            Type::Array(size) => {
                match self.read_array(*size) {
                    Ok(v) => {
                        let ghost bytes = v@;
                        out_v.push(OutputData::Array(v));
                        proof {
                            assert(outputs_view(out_v@) =~= before.push(OutputDataView::Array(bytes)));
                        }
                        return None;
                    },
                    Err(e) => return Some(Err(e)),
                }
            },
        }
    }

    /// Given some [`Type`]s, look at the stream and parse the data according to the specified [`Type`]
    fn read_types(&mut self, found_types: Vec<Type>, Ghost(fuel): Ghost<nat>) -> (r: Result<
        Option<Archivable>,
        TypedStreamError,
    >)
        requires
            old(self).wf(),
            old(self)@.idx <= old(self)@.stream.len(),
            enough_fuel(old(self)@, fuel),
        ensures
            final(self).progressed(old(self)),
            (final(self)@, opt_archivable_result_view(r)) == spec_read_types(
                old(self)@,
                types_view(found_types@),
                fuel,
            ),
        decreases fuel, 1int,
    {
        let ghost tv = types_view(found_types@);
        let mut out_v: Vec<OutputData> = Vec::new();
        let mut is_obj: bool = false;
        let mut k: usize = 0;
        proof {
            assert(outputs_view(out_v@) =~= seq![]);
        }
        while k < found_types.len()
            invariant
                self.progressed(old(self)),
                self@.idx <= self@.stream.len(),
                enough_fuel(self@, fuel),
                k <= found_types@.len(),
                tv == types_view(found_types@),
                spec_read_types(old(self)@, tv, fuel) == spec_read_types_from(
                    self@,
                    tv,
                    k as int,
                    outputs_view(out_v@),
                    is_obj,
                    fuel,
                ),
            decreases found_types@.len() - k,
        {
            if let Type::EmbeddedData = &found_types[k] {
                return self.read_embedded_data(Ghost(fuel));
            }
            if let Some(result) = self.read_item(&found_types[k], &mut out_v, &mut is_obj, Ghost(fuel)) {
                return result;
            }
            k += 1;
        }
        self.fill_placeholder(out_v, is_obj)
    }

    /// If we had reserved a place for an object, fill that spot
    fn fill_placeholder(&mut self, out_v: Vec<OutputData>, is_obj: bool) -> (r: Result<
        Option<Archivable>,
        TypedStreamError,
    >)
        requires
            old(self).wf(),
        ensures
            final(self).progressed(old(self)),
            (final(self)@, opt_archivable_result_view(r)) == spec_fill_placeholder(
                old(self)@,
                outputs_view(out_v@),
                is_obj,
            ),
    {
        let mut out_v = out_v;
        let ghost out = outputs_view(out_v@);
        if let Some(spot) = self.placeholder {
            if out_v.len() > 0 {
                let last = out_v.len() - 1;
                // We got a class, but do not have its respective data yet
                if let OutputData::Class(class) = &out_v[last] {
                    let object = Archivable::Object(class.clone(), Vec::new());
                    let ghost before = self.object_table@;
                    self.object_table.set(spot, object);
                    proof {
                        assert(outputs_view(Seq::<OutputData>::empty()) =~= seq![]);
                        assert(archivables_view(self.object_table@) =~= archivables_view(
                            before,
                        ).update(spot as int, ArchivableView::Object(out.last()->Class_0, seq![])));
                    }
                    return self.data_result(out_v, is_obj);
                }
                // The spot after the current placeholder contains the class at the top of the class heirarchy
                let next_class: Option<Class> = if self.object_table.len() > 0 && spot
                    < self.object_table.len() - 1 {
                    match &self.object_table[spot + 1] {
                        Archivable::Class(class) => Some(class.clone()),
                        _ => None,
                    }
                } else {
                    None
                };
                if let Some(class) = next_class {
                    let object = Archivable::Object(class, out_v);
                    let result = object.clone();
                    let ghost before = self.object_table@;
                    self.object_table.set(spot, object);
                    self.placeholder = None;
                    proof {
                        assert(archivables_view(self.object_table@) =~= archivables_view(
                            before,
                        ).update(spot as int, result@));
                    }
                    return Ok(Some(result));
                }
                // We got some data for a class that was already seen
                let existing: Option<(Class, Vec<OutputData>)> = match &self.object_table[spot] {
                    Archivable::Object(class, data) => Some((class.clone(), clone_outputs(data))),
                    _ => None,
                };
                if let Some((class, mut data)) = existing {
                    let ghost first = data@;
                    let ghost second = out_v@;
                    data.append(&mut out_v);
                    proof {
                        assert(outputs_view(data@) =~= outputs_view(first) + outputs_view(second));
                    }
                    let object = Archivable::Object(class, data);
                    let result = object.clone();
                    let ghost before = self.object_table@;
                    self.object_table.set(spot, object);
                    self.placeholder = None;
                    proof {
                        assert(archivables_view(self.object_table@) =~= archivables_view(
                            before,
                        ).update(spot as int, result@));
                    }
                    return Ok(Some(result));
                }
                // We got some data that is not part of a class, i.e. a field in the parent object for which we don't know the name
                let object = Archivable::Data(out_v);
                let result = object.clone();
                let ghost before = self.object_table@;
                self.object_table.set(spot, object);
                self.placeholder = None;
                proof {
                    assert(archivables_view(self.object_table@) =~= archivables_view(before).update(
                        spot as int,
                        result@,
                    ));
                }
                return Ok(Some(result));
            }
        }
        self.data_result(out_v, is_obj)
    }

    /// Data read outside of an object is returned as plain data
    fn data_result(&self, out_v: Vec<OutputData>, is_obj: bool) -> (r: Result<
        Option<Archivable>,
        TypedStreamError,
    >)
        ensures
            (self@, opt_archivable_result_view(r)) == spec_data_result(
                self@,
                outputs_view(out_v@),
                is_obj,
            ),
    {
        if out_v.len() > 0 && !is_obj {
            return Ok(Some(Archivable::Data(out_v)));
        }
        Ok(None)
    }

    /// Validate the header: only the header used by macOS and iOS is accepted, as iMessage is
    /// probably not available on any NeXT platform
    pub fn validate_header(&mut self) -> (r: Result<(), TypedStreamError>)
        requires
            old(self).wf(),
        ensures
            final(self).progressed(old(self)),
            (final(self)@, result_view(r)) == spec_validate_header(
                old(self)@,
                (old(self)@.stream.len() + 2) as nat,
            ),
    {
        // Encoding type
        let typedstream_version = self.read_unsigned_int()?;
        // Encoding signature
        let signature = self.read_string()?;
        // System version
        let system_version = self.read_signed_int(Ghost((self@.stream.len() + 2) as nat))?;

        if typedstream_version != 4 || !str_eq(signature.as_str(), "streamtyped")
            || system_version != 1000 {
            return Err(TypedStreamError::InvalidHeader);
        }
        Ok(())
    }

    /// One step of [`Self::parse`]
    fn parse_step(&mut self, out_v: &mut Vec<Archivable>) -> (r: Result<(), TypedStreamError>)
        requires
            old(self).wf(),
            old(self)@.idx < old(self)@.stream.len(),
        ensures
            final(self).progressed(old(self)),
            r is Ok ==> final(self)@.idx > old(self)@.idx,
            (final(self)@, match r {
                Ok(_) => Ok(archivables_view(final(out_v)@)),
                Err(e) => Err(e@),
            }) == spec_parse_step(old(self)@, archivables_view(old(out_v)@)),
    {
        let ghost fuel: nat = (self@.stream.len() + 2) as nat;
        if self.stream[self.idx] == END {
            self.idx = self.idx + 1;
            return Ok(());
        }
        // First, get the current type
        let found = self.get_type(false, Ghost(fuel))?;
        if let Some(found_types) = found {
            let result = self.read_types(found_types, Ghost(fuel));
            if let Ok(Some(res)) = result {
                let ghost before = out_v@;
                out_v.push(res);
                proof {
                    assert(archivables_view(out_v@) =~= archivables_view(before).push(res@));
                }
            }
        }
        Ok(())
    }

    /// Attempt to get the data from the `typedstream`.
    ///
    /// `typedstream` data doesn't include property names, so data is stored on
    /// [`Object`](Archivable::Object)s in order of appearance.
    #[verifier::rlimit(40)]
    pub fn parse(&mut self) -> (r: Result<Vec<Archivable>, TypedStreamError>)
        requires
            old(self).wf(),
        ensures
            final(self).wf(),
            (final(self)@, archivables_result_view(r)) == spec_parse(old(self)@),
    {
        let ghost fuel: nat = (self@.stream.len() + 2) as nat;
        let mut out_v: Vec<Archivable> = Vec::new();

        self.validate_header()?;

        let ghost mut steps: nat = fuel;
        proof {
            assert(archivables_view(out_v@) =~= seq![]);
        }
        while self.idx < self.stream.len()
            invariant
                self.wf(),
                self.stream == old(self).stream,
                fuel == self@.stream.len() + 2,
                steps > self@.stream.len() + 1 - self@.idx,
                spec_parse(old(self)@) == spec_parse_from(
                    self@,
                    archivables_view(out_v@),
                    steps,
                ),
            decreases self@.stream.len() + 1 - self@.idx,
        {
            let ghost idx0 = self@.idx;
            let ghost len0 = self@.stream.len();
            self.parse_step(&mut out_v)?;
            proof {
                steps = (steps - 1) as nat;
                assert(self@.idx > idx0);
                assert(self@.stream.len() == len0);
            }
        }
        Ok(out_v)
    }
}

} // verus!
