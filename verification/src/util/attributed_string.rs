//! An early reader of the text in `NSAttributedString` data: it walks the stream of typed
//! values and renders what it finds as text.
//!
//! The reader's behaviour is stated by the spec functions below, which take the stream, the
//! position and the table of types seen so far, and give `None` where the reader cannot go on
//! (it reads past the end of the stream, refers to a type it has not seen, or meets bytes that
//! are not UTF-8 where a string is expected). The mutually recursive readers carry a budget
//! of steps, so that their definitions are well founded; a stream can be read when some
//! budget is enough.

use vstd::prelude::*;
use vstd::utf8::*;

use crate::util::text::{digits, decimal_text, lemma_encode_utf8_concat, str_eq, utf8_to_str};

verus! {

/// Indicates the start of a new object
pub const NEW_OBJECT_START: u8 = 0x84;

/// An empty object
pub const NIL: u8 = 0x85;

/// Ends an object
pub const OBJECT_END: u8 = 0x86;

/// Type encoding data follows
pub const ENCODING_DETECTED: u8 = 0x95;

/// Bytes from this one on refer to an entry of the table of types already seen
pub const REFERENCE_TAG: u8 = 0x92;

/// A class and its version, as found in the stream
pub struct Class {
    pub name: String,
    pub version: u8,
}

/// A class and its version, as values
pub struct ClassView {
    pub name: Seq<char>,
    pub version: u8,
}

impl View for Class {
    type V = ClassView;

    open spec fn view(&self) -> ClassView {
        ClassView { name: self.name@, version: self.version }
    }
}

/// The classes the reader knows how to read
pub enum ClassType {
    NSMutableAttributedString(u8),
    NSAttributedString(u8),
    NSObject(u8),
    NSMutableString(u8),
    NSString(u8),
    NSDictionary(u8),
    Unknown(String),
}

/// A [`ClassType`] as a value
pub enum ClassTypeView {
    NSMutableAttributedString(u8),
    NSAttributedString(u8),
    NSObject(u8),
    NSMutableString(u8),
    NSString(u8),
    NSDictionary(u8),
    Unknown(Seq<char>),
}

impl View for ClassType {
    type V = ClassTypeView;

    open spec fn view(&self) -> ClassTypeView {
        match self {
            ClassType::NSMutableAttributedString(v) => ClassTypeView::NSMutableAttributedString(*v),
            ClassType::NSAttributedString(v) => ClassTypeView::NSAttributedString(*v),
            ClassType::NSObject(v) => ClassTypeView::NSObject(*v),
            ClassType::NSMutableString(v) => ClassTypeView::NSMutableString(*v),
            ClassType::NSString(v) => ClassTypeView::NSString(*v),
            ClassType::NSDictionary(v) => ClassTypeView::NSDictionary(*v),
            ClassType::Unknown(name) => ClassTypeView::Unknown(name@),
        }
    }
}

/// The type of a value in the stream
pub enum Type {
    Utf8String,
    NullTerminatedString,
    Object,
    SignedInt,
    UnsignedInt,
    Class(ClassType),
    Unknown(u8),
}

/// A [`Type`] as a value
pub enum TypeView {
    Utf8String,
    NullTerminatedString,
    Object,
    SignedInt,
    UnsignedInt,
    Class(ClassTypeView),
    Unknown(u8),
}

impl View for Type {
    type V = TypeView;

    open spec fn view(&self) -> TypeView {
        match self {
            Type::Utf8String => TypeView::Utf8String,
            Type::NullTerminatedString => TypeView::NullTerminatedString,
            Type::Object => TypeView::Object,
            Type::SignedInt => TypeView::SignedInt,
            Type::UnsignedInt => TypeView::UnsignedInt,
            Type::Class(c) => TypeView::Class(c@),
            Type::Unknown(b) => TypeView::Unknown(*b),
        }
    }
}

/// The table of types seen so far, one list of types per entry
pub type Table = Seq<Seq<TypeView>>;

/// The types of a list, as values.
pub open spec fn types_view(types: Seq<Type>) -> Seq<TypeView> {
    types.map_values(|t: Type| t@)
}

/// A table of types, as values.
pub open spec fn table_view(table: Seq<Vec<Type>>) -> Table {
    table.map_values(|v: Vec<Type>| types_view(v@))
}

/// The type that a byte of a type list stands for.
pub open spec fn type_of_byte(b: u8) -> TypeView {
    if b == 0x40 {
        TypeView::Object
    } else if b == 0x2B {
        TypeView::Utf8String
    } else if b == 0x2A {
        TypeView::NullTerminatedString
    } else if b == 0x69 {
        TypeView::UnsignedInt
    } else if b == 0x49 {
        TypeView::SignedInt
    } else {
        TypeView::Unknown(b)
    }
}

/// The known class of a given name and version.
pub open spec fn class_type_of(name: Seq<char>, version: u8) -> ClassTypeView {
    if name == "NSMutableAttributedString"@ {
        ClassTypeView::NSMutableAttributedString(version)
    } else if name == "NSAttributedString"@ {
        ClassTypeView::NSAttributedString(version)
    } else if name == "NSObject"@ {
        ClassTypeView::NSObject(version)
    } else if name == "NSMutableString"@ {
        ClassTypeView::NSMutableString(version)
    } else if name == "NSString"@ {
        ClassTypeView::NSString(version)
    } else if name == "NSDictionary"@ {
        ClassTypeView::NSDictionary(version)
    } else {
        ClassTypeView::Unknown(name)
    }
}

/// What `<str as Debug>::fmt` writes for a string: the string quoted, with the characters
/// that need it escaped.
pub uninterp spec fn str_debug(s: Seq<char>) -> Seq<char>;

/// Writes a string with `<str as Debug>::fmt`, through `format!`: the string in double
/// quotes, with quotes, backslashes and characters that are not printable escaped. The text
/// depends on the string alone; its exact form is left to the name `str_debug`.
#[verifier::external_body]
fn debug_str(s: &str) -> (text: String)
    ensures
        text@ == str_debug(s@),
{
    format!("{:?}", s)
}

/// The debug rendering of a class: `Class { name: "...", version: n }`.
pub open spec fn class_debug(c: ClassView) -> Seq<char> {
    "Class { name: "@ + str_debug(c.name) + ", version: "@ + digits(c.version as nat, 10) + " }"@
}

/// The debug renderings of the first `n` classes, separated by `, `.
pub open spec fn classes_debug_upto(cs: Seq<ClassView>, n: int) -> Seq<char>
    decreases n,
{
    if n <= 0 {
        seq![]
    } else if n == 1 {
        class_debug(cs[0])
    } else {
        classes_debug_upto(cs, n - 1) + ", "@ + class_debug(cs[n - 1])
    }
}

/// The debug rendering of a list of classes: `[`, the classes separated by `, `, `]`.
pub open spec fn classes_debug(cs: Seq<ClassView>) -> Seq<char> {
    "["@ + classes_debug_upto(cs, cs.len() as int) + "]"@
}

/// The classes of a list, as values.
pub open spec fn classes_view(cs: Seq<Class>) -> Seq<ClassView> {
    cs.map_values(|c: Class| c@)
}

/// The debug rendering of a class type: the variant's name and its field in brackets.
pub open spec fn class_type_debug(c: ClassTypeView) -> Seq<char> {
    match c {
        ClassTypeView::NSMutableAttributedString(v) => "NSMutableAttributedString("@ + digits(
            v as nat,
            10,
        ) + ")"@,
        ClassTypeView::NSAttributedString(v) => "NSAttributedString("@ + digits(v as nat, 10)
            + ")"@,
        ClassTypeView::NSObject(v) => "NSObject("@ + digits(v as nat, 10) + ")"@,
        ClassTypeView::NSMutableString(v) => "NSMutableString("@ + digits(v as nat, 10) + ")"@,
        ClassTypeView::NSString(v) => "NSString("@ + digits(v as nat, 10) + ")"@,
        ClassTypeView::NSDictionary(v) => "NSDictionary("@ + digits(v as nat, 10) + ")"@,
        ClassTypeView::Unknown(name) => "Unknown("@ + str_debug(name) + ")"@,
    }
}

/// The byte at position `i`, if there is one.
pub open spec fn byte_at(s: Seq<u8>, i: int) -> Option<u8> {
    if 0 <= i < s.len() {
        Some(s[i])
    } else {
        None
    }
}

/// Reads a list of types: a length byte, then one byte per type.
pub open spec fn sp_read_type(s: Seq<u8>, i: int) -> Option<(int, Seq<TypeView>)> {
    match byte_at(s, i) {
        None => None,
        Some(n) => if i + 1 + n <= s.len() {
            Some((i + 1 + n, s.subrange(i + 1, i + 1 + n).map_values(|b: u8| type_of_byte(b))))
        } else {
            None
        },
    }
}

/// Moves past bytes equal to the one after them.
pub open spec fn sp_skip_repeats(s: Seq<u8>, i: int) -> Option<int>
    decreases s.len() - i,
{
    if 0 <= i && i + 1 < s.len() {
        if s[i] == s[i + 1] {
            sp_skip_repeats(s, i + 1)
        } else {
            Some(i)
        }
    } else {
        None
    }
}

/// Reads the types of the next value: a new list of types (which joins the table), none at
/// the end of an object, or a reference to an entry of the table.
pub open spec fn sp_get_type(s: Seq<u8>, i: int, t: Table) -> Option<(int, Table, Seq<TypeView>)> {
    match byte_at(s, i) {
        None => None,
        Some(b) => if b == NEW_OBJECT_START {
            match sp_read_type(s, i + 1) {
                None => None,
                Some((j, types)) => Some((j, t.push(types), types)),
            }
        } else if b == OBJECT_END {
            Some((i, t, seq![]))
        } else {
            match sp_skip_repeats(s, i) {
                None => None,
                Some(j) => if s[j] >= REFERENCE_TAG && s[j] - REFERENCE_TAG < t.len() {
                    Some((j + 1, t, t[s[j] - REFERENCE_TAG]))
                } else {
                    None
                },
            }
        },
    }
}

/// Reads a string: a length byte, then that many bytes of UTF-8.
pub open spec fn sp_read_string(s: Seq<u8>, i: int) -> Option<(int, Seq<char>)> {
    match byte_at(s, i) {
        None => None,
        Some(n) => if i + 1 + n <= s.len() && valid_utf8(s.subrange(i + 1, i + 1 + n)) {
            Some((i + 1 + n, decode_utf8(s.subrange(i + 1, i + 1 + n))))
        } else {
            None
        },
    }
}

/// The characters whose code points are the given bytes.
pub open spec fn latin1(bytes: Seq<u8>) -> Seq<char> {
    bytes.map_values(|b: u8| b as char)
}

/// Reads a string ended by a zero byte, one character per byte.
pub open spec fn sp_read_nts(s: Seq<u8>, i: int) -> Option<(int, Seq<char>)>
    decreases s.len() - i,
{
    if 0 <= i < s.len() {
        if s[i] == 0 {
            Some((i + 1, seq![]))
        } else {
            match sp_read_nts(s, i + 1) {
                None => None,
                Some((j, rest)) => Some((j, seq![s[i] as char] + rest)),
            }
        }
    } else {
        None
    }
}

/// Reads the strings of an `NSString`'s encoded data, one per type, which must all be UTF-8
/// strings (otherwise the text is empty).
pub open spec fn sp_ns_string_reads(s: Seq<u8>, i: int, encs: Seq<TypeView>, acc: Seq<char>) -> Option<
    (int, Seq<char>),
>
    decreases encs.len(),
{
    if encs.len() == 0 {
        Some((i, acc))
    } else if encs[0] is Utf8String {
        match sp_read_string(s, i) {
            None => None,
            Some((j, r)) => sp_ns_string_reads(s, j, encs.drop_first(), acc + r),
        }
    } else {
        Some((i, seq![]))
    }
}

/// Reads the data of an `NSString` of the given version.
pub open spec fn sp_handle_ns_string(s: Seq<u8>, i: int, t: Table, version: u8) -> Option<
    (int, Table, Seq<char>),
> {
    if version != 1 {
        Some((i, t, seq![]))
    } else {
        match byte_at(s, i) {
            None => None,
            Some(b) => if b == ENCODING_DETECTED {
                match sp_get_type(s, i + 1, t) {
                    None => None,
                    Some((j, t2, encs)) => match sp_ns_string_reads(s, j, encs, seq![]) {
                        None => None,
                        Some((k, r)) => Some((k, t2, r)),
                    },
                }
            } else {
                Some((i, t, seq![]))
            },
        }
    }
}

/// Reads the size of a dictionary: each unsigned integer among the types is read, and the
/// last one read is the size.
pub open spec fn sp_dict_length(s: Seq<u8>, i: int, types: Seq<TypeView>, len: u8) -> Option<(int, u8)>
    decreases types.len(),
{
    if types.len() == 0 {
        Some((i, len))
    } else if types[0] is UnsignedInt {
        match byte_at(s, i) {
            None => None,
            Some(b) => sp_dict_length(s, i + 1, types.drop_first(), b),
        }
    } else {
        sp_dict_length(s, i, types.drop_first(), len)
    }
}

/// Moves past the bytes that start new objects.
pub open spec fn sp_skip_starts(s: Seq<u8>, i: int) -> Option<int>
    decreases s.len() - i,
{
    if 0 <= i < s.len() {
        if s[i] == NEW_OBJECT_START {
            sp_skip_starts(s, i + 1)
        } else {
            Some(i)
        }
    } else {
        None
    }
}

/// Reads the values of the given types in turn, adding what each renders to `acc`.
pub open spec fn sp_read_types(
    s: Seq<u8>,
    i: int,
    t: Table,
    types: Seq<TypeView>,
    acc: Seq<char>,
    fuel: nat,
) -> Option<(int, Table, Seq<char>)>
    decreases fuel,
{
    if fuel == 0 {
        None
    } else if types.len() == 0 {
        Some((i, t, acc))
    } else {
        match sp_read_one(s, i, t, types[0], (fuel - 1) as nat) {
            None => None,
            Some((j, t2, r)) => sp_read_types(s, j, t2, types.drop_first(), acc + r, (fuel - 1) as nat),
        }
    }
}

/// Reads and renders one value of the given type.
pub open spec fn sp_read_one(s: Seq<u8>, i: int, t: Table, ty: TypeView, fuel: nat) -> Option<
    (int, Table, Seq<char>),
>
    decreases fuel,
{
    if fuel == 0 {
        None
    } else {
        match ty {
            TypeView::Utf8String => match sp_read_string(s, i) {
                None => None,
                Some((j, r)) => Some((j, t, r)),
            },
            TypeView::NullTerminatedString => match sp_read_nts(s, i) {
                None => None,
                Some((j, r)) => Some((j, t, r)),
            },
            TypeView::Object => match sp_read_object(s, i, t, (fuel - 1) as nat) {
                None => None,
                Some((j, t2, objs)) => sp_objects_data(
                    s,
                    j,
                    t2,
                    objs,
                    classes_debug(objs),
                    (fuel - 1) as nat,
                ),
            },
            TypeView::SignedInt => match byte_at(s, i) {
                None => None,
                Some(b) => Some((i + 1, t, "Signed: "@ + digits(b as nat, 10) + " "@)),
            },
            TypeView::UnsignedInt => match byte_at(s, i) {
                None => None,
                Some(b) => Some((i + 1, t, "Unsigned: "@ + digits(b as nat, 10) + " "@)),
            },
            TypeView::Unknown(_) => None,
            TypeView::Class(c) => match c {
                ClassTypeView::NSString(v) => match sp_handle_ns_string(s, i, t, v) {
                    None => None,
                    Some((j, t2, r)) => Some((j, t2, ": "@ + r)),
                },
                ClassTypeView::NSDictionary(v) => match sp_handle_ns_dict(s, i, t, v, (fuel - 1) as nat) {
                    None => None,
                    Some((j, t2, r)) => Some((j, t2, ": "@ + r)),
                },
                _ => Some((i, t, class_type_debug(c) + " does not have parsing rules!"@)),
            },
        }
    }
}

/// Reads the data of the objects just read that have some: `NSString` and `NSDictionary`.
pub open spec fn sp_objects_data(
    s: Seq<u8>,
    i: int,
    t: Table,
    objs: Seq<ClassView>,
    acc: Seq<char>,
    fuel: nat,
) -> Option<(int, Table, Seq<char>)>
    decreases fuel,
{
    if fuel == 0 {
        None
    } else if objs.len() == 0 {
        Some((i, t, acc))
    } else {
        match class_type_of(objs[0].name, objs[0].version) {
            ClassTypeView::NSString(v) => match sp_handle_ns_string(s, i, t, v) {
                None => None,
                Some((j, t2, r)) => sp_objects_data(
                    s,
                    j,
                    t2,
                    objs.drop_first(),
                    acc + ": "@ + r,
                    (fuel - 1) as nat,
                ),
            },
            ClassTypeView::NSDictionary(v) => match sp_handle_ns_dict(s, i, t, v, (fuel - 1) as nat) {
                None => None,
                Some((j, t2, r)) => sp_objects_data(
                    s,
                    j,
                    t2,
                    objs.drop_first(),
                    acc + ": "@ + r,
                    (fuel - 1) as nat,
                ),
            },
            _ => sp_objects_data(s, i, t, objs.drop_first(), acc, (fuel - 1) as nat),
        }
    }
}

/// Reads the classes of an object, up to the byte that ends it.
pub open spec fn sp_read_object(s: Seq<u8>, i: int, t: Table, fuel: nat) -> Option<
    (int, Table, Seq<ClassView>),
>
    decreases fuel,
{
    if fuel == 0 || byte_at(s, i) is None {
        None
    } else {
        sp_object_loop(s, i, t, seq![], (fuel - 1) as nat)
    }
}

/// One round of reading an object's classes: the end of the object, an empty object, encoded
/// data (which stops the object), a class referred to by the table, or a new class.
pub open spec fn sp_object_loop(s: Seq<u8>, i: int, t: Table, out: Seq<ClassView>, fuel: nat) -> Option<
    (int, Table, Seq<ClassView>),
>
    decreases fuel,
{
    if fuel == 0 {
        None
    } else {
        match byte_at(s, i) {
            None => None,
            Some(b) => if b == OBJECT_END {
                Some((i + 1, t, out))
            } else {
                match sp_skip_starts(s, i) {
                    None => None,
                    Some(i1) => if s[i1] == NIL {
                        sp_object_loop(s, i1 + 1, t, out, (fuel - 1) as nat)
                    } else if s[i1] == ENCODING_DETECTED {
                        Some((i1, t, out))
                    } else if s[i1] >= REFERENCE_TAG {
                        match sp_get_type(s, i1, t) {
                            None => None,
                            Some((i2, t2, found)) => match sp_read_types(
                                s,
                                i2,
                                t2,
                                found,
                                seq![],
                                (fuel - 1) as nat,
                            ) {
                                None => None,
                                Some((i3, t3, r)) => sp_object_loop(
                                    s,
                                    i3,
                                    t3,
                                    out.push(ClassView { name: r, version: 100 }),
                                    (fuel - 1) as nat,
                                ),
                            },
                        }
                    } else {
                        match sp_read_string(s, i1) {
                            None => None,
                            Some((i2, name)) => match byte_at(s, i2) {
                                None => None,
                                Some(version) => if byte_at(s, i2 + 1) is None {
                                    None
                                } else {
                                    sp_object_loop(
                                        s,
                                        i2 + 1,
                                        t.push(seq![TypeView::Class(class_type_of(name, version))]),
                                        out.push(ClassView { name, version }),
                                        (fuel - 1) as nat,
                                    )
                                },
                            },
                        }
                    },
                }
            },
        }
    }
}

/// Reads the data of an `NSDictionary` of the given version: its size, then each key and
/// value, rendered as `key: value`.
pub open spec fn sp_handle_ns_dict(s: Seq<u8>, i: int, t: Table, version: u8, fuel: nat) -> Option<
    (int, Table, Seq<char>),
>
    decreases fuel,
{
    if fuel == 0 {
        None
    } else if version != 0 {
        Some((i, t, seq![]))
    } else {
        match byte_at(s, i) {
            None => None,
            Some(b) => {
                let i1 = if b == ENCODING_DETECTED {
                    i + 1
                } else {
                    i
                };
                match sp_get_type(s, i1, t) {
                    None => None,
                    Some((i2, t2, lt)) => match sp_dict_length(s, i2, lt, 0) {
                        None => None,
                        Some((i3, n)) => if byte_at(s, i3 + 2) is None {
                            None
                        } else {
                            sp_dict_items(s, i3 + 2, t2, n as nat, seq![], (fuel - 1) as nat)
                        },
                    },
                }
            },
        }
    }
}

/// Reads `n` more entries of a dictionary.
pub open spec fn sp_dict_items(s: Seq<u8>, i: int, t: Table, n: nat, acc: Seq<char>, fuel: nat) -> Option<
    (int, Table, Seq<char>),
>
    decreases fuel,
{
    if fuel == 0 {
        None
    } else if n == 0 {
        Some((i, t, acc))
    } else {
        match sp_get_type(s, i, t) {
            None => None,
            Some((i1, t1, kt)) => match sp_read_types(s, i1, t1, kt, seq![], (fuel - 1) as nat) {
                None => None,
                Some((i2, t2, kd)) => match sp_get_type(s, i2 + 1, t2) {
                    None => None,
                    Some((i3, t3, vt)) => match sp_read_types(s, i3, t3, vt, seq![], (fuel - 1) as nat) {
                        None => None,
                        Some((i4, t4, vd)) => sp_dict_items(
                            s,
                            i4,
                            t4,
                            (n - 1) as nat,
                            acc + kd + ": "@ + vd,
                            (fuel - 1) as nat,
                        ),
                    },
                },
            },
        }
    }
}

/// Reads the values of the stream from position `i` on, each rendered as a string.
pub open spec fn sp_parse_loop(s: Seq<u8>, i: int, t: Table, out: Seq<Seq<char>>, fuel: nat) -> Option<
    Seq<Seq<char>>,
>
    decreases fuel,
{
    if fuel == 0 {
        None
    } else if i >= s.len() {
        Some(out)
    } else {
        match sp_get_type(s, i, t) {
            None => None,
            Some((i1, t1, found)) => match sp_read_types(s, i1, t1, found, seq![], (fuel - 1) as nat) {
                None => None,
                Some((i2, t2, r)) => match byte_at(s, i2) {
                    None => None,
                    Some(b) => sp_parse_loop(
                        s,
                        if b == ENCODING_DETECTED || b == OBJECT_END {
                            i2 + 1
                        } else {
                            i2
                        },
                        t2,
                        out.push(r),
                        (fuel - 1) as nat,
                    ),
                },
            },
        }
    }
}

/// Reads a whole stream from position `start`, after sixteen bytes of header, with a budget
/// of steps.
pub open spec fn sp_parse(s: Seq<u8>, start: int, fuel: nat) -> Option<Seq<Seq<char>>> {
    sp_parse_loop(s, start + 16, seq![], seq![], fuel)
}

/// Whether the reader gets through the stream from position `start`.
pub open spec fn stream_readable(s: Seq<u8>, start: int) -> bool {
    exists|fuel: nat| #[trigger] sp_parse(s, start, fuel) is Some
}

/// A budget of steps that is enough to read the stream, where there is one.
pub open spec fn read_budget(s: Seq<u8>, start: int) -> nat {
    choose|fuel: nat| #[trigger] sp_parse(s, start, fuel) is Some
}

/// What the reader renders of a stream that it gets through from position `start`.
pub open spec fn parsed_stream(s: Seq<u8>, start: int) -> Seq<Seq<char>> {
    sp_parse(s, start, read_budget(s, start))->0
}

impl Type {
    /// The type that a byte of a type list stands for
    pub fn from_byte(byte: &u8) -> (t: Type)
        ensures
            t@ == type_of_byte(*byte),
    {
        match *byte {
            0x40 => Type::Object,
            0x2B => Type::Utf8String,
            0x2A => Type::NullTerminatedString,
            0x69 => Type::UnsignedInt,
            0x49 => Type::SignedInt,
            other => Type::Unknown(other),
        }
    }
}

impl ClassType {
    /// The known class of a class found in the stream
    pub fn from_class(class: &Class) -> (c: ClassType)
        ensures
            c@ == class_type_of(class.name@, class.version),
    {
        let name = class.name.as_str();
        if str_eq(name, "NSMutableAttributedString") {
            ClassType::NSMutableAttributedString(class.version)
        } else if str_eq(name, "NSAttributedString") {
            ClassType::NSAttributedString(class.version)
        } else if str_eq(name, "NSObject") {
            ClassType::NSObject(class.version)
        } else if str_eq(name, "NSMutableString") {
            ClassType::NSMutableString(class.version)
        } else if str_eq(name, "NSString") {
            ClassType::NSString(class.version)
        } else if str_eq(name, "NSDictionary") {
            ClassType::NSDictionary(class.version)
        } else {
            ClassType::Unknown(class.name.clone())
        }
    }
}

fn copy_type(t: &Type) -> (c: Type)
    ensures
        c@ == t@,
{
    match t {
        Type::Utf8String => Type::Utf8String,
        Type::NullTerminatedString => Type::NullTerminatedString,
        Type::Object => Type::Object,
        Type::SignedInt => Type::SignedInt,
        Type::UnsignedInt => Type::UnsignedInt,
        Type::Unknown(b) => Type::Unknown(*b),
        Type::Class(c) => Type::Class(
            match c {
                ClassType::NSMutableAttributedString(v) => ClassType::NSMutableAttributedString(*v),
                ClassType::NSAttributedString(v) => ClassType::NSAttributedString(*v),
                ClassType::NSObject(v) => ClassType::NSObject(*v),
                ClassType::NSMutableString(v) => ClassType::NSMutableString(*v),
                ClassType::NSString(v) => ClassType::NSString(*v),
                ClassType::NSDictionary(v) => ClassType::NSDictionary(*v),
                ClassType::Unknown(name) => ClassType::Unknown(name.clone()),
            },
        ),
    }
}

fn copy_types(types: &Vec<Type>) -> (c: Vec<Type>)
    ensures
        types_view(c@) == types_view(types@),
{
    let mut c: Vec<Type> = Vec::new();
    let mut k: usize = 0;
    while k < types.len()
        invariant
            k <= types@.len(),
            types_view(c@) =~= types_view(types@.take(k as int)),
        decreases types@.len() - k,
    {
        let t = copy_type(&types[k]);
        let ghost old_c = c@;
        c.push(t);
        proof {
            assert(types@.take(k + 1) =~= types@.take(k as int).push(types@[k as int]));
            assert(types_view(c@) =~= types_view(old_c).push(t@));
            assert(types_view(types@.take(k + 1)) =~= types_view(types@.take(k as int)).push(
                types@[k as int]@,
            ));
        }
        k += 1;
    }
    assert(types@.take(k as int) =~= types@);
    c
}

/// Adding an entry to a table adds its view to the table's view.
proof fn lemma_table_push(table: Seq<Vec<Type>>, v: Vec<Type>)
    ensures
        table_view(table.push(v)) == table_view(table).push(types_view(v@)),
{
    assert(table_view(table.push(v)) =~= table_view(table).push(types_view(v@)));
}

fn class_debug_text(c: &Class) -> (text: String)
    ensures
        text@ == class_debug(c@),
{
    let mut text = "Class { name: ".to_owned();
    let name = debug_str(c.name.as_str());
    text.append(name.as_str());
    text.append(", version: ");
    let version = decimal_text(c.version as u64);
    text.append(version.as_str());
    text.append(" }");
    text
}

fn classes_debug_text(cs: &Vec<Class>) -> (text: String)
    ensures
        text@ == classes_debug(classes_view(cs@)),
{
    let ghost v = classes_view(cs@);
    let mut inner = String::new();
    let mut k: usize = 0;
    while k < cs.len()
        invariant
            k <= cs@.len(),
            v == classes_view(cs@),
            inner@ == classes_debug_upto(v, k as int),
        decreases cs@.len() - k,
    {
        let c = class_debug_text(&cs[k]);
        if k > 0 {
            inner.append(", ");
        }
        inner.append(c.as_str());
        k += 1;
    }
    let mut text = "[".to_owned();
    text.append(inner.as_str());
    text.append("]");
    text
}

fn class_type_debug_text(c: &ClassType) -> (text: String)
    ensures
        text@ == class_type_debug(c@),
{
    let (mut text, field) = match c {
        ClassType::NSMutableAttributedString(v) => (
            "NSMutableAttributedString(".to_owned(),
            decimal_text(*v as u64),
        ),
        ClassType::NSAttributedString(v) => ("NSAttributedString(".to_owned(), decimal_text(*v as u64)),
        ClassType::NSObject(v) => ("NSObject(".to_owned(), decimal_text(*v as u64)),
        ClassType::NSMutableString(v) => ("NSMutableString(".to_owned(), decimal_text(*v as u64)),
        ClassType::NSString(v) => ("NSString(".to_owned(), decimal_text(*v as u64)),
        ClassType::NSDictionary(v) => ("NSDictionary(".to_owned(), decimal_text(*v as u64)),
        ClassType::Unknown(name) => ("Unknown(".to_owned(), debug_str(name.as_str())),
    };
    text.append(field.as_str());
    text.append(")");
    text
}

/// Reads typed values from a stream of bytes
pub struct StreamTypedReader<'a> {
    pub stream: &'a [u8],
    pub idx: usize,
}

impl<'a> StreamTypedReader<'a> {
    /// A reader at the start of the stream
    pub fn new(stream: &'a [u8]) -> (reader: Self)
        ensures
            reader.stream@ == stream@,
            reader.idx == 0,
    {
        StreamTypedReader { stream, idx: 0 }
    }

    /// Reads the current byte as an integer
    fn read_int(&mut self) -> (value: u8)
        requires
            old(self).idx < old(self).stream@.len(),
        ensures
            final(self).stream@ == old(self).stream@,
            final(self).idx == old(self).idx + 1,
            value == old(self).stream@[old(self).idx as int],
    {
        let value = self.stream[self.idx];
        self.idx += 1;
        value
    }

    /// Reads a string: a length byte, then that many bytes of UTF-8
    fn read_string(&mut self) -> (text: String)
        requires
            sp_read_string(old(self).stream@, old(self).idx as int) is Some,
        ensures
            final(self).stream@ == old(self).stream@,
            sp_read_string(old(self).stream@, old(self).idx as int) == Some(
                (final(self).idx as int, text@),
            ),
    {
        let n = self.stream[self.idx];
        let start = self.idx + 1;
        let end = start + n as usize;
        let bytes = vstd::slice::slice_subrange(self.stream, start, end);
        match utf8_to_str(bytes) {
            Ok(text) => {
                self.idx = end;
                text.to_owned()
            },
            Err(_) => String::new(),
        }
    }

    /// Reads a string ended by a zero byte, one character per byte
    fn read_null_terminated_string(&mut self) -> (text: String)
        requires
            sp_read_nts(old(self).stream@, old(self).idx as int) is Some,
        ensures
            final(self).stream@ == old(self).stream@,
            sp_read_nts(old(self).stream@, old(self).idx as int) == Some(
                (final(self).idx as int, text@),
            ),
    {
        let ghost s = self.stream@;
        let ghost start = self.idx as int;
        let mut bytes: Vec<u8> = Vec::new();
        proof {
            assert(latin1(s.subrange(start, start)) =~= seq![]);
            assert(seq![] + latin1(s.subrange(start, start)) =~= latin1(s.subrange(start, start)));
        }
        while self.stream[self.idx] != 0
            invariant
                self.stream@ == s,
                start <= self.idx,
                match sp_read_nts(s, self.idx as int) {
                    Some((j, rest)) => sp_read_nts(s, start) == Some(
                        (j, latin1(s.subrange(start, self.idx as int)) + rest),
                    ),
                    None => false,
                },
                bytes@ == encode_utf8(latin1(s.subrange(start, self.idx as int))),
            decreases s.len() - self.idx,
        {
            let b = self.stream[self.idx];
            let ghost before = latin1(s.subrange(start, self.idx as int));
            if b < 0x80 {
                bytes.push(b);
                proof {
                    assert(((b as u32) & 0x7F) as u8 == b) by (bit_vector)
                        requires
                            b < 0x80,
                    ;
                }
            } else {
                bytes.push(0xC0u8 | (b >> 6u8));
                bytes.push(0x80u8 | (b & 0x3Fu8));
                proof {
                    assert(0xC0u8 | (((b as u32) >> 6u32) & 0x1Fu32) as u8 == 0xC0u8 | (b >> 6u8))
                        by (bit_vector);
                    assert(0x80u8 | ((b as u32) & 0x3Fu32) as u8 == 0x80u8 | (b & 0x3Fu8))
                        by (bit_vector);
                }
            }
            proof {
                let c = b as char;
                assert((c as u32) == (b as u32));
                let after = latin1(s.subrange(start, self.idx + 1));
                assert(after =~= before + seq![c]);
                lemma_encode_utf8_concat(before, seq![c]);
                assert(seq![c].drop_first() =~= Seq::<char>::empty());
                assert(encode_utf8(Seq::<char>::empty()) =~= Seq::<u8>::empty());
                assert(encode_utf8(seq![c]) == encode_scalar(seq![c][0] as u32) + encode_utf8(
                    seq![c].drop_first(),
                ));
                assert(encode_utf8(seq![c]) =~= encode_scalar(c as u32));
                assert(bytes@ =~= encode_utf8(before) + encode_scalar(c as u32));
            }
            self.idx += 1;
        }
        self.idx += 1;
        let ghost chars = latin1(s.subrange(start, self.idx - 1));
        proof {
            assert(sp_read_nts(s, self.idx - 1) == Some((self.idx as int, Seq::<char>::empty())));
            assert(chars + Seq::<char>::empty() =~= chars);
            encode_utf8_valid_utf8(chars);
            encode_utf8_decode_utf8(chars);
        }
        match utf8_to_str(bytes.as_slice()) {
            Ok(text) => text.to_owned(),
            Err(_) => String::new(),
        }
    }

    /// Reads a list of types: a length byte, then one byte per type
    fn read_type(&mut self) -> (types: Vec<Type>)
        requires
            sp_read_type(old(self).stream@, old(self).idx as int) is Some,
        ensures
            final(self).stream@ == old(self).stream@,
            sp_read_type(old(self).stream@, old(self).idx as int) == Some(
                (final(self).idx as int, types_view(types@)),
            ),
    {
        let ghost s = self.stream@;
        let n = self.stream[self.idx];
        let start = self.idx + 1;
        let end = start + n as usize;
        let mut types: Vec<Type> = Vec::new();
        let mut k = start;
        while k < end
            invariant
                self.stream@ == s,
                start <= k <= end <= s.len(),
                types_view(types@) =~= s.subrange(start as int, k as int).map_values(
                    |b: u8| type_of_byte(b),
                ),
            decreases end - k,
        {
            let t = Type::from_byte(&self.stream[k]);
            let ghost old_types = types@;
            types.push(t);
            proof {
                assert(types_view(types@) =~= types_view(old_types).push(t@));
                assert(s.subrange(start as int, k + 1) =~= s.subrange(start as int, k as int).push(
                    s[k as int],
                ));
            }
            k += 1;
        }
        self.idx = end;
        types
    }

    /// Reads the types of the next value: a new list of types, which joins the table, none
    /// at the end of an object, or a reference to an entry of the table
    fn get_type(&mut self, table: &mut Vec<Vec<Type>>) -> (types: Vec<Type>)
        requires
            sp_get_type(old(self).stream@, old(self).idx as int, table_view(old(table)@)) is Some,
        ensures
            final(self).stream@ == old(self).stream@,
            sp_get_type(old(self).stream@, old(self).idx as int, table_view(old(table)@)) == Some(
                (final(self).idx as int, table_view(final(table)@), types_view(types@)),
            ),
    {
        let ghost s = self.stream@;
        let b = self.stream[self.idx];
        if b == NEW_OBJECT_START {
            self.idx += 1;
            let types = self.read_type();
            let copy = copy_types(&types);
            proof {
                lemma_table_push(table@, types);
            }
            table.push(types);
            copy
        } else if b == OBJECT_END {
            Vec::new()
        } else {
            let ghost found = sp_skip_repeats(s, self.idx as int);
            while self.stream[self.idx] == self.stream[self.idx + 1]
                invariant
                    self.stream@ == s,
                    sp_skip_repeats(s, self.idx as int) == found,
                    found is Some,
                decreases s.len() - self.idx,
            {
                self.idx += 1;
            }
            let reference = self.stream[self.idx] - REFERENCE_TAG;
            self.idx += 1;
            copy_types(&table[reference as usize])
        }
    }

    /// Reads the data of an `NSString` of the given version
    #[verifier::loop_isolation(false)]
    fn handle_ns_string(&mut self, version: u8, table: &mut Vec<Vec<Type>>) -> (text: String)
        requires
            sp_handle_ns_string(
                old(self).stream@,
                old(self).idx as int,
                table_view(old(table)@),
                version,
            ) is Some,
        ensures
            final(self).stream@ == old(self).stream@,
            sp_handle_ns_string(old(self).stream@, old(self).idx as int, table_view(old(table)@), version)
                == Some((final(self).idx as int, table_view(final(table)@), text@)),
    {
        let ghost s = self.stream@;
        if version != 1 {
            return String::new();
        }
        if self.stream[self.idx] != ENCODING_DETECTED {
            return String::new();
        }
        self.idx += 1;
        let encodings = self.get_type(table);
        let ghost encs = types_view(encodings@);
        let ghost goal = sp_ns_string_reads(s, self.idx as int, encs, seq![]);
        let ghost t2 = table_view(table@);
        let mut out = String::new();
        let mut k: usize = 0;
        assert(encs.skip(0) =~= encs);
        assert(out@ =~= Seq::<char>::empty());
        while k < encodings.len()
            invariant
                self.stream@ == s,
                table_view(table@) == t2,
                k <= encodings@.len(),
                encs == types_view(encodings@),
                goal is Some,
                sp_ns_string_reads(s, self.idx as int, encs.skip(k as int), out@) == goal,
            decreases encodings@.len() - k,
        {
            assert(encs.skip(k as int)[0] == encodings@[k as int]@);
            match &encodings[k] {
                Type::Utf8String => {
                    let r = self.read_string();
                    out.append(r.as_str());
                    assert(encs.skip(k as int).drop_first() =~= encs.skip(k + 1));
                },
                _ => {
                    return String::new();
                },
            }
            k += 1;
        }
        out
    }


    /// Reads the values of the given types in turn, and renders them one after another
    #[verifier::loop_isolation(false)]
    fn read_types(&mut self, found: Vec<Type>, table: &mut Vec<Vec<Type>>, Ghost(fuel): Ghost<nat>) -> (text: String)
        requires
            sp_read_types(
                old(self).stream@,
                old(self).idx as int,
                table_view(old(table)@),
                types_view(found@),
                seq![],
                fuel,
            ) is Some,
        ensures
            final(self).stream@ == old(self).stream@,
            sp_read_types(
                old(self).stream@,
                old(self).idx as int,
                table_view(old(table)@),
                types_view(found@),
                seq![],
                fuel,
            ) == Some((final(self).idx as int, table_view(final(table)@), text@)),
        decreases fuel,
    {
        let ghost s = self.stream@;
        let ghost tys = types_view(found@);
        let ghost goal = sp_read_types(s, self.idx as int, table_view(table@), tys, seq![], fuel);
        let mut out = String::new();
        let mut k: usize = 0;
        let ghost mut f: nat = fuel;
        assert(tys.skip(0) =~= tys);
        assert(out@ =~= Seq::<char>::empty());
        while k < found.len()
            invariant
                self.stream@ == s,
                k <= found@.len(),
                tys == types_view(found@),
                goal is Some,
                f <= fuel,
                sp_read_types(s, self.idx as int, table_view(table@), tys.skip(k as int), out@, f)
                    == goal,
            decreases found@.len() - k,
        {
            assert(tys.skip(k as int)[0] == found@[k as int]@);
            let r = self.read_one(&found[k], table, Ghost((f - 1) as nat));
            out.append(r.as_str());
            proof {
                assert(tys.skip(k as int).drop_first() =~= tys.skip(k + 1));
                f = (f - 1) as nat;
            }
            k += 1;
        }
        out
    }

    /// Reads and renders one value of the given type
    #[verifier::loop_isolation(false)]
    fn read_one(&mut self, ty: &Type, table: &mut Vec<Vec<Type>>, Ghost(fuel): Ghost<nat>) -> (text: String)
        requires
            sp_read_one(old(self).stream@, old(self).idx as int, table_view(old(table)@), ty@, fuel) is Some,
        ensures
            final(self).stream@ == old(self).stream@,
            sp_read_one(old(self).stream@, old(self).idx as int, table_view(old(table)@), ty@, fuel)
                == Some((final(self).idx as int, table_view(final(table)@), text@)),
        decreases fuel,
    {
        match ty {
            Type::Utf8String => self.read_string(),
            Type::NullTerminatedString => self.read_null_terminated_string(),
            Type::Object => {
                let objects = self.read_object(table, Ghost((fuel - 1) as nat));
                let rendered = classes_debug_text(&objects);
                self.read_objects_data(&objects, rendered, table, Ghost((fuel - 1) as nat))
            },
            Type::SignedInt => {
                let value = self.read_int();
                let mut text = "Signed: ".to_owned();
                let number = decimal_text(value as u64);
                text.append(number.as_str());
                text.append(" ");
                text
            },
            Type::UnsignedInt => {
                let value = self.read_int();
                let mut text = "Unsigned: ".to_owned();
                let number = decimal_text(value as u64);
                text.append(number.as_str());
                text.append(" ");
                text
            },
            Type::Unknown(_) => String::new(),
            Type::Class(class_type) => match class_type {
                ClassType::NSString(version) => {
                    let data = self.handle_ns_string(*version, table);
                    let mut text = ": ".to_owned();
                    text.append(data.as_str());
                    text
                },
                ClassType::NSDictionary(version) => {
                    let data = self.handle_ns_dict(*version, table, Ghost((fuel - 1) as nat));
                    let mut text = ": ".to_owned();
                    text.append(data.as_str());
                    text
                },
                other => {
                    let mut text = class_type_debug_text(other);
                    text.append(" does not have parsing rules!");
                    text
                },
            },
        }
    }

    /// Reads the data of the objects just read that have some, after their rendering `acc`
    #[verifier::loop_isolation(false)]
    fn read_objects_data(
        &mut self,
        objects: &Vec<Class>,
        acc: String,
        table: &mut Vec<Vec<Type>>,
        Ghost(fuel): Ghost<nat>,
    ) -> (text: String)
        requires
            sp_objects_data(
                old(self).stream@,
                old(self).idx as int,
                table_view(old(table)@),
                classes_view(objects@),
                acc@,
                fuel,
            ) is Some,
        ensures
            final(self).stream@ == old(self).stream@,
            sp_objects_data(
                old(self).stream@,
                old(self).idx as int,
                table_view(old(table)@),
                classes_view(objects@),
                acc@,
                fuel,
            ) == Some((final(self).idx as int, table_view(final(table)@), text@)),
        decreases fuel,
    {
        let ghost s = self.stream@;
        let ghost cv = classes_view(objects@);
        let ghost goal = sp_objects_data(s, self.idx as int, table_view(table@), cv, acc@, fuel);
        let mut out = acc;
        let mut k: usize = 0;
        let ghost mut f: nat = fuel;
        assert(cv.skip(0) =~= cv);
        while k < objects.len()
            invariant
                self.stream@ == s,
                k <= objects@.len(),
                cv == classes_view(objects@),
                goal is Some,
                f <= fuel,
                sp_objects_data(s, self.idx as int, table_view(table@), cv.skip(k as int), out@, f)
                    == goal,
            decreases objects@.len() - k,
        {
            assert(cv.skip(k as int)[0] == objects@[k as int]@);
            let class_type = ClassType::from_class(&objects[k]);
            match class_type {
                ClassType::NSString(version) => {
                    let data = self.handle_ns_string(version, table);
                    out.append(": ");
                    out.append(data.as_str());
                },
                ClassType::NSDictionary(version) => {
                    let data = self.handle_ns_dict(version, table, Ghost((f - 1) as nat));
                    out.append(": ");
                    out.append(data.as_str());
                },
                _ => {},
            }
            proof {
                assert(cv.skip(k as int).drop_first() =~= cv.skip(k + 1));
                f = (f - 1) as nat;
            }
            k += 1;
        }
        out
    }

    /// Reads the classes of an object, up to the byte that ends it
    #[verifier::loop_isolation(false)]
    fn read_object(&mut self, table: &mut Vec<Vec<Type>>, Ghost(fuel): Ghost<nat>) -> (objects: Vec<Class>)
        requires
            sp_read_object(old(self).stream@, old(self).idx as int, table_view(old(table)@), fuel) is Some,
        ensures
            final(self).stream@ == old(self).stream@,
            sp_read_object(old(self).stream@, old(self).idx as int, table_view(old(table)@), fuel)
                == Some((final(self).idx as int, table_view(final(table)@), classes_view(objects@))),
        decreases fuel,
    {
        let ghost s = self.stream@;
        let ghost goal = sp_read_object(s, self.idx as int, table_view(table@), fuel);
        let mut out: Vec<Class> = Vec::new();
        let ghost mut f: nat = (fuel - 1) as nat;
        assert(classes_view(out@) =~= Seq::<ClassView>::empty());
        loop
            invariant
                self.stream@ == s,
                goal is Some,
                f < fuel,
                sp_object_loop(s, self.idx as int, table_view(table@), classes_view(out@), f) == goal,
            decreases f,
        {
            if self.stream[self.idx] == OBJECT_END {
                self.idx += 1;
                return out;
            }
            let ghost skipped = sp_skip_starts(s, self.idx as int);
            while self.stream[self.idx] == NEW_OBJECT_START
                invariant
                    self.stream@ == s,
                    sp_skip_starts(s, self.idx as int) == skipped,
                    skipped is Some,
                decreases s.len() - self.idx,
            {
                self.idx += 1;
            }
            let b = self.stream[self.idx];
            if b == NIL {
                self.idx += 1;
            } else if b == ENCODING_DETECTED {
                return out;
            } else if b >= REFERENCE_TAG {
                let found = self.get_type(table);
                let name = self.read_types(found, table, Ghost((f - 1) as nat));
                let ghost before = out@;
                out.push(Class { name, version: 100 });
                proof {
                    assert(classes_view(out@) =~= classes_view(before).push(out@.last()@));
                }
            } else {
                let name = self.read_string();
                let version = self.read_int();
                let class = Class { name, version };
                let class_type = ClassType::from_class(&class);
                let mut entry: Vec<Type> = Vec::new();
                entry.push(Type::Class(class_type));
                proof {
                    lemma_table_push(table@, entry);
                    assert(types_view(entry@) =~= seq![TypeView::Class(class_type@)]);
                }
                table.push(entry);
                let ghost before = out@;
                out.push(class);
                proof {
                    assert(classes_view(out@) =~= classes_view(before).push(out@.last()@));
                }
            }
            proof {
                f = (f - 1) as nat;
            }
        }
    }

    /// Reads the data of an `NSDictionary` of the given version: its size, then each key and
    /// value
    #[verifier::loop_isolation(false)]
    fn handle_ns_dict(&mut self, version: u8, table: &mut Vec<Vec<Type>>, Ghost(fuel): Ghost<nat>) -> (text: String)
        requires
            sp_handle_ns_dict(
                old(self).stream@,
                old(self).idx as int,
                table_view(old(table)@),
                version,
                fuel,
            ) is Some,
        ensures
            final(self).stream@ == old(self).stream@,
            sp_handle_ns_dict(old(self).stream@, old(self).idx as int, table_view(old(table)@), version, fuel)
                == Some((final(self).idx as int, table_view(final(table)@), text@)),
        decreases fuel,
    {
        let ghost s = self.stream@;
        if version != 0 {
            return String::new();
        }
        if self.stream[self.idx] == ENCODING_DETECTED {
            self.idx += 1;
        }
        let length_types = self.get_type(table);
        let ghost lt = types_view(length_types@);
        let ghost length_read = sp_dict_length(s, self.idx as int, lt, 0);
        let mut dict_length: u8 = 0;
        let mut k: usize = 0;
        assert(lt.skip(0) =~= lt);
        while k < length_types.len()
            invariant
                self.stream@ == s,
                k <= length_types@.len(),
                lt == types_view(length_types@),
                length_read is Some,
                sp_dict_length(s, self.idx as int, lt.skip(k as int), dict_length) == length_read,
            decreases length_types@.len() - k,
        {
            assert(lt.skip(k as int)[0] == length_types@[k as int]@);
            match &length_types[k] {
                Type::UnsignedInt => {
                    dict_length = self.read_int();
                },
                _ => {},
            }
            assert(lt.skip(k as int).drop_first() =~= lt.skip(k + 1));
            k += 1;
        }
        self.idx += 2;
        let ghost goal = sp_dict_items(
            s,
            self.idx as int,
            table_view(table@),
            dict_length as nat,
            seq![],
            (fuel - 1) as nat,
        );
        let mut out = String::new();
        let mut n: u8 = 0;
        let ghost mut f: nat = (fuel - 1) as nat;
        assert(out@ =~= Seq::<char>::empty());
        while n < dict_length
            invariant
                self.stream@ == s,
                n <= dict_length,
                goal is Some,
                f < fuel,
                sp_dict_items(s, self.idx as int, table_view(table@), (dict_length - n) as nat, out@, f)
                    == goal,
            decreases dict_length - n,
        {
            let key_types = self.get_type(table);
            let key_data = self.read_types(key_types, table, Ghost((f - 1) as nat));
            self.idx += 1;
            let value_types = self.get_type(table);
            let value_data = self.read_types(value_types, table, Ghost((f - 1) as nat));
            out.append(key_data.as_str());
            out.append(": ");
            out.append(value_data.as_str());
            n += 1;
            proof {
                f = (f - 1) as nat;
            }
        }
        out
    }

    /// Reads the stream after sixteen bytes of header, rendering each value
    #[verifier::loop_isolation(false)]
    pub fn parse(&mut self) -> (out: Vec<String>)
        requires
            old(self).idx + 16 <= usize::MAX,
            stream_readable(old(self).stream@, old(self).idx as int),
        ensures
            out@.map_values(|x: String| x@) == parsed_stream(old(self).stream@, old(self).idx as int),
    {
        let ghost s = self.stream@;
        let ghost start = self.idx as int;
        let ghost fuel = read_budget(s, start);
        let ghost goal = sp_parse(s, start, fuel);
        let mut out: Vec<String> = Vec::new();
        let mut table: Vec<Vec<Type>> = Vec::new();
        self.idx += 16;
        let ghost mut f: nat = fuel;
        assert(table_view(table@) =~= Seq::<Seq<TypeView>>::empty());
        assert(out@.map_values(|x: String| x@) =~= Seq::<Seq<char>>::empty());
        while self.idx < self.stream.len()
            invariant
                self.stream@ == s,
                goal is Some,
                f <= fuel,
                sp_parse_loop(s, self.idx as int, table_view(table@), out@.map_values(|x: String| x@), f)
                    == goal,
            decreases f,
        {
            let found = self.get_type(&mut table);
            let r = self.read_types(found, &mut table, Ghost((f - 1) as nat));
            let ghost before = out@;
            out.push(r);
            let b = self.stream[self.idx];
            if b == ENCODING_DETECTED || b == OBJECT_END {
                self.idx += 1;
            }
            proof {
                assert(out@.map_values(|x: String| x@) =~= before.map_values(|x: String| x@).push(
                    out@.last()@,
                ));
                f = (f - 1) as nat;
            }
        }
        out
    }

}

} // verus!
