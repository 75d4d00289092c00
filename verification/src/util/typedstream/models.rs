//! Data structures and models used by the `typedstream` parser.

use vstd::prelude::*;

use crate::util::text::str_eq;

verus! {

/// Represents a class stored in the `typedstream`
#[derive(Debug, PartialEq, Eq)]
pub struct Class {
    /// The name of the class
    pub name: String,
    /// The encoded version of the class
    pub version: u64,
}

/// The mathematical value of a [`Class`]: its name as characters and its version.
pub struct ClassView {
    pub name: Seq<char>,
    pub version: u64,
}

impl View for Class {
    type V = ClassView;

    open spec fn view(&self) -> ClassView {
        ClassView { name: self.name@, version: self.version }
    }
}

impl Class {
    pub(crate) fn new(name: String, version: u64) -> (class: Self)
        ensures
            class@ == (ClassView { name: name@, version: version }),
    {
        Self { name, version }
    }
}

impl Clone for Class {
    fn clone(&self) -> (res: Self)
        ensures
            res@ == self@,
    {
        Class { name: self.name.clone(), version: self.version }
    }
}

/// How a floating point number is stored in the `typedstream`.
///
/// A `0x83` tag is followed by the little-endian IEEE-754 encoding of the number; any other
/// tag stores the number as a signed integer that readers widen to a float.
#[derive(Debug, Clone, Copy, PartialEq, Eq)]
pub enum StoredFloat {
    /// The raw IEEE-754 bits (`f32` bits for a [`Type::Float`], `f64` bits for a [`Type::Double`])
    Bits(u64),
    /// An integer value, to be read as the float with the same value
    Integer(i64),
}

/// Rust structures containing data stored in the `typedstream`
#[derive(Debug, PartialEq)]
pub enum OutputData {
    /// Text data
    String(String),
    /// Signed integer types are coerced into this container
    SignedInteger(i64),
    /// Unsigned integer types are coerced into this container
    UnsignedInteger(u64),
    /// Floating point numbers
    Float(StoredFloat),
    /// Double precision floats
    Double(StoredFloat),
    /// Bytes whose type is not known
    Byte(u8),
    /// Arbitrary collection of bytes in an array
    Array(Vec<u8>),
    /// A found class, in order of inheritance
    Class(Class),
}

/// The mathematical value of an [`OutputData`].
pub enum OutputDataView {
    String(Seq<char>),
    SignedInteger(i64),
    UnsignedInteger(u64),
    Float(StoredFloat),
    Double(StoredFloat),
    Byte(u8),
    Array(Seq<u8>),
    Class(ClassView),
}

impl View for OutputData {
    type V = OutputDataView;

    open spec fn view(&self) -> OutputDataView {
        match self {
            OutputData::String(s) => OutputDataView::String(s@),
            OutputData::SignedInteger(i) => OutputDataView::SignedInteger(*i),
            OutputData::UnsignedInteger(u) => OutputDataView::UnsignedInteger(*u),
            OutputData::Float(f) => OutputDataView::Float(*f),
            OutputData::Double(f) => OutputDataView::Double(*f),
            OutputData::Byte(b) => OutputDataView::Byte(*b),
            OutputData::Array(a) => OutputDataView::Array(a@),
            OutputData::Class(c) => OutputDataView::Class(c@),
        }
    }
}

/// The values of a sequence of [`OutputData`].
pub open spec fn outputs_view(v: Seq<OutputData>) -> Seq<OutputDataView> {
    v.map_values(|d: OutputData| d@)
}

impl Clone for OutputData {
    fn clone(&self) -> (res: Self)
        ensures
            res@ == self@,
    {
        match self {
            OutputData::String(s) => OutputData::String(s.clone()),
            OutputData::SignedInteger(i) => OutputData::SignedInteger(*i),
            OutputData::UnsignedInteger(u) => OutputData::UnsignedInteger(*u),
            OutputData::Float(f) => OutputData::Float(*f),
            OutputData::Double(f) => OutputData::Double(*f),
            OutputData::Byte(b) => OutputData::Byte(*b),
            OutputData::Array(a) => OutputData::Array(a.clone()),
            OutputData::Class(c) => OutputData::Class(c.clone()),
        }
    }
}

/// Copies a list of [`OutputData`], keeping every value.
pub fn clone_outputs(v: &Vec<OutputData>) -> (res: Vec<OutputData>)
    ensures
        outputs_view(res@) == outputs_view(v@),
{
    let mut res: Vec<OutputData> = Vec::new();
    let mut i: usize = 0;
    while i < v.len()
        invariant
            i <= v.len(),
            res@.len() == i,
            forall|j: int| 0 <= j < i ==> (#[trigger] res@[j])@ == v@[j]@,
        decreases v.len() - i,
    {
        let c = v[i].clone();
        res.push(c);
        i += 1;
    }
    assert(outputs_view(res@) =~= outputs_view(v@));
    res
}

/// Types of data that can be archived into the `typedstream`
#[derive(Debug, PartialEq)]
pub enum Archivable {
    /// An instance of a class that may contain some embedded data. `typedstream` data doesn't include property
    /// names, so data is stored in order of appearance.
    Object(Class, Vec<OutputData>),
    /// Some data that is likely a property on the object described by the `typedstream` but not part of a class.
    Data(Vec<OutputData>),
    /// A class referenced in the `typedstream`, usually part of an inheritance heirarchy that does not contain any data itself.
    Class(Class),
    /// A placeholder, only used when reserving a spot in the objects table for a reference to be filled with read class information.
    /// In a `typedstream`, the classes are stored in order of inheritance, so the top-level class described by the `typedstream`
    /// comes before the ones it inherits from. To preserve the order, we reserve the first slot to store the actual object's data
    /// and then later add it back to the right place.
    Placeholder,
    /// A type that made it through the parsing process without getting replaced by an object.
    Type(Vec<Type>),
}

/// The mathematical value of an [`Archivable`].
pub enum ArchivableView {
    Object(ClassView, Seq<OutputDataView>),
    Data(Seq<OutputDataView>),
    Class(ClassView),
    Placeholder,
    Type(Seq<TypeView>),
}

impl View for Archivable {
    type V = ArchivableView;

    open spec fn view(&self) -> ArchivableView {
        match self {
            Archivable::Object(c, d) => ArchivableView::Object(c@, outputs_view(d@)),
            Archivable::Data(d) => ArchivableView::Data(outputs_view(d@)),
            Archivable::Class(c) => ArchivableView::Class(c@),
            Archivable::Placeholder => ArchivableView::Placeholder,
            Archivable::Type(t) => ArchivableView::Type(types_view(t@)),
        }
    }
}

/// The values of a sequence of [`Archivable`]s.
pub open spec fn archivables_view(v: Seq<Archivable>) -> Seq<ArchivableView> {
    v.map_values(|a: Archivable| a@)
}

impl Clone for Archivable {
    fn clone(&self) -> (res: Self)
        ensures
            res@ == self@,
    {
        match self {
            Archivable::Object(c, d) => Archivable::Object(c.clone(), clone_outputs(d)),
            Archivable::Data(d) => Archivable::Data(clone_outputs(d)),
            Archivable::Class(c) => Archivable::Class(c.clone()),
            Archivable::Placeholder => Archivable::Placeholder,
            Archivable::Type(t) => Archivable::Type(clone_types(t)),
        }
    }
}

/// The text of an `NSString` or `NSMutableString` object: the first item of its data,
/// when that item is text.
pub open spec fn nsstring_text(a: ArchivableView) -> Option<Seq<char>> {
    match a {
        ArchivableView::Object(class, data) => {
            if (class.name == "NSString"@ || class.name == "NSMutableString"@) && data.len() > 0
                && data[0] is String {
                Some(data[0]->String_0)
            } else {
                None
            }
        },
        _ => None,
    }
}

impl Archivable {
    /// If `self` is an [`Object`](Archivable::Object) that contains a [`Class`] named `NSString` or `NSMutableString`,
    /// extract a Rust string slice from the associated [`Data`](Archivable::Data).
    pub fn deserialize_as_nsstring(&self) -> (text: Option<&str>)
        ensures
            text is Some <==> nsstring_text(self@) is Some,
            text matches Some(t) ==> t@ == nsstring_text(self@)->0,
    {
        if let Archivable::Object(class, value) = self {
            if str_eq(class.name.as_str(), "NSString") || str_eq(
                class.name.as_str(),
                "NSMutableString",
            ) {
                if value.len() > 0 {
                    if let OutputData::String(text) = &value[0] {
                        return Some(text.as_str());
                    }
                }
            }
        }
        None
    }
}

/// Represents primitive types of data that can be stored in a `typedstream`
#[derive(Debug, PartialEq)]
pub enum Type {
    /// Encoded string data, usually embedded in an object. Denoted by `+` (`0x2B`).
    Utf8String,
    /// Encoded bytes that can be parsed again as data. Denoted by `*` (`0x2A`).
    EmbeddedData,
    /// An instance of a class, usually with data. Denoted by `@` (`0x40`).
    Object,
    /// An [`i8`], [`i16`], or [`i32`]. Denoted by `c`, `i`, `l`, `q` or `s`.
    ///
    /// The width is determined by the prefix: [`i8`] has none, [`i16`] has `0x81`, and [`i32`] has `0x82`.
    SignedInt,
    /// A [`u8`], [`u16`], or [`u32`]. Denoted by `C`, `I`, `L`, `Q` or `S`.
    ///
    /// The width is determined by the prefix: [`u8`] has none, [`u16`] has `0x81`, and [`u32`] has `0x82`.
    UnsignedInt,
    /// An [`f32`]. Denoted by `f` (`0x66`).
    Float,
    /// An [`f64`]. Denoted by `d` (`0x64`).
    Double,
    /// Some text we can reuse later, i.e. a class name.
    String(String),
    /// An array containing some data of a given length. Denoted by braced digits: `[123]`.
    Array(usize),
    /// Data for which we do not know the type, likely for something this parser does not implement.
    Unknown(u8),
}

/// The mathematical value of a [`Type`].
pub enum TypeView {
    Utf8String,
    EmbeddedData,
    Object,
    SignedInt,
    UnsignedInt,
    Float,
    Double,
    String(Seq<char>),
    Array(usize),
    Unknown(u8),
}

impl View for Type {
    type V = TypeView;

    open spec fn view(&self) -> TypeView {
        match self {
            Type::Utf8String => TypeView::Utf8String,
            Type::EmbeddedData => TypeView::EmbeddedData,
            Type::Object => TypeView::Object,
            Type::SignedInt => TypeView::SignedInt,
            Type::UnsignedInt => TypeView::UnsignedInt,
            Type::Float => TypeView::Float,
            Type::Double => TypeView::Double,
            Type::String(s) => TypeView::String(s@),
            Type::Array(n) => TypeView::Array(*n),
            Type::Unknown(b) => TypeView::Unknown(*b),
        }
    }
}

/// The values of a sequence of [`Type`]s.
pub open spec fn types_view(v: Seq<Type>) -> Seq<TypeView> {
    v.map_values(|t: Type| t@)
}

impl Clone for Type {
    fn clone(&self) -> (res: Self)
        ensures
            res@ == self@,
    {
        match self {
            Type::Utf8String => Type::Utf8String,
            Type::EmbeddedData => Type::EmbeddedData,
            Type::Object => Type::Object,
            Type::SignedInt => Type::SignedInt,
            Type::UnsignedInt => Type::UnsignedInt,
            Type::Float => Type::Float,
            Type::Double => Type::Double,
            Type::String(s) => Type::String(s.clone()),
            Type::Array(n) => Type::Array(*n),
            Type::Unknown(b) => Type::Unknown(*b),
        }
    }
}

/// Copies a list of [`Type`]s, keeping every value.
pub fn clone_types(v: &Vec<Type>) -> (res: Vec<Type>)
    ensures
        types_view(res@) == types_view(v@),
{
    let mut res: Vec<Type> = Vec::new();
    let mut i: usize = 0;
    while i < v.len()
        invariant
            i <= v.len(),
            res@.len() == i,
            forall|j: int| 0 <= j < i ==> (#[trigger] res@[j])@ == v@[j]@,
        decreases v.len() - i,
    {
        let c = v[i].clone();
        res.push(c);
        i += 1;
    }
    assert(types_view(res@) =~= types_view(v@));
    res
}

/// The type that a single type-encoding byte denotes.
pub open spec fn type_of_byte(byte: u8) -> TypeView {
    if byte == 0x40 {
        TypeView::Object
    } else if byte == 0x2B {
        TypeView::Utf8String
    } else if byte == 0x2A {
        TypeView::EmbeddedData
    } else if byte == 0x66 {
        TypeView::Float
    } else if byte == 0x64 {
        TypeView::Double
    } else if byte == 0x63 || byte == 0x69 || byte == 0x6c || byte == 0x71 || byte == 0x73 {
        TypeView::SignedInt
    } else if byte == 0x43 || byte == 0x49 || byte == 0x4c || byte == 0x51 || byte == 0x53 {
        TypeView::UnsignedInt
    } else {
        TypeView::Unknown(byte)
    }
}

/// Whether a byte is an ASCII decimal digit.
pub open spec fn is_digit(b: u8) -> bool {
    0x30 <= b <= 0x39
}

/// The number of ASCII digits at the start of `s`.
pub open spec fn leading_digits(s: Seq<u8>) -> nat
    decreases s.len(),
{
    if s.len() > 0 && is_digit(s[0]) {
        1 + leading_digits(s.drop_first())
    } else {
        0
    }
}

/// The decimal value of the first `n` bytes of `s`, computed in `u32` arithmetic that wraps
/// on overflow.
pub open spec fn decimal_value_u32(s: Seq<u8>, n: nat) -> u32
    decreases n,
{
    if n == 0 {
        0
    } else {
        let prefix = decimal_value_u32(s, (n - 1) as nat);
        prefix.wrapping_mul(10).wrapping_add((s[n - 1] - 0x30) as u32)
    }
}

/// The array type that a type encoding starting with `[` declares: `[` followed by at least one
/// decimal digit gives that length; anything else declares no array.
pub open spec fn array_type_of(types: Seq<u8>) -> Option<Seq<TypeView>> {
    if types.len() > 0 && types[0] == 0x5b && leading_digits(types.drop_first()) > 0 {
        let rest = types.drop_first();
        Some(seq![TypeView::Array(decimal_value_u32(rest, leading_digits(rest)) as usize)])
    } else {
        None
    }
}

proof fn lemma_leading_digits(s: Seq<u8>, i: int)
    requires
        0 <= i < leading_digits(s),
    ensures
        is_digit(s[i]),
        leading_digits(s) <= s.len(),
    decreases s.len(),
{
    if i > 0 {
        lemma_leading_digits(s.drop_first(), i - 1);
    }
    lemma_leading_digits_len(s);
}

proof fn lemma_leading_digits_len(s: Seq<u8>)
    ensures
        leading_digits(s) <= s.len(),
    decreases s.len(),
{
    if s.len() > 0 && is_digit(s[0]) {
        lemma_leading_digits_len(s.drop_first());
    }
}

proof fn lemma_leading_digits_stop(s: Seq<u8>, i: int)
    requires
        0 <= i <= s.len(),
        forall|j: int| 0 <= j < i ==> is_digit(#[trigger] s[j]),
        i == s.len() || !is_digit(s[i]),
    ensures
        leading_digits(s) == i,
    decreases s.len(),
{
    if i > 0 {
        lemma_leading_digits_stop(s.drop_first(), i - 1);
    }
}

impl Type {
    pub(crate) fn from_byte(byte: &u8) -> (t: Self)
        ensures
            t@ == type_of_byte(*byte),
    {
        match *byte {
            0x40 => Self::Object,
            0x2B => Self::Utf8String,
            0x2A => Self::EmbeddedData,
            0x66 => Self::Float,
            0x64 => Self::Double,
            0x63 | 0x69 | 0x6c | 0x71 | 0x73 => Self::SignedInt,
            0x43 | 0x49 | 0x4c | 0x51 | 0x53 => Self::UnsignedInt,
            other => Self::Unknown(other),
        }
    }

    pub(crate) fn new_string(string: String) -> (t: Self)
        ensures
            t@ == TypeView::String(string@),
    {
        Self::String(string)
    }

    /// Reads the array length declared by a type encoding such as `[904c]`.
    pub fn get_array_length(types: &[u8]) -> (res: Option<Vec<Type>>)
        ensures
            res is Some <==> array_type_of(types@) is Some,
            res matches Some(v) ==> types_view(v@) == array_type_of(types@)->0,
    {
        if types.len() == 0 || types[0] != 0x5b {
            return None;
        }
        let ghost rest = types@.drop_first();
        let mut i: usize = 1;
        let mut value: u32 = 0;
        while i < types.len() && 0x30 <= types[i] && types[i] <= 0x39
            invariant
                1 <= i <= types.len(),
                rest == types@.drop_first(),
                forall|j: int| 0 <= j < i - 1 ==> is_digit(#[trigger] rest[j]),
                value == decimal_value_u32(rest, (i - 1) as nat),
            decreases types.len() - i,
        {
            value = value.wrapping_mul(10).wrapping_add((types[i] - 0x30) as u32);
            i += 1;
        }
        proof {
            lemma_leading_digits_stop(rest, i - 1);
        }
        if i == 1 {
            return None;
        }
        let mut v: Vec<Type> = Vec::new();
        v.push(Type::Array(value as usize));
        assert(types_view(v@) =~= array_type_of(types@)->0);
        Some(v)
    }
}

/// Represents data that results from attempting to parse a class from the `typedstream`
pub(crate) enum ClassResult {
    /// A reference to an already-seen class in the reader's object table
    Index(usize),
    /// A new class heirarchy to be inserted into the reader's object table
    ClassHierarchy(Vec<Archivable>),
}

/// The mathematical value of a [`ClassResult`].
pub enum ClassResultView {
    Index(usize),
    ClassHierarchy(Seq<ArchivableView>),
}

/// The value of a [`ClassResult`].
pub(crate) open spec fn class_result_value(c: ClassResult) -> ClassResultView {
    match c {
        ClassResult::Index(i) => ClassResultView::Index(i),
        ClassResult::ClassHierarchy(v) => ClassResultView::ClassHierarchy(archivables_view(v@)),
    }
}

} // verus!
