//! Text helpers: comparing strings by value and locating characters in UTF-8.

use std::str::Utf8Error;
use vstd::prelude::*;
use vstd::std_specs::iter::IteratorSpec;
use vstd::string::StringSliceAdditionalSpecFns;
use vstd::utf8::*;

verus! {

/// Whether two string slices hold the same characters.
pub fn str_eq(a: &str, b: &str) -> (equal: bool)
    ensures
        equal == (a@ == b@),
{
    proof {
        encode_utf8_decode_utf8(a@);
        encode_utf8_decode_utf8(b@);
    }
    let ab = a.as_bytes();
    let bb = b.as_bytes();
    if ab.len() != bb.len() {
        return false;
    }
    let mut i: usize = 0;
    while i < ab.len()
        invariant
            i <= ab@.len(),
            ab@.len() == bb@.len(),
            ab@ == encode_utf8(a@),
            bb@ == encode_utf8(b@),
            forall|j: int| 0 <= j < i ==> ab@[j] == bb@[j],
        decreases ab@.len() - i,
    {
        if ab[i] != bb[i] {
            return false;
        }
        i += 1;
    }
    assert(ab@ =~= bb@);
    true
}

/// Calls `std::str::from_utf8`, which succeeds exactly when the bytes are well-formed
/// UTF-8 and then gives the characters they encode; the error it gives otherwise is
/// opaque here.
#[verifier::external_body]
pub fn utf8_to_str(bytes: &[u8]) -> (r: Result<&str, Utf8Error>)
    ensures
        r is Ok <==> valid_utf8(bytes@),
        r matches Ok(s) ==> s@ == decode_utf8(bytes@),
{
    std::str::from_utf8(bytes)
}

/// The position, in bytes of UTF-8, of the `i`-th character of `s`.
pub open spec fn byte_offset(s: Seq<char>, i: int) -> nat {
    encode_utf8(s.take(i)).len()
}

/// The number of bytes of UTF-8 that encode `c`.
pub open spec fn utf8_width(c: char) -> nat {
    encode_scalar(c as u32).len()
}

/// Encoding a concatenation encodes each part in turn.
pub proof fn lemma_encode_utf8_concat(a: Seq<char>, b: Seq<char>)
    ensures
        encode_utf8(a + b) == encode_utf8(a) + encode_utf8(b),
    decreases a.len(),
{
    if a.len() == 0 {
        assert(a + b =~= b);
        assert(encode_utf8(a) =~= seq![]);
        assert(encode_utf8(a) + encode_utf8(b) =~= encode_utf8(b));
    } else {
        lemma_encode_utf8_concat(a.drop_first(), b);
        assert((a + b).drop_first() =~= a.drop_first() + b);
        assert((a + b)[0] == a[0]);
        assert(encode_utf8(a + b) =~= encode_utf8(a) + encode_utf8(b));
    }
}

/// Moving past one character moves the byte position by that character's width.
pub proof fn lemma_byte_offset_step(s: Seq<char>, i: int)
    requires
        0 <= i < s.len(),
    ensures
        byte_offset(s, i + 1) == byte_offset(s, i) + utf8_width(s[i]),
{
    assert(s.take(i + 1) =~= s.take(i) + seq![s[i]]);
    lemma_encode_utf8_concat(s.take(i), seq![s[i]]);
    let one = seq![s[i]];
    assert(one.drop_first() =~= Seq::<char>::empty());
    assert(encode_utf8(one.drop_first()) =~= Seq::<u8>::empty());
    assert(encode_utf8(one) == encode_scalar(one[0] as u32) + encode_utf8(one.drop_first()));
    assert(encode_utf8(one) =~= encode_scalar(s[i] as u32));
}

/// The byte position of a character is at most the length of the whole encoding.
pub proof fn lemma_byte_offset_bound(s: Seq<char>, i: int)
    requires
        0 <= i <= s.len(),
    ensures
        byte_offset(s, i) <= encode_utf8(s).len(),
{
    assert(s =~= s.take(i) + s.skip(i));
    lemma_encode_utf8_concat(s.take(i), s.skip(i));
}

/// The byte position after the last character is the length of the whole encoding.
pub proof fn lemma_byte_offset_end(s: Seq<char>)
    ensures
        byte_offset(s, s.len() as int) == encode_utf8(s).len(),
{
    assert(s.take(s.len() as int) =~= s);
}

/// Every character takes at least one byte.
pub proof fn char_utf8_width_positive(c: char)
    ensures
        utf8_width(c) >= 1,
{
    char_is_scalar(c);
}

/// The number of bytes of UTF-8 that encode `c`.
pub fn char_utf8_width(c: char) -> (n: usize)
    ensures
        n == utf8_width(c),
        1 <= n <= 4,
{
    let v = c as u32;
    proof {
        char_is_scalar(c);
    }
    if v < 0x80 {
        1
    } else if v < 0x800 {
        2
    } else if v < 0x10000 {
        3
    } else {
        4
    }
}

/// The byte position of each character of `text`, in order.
pub fn char_byte_offsets(text: &str) -> (offsets: Vec<usize>)
    ensures
        offsets@.len() == text@.len(),
        forall|i: int| 0 <= i < text@.len() ==> offsets@[i] == byte_offset(text@, i),
{
    let mut offsets: Vec<usize> = Vec::new();
    let total = text.as_bytes().len();
    let mut it = text.chars();
    let mut pos: usize = 0;
    let ghost mut i: int = 0;
    proof {
        lemma_byte_offset_bound(text@, 0);
        assert(text@.skip(0) =~= text@);
        assert(text@.take(0) =~= Seq::<char>::empty());
    }
    loop
        invariant
            0 <= i <= text@.len(),
            it.remaining() == text@.skip(i),
            it.obeys_prophetic_iter_laws(),
            pos == byte_offset(text@, i),
            total == encode_utf8(text@).len(),
            offsets@.len() == i,
            forall|j: int| 0 <= j < i ==> offsets@[j] == byte_offset(text@, j),
        ensures
            offsets@.len() == text@.len(),
            forall|j: int| 0 <= j < text@.len() ==> offsets@[j] == byte_offset(text@, j),
        decreases text@.len() - i,
    {
        match it.next() {
            None => {
                assert(text@.skip(i).len() == 0);
                break;
            },
            Some(c) => {
                assert(c == text@[i]);
                offsets.push(pos);
                proof {
                    lemma_byte_offset_step(text@, i);
                    lemma_byte_offset_bound(text@, i + 1);
                    assert(text@.skip(i).drop_first() =~= text@.skip(i + 1));
                }
                pos = pos + char_utf8_width(c);
                proof {
                    i = i + 1;
                }
            },
        }
    }
    offsets
}

/// The character of a digit below sixteen: `0` to `9`, then `a` to `f`.
pub open spec fn digit_char(d: nat) -> char {
    if d < 10 {
        (48 + d) as char
    } else {
        (87 + d) as char
    }
}

/// The digits of `n` in base `base`, most significant first, with no leading zero (`0` for zero).
pub open spec fn digits(n: nat, base: nat) -> Seq<char>
    decreases n,
{
    if base < 2 || n < base {
        seq![digit_char(n)]
    } else {
        proof {
            assert(n / base < n) by (nonlinear_arith)
                requires
                    base >= 2,
                    n >= base,
            ;
        }
        digits(n / base, base).push(digit_char(n % base))
    }
}

/// The decimal text of a signed number: its digits, after a `-` when it is negative.
pub open spec fn signed_digits(i: int) -> Seq<char> {
    if i < 0 {
        seq!['-'] + digits((-i) as nat, 10)
    } else {
        digits(i as nat, 10)
    }
}

/// The parts joined in order, with `sep` between each two of them.
pub open spec fn joined(parts: Seq<Seq<char>>, sep: Seq<char>) -> Seq<char>
    decreases parts.len(),
{
    if parts.len() == 0 {
        seq![]
    } else if parts.len() == 1 {
        parts[0]
    } else {
        joined(parts.drop_last(), sep) + sep + parts.last()
    }
}

/// The text of one digit below sixteen.
fn digit_str(d: u64) -> (s: &'static str)
    requires
        d < 16,
    ensures
        s@ == seq![digit_char(d as nat)],
{
    proof {
        reveal_strlit("0");
        reveal_strlit("1");
        reveal_strlit("2");
        reveal_strlit("3");
        reveal_strlit("4");
        reveal_strlit("5");
        reveal_strlit("6");
        reveal_strlit("7");
        reveal_strlit("8");
        reveal_strlit("9");
        reveal_strlit("a");
        reveal_strlit("b");
        reveal_strlit("c");
        reveal_strlit("d");
        reveal_strlit("e");
        reveal_strlit("f");
    }
    match d {
        0 => "0",
        1 => "1",
        2 => "2",
        3 => "3",
        4 => "4",
        5 => "5",
        6 => "6",
        7 => "7",
        8 => "8",
        9 => "9",
        10 => "a",
        11 => "b",
        12 => "c",
        13 => "d",
        14 => "e",
        _ => "f",
    }
}

/// The digits of `n` in base `base`, as text.
pub fn number_text(n: u64, base: u64) -> (text: String)
    requires
        2 <= base <= 16,
    ensures
        text@ == digits(n as nat, base as nat),
    decreases n,
{
    if n < base {
        digit_str(n).to_owned()
    } else {
        assert(n / base < n) by (nonlinear_arith)
            requires
                base >= 2,
                n >= base,
        ;
        let mut text = number_text(n / base, base);
        text.append(digit_str(n % base));
        text
    }
}

/// The decimal digits of `n`, as text.
pub fn decimal_text(n: u64) -> (text: String)
    ensures
        text@ == digits(n as nat, 10),
{
    number_text(n, 10)
}

/// The decimal text of a signed number.
pub fn signed_text(i: i64) -> (text: String)
    ensures
        text@ == signed_digits(i as int),
{
    if i < 0 {
        let magnitude: u64 = ((-(i + 1)) as u64) + 1;
        let mut text = "-".to_owned();
        proof {
            reveal_strlit("-");
        }
        let digits_text = number_text(magnitude, 10);
        text.append(digits_text.as_str());
        text
    } else {
        number_text(i as u64, 10)
    }
}

/// The parts joined in order, with `sep` between each two of them.
pub fn join(parts: &[String], sep: &str) -> (text: String)
    ensures
        text@ == joined(parts@.map_values(|p: String| p@), sep@),
{
    let ghost views = parts@.map_values(|p: String| p@);
    let mut text = String::new();
    let mut i: usize = 0;
    while i < parts.len()
        invariant
            views == parts@.map_values(|p: String| p@),
            i <= parts@.len(),
            text@ == joined(views.take(i as int), sep@),
        decreases parts@.len() - i,
    {
        let ghost before = text@;
        if i > 0 {
            text.append(sep);
        }
        text.append(parts[i].as_str());
        proof {
            assert(views.take(i + 1).drop_last() =~= views.take(i as int));
            if i == 0 {
                assert(before =~= seq![]);
                assert(text@ =~= views.take(1)[0]);
            }
        }
        i += 1;
    }
    assert(views.take(parts@.len() as int) =~= views);
    text
}

} // verus!
