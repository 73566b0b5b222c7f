//! The fields of a line of text.
//!
//! Text is modelled by its bytes. A separator is an ASCII byte, so a field of
//! a UTF-8 string is again a UTF-8 string.

use vstd::prelude::*;
use vstd::string::*;
use vstd::utf8::*;

verus! {

/// Separates the tokens of a line.
pub const SPACE: u8 = 0x20;

/// Separates the fields of a face corner.
pub const SLASH: u8 = 0x2f;

/// Where the first `sep` stands in `s`, or the length of `s` where it holds none.
pub open spec fn first_sep(s: Seq<u8>, sep: u8) -> int
    decreases s.len(),
{
    if s.len() == 0 || s[0] == sep {
        0
    } else {
        1 + first_sep(s.drop_first(), sep)
    }
}

/// The fields of `s`: what stands before, between and after its separators.
/// Two separators in a row enclose an empty field, and a text without a
/// separator is its own single field.
pub open spec fn split(s: Seq<u8>, sep: u8) -> Seq<Seq<u8>>
    decreases s.len(),
{
    let k = first_sep(s, sep);
    if 0 <= k < s.len() {
        seq![s.take(k)] + split(s.skip(k + 1), sep)
    } else {
        seq![s]
    }
}

/// The bytes of each string of a sequence.
pub open spec fn bytes_of_each(fields: Seq<&str>) -> Seq<Seq<u8>> {
    Seq::new(fields.len(), |i: int| fields[i].spec_bytes())
}

/// The operands of a record: its tokens but the first, which is the tag.
pub open spec fn operands(tokens: Seq<Seq<u8>>) -> Seq<Seq<u8>> {
    if tokens.len() == 0 {
        tokens
    } else {
        tokens.skip(1)
    }
}

/// `first_sep` is the least position that holds a separator.
pub proof fn lemma_first_sep(s: Seq<u8>, sep: u8)
    ensures
        0 <= first_sep(s, sep) <= s.len(),
        first_sep(s, sep) < s.len() ==> s[first_sep(s, sep)] == sep,
        forall|i: int| 0 <= i < first_sep(s, sep) ==> s[i] != sep,
    decreases s.len(),
{
    if s.len() == 0 || s[0] == sep {
    } else {
        let t = s.drop_first();
        lemma_first_sep(t, sep);
        assert forall|i: int| 0 <= i < first_sep(s, sep) implies s[i] != sep by {
            if i > 0 {
                assert(s[i] == t[i - 1]);
            }
        }
    }
}

/// A position is `first_sep` when it holds the first separator, or is the end
/// of a text without one.
pub proof fn lemma_first_sep_is(s: Seq<u8>, sep: u8, k: int)
    requires
        0 <= k <= s.len(),
        k < s.len() ==> s[k] == sep,
        forall|i: int| 0 <= i < k ==> s[i] != sep,
    ensures
        first_sep(s, sep) == k,
{
    lemma_first_sep(s, sep);
    let f = first_sep(s, sep);
    if f < k {
        assert(s[f] == sep);
    }
}

/// A text always has a first field, and no field holds a separator.
pub proof fn lemma_split_fields(s: Seq<u8>, sep: u8)
    ensures
        split(s, sep).len() >= 1,
        forall|i: int, j: int|
            0 <= i < split(s, sep).len() && 0 <= j < split(s, sep)[i].len() ==> split(
                s,
                sep,
            )[i][j] != sep,
    decreases s.len(),
{
    lemma_first_sep(s, sep);
    let k = first_sep(s, sep);
    if 0 <= k < s.len() {
        let rest = split(s.skip(k + 1), sep);
        lemma_split_fields(s.skip(k + 1), sep);
        assert forall|i: int, j: int|
            0 <= i < split(s, sep).len() && 0 <= j < split(s, sep)[i].len() implies split(
            s,
            sep,
        )[i][j] != sep by {
            if i > 0 {
                assert(split(s, sep)[i] == rest[i - 1]);
            }
        }
    }
}

/// The fields of `fields` with `sep` put back between them.
pub open spec fn join(fields: Seq<Seq<u8>>, sep: u8) -> Seq<u8>
    decreases fields.len(),
{
    if fields.len() == 0 {
        Seq::empty()
    } else if fields.len() == 1 {
        fields[0]
    } else {
        fields[0] + seq![sep] + join(fields.drop_first(), sep)
    }
}

/// Splitting loses nothing: the fields, joined by the separator, are the text.
pub proof fn lemma_join_split(s: Seq<u8>, sep: u8)
    ensures
        join(split(s, sep), sep) == s,
    decreases s.len(),
{
    lemma_first_sep(s, sep);
    let k = first_sep(s, sep);
    if 0 <= k < s.len() {
        let tail = s.skip(k + 1);
        lemma_join_split(tail, sep);
        lemma_split_fields(tail, sep);
        let all = split(s, sep);
        assert(all.drop_first() =~= split(tail, sep));
        assert(all[0] == s.take(k));
        assert(s.take(k) + seq![sep] + tail =~= s);
    }
}

/// In valid UTF-8 a character starts right after an ASCII byte.
proof fn lemma_boundary_after_ascii(bytes: Seq<u8>)
    requires
        valid_utf8(bytes),
        bytes.len() >= 1,
        bytes[0] < 0x80,
    ensures
        is_char_boundary(bytes, 1),
{
    reveal_with_fuel(is_char_boundary, 2);
    reveal_with_fuel(valid_utf8, 2);
}

/// Finds the first `sep` in `s`, if it holds one.
fn find_sep(s: &str, sep: u8) -> (found: Option<usize>)
    ensures
        match found {
            Some(k) => k == first_sep(s.spec_bytes(), sep) && k < s.spec_bytes().len(),
            None => first_sep(s.spec_bytes(), sep) == s.spec_bytes().len(),
        },
{
    let bytes = s.as_bytes();
    let mut k: usize = 0;
    while k < bytes.len() && bytes[k] != sep
        invariant
            bytes@ == s.spec_bytes(),
            k <= bytes@.len(),
            forall|i: int| 0 <= i < k ==> bytes@[i] != sep,
        decreases bytes@.len() - k,
    {
        k += 1;
    }
    proof {
        lemma_first_sep_is(bytes@, sep, k as int);
    }
    if k < bytes.len() {
        Some(k)
    } else {
        None
    }
}

/// Parts `s` at the ASCII byte at `k`: what stands before it, and what after.
fn cut<'a>(s: &'a str, k: usize) -> (parts: (&'a str, &'a str))
    requires
        k < s.spec_bytes().len(),
        s.spec_bytes()[k as int] < 0x80,
    ensures
        parts.0.spec_bytes() == s.spec_bytes().take(k as int),
        parts.1.spec_bytes() == s.spec_bytes().skip(k as int + 1),
{
    proof {
        encode_utf8_valid_utf8(s@);
        is_char_boundary_iff_not_is_continuation_byte(s.spec_bytes(), k as int);
    }
    let (head, tail) = s.split_at(k);
    proof {
        encode_utf8_valid_utf8(tail@);
        lemma_boundary_after_ascii(tail.spec_bytes());
    }
    let (_, rest) = tail.split_at(1);
    assert(head.spec_bytes() =~= s.spec_bytes().take(k as int));
    assert(rest.spec_bytes() =~= s.spec_bytes().skip(k as int + 1));
    (head, rest)
}

/// Splits `s` at every `sep`, as `str::split` does for a single character.
/// The separator is an ASCII byte.
pub fn split_str<'a>(s: &'a str, sep: u8) -> (fields: Vec<&'a str>)
    requires
        sep < 0x80,
    ensures
        bytes_of_each(fields@) == split(s.spec_bytes(), sep),
{
    let mut fields: Vec<&'a str> = Vec::new();
    let mut rest: &'a str = s;
    loop
        invariant_except_break
            sep < 0x80,
            split(s.spec_bytes(), sep) == bytes_of_each(fields@) + split(rest.spec_bytes(), sep),
        ensures
            bytes_of_each(fields@) == split(s.spec_bytes(), sep),
        decreases rest.spec_bytes().len(),
    {
        let ghost before = fields@;
        match find_sep(rest, sep) {
            None => {
                fields.push(rest);
                assert(bytes_of_each(fields@) =~= bytes_of_each(before) + seq![rest.spec_bytes()]);
                break ;
            },
            Some(k) => {
                proof {
                    lemma_first_sep(rest.spec_bytes(), sep);
                }
                let (head, tail) = cut(rest, k);
                fields.push(head);
                assert(bytes_of_each(fields@) =~= bytes_of_each(before) + seq![head.spec_bytes()]);
                assert(bytes_of_each(before) + split(rest.spec_bytes(), sep) =~= bytes_of_each(
                    fields@,
                ) + split(tail.spec_bytes(), sep));
                rest = tail;
            },
        }
    }
    fields
}

} // verus!
