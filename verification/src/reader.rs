//! The numeric records of a file: a tag, then one number after the other.
//!
//! How a number is read from its text is the caller's choice: the reader is
//! handed a parser, and its contract speaks of what that parser gave back.

use vstd::prelude::*;
use vstd::string::*;

use crate::error::{numeric_failure, ParseError};
use crate::text::{bytes_of_each, operands};

verus! {

/// The parser may answer `value` when it is asked for the text `text`.
pub open spec fn parse_outcome<T, F: Fn(&str) -> Option<T>>(
    parse: F,
    text: Seq<u8>,
    value: Option<T>,
) -> bool {
    exists|s: &str| s.spec_bytes() == text && #[trigger] parse.ensures((s,), value)
}

/// How reading the operands `texts` takes a buffer from `before` to `after`:
/// what was there stays, and behind it stand the numbers of the operands up
/// to the first one that the parser turned down. The record is accepted
/// where no operand was turned down.
pub open spec fn scalars_read<T, F: Fn(&str) -> Option<T>>(
    parse: F,
    texts: Seq<Seq<u8>>,
    before: Seq<T>,
    after: Seq<T>,
    accepted: bool,
) -> bool {
    let read = after.len() - before.len();
    &&& 0 <= read <= texts.len()
    &&& after.take(before.len() as int) == before
    &&& forall|j: int|
        0 <= j < read ==> parse_outcome(parse, #[trigger] texts[j], Some(after[before.len() + j]))
    &&& accepted <==> read == texts.len()
    &&& !accepted ==> parse_outcome(parse, texts[read], None)
}

/// The parser answers each text in one way only.
pub open spec fn single_valued<T, F: Fn(&str) -> Option<T>>(parse: F) -> bool {
    forall|text: Seq<u8>, a: Option<T>, b: Option<T>|
        #![trigger parse_outcome(parse, text, a), parse_outcome(parse, text, b)]
        parse_outcome(parse, text, a) && parse_outcome(parse, text, b) ==> a == b
}

/// With a parser that answers each text in one way only, the operands and
/// the buffer before say what the buffer holds after, and whether the record
/// is accepted.
pub proof fn lemma_scalars_read_unique<T, F: Fn(&str) -> Option<T>>(
    parse: F,
    texts: Seq<Seq<u8>>,
    before: Seq<T>,
    after1: Seq<T>,
    accepted1: bool,
    after2: Seq<T>,
    accepted2: bool,
)
    requires
        single_valued(parse),
        scalars_read(parse, texts, before, after1, accepted1),
        scalars_read(parse, texts, before, after2, accepted2),
    ensures
        after1 == after2,
        accepted1 == accepted2,
{
    let read1 = after1.len() - before.len();
    let read2 = after2.len() - before.len();
    if read1 < read2 {
        assert(parse_outcome(parse, texts[read1], None::<T>));
        assert(parse_outcome(parse, texts[read1], Some(after2[before.len() + read1])));
    }
    if read2 < read1 {
        assert(parse_outcome(parse, texts[read2], None::<T>));
        assert(parse_outcome(parse, texts[read2], Some(after1[before.len() + read2])));
    }
    assert forall|i: int| 0 <= i < after1.len() implies after1[i] == after2[i] by {
        if i < before.len() {
            assert(after1.take(before.len() as int)[i] == after2.take(before.len() as int)[i]);
        } else {
            let j = i - before.len();
            assert(parse_outcome(parse, texts[j], Some(after1[before.len() + j])));
            assert(parse_outcome(parse, texts[j], Some(after2[before.len() + j])));
        }
    }
    assert(after1 =~= after2);
}

/// Reads the operands of a numeric record into `out_buf`, in their order,
/// and stops at the first that is no number. What was read before it stays
/// in `out_buf`; the error names the line `error_pos` under the label
/// `error_msg`. The first token is the record's tag and is not read.
pub fn read_one_line<T, F: Fn(&str) -> Option<T>>(
    input_str: &Vec<&str>,
    out_buf: &mut Vec<T>,
    error_msg: &str,
    error_pos: usize,
    parse: &F,
) -> (r: Result<(), ParseError>)
    requires
        forall|i: int| 1 <= i < input_str@.len() ==> parse.requires((#[trigger] input_str@[i],)),
    ensures
        scalars_read(
            *parse,
            operands(bytes_of_each(input_str@)),
            old(out_buf)@,
            final(out_buf)@,
            r is Ok,
        ),
        r matches Err(e) ==> e@ == numeric_failure(error_pos, error_msg@),
{
    let ghost texts = operands(bytes_of_each(input_str@));
    let ghost before = out_buf@;
    let mut i: usize = 1;
    while i < input_str.len()
        invariant
            1 <= i,
            i <= input_str@.len() || i == 1,
            texts == operands(bytes_of_each(input_str@)),
            before == old(out_buf)@,
            forall|t: int|
                1 <= t < input_str@.len() ==> parse.requires((#[trigger] input_str@[t],)),
            out_buf@.len() == before.len() + i - 1,
            out_buf@.take(before.len() as int) == before,
            forall|j: int|
                0 <= j < i - 1 ==> parse_outcome(
                    *parse,
                    #[trigger] texts[j],
                    Some(out_buf@[before.len() + j]),
                ),
        decreases input_str@.len() - i,
    {
        let token = input_str[i];
        assert(texts[i - 1] == token.spec_bytes());
        let ghost so_far = out_buf@;
        match parse(token) {
            Some(value) => {
                out_buf.push(value);
                assert(out_buf@.take(before.len() as int) =~= so_far.take(before.len() as int));
                assert forall|j: int| 0 <= j < i implies parse_outcome(
                    *parse,
                    #[trigger] texts[j],
                    Some(out_buf@[before.len() + j]),
                ) by {
                    if j < i - 1 {
                        assert(out_buf@[before.len() + j] == so_far[before.len() + j]);
                    }
                }
            },
            None => {
                return Err(ParseError::numeric(error_pos, error_msg));
            },
        }
        i += 1;
    }
    assert(texts.len() == i - 1);
    Ok(())
}

} // verus!
