//! Server-sent events: bytes into text, text into blocks, blocks into fields.

use vstd::prelude::*;
use vstd::string::*;
use vstd::utf8::*;
use crate::text::{
    chars_occur_at, chars_of, check_utf8, find_from, first_index, first_index_is_first, has_prefix,
    join, join_all, joined, opt_view, string_of, strip_prefix,
    texts_are_cut_at_the_first_occurrence, texts_are_found_where_they_stand, texts_view, trim, trimmed,
    utf8_error_length, valid_length, valid_length_within, without_prefix,
};

verus! {

/// What stands for an invalid sequence of bytes.
pub const REPLACEMENT: char = '\u{FFFD}';

/// What a byte string says as UTF-8: its text, where each invalid sequence is replaced, and the
/// bytes of a character that is not complete yet.
pub open spec fn decoded(bytes: Seq<u8>) -> (Seq<char>, Seq<u8>)
    decreases bytes.len(),
{
    let valid = valid_length(bytes);
    if valid_utf8(bytes) {
        (decode_utf8(bytes), Seq::empty())
    } else {
        let head = decode_utf8(bytes.take(valid as int));
        match utf8_error_length(bytes) {
            Some(length) if 0 < length && valid + length <= bytes.len() => {
                let (text, rest) = decoded(bytes.skip(valid + length));
                (head.push(REPLACEMENT) + text, rest)
            },
            _ => (head, bytes.skip(valid as int)),
        }
    }
}

/// What [`valid_length`] is: the prefix of that length is valid, and no longer one is.
pub proof fn valid_length_is_longest(bytes: Seq<u8>)
    ensures
        valid_length(bytes) <= bytes.len(),
        valid_utf8(bytes.take(valid_length(bytes) as int)),
        forall|n: int|
            valid_length(bytes) < n <= bytes.len() ==> !valid_utf8(#[trigger] bytes.take(n)),
{
    valid_length_step(bytes, bytes.len());
}

proof fn valid_length_step(bytes: Seq<u8>, most: nat)
    requires
        most <= bytes.len(),
    ensures
        valid_length_within(bytes, most) <= most,
        valid_utf8(bytes.take(valid_length_within(bytes, most) as int)),
        forall|n: int|
            valid_length_within(bytes, most) < n <= most ==> !valid_utf8(#[trigger] bytes.take(n)),
    decreases most,
{
    if most == 0 {
        assert(valid_utf8(bytes.take(0)));
    } else if !valid_utf8(bytes.take(most as int)) {
        valid_length_step(bytes, (most - 1) as nat);
    }
}

/// Adds bytes to a text. What is no UTF-8 is replaced; the bytes of a character that is not
/// complete yet are kept for the next time.
pub fn append_utf8_safe(buffer: &mut String, remainder: &mut Vec<u8>, new_bytes: &[u8])
    ensures
        ({
            let bytes = old(remainder)@ + new_bytes@;
            &&& final(buffer)@ == old(buffer)@ + decoded(bytes).0
            &&& final(remainder)@ == decoded(bytes).1
            &&& final(remainder)@.len() <= 3
            &&& (exists|more: Seq<u8>| #[trigger] valid_utf8(bytes + more)) ==> decoded(bytes) == (
                decode_utf8(bytes.take(valid_length(bytes) as int)),
                bytes.skip(valid_length(bytes) as int),
            )
        }),
{
    let ghost start = buffer@;
    let ghost all = remainder@ + new_bytes@;
    let mut bytes: Vec<u8> = Vec::new();
    bytes.extend_from_slice(remainder.as_slice());
    bytes.extend_from_slice(new_bytes);
    assert(bytes@ =~= all);
    let mut from: usize = 0;
    assert(all.skip(0) =~= all);
    assert(buffer@ =~= start + Seq::<char>::empty());
    let ghost mut done = Seq::<char>::empty();
    assert(decoded(all).0 =~= done + decoded(all.skip(0)).0);
    loop
        invariant_except_break
            bytes@ == all,
            from <= all.len(),
            buffer@ == start + done,
            decoded(all).0 == done + decoded(all.skip(from as int)).0,
            decoded(all).1 == decoded(all.skip(from as int)).1,
            from == 0 ==> done.len() == 0,
            from > 0 ==> forall|more: Seq<u8>| !(#[trigger] valid_utf8(all + more)),
        ensures
            buffer@ == start + decoded(all).0,
            remainder@ == decoded(all).1,
            remainder@.len() <= 3,
            (exists|more: Seq<u8>| #[trigger] valid_utf8(all + more)) ==> decoded(all) == (
                decode_utf8(all.take(valid_length(all) as int)),
                all.skip(valid_length(all) as int),
            ),
        decreases all.len() - from,
    {
        let ghost rest = all.skip(from as int);
        proof {
            valid_length_is_longest(rest);
            if from == 0 {
                assert(rest =~= all);
            }
        }
        let left = vstd::slice::slice_subrange(bytes.as_slice(), from, bytes.len());
        assert(left@ =~= rest);
        match check_utf8(left) {
            Ok(text) => {
                buffer.append(text.as_str());
                assert(buffer@ =~= start + decoded(all).0);
                *remainder = Vec::new();
                assert(remainder@ =~= decoded(all).1);
                proof {
                    assert(rest.take(rest.len() as int) =~= rest);
                    assert(rest.skip(rest.len() as int) =~= Seq::<u8>::empty());
                    if from == 0 {
                        assert(done + decoded(rest).0 =~= decoded(rest).0);
                    }
                }
                break;
            },
            Err((valid, invalid)) => {
                let head = vstd::slice::slice_subrange(left, 0, valid);
                assert(head@ =~= rest.take(valid as int));
                if let Ok(text) = check_utf8(head) {
                    buffer.append(text.as_str());
                }
                let ghost head_text = decode_utf8(rest.take(valid as int));
                match invalid {
                    Some(length) => {
                        buffer.push(REPLACEMENT);
                        proof {
                            let next = rest.skip(valid + length);
                            assert(next =~= all.skip(from + valid + length));
                            assert(done + (head_text.push(REPLACEMENT) + decoded(next).0) =~= (done
                                + head_text.push(REPLACEMENT)) + decoded(next).0);
                            done = done + head_text.push(REPLACEMENT);
                            assert(buffer@ =~= start + done);
                        }
                        from = from + valid + length;
                    },
                    None => {
                        let tail = vstd::slice::slice_subrange(left, valid, left.len());
                        let mut kept: Vec<u8> = Vec::new();
                        kept.extend_from_slice(tail);
                        *remainder = kept;
                        assert(remainder@ =~= rest.skip(valid as int));
                        assert(buffer@ =~= start + decoded(all).0);
                        proof {
                            if from == 0 {
                                assert(done + decoded(rest).0 =~= decoded(rest).0);
                            }
                        }
                        break;
                    },
                }
            },
        }
    }
}

/// A character that is cut in two is put together again: where two byte strings together are
/// valid UTF-8, the text of the first's valid part, then that of what is left of it with the
/// second, is the text of both.
pub proof fn cut_characters_are_put_together(first: Seq<u8>, second: Seq<u8>)
    requires
        valid_utf8(first + second),
    ensures
        ({
            let valid = valid_length(first) as int;
            let left = first.skip(valid) + second;
            &&& valid_utf8(left)
            &&& decode_utf8(first + second) == decode_utf8(first.take(valid)) + decoded(left).0
            &&& decoded(left).1.len() == 0
        }),
{
    let valid = valid_length(first) as int;
    let left = first.skip(valid) + second;
    valid_length_is_longest(first);
    let head = first.take(valid);
    assert(head + left =~= first + second);
    valid_rest(head, left);
}

/// What follows a valid part of a valid byte string is valid, and the texts add up.
proof fn valid_rest(head: Seq<u8>, rest: Seq<u8>)
    requires
        valid_utf8(head),
        valid_utf8(head + rest),
    ensures
        valid_utf8(rest),
        decode_utf8(head + rest) == decode_utf8(head) + decode_utf8(rest),
    decreases head.len(),
{
    if head.len() == 0 {
        assert(head + rest =~= rest);
        assert(decode_utf8(head) + decode_utf8(rest) =~= decode_utf8(rest));
    } else {
        let both = head + rest;
        assert(pop_first_scalar(both) =~= pop_first_scalar(head) + rest);
        valid_rest(pop_first_scalar(head), rest);
        assert(decode_first_scalar(both) == decode_first_scalar(head));
        assert(decode_utf8(both) =~= decode_utf8(head) + decode_utf8(rest));
    }
}

/// The encoding of one text after another is one encoding after another.
pub proof fn encoding_of_joined_texts(a: Seq<char>, b: Seq<char>)
    ensures
        encode_utf8(a + b) == encode_utf8(a) + encode_utf8(b),
    decreases a.len(),
{
    if a.len() == 0 {
        assert(a + b =~= b);
        assert(encode_utf8(a) + encode_utf8(b) =~= encode_utf8(b));
    } else {
        assert((a + b).drop_first() =~= a.drop_first() + b);
        encoding_of_joined_texts(a.drop_first(), b);
        assert(encode_utf8(a + b) =~= encode_utf8(a) + encode_utf8(b));
    }
}

/// Decoding at most triples a byte string: the text of each invalid sequence takes three bytes.
pub proof fn decoding_at_most_triples(bytes: Seq<u8>)
    ensures
        encode_utf8(decoded(bytes).0).len() + decoded(bytes).1.len() <= 3 * bytes.len(),
    decreases bytes.len(),
{
    valid_length_is_longest(bytes);
    let valid = valid_length(bytes);
    if valid_utf8(bytes) {
        decode_utf8_encode_utf8(bytes);
    } else {
        let head_bytes = bytes.take(valid as int);
        let head = decode_utf8(head_bytes);
        decode_utf8_encode_utf8(head_bytes);
        match utf8_error_length(bytes) {
            Some(length) if 0 < length && valid + length <= bytes.len() => {
                let rest = bytes.skip(valid + length);
                decoding_at_most_triples(rest);
                encoding_of_joined_texts(head.push(REPLACEMENT), decoded(rest).0);
                encoding_of_joined_texts(head, seq![REPLACEMENT]);
                assert(head + seq![REPLACEMENT] =~= head.push(REPLACEMENT));
                replacement_takes_three_bytes();
            },
            _ => {},
        }
    }
}

proof fn replacement_takes_three_bytes()
    ensures
        encode_utf8(seq![REPLACEMENT]).len() == 3,
{
    reveal_with_fuel(encode_utf8, 2);
    assert(seq![REPLACEMENT].drop_first().len() == 0);
    assert(REPLACEMENT as u32 == 0xFFFD);
}

/// The length of the blank line that a text begins with, or zero.
pub open spec fn delimiter_length(text: Seq<char>) -> nat {
    if has_prefix(text, "\r\n\r\n"@) {
        4
    } else if has_prefix(text, "\n\n"@) {
        2
    } else {
        0
    }
}

/// The position of the first blank line of a text, or its length where there is none.
pub open spec fn block_length(text: Seq<char>) -> nat
    decreases text.len(),
{
    if text.len() == 0 || delimiter_length(text) > 0 {
        0
    } else {
        1 + block_length(text.skip(1))
    }
}

/// What [`block_length`] is: no blank line stands before it, and one there, unless it is the end.
pub proof fn block_length_is_first(text: Seq<char>)
    ensures
        block_length(text) <= text.len(),
        block_length(text) < text.len() ==> delimiter_length(text.skip(block_length(text) as int))
            > 0,
        block_length(text) + delimiter_length(text.skip(block_length(text) as int)) <= text.len(),
        forall|k: int|
            0 <= k < block_length(text) ==> delimiter_length(#[trigger] text.skip(k)) == 0,
    decreases text.len(),
{
    reveal_strlit("\r\n\r\n");
    reveal_strlit("\n\n");
    if text.len() == 0 || delimiter_length(text) > 0 {
        assert(text.skip(0) =~= text);
    } else {
        let rest = text.skip(1);
        block_length_is_first(rest);
        assert(rest.skip(block_length(rest) as int) =~= text.skip(block_length(text) as int));
        assert forall|k: int| 0 <= k < block_length(text) implies delimiter_length(
            #[trigger] text.skip(k),
        ) == 0 by {
            if k == 0 {
                assert(text.skip(0) =~= text);
            } else {
                assert(rest.skip(k - 1) =~= text.skip(k));
            }
        }
    }
}

/// The block that a text begins with and what follows its blank line, where it has one.
pub open spec fn first_block(text: Seq<char>) -> Option<(Seq<char>, Seq<char>)> {
    let at = block_length(text) as int;
    if at < text.len() {
        Some((text.take(at), text.skip(at + delimiter_length(text.skip(at)))))
    } else {
        None
    }
}

fn blank_line_at(chars: &Vec<char>, at: usize) -> (length: usize)
    requires
        at <= chars@.len(),
    ensures
        length == delimiter_length(chars@.skip(at as int)),
        at + length <= chars@.len(),
{
    let long = chars_of("\r\n\r\n");
    let short = chars_of("\n\n");
    let ghost rest = chars@.skip(at as int);
    proof {
        reveal_strlit("\r\n\r\n");
        reveal_strlit("\n\n");
    }
    if chars.len() - at >= 4 {
        let found = chars_occur_at(chars, &long, at);
        assert(found == has_prefix(rest, long@)) by {
            if found {
                assert(rest.subrange(0, 4) =~= chars@.subrange(at as int, at + 4));
            }
            if has_prefix(rest, long@) {
                assert(chars@.subrange(at as int, at + 4) =~= rest.subrange(0, 4));
            }
        }
        if found {
            return 4;
        }
    }
    if chars.len() - at >= 2 {
        let found = chars_occur_at(chars, &short, at);
        assert(found == has_prefix(rest, short@)) by {
            if found {
                assert(rest.subrange(0, 2) =~= chars@.subrange(at as int, at + 2));
            }
            if has_prefix(rest, short@) {
                assert(chars@.subrange(at as int, at + 2) =~= rest.subrange(0, 2));
            }
        }
        if found {
            return 2;
        }
    }
    0
}

/// How the search for a blank line ends.
#[derive(Clone, Copy, Debug, PartialEq, Eq, Structural)]
pub enum BlockSearch {
    /// The first one is there.
    Found(usize),
    /// There is none.
    Missing,
    /// The budget is used up before that is known.
    OutOfBudget,
}

/// How the search for the first blank line ends that starts at a position and may go on by a
/// number of characters.
pub open spec fn block_search(text: Seq<char>, from: nat, budget: nat) -> BlockSearch {
    let at = block_length(text);
    if at > from + budget {
        BlockSearch::OutOfBudget
    } else if at < text.len() {
        BlockSearch::Found(at as usize)
    } else {
        BlockSearch::Missing
    }
}

/// Where no blank line begins before a position, the first one is the first from there on.
proof fn block_length_from(text: Seq<char>, from: nat)
    requires
        from <= block_length(text),
    ensures
        block_length(text) == from + block_length(text.skip(from as int)),
    decreases from,
{
    block_length_is_first(text);
    if from == 0 {
        assert(text.skip(0) =~= text);
    } else {
        block_length_from(text.skip(1), (from - 1) as nat);
        assert(text.skip(1).skip(from - 1) =~= text.skip(from as int));
    }
}

/// Where no blank line begins before a position that is three characters from the end, none does
/// whatever comes after it.
pub proof fn searched_text_stays_searched(text: Seq<char>, more: Seq<char>, from: nat)
    requires
        from <= block_length(text),
        from == 0 || from + 3 <= text.len(),
    ensures
        from <= block_length(text + more),
{
    let both = text + more;
    block_length_is_first(text);
    block_length_is_first(both);
    let at = block_length(both) as int;
    if at < from {
        reveal_strlit("\r\n\r\n");
        reveal_strlit("\n\n");
        let here = text.skip(at);
        let there = both.skip(at);
        assert(delimiter_length(here) == 0);
        assert(there.subrange(0, 4) =~= here.subrange(0, 4));
        assert(there.subrange(0, 2) =~= here.subrange(0, 2));
        assert(has_prefix(here, "\r\n\r\n"@) == has_prefix(there, "\r\n\r\n"@));
        assert(has_prefix(here, "\n\n"@) == has_prefix(there, "\n\n"@));
    }
}

/// Searches a text for its first blank line, from a position before which none begins, and no
/// further than the budget goes.
pub fn search_block(buffer: &str, from: usize, budget: usize) -> (search: BlockSearch)
    requires
        from <= block_length(buffer@),
    ensures
        search == block_search(buffer@, from as nat, budget as nat),
        block_length(buffer@) <= usize::MAX,
{
    let chars = chars_of(buffer);
    let ghost text = buffer@;
    proof {
        block_length_is_first(text);
        block_length_from(text, from as nat);
    }
    let mut at: usize = from;
    assert(chars.len() == text.len());
    loop
        invariant
            chars@ == text,
            text == buffer@,
            from <= at <= chars@.len(),
            at - from <= budget,
            block_length(text) == at + block_length(text.skip(at as int)),
            block_length(text) <= usize::MAX,
        decreases chars@.len() - at,
    {
        if at == chars.len() {
            return BlockSearch::Missing;
        }
        if blank_line_at(&chars, at) > 0 {
            return BlockSearch::Found(at);
        }
        if at - from == budget {
            return BlockSearch::OutOfBudget;
        }
        assert(text.skip(at as int).skip(1) =~= text.skip(at + 1));
        at = at + 1;
    }
}

/// Takes the first block out of a text, with the blank line behind it.
pub fn take_sse_block(buffer: &mut String) -> (block: Option<String>)
    ensures
        match (block, first_block(old(buffer)@)) {
            (Some(block), Some((text, rest))) => block@ == text && final(buffer)@ == rest,
            (None, None) => final(buffer)@ == old(buffer)@,
            _ => false,
        },
{
    let chars = chars_of(buffer.as_str());
    let ghost text = buffer@;
    let mut at: usize = 0;
    assert(text.skip(0) =~= text);
    while at < chars.len()
        invariant
            at <= chars@.len(),
            chars@ == text,
            buffer@ == text,
            text == old(buffer)@,
            block_length(text) == at + block_length(text.skip(at as int)),
        decreases chars@.len() - at,
    {
        let length = blank_line_at(&chars, at);
        if length > 0 {
            let block = string_of(vstd::slice::slice_subrange(chars.as_slice(), 0, at));
            let rest = string_of(
                vstd::slice::slice_subrange(chars.as_slice(), at + length, chars.len()),
            );
            assert(block@ =~= text.take(at as int));
            assert(rest@ =~= text.skip(at + length));
            *buffer = rest;
            return Some(block);
        }
        assert(text.skip(at as int).skip(1) =~= text.skip(at + 1));
        at = at + 1;
    }
    None
}

/// A block that is complete stays what it is, whatever comes after it.
pub proof fn complete_blocks_are_final(text: Seq<char>, more: Seq<char>)
    requires
        first_block(text) is Some,
    ensures
        match first_block(text) {
            Some((block, rest)) => first_block(text + more) == Some((block, rest + more)),
            None => false,
        },
{
    reveal_strlit("\r\n\r\n");
    reveal_strlit("\n\n");
    block_length_is_first(text);
    block_length_is_first(text + more);
    let at = block_length(text) as int;
    let both = text + more;
    let here = text.skip(at);
    assert(both.skip(at) =~= here + more);
    assert(delimiter_length(here + more) == delimiter_length(here)) by {
        let n = delimiter_length(here) as int;
        assert((here + more).subrange(0, n) =~= here.subrange(0, n));
        if n == 2 {
            assert(here.subrange(0, 2)[0] == '\n');
            if has_prefix(here + more, "\r\n\r\n"@) {
                assert((here + more).subrange(0, 4)[0] == '\r');
            }
        }
    }
    let other = block_length(both) as int;
    if other < at {
        let there = both.skip(other);
        let early = text.skip(other);
        assert(there =~= early + more);
        let n = delimiter_length(there) as int;
        if other + n <= text.len() {
            assert(early.subrange(0, n) =~= there.subrange(0, n));
            if n == 4 {
                assert(has_prefix(early, "\r\n\r\n"@));
            } else {
                assert(has_prefix(early, "\n\n"@));
            }
            assert(delimiter_length(text.skip(other)) > 0);
        } else {
            let d = delimiter_length(here) as int;
            assert(here.subrange(0, d)[0] == here[0]);
            assert(here.subrange(0, d)[1] == here[1]);
            assert(here[0] == both[at] && here[1] == both[at + 1]);
            assert(there.subrange(0, n)[0] == both[other]);
            assert(there.subrange(0, n)[1] == both[other + 1]);
            if n == 4 {
                assert(there.subrange(0, 4)[2] == both[other + 2]);
                assert(there.subrange(0, 4)[3] == both[other + 3]);
            }
            assert(false);
        }
    }
    if at < other {
        assert(delimiter_length(both.skip(at)) == 0);
    }
    assert(both.take(at) =~= text.take(at));
    assert(both.skip(at + delimiter_length(here)) =~= text.skip(at + delimiter_length(here)) + more);
}

/// A line without the carriage return before its end.
pub open spec fn without_return(line: Seq<char>) -> Seq<char> {
    if line.len() > 0 && line.last() == '\r' {
        line.drop_last()
    } else {
        line
    }
}

/// The lines of a text. A line ends with a line feed, which a carriage return may stand before;
/// the last one may end with the text.
pub open spec fn lines(text: Seq<char>) -> Seq<Seq<char>>
    decreases text.len(),
    when first_index(text, '\n') >= 0
{
    let at = first_index(text, '\n');
    if text.len() == 0 {
        Seq::empty()
    } else if at < text.len() {
        seq![without_return(text.take(at))] + lines(text.skip(at + 1))
    } else {
        seq![text]
    }
}

/// The lines of a text.
pub fn lines_of(text: &str) -> (list: Vec<String>)
    ensures
        texts_view(list@) == lines(text@),
{
    let chars = chars_of(text);
    let mut list: Vec<String> = Vec::new();
    let mut from: usize = 0;
    assert(text@.skip(0) =~= text@);
    assert(texts_view(list@) + lines(text@) =~= lines(text@));
    while from < chars.len()
        invariant
            chars@ == text@,
            from <= chars@.len(),
            lines(text@) == texts_view(list@) + lines(text@.skip(from as int)),
        decreases chars@.len() - from,
    {
        let ghost rest = text@.skip(from as int);
        let ghost before = texts_view(list@);
        proof {
            first_index_is_first(rest, '\n');
        }
        let at = find_from(&chars, '\n', from);
        if at < chars.len() {
            let end = if at > from && chars[at - 1] == '\r' {
                at - 1
            } else {
                at
            };
            let line = string_of(vstd::slice::slice_subrange(chars.as_slice(), from, end));
            assert(line@ =~= without_return(rest.take(at - from)));
            list.push(line);
            assert(texts_view(list@) =~= before.push(line@));
            assert(rest.skip(at - from + 1) =~= text@.skip(at + 1));
            proof {
                first_index_is_first(text@.skip(at + 1), '\n');
            }
            assert(before + (seq![line@] + lines(text@.skip(at + 1))) =~= before.push(line@)
                + lines(text@.skip(at + 1)));
            from = at + 1;
        } else {
            let line = string_of(vstd::slice::slice_subrange(chars.as_slice(), from, at));
            assert(line@ =~= rest);
            list.push(line);
            assert(texts_view(list@) =~= before.push(line@));
            assert(before + seq![rest] =~= before.push(rest));
            return list;
        }
    }
    assert(text@.skip(from as int) =~= Seq::<char>::empty());
    proof {
        first_index_is_first(Seq::<char>::empty(), '\n');
    }
    assert(texts_view(list@) + Seq::<Seq<char>>::empty() =~= texts_view(list@));
    list
}

/// What a line gives to a field: what follows its name and a colon, without one space.
pub open spec fn field(line: Seq<char>, name: Seq<char>) -> Option<Seq<char>> {
    match without_prefix(line, name + ": "@) {
        Some(value) => Some(value),
        None => without_prefix(line, name + ":"@),
    }
}

/// What a line gives to a field: what follows its name and a colon, without one space.
pub fn strip_sse_field<'a>(line: &'a str, name: &str) -> (value: Option<&'a str>)
    ensures
        match value {
            Some(value) => field(line@, name@) == Some(value@),
            None => field(line@, name@) is None,
        },
{
    match strip_prefix(line, join(name, ": ").as_str()) {
        Some(value) => Some(value),
        None => strip_prefix(line, join(name, ":").as_str()),
    }
}

/// The event that the lines of a block name: the last one counts.
pub open spec fn named_event(lines: Seq<Seq<char>>) -> Option<Seq<char>>
    decreases lines.len(),
{
    if lines.len() == 0 {
        None
    } else {
        match field(lines.last(), "event"@) {
            Some(event) => Some(trimmed(event)),
            None => named_event(lines.drop_last()),
        }
    }
}

/// The data of the lines of a block.
pub open spec fn data_lines(lines: Seq<Seq<char>>) -> Seq<Seq<char>>
    decreases lines.len(),
{
    if lines.len() == 0 {
        Seq::empty()
    } else {
        let before = data_lines(lines.drop_last());
        match (field(lines.last(), "event"@), field(lines.last(), "data"@)) {
            (None, Some(data)) => before.push(data),
            _ => before,
        }
    }
}

/// A block of an event stream.
#[derive(Debug)]
pub struct SseBlock {
    /// The event that the block names.
    pub event: Option<String>,
    /// Its data, where it has any.
    pub data: Option<String>,
}

/// A block of an event stream as a mathematical value.
pub struct SseBlockView {
    pub event: Option<Seq<char>>,
    pub data: Option<Seq<char>>,
}

impl View for SseBlock {
    type V = SseBlockView;

    open spec fn view(&self) -> SseBlockView {
        SseBlockView { event: opt_view(self.event), data: opt_view(self.data) }
    }
}

/// The block that a text is.
pub open spec fn block_of(text: Seq<char>) -> SseBlockView {
    let data = data_lines(lines(text));
    SseBlockView {
        event: named_event(lines(text)),
        data: if data.len() == 0 {
            None
        } else {
            Some(joined(data, "\n"@))
        },
    }
}

/// The block that a text is.
pub fn parse_sse_block(text: &str) -> (block: SseBlock)
    ensures
        block@ == block_of(text@),
{
    let list = lines_of(text);
    let ghost all = lines(text@);
    let mut event: Option<String> = None;
    let mut data: Vec<String> = Vec::new();
    let mut i: usize = 0;
    assert(texts_view(data@) =~= Seq::<Seq<char>>::empty());
    while i < list.len()
        invariant
            i <= list@.len(),
            all == texts_view(list@),
            opt_view(event) == named_event(all.take(i as int)),
            texts_view(data@) == data_lines(all.take(i as int)),
        decreases list@.len() - i,
    {
        let ghost before = texts_view(data@);
        assert(all.take(i + 1).drop_last() =~= all.take(i as int));
        assert(all.take(i + 1).last() == list@[i as int]@);
        let line = list[i].as_str();
        if let Some(name) = strip_sse_field(line, "event") {
            event = Some(trim(name).to_owned());
        } else if let Some(value) = strip_sse_field(line, "data") {
            data.push(value.to_owned());
            assert(texts_view(data@) =~= before.push(value@));
        }
        i = i + 1;
    }
    assert(all.take(i as int) =~= all);
    if data.len() == 0 {
        SseBlock { event, data: None }
    } else {
        SseBlock { event, data: Some(join_all(&data, "\n")) }
    }
}

/// A block is what stands before the first blank line, with either end of line, and what follows it
/// is left; where no blank line begins, there is no block yet.
pub proof fn blocks_end_at_blank_lines(block: Seq<char>, rest: Seq<char>)
    ensures
        ({
            let text = block + "\n\n"@ + rest;
            (forall|k: int|
                0 <= k < block.len() ==> !has_prefix(#[trigger] text.skip(k), "\n\n"@)
                    && !has_prefix(text.skip(k), "\r\n\r\n"@)) ==> first_block(text) == Some(
                (block, rest),
            )
        }),
        ({
            let text = block + "\r\n\r\n"@ + rest;
            (forall|k: int|
                0 <= k < block.len() ==> !has_prefix(#[trigger] text.skip(k), "\n\n"@)
                    && !has_prefix(text.skip(k), "\r\n\r\n"@)) ==> first_block(text) == Some(
                (block, rest),
            )
        }),
        first_block(rest) is None <==> forall|k: int|
            0 <= k < rest.len() ==> !has_prefix(#[trigger] rest.skip(k), "\n\n"@) && !has_prefix(
                rest.skip(k),
                "\r\n\r\n"@,
            ),
{
    reveal_strlit("\r\n\r\n");
    reveal_strlit("\n\n");
    assert("\n\n"@.len() == 2 && "\n\n"@[0] == '\n');
    assert("\r\n\r\n"@.len() == 4 && "\r\n\r\n"@[0] == '\r');
    let short = block + "\n\n"@ + rest;
    let long = block + "\r\n\r\n"@ + rest;
    let at = block.len() as int;
    block_length_is_first(short);
    block_length_is_first(long);
    block_length_is_first(rest);
    assert(short.skip(at) =~= "\n\n"@ + rest);
    assert(long.skip(at) =~= "\r\n\r\n"@ + rest);
    texts_are_found_where_they_stand(Seq::empty(), "\n\n"@, rest);
    texts_are_found_where_they_stand(Seq::empty(), "\r\n\r\n"@, rest);
    if has_prefix("\n\n"@ + rest, "\r\n\r\n"@) {
        assert(("\n\n"@ + rest).subrange(0, 4)[0] == '\n');
    }
    assert(delimiter_length(short.skip(at)) == 2);
    assert(delimiter_length(long.skip(at)) == 4);
    assert(short.take(at) =~= block);
    assert(long.take(at) =~= block);
    assert(short.skip(at + 2) =~= rest);
    assert(long.skip(at + 4) =~= rest);
    if forall|k: int|
        0 <= k < block.len() ==> !has_prefix(#[trigger] short.skip(k), "\n\n"@) && !has_prefix(
            short.skip(k),
            "\r\n\r\n"@,
        ) {
        let found = block_length(short) as int;
        if found < at {
            assert(delimiter_length(short.skip(found)) > 0);
        }
        assert(found == at);
    }
    if forall|k: int|
        0 <= k < block.len() ==> !has_prefix(#[trigger] long.skip(k), "\n\n"@) && !has_prefix(
            long.skip(k),
            "\r\n\r\n"@,
        ) {
        let found = block_length(long) as int;
        if found < at {
            assert(delimiter_length(long.skip(found)) > 0);
        }
        assert(found == at);
    }
    let found = block_length(rest) as int;
    if found < rest.len() {
        assert(delimiter_length(rest.skip(found)) > 0);
    } else {
        assert forall|k: int| 0 <= k < rest.len() implies !has_prefix(
            #[trigger] rest.skip(k),
            "\n\n"@,
        ) && !has_prefix(rest.skip(k), "\r\n\r\n"@) by {
            assert(delimiter_length(rest.skip(k)) == 0);
        }
    }
}

/// A line ends with a line feed, and a carriage return before that is no part of it; the last line
/// may end with the text.
pub proof fn lines_end_with_line_feeds(line: Seq<char>, rest: Seq<char>)
    requires
        !line.contains('\n'),
    ensures
        line.len() == 0 || line.last() != '\r' ==> lines(line + seq!['\n'] + rest) == seq![line]
            + lines(rest),
        lines(line + seq!['\r', '\n'] + rest) == seq![line] + lines(rest),
        line.len() > 0 ==> lines(line) == seq![line],
        lines(Seq::empty()).len() == 0,
{
    let plain = line + seq!['\n'] + rest;
    texts_are_cut_at_the_first_occurrence(line, '\n', rest);
    first_index_is_first(plain, '\n');
    first_index_is_first(line, '\n');
    let at = first_index(plain, '\n');
    if at < line.len() {
        assert(line.contains(line[at]));
    }
    assert(plain[line.len() as int] == '\n');
    assert(at == line.len());
    assert(plain.take(at) =~= line);
    assert(plain.skip(at + 1) =~= rest);
    first_index_is_first(rest, '\n');
    assert(lines(plain) == seq![without_return(plain.take(at))] + lines(plain.skip(at + 1)));
    let returned = line.push('\r');
    let both = line + seq!['\r', '\n'] + rest;
    first_index_is_first(both, '\n');
    let end = first_index(both, '\n');
    if end < line.len() {
        assert(line.contains(line[end]));
    }
    assert(both[line.len() as int] == '\r');
    assert(both[(line.len() + 1) as int] == '\n');
    assert(end == line.len() + 1);
    assert(both.take(end) =~= returned);
    assert(returned.drop_last() =~= line);
    assert(both.skip(end + 1) =~= rest);
    assert(lines(both) == seq![without_return(both.take(end))] + lines(both.skip(end + 1)));
    if first_index(line, '\n') < line.len() {
        assert(line.contains(line[first_index(line, '\n')]));
    }
}

/// A field's value is what follows its name and a colon, without one space; a line that does not
/// begin so has none.
pub proof fn fields_follow_their_names(line: Seq<char>, name: Seq<char>, value: Seq<char>)
    ensures
        field(name + ": "@ + value, name) == Some(value),
        value.len() == 0 || value[0] != ' ' ==> field(name + ":"@ + value, name) == Some(value),
        field(line, name) is Some ==> has_prefix(line, name + ":"@),
{
    reveal_strlit(":");
    reveal_strlit(": ");
    texts_are_found_where_they_stand(Seq::empty(), name + ": "@, value);
    texts_are_found_where_they_stand(Seq::empty(), name + ":"@, value);
    let bare = name + ":"@ + value;
    if has_prefix(bare, name + ": "@) {
        let n = name.len() as int;
        assert((name + ": "@)[n + 1] == ' ');
        assert(bare.subrange(0, n + 2)[n + 1] == value[0]);
    }
    if has_prefix(line, name + ": "@) {
        let n = name.len() as int;
        assert(line.subrange(0, n + 2) == name + ": "@);
        assert(line.subrange(0, n + 1) =~= line.subrange(0, n + 2).subrange(0, n + 1));
        assert((name + ": "@).subrange(0, n + 1) =~= name + ":"@);
    }
}

/// The last line that names the event counts, the lines of data come in their order, and no other
/// line counts for either.
pub proof fn blocks_hold_an_event_and_data(
    before: Seq<Seq<char>>,
    value: Seq<char>,
    line: Seq<char>,
)
    ensures
        named_event(before.push("event: "@ + value)) == Some(trimmed(value)),
        data_lines(before.push("event: "@ + value)) == data_lines(before),
        data_lines(before.push("data: "@ + value)) == data_lines(before).push(value),
        named_event(before.push("data: "@ + value)) == named_event(before),
        !has_prefix(line, "event:"@) ==> named_event(before.push(line)) == named_event(before),
        !has_prefix(line, "data:"@) ==> data_lines(before.push(line)) == data_lines(before),
{
    reveal_strlit("event");
    reveal_strlit("data");
    reveal_strlit("event: ");
    reveal_strlit("data: ");
    reveal_strlit("event:");
    reveal_strlit("data:");
    reveal_strlit(":");
    reveal_strlit(": ");
    assert("event: "@ =~= "event"@ + ": "@);
    assert("data: "@ =~= "data"@ + ": "@);
    assert("event:"@ =~= "event"@ + ":"@);
    assert("data:"@ =~= "data"@ + ":"@);
    let event = "event: "@ + value;
    let data = "data: "@ + value;
    fields_follow_their_names(event, "event"@, value);
    fields_follow_their_names(data, "data"@, value);
    fields_follow_their_names(data, "event"@, value);
    fields_follow_their_names(line, "event"@, value);
    fields_follow_their_names(line, "data"@, value);
    assert(!has_prefix(data, "event:"@)) by {
        if has_prefix(data, "event:"@) {
            assert("event:"@[0] == 'e');
            assert(data.subrange(0, 6)[0] == 'd');
        }
    }
    assert(before.push(event).drop_last() =~= before);
    assert(before.push(data).drop_last() =~= before);
    assert(before.push(line).drop_last() =~= before);
    assert(before.push(event).last() == event);
    assert(before.push(data).last() == data);
    assert(before.push(line).last() == line);
}

/// An event with one line of data is read as such.
pub proof fn events_are_read(event: Seq<char>, data: Seq<char>)
    requires
        !event.contains('\n'),
        !data.contains('\n'),
        event.len() > 0 && event.last() != '\r',
    ensures
        ({
            let block = block_of("event: "@ + event + "\n"@ + "data: "@ + data);
            block.event == Some(trimmed(event)) && block.data == Some(data)
        }),
{
    reveal_strlit("\n");
    reveal_strlit("event: ");
    reveal_strlit("data: ");
    assert("\n"@ =~= seq!['\n']);
    let first = "event: "@ + event;
    let second = "data: "@ + data;
    let text = "event: "@ + event + "\n"@ + "data: "@ + data;
    assert(text =~= first + seq!['\n'] + second);
    assert(!first.contains('\n')) by {
        if first.contains('\n') {
            let k = first.index_of('\n');
            assert("event: "@.len() == 7);
            if k >= 7 {
                assert(event[k - 7] == '\n');
            } else {
                assert("event: "@[k] == '\n');
            }
        }
    }
    assert(!second.contains('\n')) by {
        if second.contains('\n') {
            let k = second.index_of('\n');
            assert("data: "@.len() == 6);
            if k >= 6 {
                assert(data[k - 6] == '\n');
            } else {
                assert("data: "@[k] == '\n');
            }
        }
    }
    assert(first.last() == event.last());
    assert(second.len() > 0);
    lines_end_with_line_feeds(first, second);
    lines_end_with_line_feeds(second, Seq::empty());
    let none = Seq::<Seq<char>>::empty();
    let one = none.push(first);
    let two = one.push(second);
    assert(lines(text) =~= two);
    blocks_hold_an_event_and_data(none, event, first);
    blocks_hold_an_event_and_data(one, data, second);
    assert(data_lines(none) =~= Seq::<Seq<char>>::empty());
    assert(data_lines(two) =~= seq![data]);
}

/// What is UTF-8 is read as it is, with nothing left; what is not is replaced, and reading goes on
/// behind it.
pub proof fn text_is_read_from_its_bytes(text: Seq<char>, bytes: Seq<u8>, length: usize)
    ensures
        decoded(encode_utf8(text)) == (text, Seq::<u8>::empty()),
        !valid_utf8(bytes) && utf8_error_length(bytes) == Some(length) && 0 < length && valid_length(
            bytes,
        ) + length <= bytes.len() ==> {
            &&& decoded(bytes).0 == decode_utf8(bytes.take(valid_length(bytes) as int)).push(
                '\u{FFFD}',
            ) + decoded(bytes.skip((valid_length(bytes) + length) as int)).0
            &&& decoded(bytes).1 == decoded(bytes.skip((valid_length(bytes) + length) as int)).1
        },
        !valid_utf8(bytes) && utf8_error_length(bytes) is None ==> decoded(bytes).0 == decode_utf8(
            bytes.take(valid_length(bytes) as int),
        ) && decoded(bytes).1 == bytes.skip(valid_length(bytes) as int),
{
    encode_utf8_valid_utf8(text);
    encode_utf8_decode_utf8(text);
}

} // verus!
