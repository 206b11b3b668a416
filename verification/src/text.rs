use vstd::prelude::*;
use vstd::string::*;
use vstd::utf8::*;

verus! {

/// The characters of `s`, in order.
pub fn chars_of(s: &str) -> (chars: Vec<char>)
    ensures
        chars@ == s@,
{
    let mut chars: Vec<char> = Vec::new();
    for c in it: s.chars()
        invariant
            it.seq() == s@,
            chars@ == s@.take(it.index() as int),
    {
        chars.push(c);
    }
    chars
}

/// `char_idx` held to the length of `value`.
pub open spec fn clamped_index(value: Seq<char>, char_idx: int) -> int {
    if char_idx < value.len() {
        char_idx
    } else {
        value.len() as int
    }
}

/// The number of bytes that the first `char_idx` characters of `value` take
/// in UTF-8; the byte length of all of `value` where it has fewer characters.
pub open spec fn byte_offset_of(value: Seq<char>, char_idx: int) -> nat {
    encode_utf8(value.take(clamped_index(value, char_idx))).len()
}

/// The encoding of the first `k` characters is the start of the encoding of
/// all of them, and ends where a character ends.
pub proof fn lemma_prefix_encoding_is_boundary(chars: Seq<char>, k: int)
    requires
        0 <= k <= chars.len(),
    ensures
        encode_utf8(chars.take(k)).len() <= encode_utf8(chars).len(),
        encode_utf8(chars.take(k)) == encode_utf8(chars).subrange(
            0,
            encode_utf8(chars.take(k)).len() as int,
        ),
        is_char_boundary(encode_utf8(chars), encode_utf8(chars.take(k)).len() as int),
    decreases k,
{
    let bytes = encode_utf8(chars);
    encode_utf8_valid_utf8(chars);
    if k == 0 {
        assert(chars.take(0) =~= Seq::<char>::empty());
        assert(encode_utf8(chars.take(0)) =~= Seq::<u8>::empty());
        assert(bytes.subrange(0, 0) =~= Seq::<u8>::empty());
    } else {
        let rest = chars.drop_first();
        let head = encode_scalar(chars[0] as u32);
        encode_utf8_first_scalar(chars);
        assert(pop_first_scalar(bytes) =~= encode_utf8(rest));
        assert(chars.take(k).drop_first() =~= rest.take(k - 1));
        assert(chars.take(k)[0] == chars[0]);
        lemma_prefix_encoding_is_boundary(rest, k - 1);
        let inner = encode_utf8(rest.take(k - 1));
        assert(encode_utf8(chars.take(k)) == head + inner);
        assert(head + inner =~= bytes.subrange(0, (head + inner).len() as int));
    }
}

/// The byte offset in `value` at which its character number `char_idx`
/// starts; the byte length of `value` where there is no such character.
pub fn char_to_byte_idx(value: &str, char_idx: usize) -> (byte_idx: usize)
    ensures
        byte_idx == byte_offset_of(value@, char_idx as int),
        byte_idx <= value.spec_bytes().len(),
        is_char_boundary(value.spec_bytes(), byte_idx as int),
        char_idx >= value@.len() ==> byte_idx == value.spec_bytes().len(),
{
    let char_len = value.unicode_len();
    let upto = if char_idx < char_len {
        char_idx
    } else {
        char_len
    };
    let head = value.substring_char(0, upto);
    proof {
        assert(value@.subrange(0, upto as int) == value@.take(upto as int));
        lemma_prefix_encoding_is_boundary(value@, upto as int);
        assert(value@.take(value@.len() as int) =~= value@);
    }
    head.as_bytes().len()
}

/// The encoding of two texts in a row is the encoding of the first followed
/// by that of the second.
pub proof fn lemma_encoding_of_concat(first: Seq<char>, second: Seq<char>)
    ensures
        encode_utf8(first + second) == encode_utf8(first) + encode_utf8(second),
    decreases first.len(),
{
    if first.len() == 0 {
        assert(first + second =~= second);
        assert(encode_utf8(first) + encode_utf8(second) =~= encode_utf8(second));
    } else {
        assert((first + second).drop_first() =~= first.drop_first() + second);
        lemma_encoding_of_concat(first.drop_first(), second);
        assert(encode_utf8(first + second) =~= encode_utf8(first) + encode_utf8(second));
    }
}

/// `value` cut in two before its character number `char_idx`; behind its
/// last character where there is no such character.
pub fn split_at_char(value: &str, char_idx: usize) -> (parts: (&str, &str))
    ensures
        parts.0@ == value@.take(clamped_index(value@, char_idx as int)),
        parts.1@ == value@.skip(clamped_index(value@, char_idx as int)),
{
    let mid = char_to_byte_idx(value, char_idx);
    let parts = value.split_at(mid);
    proof {
        let k = clamped_index(value@, char_idx as int);
        let head = value@.take(k);
        let tail = value@.skip(k);
        assert(value@ =~= head + tail);
        lemma_encoding_of_concat(head, tail);
        assert(parts.0.spec_bytes() =~= encode_utf8(head));
        assert(parts.1.spec_bytes() =~= encode_utf8(tail));
        encode_utf8_decode_utf8(parts.0@);
        encode_utf8_decode_utf8(parts.1@);
        encode_utf8_decode_utf8(head);
        encode_utf8_decode_utf8(tail);
    }
    parts
}

/// Whether `text` begins with the characters of `prefix`.
pub fn chars_start_with(text: &[char], prefix: &[char]) -> (found: bool)
    ensures
        found == prefix@.is_prefix_of(text@),
{
    if prefix.len() > text.len() {
        return false;
    }
    let mut i: usize = 0;
    while i < prefix.len()
        invariant
            i <= prefix.len() <= text.len(),
            forall|j: int| 0 <= j < i ==> prefix@[j] == text@[j],
        decreases prefix.len() - i,
    {
        if prefix[i] != text[i] {
            assert(!prefix@.is_prefix_of(text@)) by {
                if prefix@.is_prefix_of(text@) {
                    assert(text@.subrange(0, prefix@.len() as int)[i as int] == text@[i as int]);
                }
            }
            return false;
        }
        i = i + 1;
    }
    assert(prefix@ =~= text@.subrange(0, prefix@.len() as int));
    true
}

/// Whether `name` begins with a dot, as the names of hidden entries do.
pub open spec fn is_dotted(name: Seq<char>) -> bool {
    name.len() > 0 && name[0] == '.'
}

} // verus!
