//! Character and byte views of `&str`: the library reads strings as sequences
//! of `char`s and reports byte offsets into their UTF-8 encoding.
use vstd::prelude::*;
use vstd::std_specs::iter::IteratorSpec;
use vstd::string::*;
use vstd::utf8::*;

verus! {

broadcast use {vstd::string::axiom_spec_iter, vstd::string::next_postcondition};

/// Number of bytes in the UTF-8 encoding of a character sequence.
pub open spec fn byte_len(s: Seq<char>) -> nat {
    encode_utf8(s).len()
}

/// Number of bytes in the UTF-8 encoding of one character.
pub open spec fn char_byte_len(c: char) -> nat {
    encode_scalar(c as u32).len()
}

/// The encoding of a concatenation is the concatenation of the encodings.
pub proof fn lemma_encode_concat(a: Seq<char>, b: Seq<char>)
    ensures
        encode_utf8(a + b) == encode_utf8(a) + encode_utf8(b),
    decreases a.len(),
{
    if a.len() == 0 {
        assert(a + b =~= b);
        assert(encode_utf8(a) + encode_utf8(b) =~= encode_utf8(b));
    } else {
        lemma_encode_concat(a.drop_first(), b);
        assert((a + b).drop_first() =~= a.drop_first() + b);
        assert((a + b)[0] == a[0]);
        assert(encode_utf8(a + b) =~= encode_utf8(a) + encode_utf8(b));
    }
}

/// Byte length of a prefix grows by the length of the next character.
pub proof fn lemma_byte_len_take_step(s: Seq<char>, i: int)
    requires
        0 <= i < s.len(),
    ensures
        byte_len(s.take(i + 1)) == byte_len(s.take(i)) + char_byte_len(s[i]),
        char_byte_len(s[i]) >= 1,
{
    lemma_encode_concat(s.take(i), seq![s[i]]);
    assert(s.take(i + 1) =~= s.take(i) + seq![s[i]]);
    let one = seq![s[i]];
    assert(one.drop_first() =~= Seq::<char>::empty());
    assert(encode_utf8(one) =~= encode_scalar(s[i] as u32) + encode_utf8(Seq::<char>::empty()));
    char_is_scalar(s[i]);
}

/// Byte lengths of prefixes are strictly increasing in the prefix length.
pub proof fn lemma_byte_len_take_mono(s: Seq<char>, i: int, j: int)
    requires
        0 <= i <= j <= s.len(),
    ensures
        byte_len(s.take(i)) <= byte_len(s.take(j)),
        i < j ==> byte_len(s.take(i)) < byte_len(s.take(j)),
        byte_len(s.take(j)) <= byte_len(s),
{
    lemma_take_increasing(s, i, j);
    lemma_take_increasing(s, j, s.len() as int);
    assert(s.take(s.len() as int) =~= s);
}

proof fn lemma_take_increasing(s: Seq<char>, i: int, j: int)
    requires
        0 <= i <= j <= s.len(),
    ensures
        byte_len(s.take(i)) <= byte_len(s.take(j)),
        i < j ==> byte_len(s.take(i)) < byte_len(s.take(j)),
    decreases j - i,
{
    if i < j {
        lemma_take_increasing(s, i, j - 1);
        lemma_byte_len_take_step(s, j - 1);
    }
}

/// The end of an encoded prefix is a character boundary of the whole encoding.
pub proof fn lemma_boundary_after_prefix(a: Seq<char>, b: Seq<char>)
    ensures
        is_char_boundary(encode_utf8(a + b), encode_utf8(a).len() as int),
    decreases a.len(),
{
    broadcast use encode_utf8_valid_utf8;

    let bytes = encode_utf8(a + b);
    if a.len() == 0 {
    } else {
        let ab = a + b;
        encode_utf8_first_scalar(ab);
        assert(pop_first_scalar(bytes) =~= encode_utf8(ab.drop_first()));
        assert(ab.drop_first() =~= a.drop_first() + b);
        assert(ab[0] == a[0]);
        lemma_encode_concat(a, b);
        lemma_encode_concat(a.drop_first(), b);
        lemma_boundary_after_prefix(a.drop_first(), b);
        char_is_scalar(a[0]);
        assert(encode_utf8(a).len() == encode_scalar(a[0] as u32).len() + encode_utf8(
            a.drop_first(),
        ).len());
    }
}

/// Number of UTF-8 bytes of a character (`char::len_utf8`), by code point range.
pub fn char_len_utf8(c: char) -> (n: usize)
    ensures
        n == char_byte_len(c),
        1 <= n <= 4,
{
    proof {
        char_is_scalar(c);
    }
    let u = c as u32;
    if u <= 0x7f {
        1
    } else if u <= 0x7ff {
        2
    } else if u <= 0xffff {
        3
    } else {
        4
    }
}

/// The characters of a string, in order.
pub fn str_chars(s: &str) -> (v: Vec<char>)
    ensures
        v@ == s@,
{
    let mut it = s.chars();
    let mut v: Vec<char> = Vec::new();
    loop
        invariant
            v@ + it.remaining() == s@,
            it.obeys_prophetic_iter_laws(),
            it.decrease() is Some,
        decreases it.decrease()->0,
    {
        let ghost before = it.remaining();
        match it.next() {
            Some(c) => {
                v.push(c);
                assert(v@ + it.remaining() =~= s@) by {
                    assert(before =~= seq![c] + it.remaining());
                }
            },
            None => {
                assert(v@ =~= s@);
                return v;
            },
        }
    }
}

/// The substring of `s` holding characters `lo..hi`, given the byte offsets
/// of those character positions.
pub fn substr<'a>(
    s: &'a str,
    lo_byte: usize,
    hi_byte: usize,
    Ghost(lo): Ghost<int>,
    Ghost(hi): Ghost<int>,
) -> (r: &'a str)
    requires
        0 <= lo <= hi <= s@.len(),
        lo_byte == byte_len(s@.take(lo)),
        hi_byte == byte_len(s@.take(hi)),
    ensures
        r@ == s@.subrange(lo, hi),
{
    broadcast use encode_utf8_valid_utf8, encode_utf8_decode_utf8;

    let ghost chars = s@;
    proof {
        assert(chars =~= chars.take(lo) + chars.skip(lo));
        lemma_encode_concat(chars.take(lo), chars.skip(lo));
        lemma_boundary_after_prefix(chars.take(lo), chars.skip(lo));
    }
    let (_, rest) = s.split_at(lo_byte);
    proof {
        assert(rest.spec_bytes() =~= encode_utf8(chars.skip(lo)));
        assert(rest@ == chars.skip(lo)) by {
            assert(decode_utf8(encode_utf8(rest@)) == rest@);
        }
        let tail = chars.skip(lo);
        assert(tail.take(hi - lo) + tail.skip(hi - lo) =~= tail);
        assert(chars.take(hi) =~= chars.take(lo) + tail.take(hi - lo));
        lemma_encode_concat(chars.take(lo), tail.take(hi - lo));
        lemma_encode_concat(tail.take(hi - lo), tail.skip(hi - lo));
        lemma_boundary_after_prefix(tail.take(hi - lo), tail.skip(hi - lo));
    }
    let (mid, _) = rest.split_at(hi_byte - lo_byte);
    proof {
        let tail = chars.skip(lo);
        assert(mid.spec_bytes() =~= encode_utf8(tail.take(hi - lo)));
        assert(decode_utf8(encode_utf8(mid@)) == mid@);
        assert(tail.take(hi - lo) =~= chars.subrange(lo, hi));
    }
    mid
}

} // verus!
