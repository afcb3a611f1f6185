//! Byte-length accounting for scalar values and small helpers for moving
//! between `String` and `Vec<char>` buffers.

use vstd::prelude::*;
use vstd::string::StrSliceExecFns;

verus! {

/// Longest text, in UTF-8 bytes, a field's buffer is allowed to hold.
/// Half the address space leaves room for any single insertion without
/// overflowing `usize` arithmetic.
pub const MAX_TEXT_BYTES: usize = usize::MAX / 2;

/// Number of bytes the UTF-8 encoding of one scalar value takes.
pub open spec fn char_bytes(c: char) -> int {
    if (c as u32) < 0x80 {
        1
    } else if (c as u32) < 0x800 {
        2
    } else if (c as u32) < 0x10000 {
        3
    } else {
        4
    }
}

/// Total UTF-8 byte length of a sequence of scalar values.
pub open spec fn utf8_len(s: Seq<char>) -> int
    decreases s.len(),
{
    if s.len() == 0 {
        0
    } else {
        char_bytes(s[0]) + utf8_len(s.drop_first())
    }
}

pub proof fn lemma_utf8_len_bounds(s: Seq<char>)
    ensures
        s.len() <= utf8_len(s) <= 4 * s.len(),
    decreases s.len(),
{
    if s.len() > 0 {
        lemma_utf8_len_bounds(s.drop_first());
    }
}

pub proof fn lemma_utf8_len_add(a: Seq<char>, b: Seq<char>)
    ensures
        utf8_len(a + b) == utf8_len(a) + utf8_len(b),
    decreases a.len(),
{
    if a.len() == 0 {
        assert(a + b =~= b);
    } else {
        assert((a + b).drop_first() =~= a.drop_first() + b);
        lemma_utf8_len_add(a.drop_first(), b);
    }
}

pub proof fn lemma_utf8_len_one(c: char)
    ensures
        utf8_len(seq![c]) == char_bytes(c),
{
    let s = seq![c];
    assert(s.len() == 1 && s[0] == c);
    assert(s.drop_first() =~= Seq::<char>::empty());
    assert(utf8_len(s) == char_bytes(c) + utf8_len(s.drop_first()));
}

/// Splitting a text at any point splits its byte length.
pub proof fn lemma_utf8_len_split(s: Seq<char>, i: int)
    requires
        0 <= i <= s.len(),
    ensures
        utf8_len(s) == utf8_len(s.take(i)) + utf8_len(s.skip(i)),
{
    assert(s =~= s.take(i) + s.skip(i));
    lemma_utf8_len_add(s.take(i), s.skip(i));
}

/// Splicing a text into the middle of another adds their byte lengths.
pub proof fn lemma_utf8_len_splice(s: Seq<char>, i: int, mid: Seq<char>)
    requires
        0 <= i <= s.len(),
    ensures
        utf8_len(s.take(i) + mid + s.skip(i)) == utf8_len(s) + utf8_len(mid),
{
    lemma_utf8_len_split(s, i);
    lemma_utf8_len_add(s.take(i) + mid, s.skip(i));
    lemma_utf8_len_add(s.take(i), mid);
}

/// Removing one scalar value removes exactly its bytes.
pub proof fn lemma_utf8_len_remove(s: Seq<char>, i: int)
    requires
        0 <= i < s.len(),
    ensures
        utf8_len(s.remove(i)) == utf8_len(s) - char_bytes(s[i]),
{
    assert(s =~= s.take(i) + seq![s[i]] + s.skip(i + 1));
    assert(s.remove(i) =~= s.take(i) + s.skip(i + 1));
    lemma_utf8_len_add(s.take(i) + seq![s[i]], s.skip(i + 1));
    lemma_utf8_len_add(s.take(i), seq![s[i]]);
    lemma_utf8_len_one(s[i]);
    lemma_utf8_len_add(s.take(i), s.skip(i + 1));
}

/// A prefix never has more bytes than the whole text.
pub proof fn lemma_utf8_len_take_le(s: Seq<char>, i: int)
    requires
        0 <= i <= s.len(),
    ensures
        0 <= utf8_len(s.take(i)) <= utf8_len(s),
{
    lemma_utf8_len_split(s, i);
    lemma_utf8_len_bounds(s.take(i));
    lemma_utf8_len_bounds(s.skip(i));
}

/// How many bytes the UTF-8 encoding of one scalar value takes.
pub fn char_utf8_len(c: char) -> (n: usize)
    ensures
        n == char_bytes(c),
{
    let u = c as u32;
    if u < 0x80 {
        1
    } else if u < 0x800 {
        2
    } else if u < 0x10000 {
        3
    } else {
        4
    }
}

/// Byte length of a buffer of scalar values; the caller must know it fits.
pub fn utf8_len_chars(v: &Vec<char>) -> (n: usize)
    requires
        utf8_len(v@) <= usize::MAX,
    ensures
        n == utf8_len(v@),
{
    let mut acc: usize = 0;
    let mut i: usize = 0;
    while i < v.len()
        invariant
            i <= v.len(),
            acc == utf8_len(v@.take(i as int)),
            utf8_len(v@) <= usize::MAX,
        decreases v.len() - i,
    {
        proof {
            assert(v@.take(i as int + 1) =~= v@.take(i as int) + seq![v@[i as int]]);
            lemma_utf8_len_add(v@.take(i as int), seq![v@[i as int]]);
            lemma_utf8_len_one(v@[i as int]);
            lemma_utf8_len_take_le(v@, i as int + 1);
        }
        acc = acc + char_utf8_len(v[i]);
        i = i + 1;
    }
    proof {
        assert(v@.take(v.len() as int) =~= v@);
    }
    acc
}

/// Byte length of a buffer of scalar values, refused when it would pass
/// the buffer limit.
pub fn utf8_len_checked(v: &Vec<char>) -> (r: Option<usize>)
    ensures
        match r {
            Some(n) => n == utf8_len(v@) && n <= MAX_TEXT_BYTES,
            None => utf8_len(v@) > MAX_TEXT_BYTES,
        },
{
    let mut acc: usize = 0;
    let mut i: usize = 0;
    while i < v.len()
        invariant
            i <= v.len(),
            acc == utf8_len(v@.take(i as int)),
            acc <= MAX_TEXT_BYTES,
        decreases v.len() - i,
    {
        proof {
            assert(v@.take(i as int + 1) =~= v@.take(i as int) + seq![v@[i as int]]);
            lemma_utf8_len_add(v@.take(i as int), seq![v@[i as int]]);
            lemma_utf8_len_one(v@[i as int]);
        }
        acc = acc + char_utf8_len(v[i]);
        if acc > MAX_TEXT_BYTES {
            proof {
                lemma_utf8_len_split(v@, i as int + 1);
                lemma_utf8_len_bounds(v@.skip(i as int + 1));
            }
            return None;
        }
        i = i + 1;
    }
    proof {
        assert(v@.take(v.len() as int) =~= v@);
    }
    Some(acc)
}

/// Relies on `String::push`: appends the given character to the end of
/// the string.
#[verifier::external_body]
pub fn push_char(s: &mut String, c: char)
    ensures
        final(s)@ == old(s)@.push(c),
{
    s.push(c);
}

/// Collect a buffer of scalar values into a `String`.
pub fn chars_to_string(v: &Vec<char>) -> (r: String)
    ensures
        r@ == v@,
{
    let mut r = String::new();
    let mut i: usize = 0;
    while i < v.len()
        invariant
            i <= v.len(),
            r@ == v@.take(i as int),
        decreases v.len() - i,
    {
        push_char(&mut r, v[i]);
        proof {
            assert(v@.take(i as int).push(v@[i as int]) =~= v@.take(i as int + 1));
        }
        i = i + 1;
    }
    proof {
        assert(v@.take(v.len() as int) =~= v@);
    }
    r
}

/// Collect the scalar values of a string slice into a buffer.
pub fn str_chars(s: &str) -> (r: Vec<char>)
    ensures
        r@ == s@,
{
    let n = s.unicode_len();
    let mut r: Vec<char> = Vec::new();
    let mut i: usize = 0;
    while i < n
        invariant
            n == s@.len(),
            i <= n,
            r@ == s@.take(i as int),
        decreases n - i,
    {
        r.push(s.get_char(i));
        proof {
            assert(s@.take(i as int).push(s@[i as int]) =~= s@.take(i as int + 1));
        }
        i = i + 1;
    }
    proof {
        assert(s@.take(n as int) =~= s@);
    }
    r
}

/// Plain element-wise copy of a character buffer.
pub fn copy_chars(v: &Vec<char>) -> (r: Vec<char>)
    ensures
        r@ == v@,
{
    let mut r: Vec<char> = Vec::new();
    let mut i: usize = 0;
    while i < v.len()
        invariant
            i <= v.len(),
            r@ == v@.take(i as int),
        decreases v.len() - i,
    {
        r.push(v[i]);
        proof {
            assert(v@.take(i as int).push(v@[i as int]) =~= v@.take(i as int + 1));
        }
        i = i + 1;
    }
    proof {
        assert(v@.take(v.len() as int) =~= v@);
    }
    r
}

} // verus!
