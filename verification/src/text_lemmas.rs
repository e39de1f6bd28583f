//! Facts about text that reading back what was written rests on.

use vstd::prelude::*;

verus! {

/// Whether a character is a decimal digit.
pub open spec fn is_digit(c: char) -> bool {
    0x30 <= c as u32 <= 0x39
}

/// A number is written with digits only, at least one.
pub proof fn lemma_dec_is_digits(n: nat)
    ensures
        crate::text::dec(n).len() >= 1,
        forall|i: int| 0 <= i < crate::text::dec(n).len() ==> is_digit(#[trigger] crate::text::dec(n)[i]),
    decreases n,
{
    if n >= 10 {
        lemma_dec_is_digits(n / 10);
    }
}

/// The digits of a number stand for the number.
pub proof fn lemma_dec_value(n: nat)
    ensures
        crate::text::digits_value(crate::text::dec(n), 10) == Some(n),
    decreases n,
{
    let s = crate::text::dec(n);
    if n >= 10 {
        lemma_dec_value(n / 10);
        assert(s.drop_last() =~= crate::text::dec(n / 10));
        assert(s.last() == crate::text::digit_char((n % 10) as int));
    } else {
        assert(s.drop_last() =~= Seq::<char>::empty());
        assert(crate::text::digits_value(Seq::<char>::empty(), 10) == Some(0nat));
        assert(s.last() == crate::text::digit_char(n as int));
    }
}

/// A number that is written in decimal is read back.
pub proof fn lemma_dec_reads_back(n: nat, max: nat)
    requires
        n <= max,
    ensures
        crate::text::unsigned_value(crate::text::dec(n), 10, max) == Some(n),
{
    lemma_dec_is_digits(n);
    lemma_dec_value(n);
    assert(is_digit(crate::text::dec(n)[0]));
}

/// Whether a text is free of white space.
pub open spec fn no_white(s: Seq<char>) -> bool {
    forall|i: int| 0 <= i < s.len() ==> !crate::text::is_white(#[trigger] s[i])
}

/// A text without white space is one word.
pub proof fn lemma_one_word(w: Seq<char>)
    requires
        w.len() > 0,
        no_white(w),
    ensures
        crate::text::words(w) == seq![w],
{
    lemma_word_len_all(w, Seq::empty());
    assert(w + Seq::<char>::empty() =~= w);
    assert(!crate::text::is_white(w[0]));
    assert(w.take(w.len() as int) =~= w);
    assert(w.skip(w.len() as int) =~= Seq::<char>::empty());
    assert(crate::text::words(Seq::<char>::empty()) =~= Seq::<Seq<char>>::empty());
    assert(crate::text::words(w) =~= seq![w]);
}

/// A word ends where white space or nothing follows.
proof fn lemma_word_len_all(w: Seq<char>, rest: Seq<char>)
    requires
        no_white(w),
        rest.len() == 0 || crate::text::is_white(rest[0]),
    ensures
        crate::text::word_len(w + rest) == w.len(),
    decreases w.len(),
{
    let s = w + rest;
    if w.len() > 0 {
        assert(!crate::text::is_white(w[0]));
        assert(s[0] == w[0]);
        assert forall|i: int| 0 <= i < w.skip(1).len() implies !crate::text::is_white(
            #[trigger] w.skip(1)[i],
        ) by {
            assert(w.skip(1)[i] == w[i + 1]);
        }
        lemma_word_len_all(w.skip(1), rest);
        assert(s.skip(1) =~= w.skip(1) + rest);
    } else {
        assert(s =~= rest);
    }
}

/// A word, a space and a rest: the word comes first, then the words of the
/// rest.
pub proof fn lemma_word_then_rest(w: Seq<char>, rest: Seq<char>)
    requires
        w.len() > 0,
        no_white(w),
    ensures
        crate::text::words(w + seq![' '] + rest) == seq![w] + crate::text::words(rest),
{
    let s = w + seq![' '] + rest;
    let tail = seq![' '] + rest;
    assert(s =~= w + tail);
    assert(crate::text::is_white(tail[0]));
    lemma_word_len_all(w, tail);
    assert(s[0] == w[0]);
    assert(!crate::text::is_white(w[0]));
    assert(s.take(w.len() as int) =~= w);
    assert(s.skip(w.len() as int) =~= tail);
    assert(tail.skip(1) =~= rest);
    assert(crate::text::words(tail) == crate::text::words(rest));
}

/// A key, the separator and a value are split there, unless the key holds the
/// separator.
pub proof fn lemma_key_value(k: Seq<char>, c: char, v: Seq<char>)
    requires
        forall|i: int| 0 <= i < k.len() ==> k[i] != c,
    ensures
        crate::text::split_once(k + seq![c] + v, c) == Some((k, v)),
{
    let s = k + seq![c] + v;
    lemma_find_behind(k, c, v);
    assert(s.take(k.len() as int) =~= k);
    assert(s.skip(k.len() as int + 1) =~= v);
}

proof fn lemma_find_behind(k: Seq<char>, c: char, v: Seq<char>)
    requires
        forall|i: int| 0 <= i < k.len() ==> k[i] != c,
    ensures
        crate::text::find_char(k + seq![c] + v, c) == k.len(),
    decreases k.len(),
{
    let s = k + seq![c] + v;
    if k.len() > 0 {
        assert(s[0] == k[0]);
        lemma_find_behind(k.skip(1), c, v);
        assert(s.skip(1) =~= k.skip(1) + seq![c] + v);
    }
}

/// A byte is written without white space or separators.
pub proof fn lemma_hex2_is_plain(b: u8)
    ensures
        crate::text::hex2(b).len() == 2,
        no_white(crate::text::hex2(b)),
{
}

} // verus!
