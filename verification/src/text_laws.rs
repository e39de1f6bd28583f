//! What writing and reading text means, stated character by character.

use vstd::prelude::*;

verus! {

/// The value of a character as a digit: the ten figures, then the letters in
/// either case; above all radices for anything else.
pub open spec fn figure(c: char) -> int {
    let u = c as u32;
    if 48 <= u <= 57 {
        u - 48
    } else if 97 <= u <= 122 {
        u - 87
    } else if 65 <= u <= 90 {
        u - 55
    } else {
        36
    }
}

/// A number below ten is written as its figure, any other as its tenth part
/// followed by the figure of the rest.
pub proof fn law_decimal_is_figure_by_figure(n: nat)
    ensures
        n < 10 ==> crate::text::dec(n).len() == 1 && crate::text::dec(n)[0] as u32 == 48 + n,
        n >= 10 ==> crate::text::dec(n).drop_last() == crate::text::dec(n / 10) && crate::text::dec(
            n,
        ).last() as u32 == 48 + n % 10,
        crate::text::dec(n).len() > 0,
{
    if n >= 10 {
        assert(crate::text::dec(n).drop_last() =~= crate::text::dec(n / 10));
    }
}

/// Signs: a minus before a negative number, and a plus before any other only
/// where a sign is always written.
pub proof fn law_signs_come_first(n: int)
    ensures
        n < 0 ==> crate::text::dec_signed(n) == seq!['-'] + crate::text::dec((-n) as nat),
        n >= 0 ==> crate::text::dec_signed(n) == crate::text::dec(n as nat),
        n < 0 ==> crate::text::dec_with_sign(n) == seq!['-'] + crate::text::dec((-n) as nat),
        n >= 0 ==> crate::text::dec_with_sign(n) == seq!['+'] + crate::text::dec(n as nat),
{
}

/// A byte is written as its two hexadecimal figures, in lower case.
pub proof fn law_hexadecimal_is_two_figures(b: u8)
    ensures
        crate::text::hex2(b).len() == 2,
        figure(crate::text::hex2(b)[0]) == b / 16,
        figure(crate::text::hex2(b)[1]) == b % 16,
        !(65 <= crate::text::hex2(b)[0] as u32 <= 90),
        !(65 <= crate::text::hex2(b)[1] as u32 <= 90),
{
}

/// Padding puts spaces in front until the width is reached, and cuts nothing.
pub proof fn law_padding_goes_in_front(s: Seq<char>, width: nat)
    ensures
        ({
            let p = crate::text::pad_left(s, width);
            &&& s.len() >= width ==> p == s
            &&& s.len() < width ==> {
                &&& p.len() == width
                &&& p.skip(width - s.len()) == s
                &&& forall|i: int| 0 <= i < width - s.len() ==> #[trigger] p[i] == ' '
            }
        }),
{
    if s.len() < width {
        assert(crate::text::pad_left(s, width).skip(width - s.len()) =~= s);
    }
}

proof fn lemma_figure(c: char, radix: nat)
    requires
        2 <= radix <= 36,
    ensures
        crate::text::digit_value(c, radix) == (if figure(c) < radix {
            Some(figure(c) as nat)
        } else {
            None
        }),
{
}

/// A text that is no number is none with a character more, and one of a single
/// character is a number exactly if that is a figure of the radix.
pub proof fn law_numbers_are_made_of_figures(s: Seq<char>, c: char, radix: nat, max: nat)
    requires
        2 <= radix <= 36,
    ensures
        crate::text::unsigned_value(Seq::empty(), radix, max) is None,
        crate::text::unsigned_value(seq!['+'], radix, max) is None,
        crate::text::unsigned_value(seq![c], radix, max) == (if figure(c) < radix && figure(c)
            <= max {
            Some(figure(c) as nat)
        } else {
            None
        }),
        figure(c) >= radix && s.len() > 0 ==> crate::text::unsigned_value(s.push(c), radix, max)
            is None,
        s.len() > 0 && s != seq!['+'] && (forall|m: nat|
            (#[trigger] crate::text::unsigned_value(s, radix, m)) is None)
            ==> crate::text::unsigned_value(s.push(c), radix, max) is None,
{
    lemma_figure(c, radix);
    lemma_figure('+', radix);
    let one = seq![c];
    assert(one.drop_last() =~= Seq::<char>::empty());
    assert(crate::text::digits_value(Seq::<char>::empty(), radix) == Some(0nat));
    assert(seq!['+'].skip(1) =~= Seq::<char>::empty());
    assert(one.skip(1) =~= Seq::<char>::empty());
    assert(radix * 0 == 0) by (nonlinear_arith);
    assert(crate::text::digits_value(one, radix) == crate::text::digit_value(c, radix));
    if s.len() > 0 {
        let longer = s.push(c);
        let digits = crate::text::without_plus(longer);
        let before = crate::text::without_plus(s);
        assert(digits =~= before.push(c)) by {
            if s[0] == '+' {
                assert(longer.skip(1) =~= s.skip(1).push(c));
            }
        }
        assert(digits.drop_last() =~= before);
        assert(digits.last() == c);
        if s != seq!['+'] && (forall|m: nat|
            (#[trigger] crate::text::unsigned_value(s, radix, m)) is None) {
            if before.len() == 0 {
                assert(s =~= seq!['+']);
            }
            if let Some(v) = crate::text::digits_value(before, radix) {
                assert(crate::text::unsigned_value(s, radix, v) == Some(v));
            }
        }
    }
}

/// One more figure multiplies a number by the radix and adds itself, unless the
/// result is above the maximum.
pub proof fn law_one_more_figure(s: Seq<char>, c: char, radix: nat, max: nat, v: nat)
    requires
        2 <= radix <= 36,
        crate::text::unsigned_value(s, radix, v) == Some(v),
        figure(c) < radix,
    ensures
        crate::text::unsigned_value(s.push(c), radix, max) == (if radix * v + figure(c) <= max {
            Some((radix * v + figure(c)) as nat)
        } else {
            None
        }),
{
    lemma_figure(c, radix);
    let longer = s.push(c);
    let digits = crate::text::without_plus(longer);
    let before = crate::text::without_plus(s);
    assert(s.len() > 0);
    assert(digits =~= before.push(c)) by {
        if s[0] == '+' {
            assert(longer.skip(1) =~= s.skip(1).push(c));
        }
    }
    assert(digits.drop_last() =~= before);
    assert(digits.last() == c);
}

/// The maximum only refuses: below it a number is what it is under any other.
pub proof fn law_maximum_only_refuses(s: Seq<char>, radix: nat, max: nat, v: nat)
    ensures
        crate::text::unsigned_value(s, radix, max) == Some(v) ==> v <= max
            && crate::text::unsigned_value(s, radix, v) == Some(v),
        crate::text::unsigned_value(s, radix, v) == Some(v) && v > max
            ==> crate::text::unsigned_value(s, radix, max) is None,
        crate::text::unsigned_value(s, radix, v) == Some(v) && v <= max
            ==> crate::text::unsigned_value(s, radix, max) == Some(v),
{
}

/// One plus sign may come before the figures.
pub proof fn law_one_plus_sign_may_lead(s: Seq<char>, radix: nat, max: nat)
    requires
        2 <= radix <= 36,
    ensures
        s.len() > 0 && s[0] != '+' ==> crate::text::unsigned_value(seq!['+'] + s, radix, max)
            == crate::text::unsigned_value(s, radix, max),
        s.len() > 0 && s[0] == '+' ==> crate::text::unsigned_value(seq!['+'] + s, radix, max)
            is None,
{
    let t = seq!['+'] + s;
    assert(t.skip(1) =~= s);
    if s.len() > 0 && s[0] == '+' {
        lemma_bad_first(s, radix);
    }
}

proof fn lemma_bad_first(s: Seq<char>, radix: nat)
    requires
        2 <= radix <= 36,
        s.len() > 0,
        s[0] == '+',
    ensures
        crate::text::digits_value(s, radix) is None,
    decreases s.len(),
{
    lemma_figure('+', radix);
    if s.len() > 1 {
        lemma_bad_first(s.drop_last(), radix);
    } else {
        assert(s.last() == '+');
    }
}

/// A text is taken apart at the first separator, and not at all without one.
pub proof fn law_first_separator_splits(k: Seq<char>, c: char, v: Seq<char>)
    requires
        forall|i: int| 0 <= i < k.len() ==> k[i] != c,
    ensures
        crate::text::split_once(k + seq![c] + v, c) == Some((k, v)),
        crate::text::split_once(k, c) is None,
{
    crate::text_lemmas::lemma_key_value(k, c, v);
    lemma_absent(k, c);
}

proof fn lemma_absent(k: Seq<char>, c: char)
    requires
        forall|i: int| 0 <= i < k.len() ==> k[i] != c,
    ensures
        crate::text::find_char(k, c) == k.len(),
    decreases k.len(),
{
    if k.len() > 0 {
        lemma_absent(k.skip(1), c);
    }
}

/// The pieces of a text are what stands before each separator and behind the
/// last.
pub proof fn law_separators_part_the_pieces(k: Seq<char>, c: char, rest: Seq<char>)
    requires
        forall|i: int| 0 <= i < k.len() ==> k[i] != c,
    ensures
        crate::text::split_on(k, c) == seq![k],
        crate::text::split_on(k + seq![c] + rest, c) == seq![k] + crate::text::split_on(rest, c),
{
    lemma_absent(k, c);
    law_first_separator_splits(k, c, rest);
    let s = k + seq![c] + rest;
    let i = crate::text::find_char(s, c) as int;
    assert(crate::text::split_once(s, c) == Some((k, rest)));
    assert(i < s.len());
    assert(s.take(i) == k && s.skip(i + 1) == rest);
}

proof fn lemma_word_end(w: Seq<char>, rest: Seq<char>)
    requires
        crate::text_lemmas::no_white(w),
        rest.len() == 0 || crate::text::is_white(rest[0]),
    ensures
        crate::text::word_len(w + rest) == w.len(),
    decreases w.len(),
{
    let s = w + rest;
    if w.len() > 0 {
        assert(!crate::text::is_white(w[0]));
        assert(s[0] == w[0]);
        assert forall|i: int| 0 <= i < w.skip(1).len() implies !crate::text::is_white(
            #[trigger] w.skip(1)[i],
        ) by {
            assert(w.skip(1)[i] == w[i + 1]);
        }
        lemma_word_end(w.skip(1), rest);
        assert(s.skip(1) =~= w.skip(1) + rest);
    } else {
        assert(s =~= rest);
    }
}

/// Words are what white space parts: white space in front is passed over, a run
/// without white space up to the next white space is one word, and nothing is
/// lost.
pub proof fn law_white_space_parts_the_words(w: Seq<char>, space: char, rest: Seq<char>)
    requires
        crate::text::is_white(space),
        forall|i: int| 0 <= i < w.len() ==> !crate::text::is_white(#[trigger] w[i]),
    ensures
        crate::text::words(Seq::empty()) == Seq::<Seq<char>>::empty(),
        crate::text::words(seq![space] + rest) == crate::text::words(rest),
        w.len() > 0 ==> crate::text::words(w) == seq![w],
        w.len() > 0 ==> crate::text::words(w + seq![space] + rest) == seq![w]
            + crate::text::words(rest),
{
    let tail = seq![space] + rest;
    assert(tail[0] == space);
    assert(tail.skip(1) =~= rest);
    if w.len() > 0 {
        crate::text_lemmas::lemma_one_word(w);
        let s = w + seq![space] + rest;
        assert(s =~= w + tail);
        lemma_word_end(w, tail);
        assert(s[0] == w[0] && !crate::text::is_white(w[0]));
        assert(s.take(w.len() as int) =~= w);
        assert(s.skip(w.len() as int) =~= tail);
    }
}

proof fn lemma_word_ends_at_space(front: Seq<char>, tail: Seq<char>)
    requires
        tail.len() > 0,
        crate::text::is_white(tail[0]),
    ensures
        crate::text::word_len(front + tail) == crate::text::word_len(front),
    decreases front.len(),
{
    let s = front + tail;
    if front.len() > 0 {
        assert(s[0] == front[0]);
        assert(s.skip(1) =~= front.skip(1) + tail);
        lemma_word_ends_at_space(front.skip(1), tail);
    } else {
        assert(s =~= tail);
    }
}

proof fn lemma_words_before_space(front: Seq<char>, space: char, rest: Seq<char>)
    requires
        crate::text::is_white(space),
    ensures
        crate::text::words(front + seq![space] + rest) == crate::text::words(front)
            + crate::text::words(rest),
    decreases front.len(),
{
    let tail = seq![space] + rest;
    let s = front + seq![space] + rest;
    assert(s =~= front + tail);
    law_white_space_parts_the_words(Seq::empty(), space, rest);
    if front.len() == 0 {
        assert(s =~= tail);
        assert(front =~= Seq::<char>::empty());
        assert(crate::text::words(s) =~= crate::text::words(front) + crate::text::words(rest));
    } else if crate::text::is_white(front[0]) {
        assert(s[0] == front[0]);
        assert(s.skip(1) =~= front.skip(1) + seq![space] + rest);
        lemma_words_before_space(front.skip(1), space, rest);
    } else {
        let n = crate::text::word_len(front) as int;
        assert(s[0] == front[0]);
        assert(tail[0] == space);
        lemma_word_ends_at_space(front, tail);
        lemma_word_len_fits(front);
        assert(s.take(n) =~= front.take(n));
        assert(s.skip(n) =~= front.skip(n) + seq![space] + rest);
        lemma_words_before_space(front.skip(n), space, rest);
        assert(crate::text::words(s) =~= crate::text::words(front) + crate::text::words(rest));
    }
}

proof fn lemma_word_len_fits(s: Seq<char>)
    ensures
        crate::text::word_len(s) <= s.len(),
        s.len() > 0 && !crate::text::is_white(s[0]) ==> crate::text::word_len(s) > 0,
    decreases s.len(),
{
    if s.len() > 0 {
        lemma_word_len_fits(s.skip(1));
    }
}

/// White space parts the words in front of it from those behind it; so a word
/// behind a space comes last, and white space at the end does not matter.
pub proof fn law_words_on_both_sides(front: Seq<char>, space: char, rest: Seq<char>)
    requires
        crate::text::is_white(space),
    ensures
        crate::text::words(front + seq![space] + rest) == crate::text::words(front)
            + crate::text::words(rest),
        crate::text::words(front + seq![space]) == crate::text::words(front),
{
    lemma_words_before_space(front, space, rest);
    lemma_words_before_space(front, space, Seq::empty());
    assert(front + seq![space] + Seq::<char>::empty() =~= front + seq![space]);
    assert(crate::text::words(front) + crate::text::words(Seq::empty()) =~= crate::text::words(
        front,
    ));
}

/// A key and its value behind a space are one word, the last.
pub proof fn law_last_word(front: Seq<char>, key: Seq<char>, value: Seq<char>)
    requires
        key.len() > 0,
        forall|i: int| 0 <= i < key.len() ==> !crate::text::is_white(#[trigger] key[i]),
        forall|i: int| 0 <= i < value.len() ==> !crate::text::is_white(#[trigger] value[i]),
    ensures
        crate::text::words(front + seq![' '] + (key + value)) == crate::text::words(front).push(
            key + value,
        ),
{
    let w = key + value;
    assert forall|i: int| 0 <= i < w.len() implies !crate::text::is_white(#[trigger] w[i]) by {
        if i < key.len() {
            assert(w[i] == key[i]);
        } else {
            assert(w[i] == value[i - key.len()]);
        }
    }
    crate::text_lemmas::lemma_one_word(w);
    law_words_on_both_sides(front, ' ', w);
    assert(crate::text::words(front) + seq![w] =~= crate::text::words(front).push(w));
}

} // verus!
