//! Text: numbers written and read, words split at white space.

use vstd::prelude::*;

verus! {

/// `String::push` appends one character.
pub assume_specification[ String::push ](s: &mut String, c: char)
    ensures
        final(s)@ == old(s)@.push(c),
;

/// The digit character for `d`, lower case above nine.
pub open spec fn digit_char(d: int) -> char {
    if d < 10 {
        (48 + d) as char
    } else {
        (87 + d) as char
    }
}

/// A number in decimal, without leading zeros.
pub open spec fn dec(n: nat) -> Seq<char>
    decreases n,
{
    if n < 10 {
        seq![digit_char(n as int)]
    } else {
        dec(n / 10).push(digit_char((n % 10) as int))
    }
}

/// A signed number in decimal, with a sign only when negative.
pub open spec fn dec_signed(n: int) -> Seq<char> {
    if n < 0 {
        seq!['-'] + dec((-n) as nat)
    } else {
        dec(n as nat)
    }
}

/// A signed number in decimal, always with a sign.
pub open spec fn dec_with_sign(n: int) -> Seq<char> {
    if n < 0 {
        seq!['-'] + dec((-n) as nat)
    } else {
        seq!['+'] + dec(n as nat)
    }
}

/// A byte as two hexadecimal digits.
pub open spec fn hex2(b: u8) -> Seq<char> {
    seq![digit_char(b as int / 16), digit_char(b as int % 16)]
}

/// `s` moved to the right end of a field of at least `width`.
pub open spec fn pad_left(s: Seq<char>, width: nat) -> Seq<char> {
    if s.len() >= width {
        s
    } else {
        Seq::new((width - s.len()) as nat, |i: int| ' ') + s
    }
}

/// The digit character for `d`.
pub fn digit(d: u8) -> (c: char)
    requires
        d < 16,
    ensures
        c == digit_char(d as int),
{
    if d < 10 {
        (48u8 + d) as char
    } else {
        (87u8 + d) as char
    }
}

/// Appends a number in decimal.
pub fn push_dec(out: &mut String, n: u128)
    ensures
        final(out)@ == old(out)@ + dec(n as nat),
    decreases n,
{
    if n >= 10 {
        push_dec(out, n / 10);
    }
    out.push(digit((n % 10) as u8));
    assert(out@ =~= old(out)@ + dec(n as nat));
}

/// Appends a signed number in decimal, with a sign only when negative.
pub fn push_dec_signed(out: &mut String, n: i64)
    ensures
        final(out)@ == old(out)@ + dec_signed(n as int),
{
    if n < 0 {
        out.push('-');
        push_dec(out, (-(n as i128)) as u128);
        assert(out@ =~= old(out)@ + dec_signed(n as int));
    } else {
        push_dec(out, n as u128);
    }
}

/// Appends a byte as two hexadecimal digits.
pub fn push_hex2(out: &mut String, b: u8)
    ensures
        final(out)@ == old(out)@ + hex2(b),
{
    out.push(digit(b / 16));
    out.push(digit(b % 16));
    assert(out@ =~= old(out)@ + hex2(b));
}

/// How many digits a number has.
fn dec_len(n: u128) -> (len: usize)
    ensures
        len == dec(n as nat).len(),
        len <= 39,
{
    let mut rest: u128 = n;
    let mut len: usize = 1;
    proof {
        lemma_pow10();
        lemma_dec_len(n as nat, 39);
    }
    while rest >= 10
        invariant
            len >= 1,
            len - 1 + dec(rest as nat).len() == dec(n as nat).len(),
            dec(n as nat).len() <= 39,
        decreases rest,
    {
        rest = rest / 10;
        len = len + 1;
    }
    len
}

spec fn pow10(k: nat) -> nat
    decreases k,
{
    if k == 0 {
        1
    } else {
        10 * pow10((k - 1) as nat)
    }
}

proof fn lemma_pow10()
    ensures
        pow10(39) == 1_000_000_000_000_000_000_000_000_000_000_000_000_000nat,
{
    reveal_with_fuel(pow10, 40);
}

proof fn lemma_dec_len(n: nat, k: nat)
    requires
        k >= 1,
        n < pow10(k),
    ensures
        dec(n).len() <= k,
    decreases k,
{
    if n >= 10 {
        assert(k > 1) by {
            if k == 1 {
                reveal_with_fuel(pow10, 2);
            }
        }
        lemma_dec_len(n / 10, (k - 1) as nat);
    }
}

/// Appends `k` spaces.
fn push_spaces(out: &mut String, k: usize)
    ensures
        final(out)@ == old(out)@ + Seq::new(k as nat, |i: int| ' '),
{
    let mut i: usize = 0;
    assert(out@ =~= old(out)@ + Seq::new(0, |i: int| ' '));
    while i < k
        invariant
            i <= k,
            out@ == old(out)@ + Seq::new(i as nat, |i: int| ' '),
        decreases k - i,
    {
        out.push(' ');
        i = i + 1;
        assert(out@ =~= old(out)@ + Seq::new(i as nat, |i: int| ' '));
    }
}

/// Appends a number in decimal, right-aligned in a field.
pub fn push_dec_padded(out: &mut String, n: u128, width: usize)
    ensures
        final(out)@ == old(out)@ + pad_left(dec(n as nat), width as nat),
{
    let len: usize = dec_len(n);
    if len < width {
        push_spaces(out, width - len);
    }
    push_dec(out, n);
    assert(out@ =~= old(out)@ + pad_left(dec(n as nat), width as nat));
}

/// Appends a signed number in decimal, always with a sign, right-aligned in a
/// field.
pub fn push_signed_padded(out: &mut String, n: i64, width: usize)
    ensures
        final(out)@ == old(out)@ + pad_left(dec_with_sign(n as int), width as nat),
{
    let negative: bool = n < 0;
    let magnitude: u128 = if negative {
        (-(n as i128)) as u128
    } else {
        n as u128
    };
    let len: usize = dec_len(magnitude) + 1;
    if len < width {
        push_spaces(out, width - len);
    }
    out.push(if negative {
        '-'
    } else {
        '+'
    });
    push_dec(out, magnitude);
    assert(out@ =~= old(out)@ + pad_left(dec_with_sign(n as int), width as nat));
}

/// Whether a character has Unicode's `White_Space` property.
pub open spec fn is_white(c: char) -> bool {
    let u = c as u32;
    ||| 0x09 <= u <= 0x0d
    ||| u == 0x20
    ||| u == 0x85
    ||| u == 0xa0
    ||| u == 0x1680
    ||| 0x2000 <= u <= 0x200a
    ||| u == 0x2028
    ||| u == 0x2029
    ||| u == 0x202f
    ||| u == 0x205f
    ||| u == 0x3000
}

/// Length of the word at the start of a text.
pub open spec fn word_len(s: Seq<char>) -> nat
    decreases s.len(),
{
    if s.len() == 0 || is_white(s[0]) {
        0
    } else {
        1 + word_len(s.skip(1))
    }
}

/// The words of a text: its longest runs without white space, in order.
pub open spec fn words(s: Seq<char>) -> Seq<Seq<char>>
    decreases s.len(),
{
    if s.len() == 0 {
        Seq::empty()
    } else if is_white(s[0]) {
        words(s.skip(1))
    } else {
        proof {
            lemma_word_len_at_most(s);
        }
        seq![s.take(word_len(s) as int)] + words(s.skip(word_len(s) as int))
    }
}

/// Position of the first `c` in a text, or its length if there is none.
pub open spec fn find_char(s: Seq<char>, c: char) -> nat
    decreases s.len(),
{
    if s.len() == 0 || s[0] == c {
        0
    } else {
        1 + find_char(s.skip(1), c)
    }
}

/// The parts of a text before and after its first `c`.
pub open spec fn split_once(s: Seq<char>, c: char) -> Option<(Seq<char>, Seq<char>)> {
    let i = find_char(s, c) as int;
    if i >= s.len() {
        None
    } else {
        Some((s.take(i), s.skip(i + 1)))
    }
}

/// The pieces of a text between the `c`s in it; at least one.
pub open spec fn split_on(s: Seq<char>, c: char) -> Seq<Seq<char>>
    decreases s.len(),
{
    let i = find_char(s, c) as int;
    if i >= s.len() {
        seq![s]
    } else {
        seq![s.take(i)] + split_on(s.skip(i + 1), c)
    }
}

/// The value of a digit below `radix`.
pub open spec fn digit_value(c: char, radix: nat) -> Option<nat> {
    let u = c as u32;
    let v: int = if 0x30 <= u <= 0x39 {
        u - 0x30
    } else if 0x61 <= u <= 0x7a {
        u - 0x61 + 10
    } else if 0x41 <= u <= 0x5a {
        u - 0x41 + 10
    } else {
        radix as int
    };
    if v < radix {
        Some(v as nat)
    } else {
        None
    }
}

/// The number that a run of digits stands for.
pub open spec fn digits_value(s: Seq<char>, radix: nat) -> Option<nat>
    decreases s.len(),
{
    if s.len() == 0 {
        Some(0)
    } else {
        match (digits_value(s.drop_last(), radix), digit_value(s.last(), radix)) {
            (Some(v), Some(d)) => Some(radix * v + d),
            _ => None,
        }
    }
}

/// The digits of a number, behind an optional plus sign.
pub open spec fn without_plus(s: Seq<char>) -> Seq<char> {
    if s.len() > 0 && s[0] == '+' {
        s.skip(1)
    } else {
        s
    }
}

/// An unsigned number of at most `max`: an optional plus sign and at least one
/// digit.
pub open spec fn unsigned_value(s: Seq<char>, radix: nat, max: nat) -> Option<nat> {
    let digits = without_plus(s);
    if digits.len() == 0 {
        None
    } else {
        match digits_value(digits, radix) {
            Some(v) => if v <= max {
                Some(v)
            } else {
                None
            },
            None => None,
        }
    }
}

/// The characters of a string.
pub fn chars_of(s: &str) -> (r: Vec<char>)
    ensures
        r@ == s@,
{
    let mut r: Vec<char> = Vec::new();
    for c in it: s.chars()
        invariant
            r@ == s@.take(it.index() as int),
            it.seq() == s@,
    {
        r.push(c);
    }
    r
}

/// The string with these characters.
pub fn string_of(text: &[char]) -> (s: String)
    ensures
        s@ == text@,
{
    let mut s: String = String::new();
    let mut i: usize = 0;
    while i < text.len()
        invariant
            i <= text@.len(),
            s@ == text@.take(i as int),
        decreases text@.len() - i,
    {
        s.push(text[i]);
        i = i + 1;
        assert(s@ =~= text@.take(i as int));
    }
    assert(text@.take(i as int) =~= text@);
    s
}

/// Whether a character is white space.
pub fn white(c: char) -> (b: bool)
    ensures
        b == is_white(c),
{
    let u: u32 = c as u32;
    (0x09 <= u && u <= 0x0d) || u == 0x20 || u == 0x85 || u == 0xa0 || u == 0x1680 || (0x2000 <= u
        && u <= 0x200a) || u == 0x2028 || u == 0x2029 || u == 0x202f || u == 0x205f || u == 0x3000
}

/// Whether a text is the given one.
pub fn text_is(text: &[char], literal: &str) -> (b: bool)
    ensures
        b == (text@ == literal@),
{
    let other: Vec<char> = chars_of(literal);
    if text.len() != other.len() {
        return false;
    }
    let mut i: usize = 0;
    while i < other.len()
        invariant
            text@.len() == other@.len(),
            other@ == literal@,
            i <= other@.len(),
            forall|k: int| 0 <= k < i ==> text@[k] == other@[k],
        decreases other@.len() - i,
    {
        if text[i] != other[i] {
            return false;
        }
        i = i + 1;
    }
    assert(text@ =~= literal@);
    true
}

/// Whether a text begins with the given one.
pub fn starts_with(text: &[char], literal: &str) -> (b: bool)
    ensures
        b == literal@.is_prefix_of(text@),
{
    let other: Vec<char> = chars_of(literal);
    if text.len() < other.len() {
        return false;
    }
    let mut i: usize = 0;
    while i < other.len()
        invariant
            text@.len() >= other@.len(),
            other@ == literal@,
            i <= other@.len(),
            forall|k: int| 0 <= k < i ==> text@[k] == other@[k],
        decreases other@.len() - i,
    {
        if text[i] != other[i] {
            return false;
        }
        i = i + 1;
    }
    true
}

proof fn lemma_word_len(s: Seq<char>, i: int)
    requires
        0 <= i <= s.len(),
        forall|k: int| 0 <= k < i ==> !is_white(#[trigger] s[k]),
    ensures
        word_len(s) == i + word_len(s.skip(i)),
    decreases i,
{
    if i > 0 {
        assert(!is_white(s[0]));
        assert forall|k: int| 0 <= k < i - 1 implies !is_white(#[trigger] s.skip(1)[k]) by {
            assert(s.skip(1)[k] == s[k + 1]);
        }
        lemma_word_len(s.skip(1), i - 1);
        assert(s.skip(1).skip(i - 1) =~= s.skip(i));
    } else {
        assert(s.skip(0) =~= s);
    }
}

/// A word is no longer than the text that it begins.
pub proof fn lemma_word_len_at_most(s: Seq<char>)
    ensures
        word_len(s) <= s.len(),
    decreases s.len(),
{
    if s.len() > 0 && !is_white(s[0]) {
        lemma_word_len_at_most(s.skip(1));
    }
}

/// Where the word that begins at the start of `text` ends.
pub fn word_end(text: &[char]) -> (n: usize)
    ensures
        n == word_len(text@),
        n <= text@.len(),
{
    let len: usize = text.len();
    let mut n: usize = 0;
    while n < len && !white(text[n])
        invariant
            len == text@.len(),
            n <= len,
            forall|k: int| 0 <= k < n ==> !is_white(#[trigger] text@[k]),
        decreases len - n,
    {
        n = n + 1;
    }
    proof {
        lemma_word_len(text@, n as int);
    }
    n
}

proof fn lemma_find_char(s: Seq<char>, c: char, i: int)
    requires
        0 <= i <= s.len(),
        forall|k: int| 0 <= k < i ==> s[k] != c,
    ensures
        find_char(s, c) == i + find_char(s.skip(i), c),
    decreases i,
{
    if i > 0 {
        assert(s[0] != c);
        lemma_find_char(s.skip(1), c, i - 1);
        assert(s.skip(1).skip(i - 1) =~= s.skip(i));
    } else {
        assert(s.skip(0) =~= s);
    }
}

/// Where the first `c` stands, or the length if there is none.
pub fn position_of(text: &[char], c: char) -> (n: usize)
    ensures
        n == find_char(text@, c),
        n <= text@.len(),
{
    let len: usize = text.len();
    let mut n: usize = 0;
    while n < len && text[n] != c
        invariant
            len == text@.len(),
            n <= len,
            forall|k: int| 0 <= k < n ==> text@[k] != c,
        decreases len - n,
    {
        n = n + 1;
    }
    proof {
        lemma_find_char(text@, c, n as int);
    }
    n
}

/// The digit value of a character, if it is a digit below `radix`.
fn digit_of(c: char, radix: u8) -> (r: Option<u8>)
    requires
        radix <= 36,
    ensures
        match r {
            Some(d) => digit_value(c, radix as nat) == Some(d as nat),
            None => digit_value(c, radix as nat) is None,
        },
{
    let u: u32 = c as u32;
    let v: u8 = if 0x30 <= u && u <= 0x39 {
        (u - 0x30) as u8
    } else if 0x61 <= u && u <= 0x7a {
        (u - 0x61 + 10) as u8
    } else if 0x41 <= u && u <= 0x5a {
        (u - 0x41 + 10) as u8
    } else {
        radix
    };
    if v < radix {
        Some(v)
    } else {
        None
    }
}

/// What a prefix already rules out stays ruled out.
proof fn lemma_digits_prefix(s: Seq<char>, i: int, radix: nat)
    requires
        0 <= i <= s.len(),
        radix >= 1,
    ensures
        digits_value(s.take(i), radix) is None ==> digits_value(s, radix) is None,
        digits_value(s.take(i), radix) is Some && digits_value(s, radix) is Some ==> digits_value(
            s,
            radix,
        )->0 >= digits_value(s.take(i), radix)->0,
    decreases s.len() - i,
{
    if i < s.len() {
        lemma_digits_prefix(s, i + 1, radix);
        let t = s.take(i + 1);
        assert(t.drop_last() =~= s.take(i));
        if digits_value(t, radix) is Some {
            let v = digits_value(s.take(i), radix)->0;
            assert(radix * v >= v) by (nonlinear_arith)
                requires
                    radix >= 1,
                    v >= 0,
            ;
        }
    } else {
        assert(s.take(i) =~= s);
    }
}

/// Reads an unsigned number of at most `max`: an optional plus sign and at
/// least one digit, nothing else.
pub fn parse_unsigned(text: &[char], radix: u8, max: u128) -> (r: Option<u128>)
    requires
        2 <= radix <= 36,
    ensures
        match r {
            Some(v) => unsigned_value(text@, radix as nat, max as nat) == Some(v as nat),
            None => unsigned_value(text@, radix as nat, max as nat) is None,
        },
{
    let len: usize = text.len();
    let start: usize = if len > 0 && text[0] == '+' {
        1
    } else {
        0
    };
    let ghost digits = without_plus(text@);
    assert(digits =~= text@.skip(start as int));
    if start == len {
        return None;
    }
    let mut v: u128 = 0;
    let mut i: usize = start;
    assert(digits.take(0) =~= Seq::<char>::empty());
    while i < len
        invariant
            2 <= radix <= 36,
            start <= i <= len,
            start < len,
            len == text@.len(),
            digits == text@.skip(start as int),
            digits == without_plus(text@),
            digits_value(digits.take(i - start), radix as nat) == Some(v as nat),
            v <= max,
        decreases len - i,
    {
        let ghost next = digits.take(i + 1 - start);
        proof {
            assert(next.drop_last() =~= digits.take(i - start));
            assert(next.last() == text@[i as int]);
            lemma_digits_prefix(digits, i + 1 - start, radix as nat);
        }
        let d: u8 = match digit_of(text[i], radix) {
            Some(d) => d,
            None => return None,
        };
        let shifted: u128 = match v.checked_mul(radix as u128) {
            Some(p) => p,
            None => {
                assert(radix as nat * v as nat > u128::MAX) by (nonlinear_arith)
                    requires
                        v * radix > u128::MAX,
                ;
                return None;
            },
        };
        assert(shifted == radix as nat * v as nat) by (nonlinear_arith)
            requires
                shifted == v * radix,
        ;
        v = match shifted.checked_add(d as u128) {
            Some(t) => t,
            None => return None,
        };
        if v > max {
            return None;
        }
        i = i + 1;
    }
    assert(digits.take(len - start) =~= digits);
    Some(v)
}

/// The ranges of the pieces of a text between the `c`s in it.
pub fn split_ranges(text: &[char], c: char) -> (r: Vec<(usize, usize)>)
    ensures
        r@.len() == split_on(text@, c).len(),
        forall|i: int|
            0 <= i < r@.len() ==> {
                &&& (#[trigger] r@[i]).0 <= r@[i].1 <= text@.len()
                &&& text@.subrange(r@[i].0 as int, r@[i].1 as int) == split_on(text@, c)[i]
            },
{
    let len: usize = text.len();
    let mut r: Vec<(usize, usize)> = Vec::new();
    let mut at: usize = 0;
    let ghost all = split_on(text@, c);
    assert(text@.skip(0) =~= text@);
    assert(all.skip(0) =~= all);
    loop
        invariant
            len == text@.len(),
            at <= len,
            all == split_on(text@, c),
            r@.len() <= all.len(),
            all.skip(r@.len() as int) == split_on(text@.skip(at as int), c),
            forall|i: int|
                0 <= i < r@.len() ==> {
                    &&& (#[trigger] r@[i]).0 <= r@[i].1 <= text@.len()
                    &&& text@.subrange(r@[i].0 as int, r@[i].1 as int) == all[i]
                },
        decreases len - at,
    {
        let rest: &[char] = vstd::slice::slice_subrange(text, at, len);
        assert(rest@ =~= text@.skip(at as int));
        let n: usize = position_of(rest, c);
        let ghost left = all.skip(r@.len() as int);
        assert(split_on(rest@, c).len() >= 1);
        assert(left[0] == all[r@.len() as int]);
        if n == rest.len() {
            assert(left.len() == 1);
            assert(text@.subrange(at as int, len as int) =~= rest@);
            r.push((at, len));
            return r;
        }
        assert(text@.subrange(at as int, at + n) =~= rest@.take(n as int));
        assert(rest@.skip(n + 1) =~= text@.skip(at + n + 1));
        assert(all.skip(r@.len() as int + 1) =~= left.skip(1));
        assert(left.skip(1) =~= split_on(rest@.skip(n + 1), c));
        r.push((at, at + n));
        at = at + n + 1;
    }
}

} // verus!
