//! Characters, lines and numbers: what the descriptor's grammar is made of.

use vstd::prelude::*;
use vstd::slice::slice_subrange;
use vstd::utf8::{decode_utf8, valid_utf8};

verus! {

/// The characters of `s`, one element each.
pub fn chars_of(s: &str) -> (v: Vec<char>)
    ensures
        v@ == s@,
{
    let mut v: Vec<char> = Vec::new();
    for c in it: s.chars()
        invariant
            v@ == s@.take(it.index() as int),
            it.seq() == s@,
    {
        v.push(c);
    }
    v
}

/// `String::from_iter` of std, on a slice of characters: the string made of
/// these characters in this order.
#[verifier::external_body]
pub(crate) fn string_of(chars: &[char]) -> (s: String)
    ensures
        s@ == chars@,
{
    String::from_iter(chars)
}

/// `core::str::from_utf8` of std: the text that `bytes` encode, and `None`
/// exactly when they are not well-formed UTF-8.
#[verifier::external_body]
pub(crate) fn text_of_utf8<'a>(bytes: &'a [u8]) -> (r: Option<&'a str>)
    ensures
        r is Some <==> valid_utf8(bytes@),
        r matches Some(s) ==> s@ == decode_utf8(bytes@),
{
    match core::str::from_utf8(bytes) {
        Ok(s) => Some(s),
        Err(_) => None,
    }
}

/// What follows `prefix` in `s`, or `None` when `s` does not start with it.
pub fn strip_prefix<'a>(s: &'a [char], prefix: &str) -> (r: Option<&'a [char]>)
    ensures
        prefix@.is_prefix_of(s@) ==> r is Some && r.unwrap()@ == s@.skip(prefix@.len() as int),
        !prefix@.is_prefix_of(s@) ==> r is None,
{
    let p = chars_of(prefix);
    if s.len() < p.len() {
        return None;
    }
    let mut i: usize = 0;
    while i < p.len()
        invariant
            i <= p.len() <= s.len(),
            p@ == prefix@,
            forall|j: int| 0 <= j < i ==> s@[j] == p@[j],
        decreases p.len() - i,
    {
        if s[i] != p[i] {
            assert(s@.subrange(0, p@.len() as int)[i as int] != p@[i as int]);
            return None;
        }
        i = i + 1;
    }
    assert(p@ =~= s@.subrange(0, p@.len() as int));
    Some(slice_subrange(s, p.len(), s.len()))
}

/// Whether `s` starts with `prefix`.
pub fn starts_with(s: &[char], prefix: &str) -> (b: bool)
    ensures
        b == prefix@.is_prefix_of(s@),
{
    strip_prefix(s, prefix).is_some()
}

/// Whether `s` is `literal`, character for character.
pub fn equals(s: &[char], literal: &str) -> (b: bool)
    ensures
        b == (s@ == literal@),
{
    match strip_prefix(s, literal) {
        Some(rest) => {
            proof {
                if rest@.len() == 0 {
                    assert(s@ =~= literal@);
                }
            }
            rest.len() == 0
        },
        None => false,
    }
}

/// The text cut at each line feed. A text without one is a single line, and
/// a text that ends in one has an empty last line.
pub open spec fn lines_of(s: Seq<char>) -> Seq<Seq<char>>
    decreases s.len(),
{
    if s.len() == 0 {
        seq![Seq::<char>::empty()]
    } else {
        let before = lines_of(s.drop_last());
        if s.last() == '\n' {
            before.push(Seq::<char>::empty())
        } else {
            before.drop_last().push(before.last().push(s.last()))
        }
    }
}

/// A text without a line feed is one line.
pub proof fn lemma_lines_of_one(s: Seq<char>)
    requires
        forall|i: int| 0 <= i < s.len() ==> s[i] != '\n',
    ensures
        lines_of(s) == seq![s],
    decreases s.len(),
{
    if s.len() > 0 {
        lemma_lines_of_one(s.drop_last());
        assert(seq![s.drop_last()].drop_last().push(s.drop_last().push(s.last())) =~= seq![s]) by {
            assert(s.drop_last().push(s.last()) =~= s);
        }
    } else {
        assert(lines_of(s) =~= seq![s]) by {
            assert(s =~= Seq::<char>::empty());
        }
    }
}

/// A line feed parts the lines before it from the lines behind it.
pub proof fn lemma_lines_of_feed(a: Seq<char>, b: Seq<char>)
    ensures
        lines_of(a + seq!['\n'] + b) == lines_of(a) + lines_of(b),
        lines_of(b).len() >= 1,
    decreases b.len(),
{
    let whole = a + seq!['\n'] + b;
    if b.len() == 0 {
        assert(whole.drop_last() =~= a);
    } else {
        lemma_lines_of_feed(a, b.drop_last());
        assert(whole.drop_last() =~= a + seq!['\n'] + b.drop_last());
        let before = lines_of(b.drop_last());
        let joined = lines_of(a) + before;
        if b.last() == '\n' {
            assert(joined.push(Seq::<char>::empty()) =~= lines_of(a) + before.push(
                Seq::<char>::empty(),
            ));
        } else {
            assert(joined.drop_last().push(joined.last().push(b.last())) =~= lines_of(a)
                + before.drop_last().push(before.last().push(b.last())));
        }
    }
}

/// The lines that the vectors hold.
pub open spec fn line_views(lines: Seq<Vec<char>>) -> Seq<Seq<char>> {
    lines.map_values(|l: Vec<char>| l@)
}

/// Cuts `text` at each line feed.
pub fn split_lines(text: &[char]) -> (lines: Vec<Vec<char>>)
    ensures
        line_views(lines@) == lines_of(text@),
{
    let mut lines: Vec<Vec<char>> = Vec::new();
    let mut current: Vec<char> = Vec::new();
    let mut i: usize = 0;
    while i < text.len()
        invariant
            i <= text.len(),
            lines_of(text@.take(i as int)) == line_views(lines@).push(current@),
        decreases text.len() - i,
    {
        let c = text[i];
        assert(text@.take(i + 1).drop_last() =~= text@.take(i as int));
        if c == '\n' {
            lines.push(current);
            current = Vec::new();
        } else {
            current.push(c);
        }
        i = i + 1;
    }
    lines.push(current);
    assert(text@.take(i as int) =~= text@);
    lines
}

/// The value of `c` as a digit in `radix`: `0` to `9`, then the letters in
/// either case from ten on. `None` when `c` is no digit below `radix`.
pub open spec fn digit_of(c: char, radix: int) -> Option<int> {
    let u = c as u32 as int;
    let v = if '0' as u32 <= u <= '9' as u32 {
        u - '0' as u32
    } else if 'a' as u32 <= u <= 'z' as u32 {
        u - 'a' as u32 + 10
    } else if 'A' as u32 <= u <= 'Z' as u32 {
        u - 'A' as u32 + 10
    } else {
        radix
    };
    if v < radix {
        Some(v)
    } else {
        None
    }
}

/// The number that the digits spell in `radix`, the first digit counting
/// most. `None` when a character is no digit. No digits spell zero.
pub open spec fn digits_value(s: Seq<char>, radix: int) -> Option<int>
    decreases s.len(),
{
    if s.len() == 0 {
        Some(0)
    } else {
        match (digits_value(s.drop_last(), radix), digit_of(s.last(), radix)) {
            (Some(high), Some(low)) => Some(high * radix + low),
            _ => None,
        }
    }
}

/// The unsigned number that `s` spells in `radix`: an optional `+`, then at
/// least one digit and nothing else, with a value of at most `max`.
pub open spec fn unsigned_of(s: Seq<char>, radix: int, max: int) -> Option<int> {
    let digits = if s.len() > 0 && s[0] == '+' {
        s.skip(1)
    } else {
        s
    };
    if digits.len() == 0 {
        None
    } else {
        match digits_value(digits, radix) {
            Some(v) => if v <= max {
                Some(v)
            } else {
                None
            },
            None => None,
        }
    }
}

/// Digits that spell a number still spell one when cut short, and a smaller
/// one or the same.
pub proof fn lemma_digits_prefix(s: Seq<char>, radix: int, k: int)
    requires
        0 <= k <= s.len(),
        radix >= 1,
        digits_value(s, radix) is Some,
    ensures
        digits_value(s.take(k), radix) is Some,
        0 <= digits_value(s.take(k), radix).unwrap() <= digits_value(s, radix).unwrap(),
    decreases s.len(),
{
    if k < s.len() {
        lemma_digits_prefix(s.drop_last(), radix, k);
        assert(s.drop_last().take(k) =~= s.take(k));
        let high = digits_value(s.drop_last(), radix).unwrap();
        assert(high * radix >= high) by (nonlinear_arith)
            requires
                high >= 0,
                radix >= 1,
        ;
    } else {
        assert(s.take(k) =~= s);
        if s.len() > 0 {
            lemma_digits_prefix(s.drop_last(), radix, k - 1);
            let high = digits_value(s.drop_last(), radix).unwrap();
            assert(high * radix >= 0) by (nonlinear_arith)
                requires
                    high >= 0,
                    radix >= 1,
            ;
        }
    }
}

/// A number that is read lies between zero and `max`.
pub proof fn lemma_unsigned_bounds(s: Seq<char>, radix: int, max: int)
    requires
        radix >= 1,
    ensures
        unsigned_of(s, radix, max) matches Some(v) ==> 0 <= v <= max,
{
    let digits = if s.len() > 0 && s[0] == '+' {
        s.skip(1)
    } else {
        s
    };
    if digits_value(digits, radix) is Some {
        lemma_digits_prefix(digits, radix, digits.len() as int);
    }
}

/// The value of one character as a digit.
fn digit(c: char, radix: u32) -> (r: Option<u32>)
    requires
        2 <= radix <= 36,
    ensures
        r matches Some(v) ==> digit_of(c, radix as int) == Some(v as int) && v < radix,
        r is None ==> digit_of(c, radix as int) is None,
{
    let u = c as u32;
    let v = if '0' as u32 <= u && u <= '9' as u32 {
        u - '0' as u32
    } else if 'a' as u32 <= u && u <= 'z' as u32 {
        u - 'a' as u32 + 10
    } else if 'A' as u32 <= u && u <= 'Z' as u32 {
        u - 'A' as u32 + 10
    } else {
        radix
    };
    if v < radix {
        Some(v)
    } else {
        None
    }
}

/// Reads an unsigned number in `radix` that is at most `max`.
fn parse_radix(s: &[char], radix: u32, max: u64) -> (r: Option<u64>)
    requires
        2 <= radix <= 36,
    ensures
        r matches Some(v) ==> unsigned_of(s@, radix as int, max as int) == Some(v as int),
        r is None ==> unsigned_of(s@, radix as int, max as int) is None,
{
    let start: usize = if s.len() > 0 && s[0] == '+' {
        1
    } else {
        0
    };
    let digits = slice_subrange(s, start, s.len());
    if digits.len() == 0 {
        return None;
    }
    let mut value: u64 = 0;
    let mut i: usize = 0;
    assert(digits@ =~= if s@.len() > 0 && s@[0] == '+' {
        s@.skip(1)
    } else {
        s@
    });
    while i < digits.len()
        invariant
            i <= digits.len(),
            2 <= radix <= 36,
            digits@.len() > 0,
            digits@ == if s@.len() > 0 && s@[0] == '+' {
                s@.skip(1)
            } else {
                s@
            },
            digits_value(digits@.take(i as int), radix as int) == Some(value as int),
            value <= max,
        decreases digits.len() - i,
    {
        proof {
            assert(digits@.take(i + 1).drop_last() =~= digits@.take(i as int));
            if digits_value(digits@, radix as int) is Some {
                lemma_digits_prefix(digits@, radix as int, i + 1);
            }
        }
        let low = match digit(digits[i], radix) {
            Some(v) => v,
            None => { return None; },
        };
        assert(value * radix <= 0xffff_ffff_ffff_ffff * 36) by (nonlinear_arith)
            requires
                value <= 0xffff_ffff_ffff_ffff,
                radix <= 36,
        ;
        let next: u128 = (value as u128) * (radix as u128) + (low as u128);
        if next > max as u128 {
            return None;
        }
        value = next as u64;
        i = i + 1;
    }
    assert(digits@.take(i as int) =~= digits@);
    Some(value)
}

/// Reads a decimal number of 32 bits: an optional `+`, then digits.
pub fn parse_decimal_u32(s: &[char]) -> (r: Option<u32>)
    ensures
        r matches Some(v) ==> unsigned_of(s@, 10, u32::MAX as int) == Some(v as int),
        r is None ==> unsigned_of(s@, 10, u32::MAX as int) is None,
{
    match parse_radix(s, 10, u32::MAX as u64) {
        Some(v) => Some(v as u32),
        None => None,
    }
}

/// Reads a decimal number of 64 bits: an optional `+`, then digits.
pub fn parse_decimal_u64(s: &[char]) -> (r: Option<u64>)
    ensures
        r matches Some(v) ==> unsigned_of(s@, 10, u64::MAX as int) == Some(v as int),
        r is None ==> unsigned_of(s@, 10, u64::MAX as int) is None,
{
    parse_radix(s, 10, u64::MAX)
}

/// Reads a hexadecimal number of 32 bits: an optional `+`, then digits in
/// either case, without a `0x`.
pub fn parse_hex_u32(s: &[char]) -> (r: Option<u32>)
    ensures
        r matches Some(v) ==> unsigned_of(s@, 16, u32::MAX as int) == Some(v as int),
        r is None ==> unsigned_of(s@, 16, u32::MAX as int) is None,
{
    match parse_radix(s, 16, u32::MAX as u64) {
        Some(v) => Some(v as u32),
        None => None,
    }
}

/// Whether `c` separates words: a space, a tab, a line feed, a form feed or
/// a carriage return.
pub open spec fn is_blank(c: char) -> bool {
    c == ' ' || c == '\t' || c == '\n' || c == '\x0c' || c == '\r'
}

/// The first position from `from` on that holds no blank, the length of `s`
/// when there is none.
pub open spec fn blanks_end(s: Seq<char>, from: int) -> int
    decreases s.len() - from,
{
    if 0 <= from < s.len() && is_blank(s[from]) {
        blanks_end(s, from + 1)
    } else {
        from
    }
}

/// The first position from `from` on that holds a blank, the length of `s`
/// when there is none.
pub open spec fn word_end(s: Seq<char>, from: int) -> int
    decreases s.len() - from,
{
    if 0 <= from < s.len() && !is_blank(s[from]) {
        word_end(s, from + 1)
    } else {
        from
    }
}

/// The length of `s` without the blanks at its end.
pub open spec fn trimmed_len(s: Seq<char>) -> int
    decreases s.len(),
{
    if s.len() > 0 && is_blank(s.last()) {
        trimmed_len(s.drop_last())
    } else {
        s.len() as int
    }
}

/// `s` without the NUL characters at its end.
pub open spec fn without_trailing_nuls(s: Seq<char>) -> Seq<char>
    decreases s.len(),
{
    if s.len() > 0 && s.last() == '\0' {
        without_trailing_nuls(s.drop_last())
    } else {
        s
    }
}

/// Only blanks lie between `from` and `blanks_end(s, from)`, and what stands
/// there, if anything, is no blank.
pub proof fn lemma_blanks_end(s: Seq<char>, from: int)
    requires
        0 <= from <= s.len(),
    ensures
        from <= blanks_end(s, from) <= s.len(),
        forall|j: int| from <= j < blanks_end(s, from) ==> is_blank(s[j]),
        blanks_end(s, from) < s.len() ==> !is_blank(s[blanks_end(s, from)]),
    decreases s.len() - from,
{
    if from < s.len() && is_blank(s[from]) {
        lemma_blanks_end(s, from + 1);
    }
}

/// No blank lies between `from` and `word_end(s, from)`, and what stands
/// there, if anything, is a blank.
pub proof fn lemma_word_end(s: Seq<char>, from: int)
    requires
        0 <= from <= s.len(),
    ensures
        from <= word_end(s, from) <= s.len(),
        forall|j: int| from <= j < word_end(s, from) ==> !is_blank(s[j]),
        word_end(s, from) < s.len() ==> is_blank(s[word_end(s, from)]),
        from < s.len() && !is_blank(s[from]) ==> from < word_end(s, from),
    decreases s.len() - from,
{
    if from < s.len() && !is_blank(s[from]) {
        lemma_word_end(s, from + 1);
    }
}

/// The trimmed length lies behind every character that is no blank.
pub proof fn lemma_trimmed_len(s: Seq<char>, at: int)
    requires
        0 <= at < s.len(),
        !is_blank(s[at]),
    ensures
        at < trimmed_len(s) <= s.len(),
    decreases s.len(),
{
    if is_blank(s.last()) {
        lemma_trimmed_len(s.drop_last(), at);
    }
}

/// The number of words in `s` from `from` on. A word is a longest run of
/// characters that are no blanks.
pub open spec fn word_count(s: Seq<char>, from: int) -> nat
    decreases s.len() - from,
    via word_count_decreases
{
    let start = blanks_end(s, from);
    if 0 <= from && start < s.len() {
        1 + word_count(s, word_end(s, start))
    } else {
        0
    }
}

#[via_fn]
proof fn word_count_decreases(s: Seq<char>, from: int) {
    if 0 <= from <= s.len() {
        lemma_blanks_end(s, from);
        let start = blanks_end(s, from);
        if start < s.len() {
            lemma_word_end(s, start);
        }
    }
}

fn blank(c: char) -> (b: bool)
    ensures
        b == is_blank(c),
{
    c == ' ' || c == '\t' || c == '\n' || c == '\x0c' || c == '\r'
}

/// Moves from `from` over the blanks that stand there.
pub fn skip_blanks(s: &[char], from: usize) -> (end: usize)
    ensures
        end == blanks_end(s@, from as int),
        from <= s@.len() ==> from <= end <= s@.len(),
{
    let mut i: usize = from;
    while i < s.len() && blank(s[i])
        invariant
            from <= i,
            from <= s@.len() ==> i <= s@.len(),
            blanks_end(s@, i as int) == blanks_end(s@, from as int),
        decreases s.len() - i,
    {
        i = i + 1;
    }
    i
}

/// Moves from `from` over the word that stands there.
pub fn skip_word(s: &[char], from: usize) -> (end: usize)
    ensures
        end == word_end(s@, from as int),
        from <= s@.len() ==> from <= end <= s@.len(),
{
    let mut i: usize = from;
    while i < s.len() && !blank(s[i])
        invariant
            from <= i,
            from <= s@.len() ==> i <= s@.len(),
            word_end(s@, i as int) == word_end(s@, from as int),
        decreases s.len() - i,
    {
        i = i + 1;
    }
    i
}

/// The length of `s` without the blanks at its end.
pub fn trim_end(s: &[char]) -> (end: usize)
    ensures
        end == trimmed_len(s@),
        end <= s@.len(),
{
    let mut end: usize = s.len();
    assert(s@.take(end as int) =~= s@);
    while end > 0 && blank(s[end - 1])
        invariant
            end <= s@.len(),
            trimmed_len(s@.take(end as int)) == trimmed_len(s@),
        decreases end,
    {
        assert(s@.take(end as int).drop_last() =~= s@.take(end - 1));
        end = end - 1;
    }
    end
}

/// `s` without the NUL characters at its end.
pub fn strip_trailing_nuls<'a>(s: &'a [char]) -> (r: &'a [char])
    ensures
        r@ == without_trailing_nuls(s@),
{
    let mut end: usize = s.len();
    assert(s@.take(end as int) =~= s@);
    while end > 0 && s[end - 1] == '\0'
        invariant
            end <= s@.len(),
            without_trailing_nuls(s@.take(end as int)) == without_trailing_nuls(s@),
        decreases end,
    {
        assert(s@.take(end as int).drop_last() =~= s@.take(end - 1));
        end = end - 1;
    }
    slice_subrange(s, 0, end)
}

} // verus!
