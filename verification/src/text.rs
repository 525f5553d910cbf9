//! Text as a sequence of characters: white space, trimming, lines, fields
//! and decimal numbers.

use vstd::prelude::*;

verus! {

/// `String::push` appends the character to the end of the string.
pub assume_specification[ String::push ](s: &mut String, c: char)
    ensures
        final(s)@ == old(s)@.push(c),
;

/// The characters that Unicode marks as white space.
pub open spec fn is_space(c: char) -> bool {
    ('\u{9}' <= c <= '\u{d}') || c == ' ' || c == '\u{85}' || c == '\u{a0}' || c == '\u{1680}' || (
    '\u{2000}' <= c <= '\u{200a}') || c == '\u{2028}' || c == '\u{2029}' || c == '\u{202f}' || c
        == '\u{205f}' || c == '\u{3000}'
}

/// The ten decimal digits of ASCII.
pub open spec fn is_digit(c: char) -> bool {
    '0' <= c <= '9'
}

/// The value of a decimal digit.
pub open spec fn digit_value(c: char) -> nat {
    (c as u32 - '0' as u32) as nat
}

/// The first position at or after `i` that holds no white space, or the
/// length of `s`.
pub open spec fn skip_spaces(s: Seq<char>, i: int) -> int
    decreases s.len() - i,
{
    if 0 <= i < s.len() && is_space(s[i]) {
        skip_spaces(s, i + 1)
    } else {
        i
    }
}

/// The first position at or after `i` that holds white space, or the length
/// of `s`.
pub open spec fn skip_word(s: Seq<char>, i: int) -> int
    decreases s.len() - i,
{
    if 0 <= i < s.len() && !is_space(s[i]) {
        skip_word(s, i + 1)
    } else {
        i
    }
}

/// The end of `s` without its trailing white space, looking no further than
/// `j`.
pub open spec fn drop_spaces(s: Seq<char>, j: int) -> int
    decreases j,
{
    if 0 < j <= s.len() && is_space(s[j - 1]) {
        drop_spaces(s, j - 1)
    } else {
        j
    }
}

/// `s` without leading and trailing white space.
pub open spec fn trimmed(s: Seq<char>) -> Seq<char> {
    let from = skip_spaces(s, 0);
    let to = drop_spaces(s, s.len() as int);
    if from < to {
        s.subrange(from, to)
    } else {
        Seq::empty()
    }
}

/// The first position at or after `i` that holds a line feed, or the length
/// of `s`.
pub open spec fn line_end(s: Seq<char>, i: int) -> int
    decreases s.len() - i,
{
    if 0 <= i < s.len() && s[i] != '\n' {
        line_end(s, i + 1)
    } else {
        i
    }
}

/// A line without the carriage return that may end it.
pub open spec fn without_cr(line: Seq<char>) -> Seq<char> {
    if line.len() > 0 && line.last() == '\r' {
        line.drop_last()
    } else {
        line
    }
}

/// The lines of `s` from position `i` on. A line ends at a line feed or at
/// the end of the text; a carriage return just before the line feed is not
/// part of the line; a line feed at the very end starts no further line.
pub open spec fn lines_from(s: Seq<char>, i: int) -> Seq<Seq<char>>
    decreases s.len() - i,
{
    if 0 <= i < s.len() {
        let end = line_end(s, i);
        if i <= end < s.len() {
            seq![without_cr(s.subrange(i, end))] + lines_from(s, end + 1)
        } else {
            seq![s.subrange(i, end)]
        }
    } else {
        seq![]
    }
}

/// The lines of `s`.
pub open spec fn lines_of(s: Seq<char>) -> Seq<Seq<char>> {
    lines_from(s, 0)
}

/// The fields of `s` from position `i` on: the maximal runs of characters
/// that are not white space.
pub open spec fn fields_from(s: Seq<char>, i: int) -> Seq<Seq<char>>
    decreases s.len() - i,
{
    let from = skip_spaces(s, i);
    let to = skip_word(s, from);
    if 0 <= i <= from < to <= s.len() {
        seq![s.subrange(from, to)] + fields_from(s, to)
    } else {
        seq![]
    }
}

/// The fields of `s`, separated by white space.
pub open spec fn fields_of(s: Seq<char>) -> Seq<Seq<char>> {
    fields_from(s, 0)
}

/// The number that a sequence of decimal digits denotes.
pub open spec fn decimal(s: Seq<char>) -> nat
    decreases s.len(),
{
    if s.len() == 0 {
        0
    } else {
        decimal(s.drop_last()) * 10 + digit_value(s.last())
    }
}

/// True where `s` is one or more decimal digits.
pub open spec fn all_digits(s: Seq<char>) -> bool {
    s.len() > 0 && forall|i: int| 0 <= i < s.len() ==> is_digit(#[trigger] s[i])
}

/// `s` without the plus sign that may lead it.
pub open spec fn unsigned_part(s: Seq<char>) -> Seq<char> {
    if s.len() > 0 && s[0] == '+' {
        s.drop_first()
    } else {
        s
    }
}

/// The unsigned 64-bit number that `s` denotes: decimal digits, with an
/// optional plus sign in front, and a value that fits.
pub open spec fn parsed_u64(s: Seq<char>) -> Option<u64> {
    let digits = unsigned_part(s);
    if all_digits(digits) && decimal(digits) <= u64::MAX {
        Some(decimal(digits) as u64)
    } else {
        None
    }
}

proof fn lemma_skip_spaces(s: Seq<char>, i: int)
    requires
        0 <= i <= s.len(),
    ensures
        i <= skip_spaces(s, i) <= s.len(),
        forall|k: int| i <= k < skip_spaces(s, i) ==> is_space(#[trigger] s[k]),
        skip_spaces(s, i) < s.len() ==> !is_space(s[skip_spaces(s, i)]),
    decreases s.len() - i,
{
    if i < s.len() && is_space(s[i]) {
        lemma_skip_spaces(s, i + 1);
    }
}

proof fn lemma_skip_word(s: Seq<char>, i: int)
    requires
        0 <= i <= s.len(),
    ensures
        i <= skip_word(s, i) <= s.len(),
        forall|k: int| i <= k < skip_word(s, i) ==> !is_space(#[trigger] s[k]),
        skip_word(s, i) < s.len() ==> is_space(s[skip_word(s, i)]),
    decreases s.len() - i,
{
    if i < s.len() && !is_space(s[i]) {
        lemma_skip_word(s, i + 1);
    }
}

proof fn lemma_drop_spaces(s: Seq<char>, j: int)
    requires
        0 <= j <= s.len(),
    ensures
        0 <= drop_spaces(s, j) <= j,
        forall|k: int| drop_spaces(s, j) <= k < j ==> is_space(#[trigger] s[k]),
        drop_spaces(s, j) > 0 ==> !is_space(s[drop_spaces(s, j) - 1]),
    decreases j,
{
    if 0 < j && is_space(s[j - 1]) {
        lemma_drop_spaces(s, j - 1);
    }
}

/// What trimming leaves is the text between its first and its last
/// character that is no white space: it is a stretch of the text with
/// nothing but white space before and after it, and it neither starts nor
/// ends with white space.
pub proof fn law_trimmed_is_the_core(s: Seq<char>)
    ensures
        trimmed(s).len() > 0 ==> !is_space(trimmed(s).first()) && !is_space(trimmed(s).last()),
        exists|from: int, to: int|
            {
                &&& 0 <= from <= to <= s.len()
                &&& #[trigger] s.subrange(from, to) == trimmed(s)
                &&& forall|k: int| 0 <= k < from ==> is_space(#[trigger] s[k])
                &&& forall|k: int| to <= k < s.len() ==> is_space(#[trigger] s[k])
            },
{
    let from = skip_spaces(s, 0);
    let to = drop_spaces(s, s.len() as int);
    lemma_skip_spaces(s, 0);
    lemma_drop_spaces(s, s.len() as int);
    if from < to {
        assert(trimmed(s).first() == s[from]);
        assert(trimmed(s).last() == s[to - 1]);
        assert(s.subrange(from, to) == trimmed(s));
    } else {
        if from < s.len() {
            assert(!is_space(s[from]));
            assert(from < to);
        }
        assert(s.subrange(from, from) =~= trimmed(s));
    }
}

/// Every field is a word: it is not empty and holds no white space.
pub proof fn law_fields_are_words(s: Seq<char>, i: int, k: int)
    requires
        0 <= i <= s.len(),
        0 <= k < fields_from(s, i).len(),
    ensures
        fields_from(s, i)[k].len() > 0,
        forall|j: int| 0 <= j < fields_from(s, i)[k].len() ==> !is_space(
            #[trigger] fields_from(s, i)[k][j],
        ),
    decreases s.len() - i,
{
    let from = skip_spaces(s, i);
    let to = skip_word(s, from);
    lemma_skip_spaces(s, i);
    lemma_skip_word(s, from);
    if k > 0 {
        law_fields_are_words(s, to, k - 1);
        assert(fields_from(s, i)[k] == fields_from(s, to)[k - 1]);
    } else {
        let word = s.subrange(from, to);
        assert(fields_from(s, i)[0] == word);
        assert forall|j: int| 0 <= j < word.len() implies !is_space(#[trigger] word[j]) by {
            assert(word[j] == s[from + j]);
        }
    }
}

/// The views of a list of texts.
pub open spec fn texts(list: Seq<Vec<char>>) -> Seq<Seq<char>> {
    list.map_values(|t: Vec<char>| t@)
}

/// True where `c` is white space.
pub fn space(c: char) -> (b: bool)
    ensures
        b == is_space(c),
{
    ('\u{9}' <= c && c <= '\u{d}') || c == ' ' || c == '\u{85}' || c == '\u{a0}' || c == '\u{1680}'
        || ('\u{2000}' <= c && c <= '\u{200a}') || c == '\u{2028}' || c == '\u{2029}' || c
        == '\u{202f}' || c == '\u{205f}' || c == '\u{3000}'
}

/// The characters of `s`.
pub fn chars_of(s: &str) -> (v: Vec<char>)
    ensures
        v@ == s@,
{
    let mut v: Vec<char> = Vec::new();
    for c in it: s.chars()
        invariant
            v@ == it.seq().take(it.index() as int),
            it.seq() == s@,
    {
        v.push(c);
    }
    v
}

/// The string made of the characters of `v`.
pub fn string_of(v: &Vec<char>) -> (s: String)
    ensures
        s@ == v@,
{
    let mut s = String::new();
    let mut i: usize = 0;
    while i < v.len()
        invariant
            i <= v.len(),
            s@ == v@.take(i as int),
        decreases v.len() - i,
    {
        s.push(v[i]);
        i += 1;
    }
    s
}

/// The characters of `v` from `from` up to, not including, `to`.
pub fn slice_of(v: &Vec<char>, from: usize, to: usize) -> (r: Vec<char>)
    requires
        from <= to <= v.len(),
    ensures
        r@ == v@.subrange(from as int, to as int),
{
    let mut r: Vec<char> = Vec::new();
    let mut i: usize = from;
    while i < to
        invariant
            from <= i <= to <= v.len(),
            r@ == v@.subrange(from as int, i as int),
        decreases to - i,
    {
        r.push(v[i]);
        i += 1;
    }
    r
}

fn past_spaces(v: &Vec<char>, i: usize) -> (r: usize)
    requires
        i <= v.len(),
    ensures
        r == skip_spaces(v@, i as int),
        i <= r <= v.len(),
{
    let mut r: usize = i;
    while r < v.len() && space(v[r])
        invariant
            i <= r <= v.len(),
            skip_spaces(v@, r as int) == skip_spaces(v@, i as int),
        decreases v.len() - r,
    {
        r += 1;
    }
    r
}

fn past_word(v: &Vec<char>, i: usize) -> (r: usize)
    requires
        i <= v.len(),
    ensures
        r == skip_word(v@, i as int),
        i <= r <= v.len(),
{
    let mut r: usize = i;
    while r < v.len() && !space(v[r])
        invariant
            i <= r <= v.len(),
            skip_word(v@, r as int) == skip_word(v@, i as int),
        decreases v.len() - r,
    {
        r += 1;
    }
    r
}

fn before_spaces(v: &Vec<char>, j: usize) -> (r: usize)
    requires
        j <= v.len(),
    ensures
        r == drop_spaces(v@, j as int),
        r <= j,
{
    let mut r: usize = j;
    while r > 0 && space(v[r - 1])
        invariant
            r <= j <= v.len(),
            drop_spaces(v@, r as int) == drop_spaces(v@, j as int),
        decreases r,
    {
        r -= 1;
    }
    r
}

fn to_line_end(v: &Vec<char>, i: usize) -> (r: usize)
    requires
        i <= v.len(),
    ensures
        r == line_end(v@, i as int),
        i <= r <= v.len(),
{
    let mut r: usize = i;
    while r < v.len() && v[r] != '\n'
        invariant
            i <= r <= v.len(),
            line_end(v@, r as int) == line_end(v@, i as int),
        decreases v.len() - r,
    {
        r += 1;
    }
    r
}

/// `v` without leading and trailing white space.
pub fn trim_chars(v: &Vec<char>) -> (r: Vec<char>)
    ensures
        r@ == trimmed(v@),
{
    let from = past_spaces(v, 0);
    let to = before_spaces(v, v.len());
    if from < to {
        slice_of(v, from, to)
    } else {
        Vec::new()
    }
}

/// `s` without leading and trailing white space.
pub fn trim(s: &str) -> (r: String)
    ensures
        r@ == trimmed(s@),
{
    let v = chars_of(s);
    let t = trim_chars(&v);
    string_of(&t)
}

/// The lines of `v`.
pub fn split_lines(v: &Vec<char>) -> (r: Vec<Vec<char>>)
    ensures
        texts(r@) == lines_of(v@),
{
    let mut r: Vec<Vec<char>> = Vec::new();
    let mut i: usize = 0;
    assert(texts(r@) + lines_from(v@, 0) =~= lines_of(v@));
    while i < v.len()
        invariant
            i <= v.len(),
            texts(r@) + lines_from(v@, i as int) == lines_of(v@),
        decreases v.len() - i,
    {
        let end = to_line_end(v, i);
        let cut = if end < v.len() && end > i && v[end - 1] == '\r' {
            end - 1
        } else {
            end
        };
        let line = slice_of(v, i, cut);
        proof {
            let whole = v@.subrange(i as int, end as int);
            if end < v.len() {
                assert(line@ =~= without_cr(whole));
            }
            assert(texts(r@.push(line)) =~= texts(r@) + seq![line@]);
            let rest = if end < v.len() {
                lines_from(v@, end + 1)
            } else {
                seq![]
            };
            assert(texts(r@.push(line)) + rest =~= texts(r@) + (seq![line@] + rest));
        }
        r.push(line);
        if end < v.len() {
            i = end + 1;
        } else {
            i = end;
        }
    }
    assert(texts(r@) + lines_from(v@, i as int) =~= texts(r@));
    r
}

/// The fields of `v`, separated by white space.
pub fn split_fields(v: &Vec<char>) -> (r: Vec<Vec<char>>)
    ensures
        texts(r@) == fields_of(v@),
{
    let mut r: Vec<Vec<char>> = Vec::new();
    let mut i: usize = 0;
    assert(texts(r@) + fields_from(v@, 0) =~= fields_of(v@));
    loop
        invariant_except_break
            i <= v.len(),
            texts(r@) + fields_from(v@, i as int) == fields_of(v@),
        ensures
            texts(r@) == fields_of(v@),
        decreases v.len() - i,
    {
        let from = past_spaces(v, i);
        let to = past_word(v, from);
        if from < to {
            let word = slice_of(v, from, to);
            proof {
                assert(texts(r@.push(word)) =~= texts(r@) + seq![word@]);
                assert(texts(r@.push(word)) + fields_from(v@, to as int) =~= texts(r@) + (
                seq![word@] + fields_from(v@, to as int)));
            }
            r.push(word);
            i = to;
        } else {
            assert(texts(r@) + fields_from(v@, i as int) =~= texts(r@));
            break ;
        }
    }
    r
}

/// The number that a prefix of a digit sequence denotes is at most the
/// number that the whole sequence denotes.
pub proof fn lemma_decimal_grows(s: Seq<char>, i: int)
    requires
        0 <= i <= s.len(),
    ensures
        decimal(s.take(i)) <= decimal(s),
    decreases s.len() - i,
{
    if i < s.len() {
        lemma_decimal_grows(s, i + 1);
        assert(s.take(i + 1).drop_last() =~= s.take(i));
    } else {
        assert(s.take(i) =~= s);
    }
}

fn digits_value(v: &Vec<char>, from: usize) -> (r: Option<u64>)
    requires
        from <= v.len(),
    ensures
        ({
            let digits = v@.subrange(from as int, v.len() as int);
            r == if all_digits(digits) && decimal(digits) <= u64::MAX {
                Some(decimal(digits) as u64)
            } else {
                None
            }
        }),
{
    let ghost digits = v@.subrange(from as int, v.len() as int);
    if from == v.len() {
        return None;
    }
    let mut acc: u64 = 0;
    let mut i: usize = from;
    assert(digits.take(0) =~= Seq::<char>::empty());
    while i < v.len()
        invariant
            from <= i <= v.len(),
            from < v.len(),
            digits == v@.subrange(from as int, v.len() as int),
            forall|k: int| 0 <= k < i - from ==> is_digit(#[trigger] digits[k]),
            acc == decimal(digits.take(i - from)),
        decreases v.len() - i,
    {
        let c = v[i];
        assert(c == digits[i - from]);
        if !('0' <= c && c <= '9') {
            return None;
        }
        let d: u64 = (c as u32 - '0' as u32) as u64;
        proof {
            assert(digits.take(i - from + 1).drop_last() =~= digits.take(i - from));
            lemma_decimal_grows(digits, i - from + 1);
        }
        if acc > (u64::MAX - d) / 10 {
            return None;
        }
        acc = acc * 10 + d;
        i += 1;
    }
    assert(digits.take(i - from) =~= digits);
    Some(acc)
}

/// Reads an unsigned 64-bit number: decimal digits, with an optional plus
/// sign in front. Anything else, and a value that does not fit, gives `None`.
pub fn parse_u64(v: &Vec<char>) -> (r: Option<u64>)
    ensures
        r == parsed_u64(v@),
{
    if v.len() > 0 && v[0] == '+' {
        assert(v@.drop_first() =~= v@.subrange(1, v.len() as int));
        digits_value(v, 1)
    } else {
        assert(v@ =~= v@.subrange(0, v.len() as int));
        digits_value(v, 0)
    }
}

/// The character of a decimal digit.
pub open spec fn digit_char(d: nat) -> char {
    ((d + 48) as u8) as char
}

/// The decimal digits of `n`, without leading zeros; `0` for zero.
pub open spec fn digits_of(n: nat) -> Seq<char>
    decreases n,
{
    if n < 10 {
        seq![digit_char(n)]
    } else {
        digits_of(n / 10).push(digit_char(n % 10))
    }
}

/// Reading the digits of a number gives the number back.
pub proof fn law_digits_read_back(n: nat)
    ensures
        all_digits(digits_of(n)),
        decimal(digits_of(n)) == n,
        n <= u64::MAX ==> parsed_u64(digits_of(n)) == Some(n as u64),
    decreases n,
{
    let d = digits_of(n);
    if n < 10 {
        assert(d.drop_last() =~= Seq::<char>::empty());
        assert(is_digit(d[0]));
        assert(digit_value(d[0]) == n);
        assert(decimal(d.drop_last()) == 0);
    } else {
        law_digits_read_back(n / 10);
        assert(d.drop_last() =~= digits_of(n / 10));
        assert(is_digit(d.last()));
        assert(digit_value(d.last()) == n % 10);
        assert forall|i: int| 0 <= i < d.len() implies is_digit(#[trigger] d[i]) by {
            if i < d.len() - 1 {
                assert(d[i] == digits_of(n / 10)[i]);
            }
        }
    }
    assert(d[0] != '+');
}

/// The decimal digits of `n`.
pub fn decimal_text(n: u64) -> (text: String)
    ensures
        text@ == digits_of(n as nat),
{
    let mut reversed: Vec<char> = Vec::new();
    let mut rest: u64 = n;
    while rest >= 10
        invariant
            digits_of(rest as nat) + reversed@.reverse() == digits_of(n as nat),
        decreases rest,
    {
        let c = ((rest % 10 + 48) as u8) as char;
        proof {
            assert(reversed@.push(c).reverse() =~= seq![c] + reversed@.reverse());
            assert(digits_of(rest as nat) =~= digits_of((rest / 10) as nat) + seq![c]);
            assert(digits_of((rest / 10) as nat) + (seq![c] + reversed@.reverse()) =~= (digits_of(
                (rest / 10) as nat,
            ) + seq![c]) + reversed@.reverse());
        }
        reversed.push(c);
        rest = rest / 10;
    }
    let mut text = String::new();
    text.push(((rest + 48) as u8) as char);
    let mut i: usize = reversed.len();
    assert(reversed@.reverse().take(0) =~= Seq::<char>::empty());
    while i > 0
        invariant
            i <= reversed.len(),
            text@ == digits_of(rest as nat) + reversed@.reverse().take(reversed.len() - i),
        decreases i,
    {
        i -= 1;
        proof {
            let r = reversed@.reverse();
            assert(r.take(reversed.len() - i) =~= r.take(reversed.len() - i - 1).push(
                reversed@[i as int],
            ));
        }
        text.push(reversed[i]);
    }
    assert(reversed@.reverse().take(reversed.len() as int) =~= reversed@.reverse());
    text
}

} // verus!
