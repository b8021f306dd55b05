//! Character-level text primitives shared by the line parsers and the message
//! writers: trimming, splitting, decimal numbers and letter case.

use vstd::prelude::*;
use vstd::string::*;

verus! {

// ---------------------------------------------------------------------------
// Trusted pieces of the standard library
// ---------------------------------------------------------------------------

/// `String::push` appends one character to the end of the string.
pub assume_specification[ String::push ](s: &mut String, c: char)
    ensures
        final(s)@ == old(s)@.push(c),
;

// ---------------------------------------------------------------------------
// Model
// ---------------------------------------------------------------------------

/// The characters with the Unicode `White_Space` property.
pub open spec fn is_white(c: char) -> bool {
    ||| '\u{9}' <= c <= '\u{d}'
    ||| c == ' '
    ||| c == '\u{85}'
    ||| c == '\u{a0}'
    ||| c == '\u{1680}'
    ||| '\u{2000}' <= c <= '\u{200a}'
    ||| c == '\u{2028}'
    ||| c == '\u{2029}'
    ||| c == '\u{202f}'
    ||| c == '\u{205f}'
    ||| c == '\u{3000}'
}

/// `s` without its leading whitespace.
pub open spec fn trim_start(s: Seq<char>) -> Seq<char>
    decreases s.len(),
{
    if s.len() > 0 && is_white(s.first()) {
        trim_start(s.drop_first())
    } else {
        s
    }
}

/// `s` without its trailing whitespace.
pub open spec fn trim_end(s: Seq<char>) -> Seq<char>
    decreases s.len(),
{
    if s.len() > 0 && is_white(s.last()) {
        trim_end(s.drop_last())
    } else {
        s
    }
}

/// `s` without leading and trailing whitespace.
pub open spec fn trim(s: Seq<char>) -> Seq<char> {
    trim_end(trim_start(s))
}

/// Whether a character ends a line.
pub open spec fn is_line_end(c: char) -> bool {
    c == '\r' || c == '\n'
}

/// `s` without its trailing carriage returns and line feeds.
pub open spec fn trim_line_end(s: Seq<char>) -> Seq<char>
    decreases s.len(),
{
    if s.len() > 0 && is_line_end(s.last()) {
        trim_line_end(s.drop_last())
    } else {
        s
    }
}

/// Index of the first `c` in `s`, or the length of `s` when there is none.
pub open spec fn position(s: Seq<char>, c: char) -> nat
    decreases s.len(),
{
    if s.len() == 0 || s.first() == c {
        0
    } else {
        1 + position(s.drop_first(), c)
    }
}

/// What stands before the first `c`: all of `s` when there is none.
pub open spec fn before(s: Seq<char>, c: char) -> Seq<char> {
    s.take(position(s, c) as int)
}

/// What stands after the first `c`, if there is one.
pub open spec fn after(s: Seq<char>, c: char) -> Option<Seq<char>> {
    if position(s, c) < s.len() {
        Some(s.skip(position(s, c) as int + 1))
    } else {
        None
    }
}

/// Whether `c` is one of the ten ASCII digits.
pub open spec fn is_digit(c: char) -> bool {
    '0' <= c <= '9'
}

/// Whether every character of `s` is an ASCII digit.
pub open spec fn all_digits(s: Seq<char>) -> bool {
    forall|i: int| 0 <= i < s.len() ==> is_digit(#[trigger] s[i])
}

/// The number that a sequence of digits denotes in base ten.
pub open spec fn digits_value(s: Seq<char>) -> nat
    decreases s.len(),
{
    if s.len() == 0 {
        0
    } else {
        digits_value(s.drop_last()) * 10 + (s.last() as nat - '0' as nat) as nat
    }
}

/// `s` without the one `+` sign that may lead an unsigned number.
pub open spec fn unsigned_digits(s: Seq<char>) -> Seq<char> {
    if s.len() > 0 && s.first() == '+' {
        s.drop_first()
    } else {
        s
    }
}

/// The unsigned 64-bit number that `s` spells: an optional `+` sign followed by
/// at least one digit and nothing else, within the range of the type.
pub open spec fn parsed_u64(s: Seq<char>) -> Option<u64> {
    let digits = unsigned_digits(s);
    if digits.len() > 0 && all_digits(digits) && digits_value(digits) <= u64::MAX {
        Some(digits_value(digits) as u64)
    } else {
        None
    }
}

/// The ASCII digit for `n`, which is below ten.
pub open spec fn digit(n: nat) -> char {
    ('0' as u32 + n) as char
}

/// `n` written in base ten without leading zeros.
pub open spec fn decimal(n: nat) -> Seq<char>
    decreases n,
{
    if n < 10 {
        seq![digit(n)]
    } else {
        decimal(n / 10).push(digit(n % 10))
    }
}

/// `n` written in base ten, with a leading minus sign when it is negative.
pub open spec fn signed_decimal(n: int) -> Seq<char> {
    if n < 0 {
        seq!['-'] + decimal((-n) as nat)
    } else {
        decimal(n as nat)
    }
}

/// `c` with an ASCII capital letter replaced by its small letter.
pub open spec fn ascii_lower_char(c: char) -> char {
    if 'A' <= c <= 'Z' {
        (c as u32 + 32) as char
    } else {
        c
    }
}

/// `s` with every ASCII capital letter replaced by its small letter.
pub open spec fn ascii_lower(s: Seq<char>) -> Seq<char> {
    s.map_values(|c: char| ascii_lower_char(c))
}

/// The order of texts: character by character, and a text after its prefixes.
pub open spec fn text_at_most(a: Seq<char>, b: Seq<char>) -> bool
    decreases a.len(),
{
    if a.len() == 0 {
        true
    } else if b.len() == 0 {
        false
    } else if a.first() == b.first() {
        text_at_most(a.drop_first(), b.drop_first())
    } else {
        a.first() < b.first()
    }
}

/// What `str::to_lowercase` gives for a text.
pub uninterp spec fn lowercase(s: Seq<char>) -> Seq<char>;

// ---------------------------------------------------------------------------
// Functions
// ---------------------------------------------------------------------------

/// The characters of a text.
pub fn characters(s: &str) -> (out: Vec<char>)
    ensures
        out@ == s@,
{
    let mut out: Vec<char> = Vec::new();
    for c in it: s.chars()
        invariant
            out@ == it.seq().take(it.index()),
            it.seq() == s@,
    {
        out.push(c);
    }
    out
}

/// Whether a character is whitespace.
fn white(c: char) -> (out: bool)
    ensures
        out == is_white(c),
{
    ('\u{9}' <= c && c <= '\u{d}') || c == ' ' || c == '\u{85}' || c == '\u{a0}' || c == '\u{1680}'
        || ('\u{2000}' <= c && c <= '\u{200a}') || c == '\u{2028}' || c == '\u{2029}'
        || c == '\u{202f}' || c == '\u{205f}' || c == '\u{3000}'
}

/// `s` without leading and trailing whitespace.
pub fn trimmed(s: &str) -> (out: &str)
    ensures
        out@ == trim(s@),
{
    let chars = characters(s);
    let mut start: usize = 0;
    assert(s@.skip(0) == s@);
    while start < chars.len() && white(chars[start])
        invariant
            chars@ == s@,
            start <= chars.len(),
            trim_start(s@) == trim_start(s@.skip(start as int)),
        decreases chars.len() - start,
    {
        assert(s@.skip(start as int).drop_first() == s@.skip(start + 1));
        start = start + 1;
    }
    assert(trim_start(s@) == s@.skip(start as int));
    let mut end: usize = chars.len();
    assert(s@.subrange(start as int, end as int) == s@.skip(start as int));
    while start < end && white(chars[end - 1])
        invariant
            chars@ == s@,
            start <= end <= chars.len(),
            trim(s@) == trim_end(s@.subrange(start as int, end as int)),
        decreases end - start,
    {
        assert(s@.subrange(start as int, end as int).drop_last() == s@.subrange(
            start as int,
            end - 1,
        ));
        end = end - 1;
    }
    s.substring_char(start, end)
}

/// `s` without its trailing carriage returns and line feeds.
pub fn without_line_end(s: &str) -> (out: &str)
    ensures
        out@ == trim_line_end(s@),
{
    let chars = characters(s);
    let mut end: usize = chars.len();
    assert(s@.take(end as int) == s@);
    while 0 < end && (chars[end - 1] == '\r' || chars[end - 1] == '\n')
        invariant
            chars@ == s@,
            end <= chars.len(),
            trim_line_end(s@) == trim_line_end(s@.take(end as int)),
        decreases end,
    {
        assert(s@.take(end as int).drop_last() == s@.take(end - 1));
        end = end - 1;
    }
    s.substring_char(0, end)
}

/// Splits `s` at the first `c`: what stands before it, and what stands after
/// it if there is one.
pub fn cut(s: &str, c: char) -> (out: (&str, Option<&str>))
    ensures
        out.0@ == before(s@, c),
        match out.1 {
            Some(rest) => after(s@, c) == Some(rest@),
            None => after(s@, c) is None,
        },
{
    let chars = characters(s);
    let mut at: usize = 0;
    assert(s@.skip(0) == s@);
    while at < chars.len() && chars[at] != c
        invariant
            chars@ == s@,
            at <= chars.len(),
            position(s@, c) == at + position(s@.skip(at as int), c),
        decreases chars.len() - at,
    {
        assert(s@.skip(at as int).drop_first() == s@.skip(at + 1));
        at = at + 1;
    }
    assert(position(s@, c) == at);
    let head = s.substring_char(0, at);
    if at < chars.len() {
        let tail = s.substring_char(at + 1, chars.len());
        assert(tail@ == s@.skip(at + 1));
        (head, Some(tail))
    } else {
        (head, None)
    }
}

/// More digits never denote a smaller number.
proof fn lemma_digits_value_grows(s: Seq<char>, n: int)
    requires
        all_digits(s),
        0 <= n <= s.len(),
    ensures
        digits_value(s.take(n)) <= digits_value(s),
    decreases s.len(),
{
    if n == s.len() {
        assert(s.take(n) == s);
    } else {
        let shorter = s.drop_last();
        assert(all_digits(shorter)) by {
            assert forall|i: int| 0 <= i < shorter.len() implies is_digit(#[trigger] shorter[i]) by {
                assert(shorter[i] == s[i]);
            }
        }
        lemma_digits_value_grows(shorter, n);
        assert(shorter.take(n) == s.take(n));
    }
}

/// Reads an unsigned 64-bit number.
pub fn parse_u64(s: &str) -> (out: Option<u64>)
    ensures
        out == parsed_u64(s@),
{
    let chars = characters(s);
    let start: usize = if chars.len() > 0 && chars[0] == '+' {
        1
    } else {
        0
    };
    let ghost digits = unsigned_digits(s@);
    assert(digits == s@.skip(start as int));
    if chars.len() == start {
        return None;
    }
    let mut at: usize = start;
    let mut total: u64 = 0;
    assert(digits.take(0) == Seq::<char>::empty());
    while at < chars.len()
        invariant
            chars@ == s@,
            start <= at <= chars.len(),
            digits == s@.skip(start as int),
            digits == unsigned_digits(s@),
            total == digits_value(digits.take(at - start)),
            forall|i: int| 0 <= i < at - start ==> is_digit(#[trigger] digits[i]),
        decreases chars.len() - at,
    {
        let c = chars[at];
        assert(digits[at - start] == c);
        if !('0' <= c && c <= '9') {
            return None;
        }
        let value: u64 = c as u64 - '0' as u64;
        assert(digits.take(at - start + 1).drop_last() == digits.take(at - start));
        assert(digits_value(digits.take(at - start + 1)) == total * 10 + value);
        if total > (u64::MAX - value) / 10 {
            proof {
                if all_digits(digits) {
                    lemma_digits_value_grows(digits, at - start + 1);
                }
            }
            return None;
        }
        total = total * 10 + value;
        at = at + 1;
    }
    assert(digits.take(at - start) == digits);
    Some(total)
}

/// `n` written in base ten.
pub fn decimal_text(n: u64) -> (out: String)
    ensures
        out@ == decimal(n as nat),
    decreases n,
{
    let mut out = if n < 10 {
        String::new()
    } else {
        decimal_text(n / 10)
    };
    let last: u8 = (n % 10) as u8;
    let c: char = (48u8 + last) as char;
    assert(c == digit(n as nat % 10));
    out.push(c);
    assert(n < 10 ==> out@ == seq![digit(n as nat)]);
    out
}

/// `n` written in base ten, with a minus sign when it is negative.
pub fn signed_decimal_text(n: i64) -> (out: String)
    ensures
        out@ == signed_decimal(n as int),
{
    if n >= 0 {
        return decimal_text(n as u64);
    }
    let magnitude: u64 = (-(n as i128)) as u64;
    let mut out = String::new();
    out.push('-');
    out.append(decimal_text(magnitude).as_str());
    assert(out@ == seq!['-'] + decimal(magnitude as nat));
    out
}

/// `s` with every ASCII capital letter replaced by its small letter.
pub fn ascii_lowered(s: &str) -> (out: String)
    ensures
        out@ == ascii_lower(s@),
{
    let chars = characters(s);
    let mut out = String::new();
    let mut at: usize = 0;
    while at < chars.len()
        invariant
            chars@ == s@,
            at <= chars.len(),
            out@ == ascii_lower(s@.take(at as int)),
        decreases chars.len() - at,
    {
        let c = chars[at];
        let lowered: char = if 'A' <= c && c <= 'Z' {
            (c as u8 + 32) as char
        } else {
            c
        };
        out.push(lowered);
        at = at + 1;
        assert(out@ == ascii_lower(s@.take(at as int)));
    }
    assert(s@.take(at as int) == s@);
    out
}

/// Whether two texts are the same.
pub fn same_text(a: &str, b: &str) -> (out: bool)
    ensures
        out == (a@ == b@),
{
    a.to_owned() == b.to_owned()
}

/// Whether the order of texts puts `a` before `b` or finds them the same.
pub fn in_order(a: &str, b: &str) -> (out: bool)
    ensures
        out == text_at_most(a@, b@),
{
    let left = characters(a);
    let right = characters(b);
    let mut at: usize = 0;
    assert(a@.skip(0) == a@);
    assert(b@.skip(0) == b@);
    while at < left.len() && at < right.len() && left[at] == right[at]
        invariant
            left@ == a@,
            right@ == b@,
            at <= left.len(),
            at <= right.len(),
            text_at_most(a@, b@) == text_at_most(a@.skip(at as int), b@.skip(at as int)),
        decreases left.len() - at,
    {
        assert(a@.skip(at as int).drop_first() == a@.skip(at + 1));
        assert(b@.skip(at as int).drop_first() == b@.skip(at + 1));
        at = at + 1;
    }
    if at == left.len() {
        true
    } else if at == right.len() {
        false
    } else {
        left[at] < right[at]
    }
}

/// `str::to_lowercase` maps every character to its small letters by the Unicode
/// rules, named [`lowercase`] here. The case of the ASCII letters in a text makes no
/// difference to it, and on a text of ASCII characters alone it is [`ascii_lower`].
#[verifier::external_body]
pub(crate) fn lowercased(s: &str) -> (out: String)
    ensures
        out@ == lowercase(s@),
        out@ == lowercase(ascii_lower(s@)),
        vstd::utf8::is_ascii_chars(s@) ==> out@ == ascii_lower(s@),
{
    s.to_lowercase()
}

// ---------------------------------------------------------------------------
// Laws
// ---------------------------------------------------------------------------

/// The order of texts is reflexive.
pub proof fn text_order_reflexive(a: Seq<char>)
    ensures
        text_at_most(a, a),
    decreases a.len(),
{
    if a.len() > 0 {
        text_order_reflexive(a.drop_first());
    }
}

/// The order of texts compares any two texts.
pub proof fn text_order_total(a: Seq<char>, b: Seq<char>)
    ensures
        text_at_most(a, b) || text_at_most(b, a),
    decreases a.len(),
{
    if a.len() > 0 && b.len() > 0 && a.first() == b.first() {
        text_order_total(a.drop_first(), b.drop_first());
    }
}

/// Two texts that the order puts both ways round are the same.
pub proof fn text_order_antisymmetric(a: Seq<char>, b: Seq<char>)
    requires
        text_at_most(a, b),
        text_at_most(b, a),
    ensures
        a == b,
    decreases a.len(),
{
    if a.len() > 0 && b.len() > 0 && a.first() == b.first() {
        text_order_antisymmetric(a.drop_first(), b.drop_first());
        assert(a == seq![a.first()] + a.drop_first());
        assert(b == seq![b.first()] + b.drop_first());
    }
}

/// The order of texts is transitive.
pub proof fn text_order_transitive(a: Seq<char>, b: Seq<char>, c: Seq<char>)
    requires
        text_at_most(a, b),
        text_at_most(b, c),
    ensures
        text_at_most(a, c),
    decreases a.len(),
{
    if a.len() > 0 && b.len() > 0 && c.len() > 0 && a.first() == b.first() && b.first()
        == c.first() {
        text_order_transitive(a.drop_first(), b.drop_first(), c.drop_first());
    }
}

/// A number written in base ten is at least one digit and nothing but digits.
pub proof fn decimal_is_digits(n: nat)
    ensures
        decimal(n).len() > 0,
        all_digits(decimal(n)),
    decreases n,
{
    if n >= 10 {
        decimal_is_digits(n / 10);
    }
}

/// A number written in base ten reads back as that number.
pub proof fn decimal_reads_back(n: nat)
    ensures
        digits_value(decimal(n)) == n,
        n <= u64::MAX ==> parsed_u64(decimal(n)) == Some(n as u64),
    decreases n,
{
    decimal_is_digits(n);
    if n >= 10 {
        decimal_reads_back(n / 10);
        assert(decimal(n).drop_last() == decimal(n / 10));
        assert(decimal(n).last() == digit(n % 10));
    } else {
        assert(decimal(n).drop_last() == Seq::<char>::empty());
        assert(digits_value(Seq::<char>::empty()) == 0);
    }
    assert(is_digit(decimal(n)[0]));
}

/// A trimmed text neither begins nor ends with whitespace.
pub proof fn trim_leaves_no_edge(s: Seq<char>)
    ensures
        trim(s).len() > 0 ==> !is_white(trim(s).first()) && !is_white(trim(s).last()),
{
    lemma_trim_start_edge(s);
    lemma_trim_end_edge(trim_start(s));
}

/// Trimming a text that neither begins nor ends with whitespace changes nothing.
pub proof fn trim_keeps_bare_text(s: Seq<char>)
    requires
        s.len() > 0 ==> !is_white(s.first()) && !is_white(s.last()),
    ensures
        trim(s) == s,
{
}

/// Trimming twice is trimming once.
pub proof fn trim_is_idempotent(s: Seq<char>)
    ensures
        trim(trim(s)) == trim(s),
{
    trim_leaves_no_edge(s);
}

proof fn lemma_trim_start_edge(s: Seq<char>)
    ensures
        trim_start(s).len() > 0 ==> !is_white(trim_start(s).first()),
    decreases s.len(),
{
    if s.len() > 0 && is_white(s.first()) {
        lemma_trim_start_edge(s.drop_first());
    }
}

/// Trimming the end of a text leaves its first character, unless it leaves nothing.
pub proof fn trim_end_keeps_first(s: Seq<char>)
    ensures
        trim_end(s).len() > 0 ==> trim_end(s).first() == s.first(),
{
    lemma_trim_end_edge(s);
}

proof fn lemma_trim_end_edge(s: Seq<char>)
    ensures
        trim_end(s).len() > 0 ==> !is_white(trim_end(s).last()) && trim_end(s).first()
            == s.first(),
    decreases s.len(),
{
    if s.len() > 0 && is_white(s.last()) {
        lemma_trim_end_edge(s.drop_last());
    }
}

/// A text without a certain character, then that character and a rest: the first
/// such character is the one between them.
pub proof fn cut_between(front: Seq<char>, c: char, rest: Seq<char>)
    requires
        !front.contains(c),
    ensures
        before(front + seq![c] + rest, c) == front,
        after(front + seq![c] + rest, c) == Some(rest),
{
    let whole = front + seq![c] + rest;
    lemma_position_behind(front, seq![c] + rest, c);
    assert(whole == front + (seq![c] + rest));
    assert((seq![c] + rest).first() == c);
    assert(position(seq![c] + rest, c) == 0);
    assert(whole.take(front.len() as int) == front);
    assert(whole.skip(front.len() as int + 1) == rest);
}

/// A text without a certain character is not cut there.
pub proof fn cut_nowhere(s: Seq<char>, c: char)
    requires
        !s.contains(c),
    ensures
        before(s, c) == s,
        after(s, c) is None,
{
    lemma_position_behind(s, Seq::empty(), c);
    assert(s + Seq::<char>::empty() == s);
    assert(s.take(s.len() as int) == s);
}

proof fn lemma_position_behind(front: Seq<char>, rest: Seq<char>, c: char)
    requires
        !front.contains(c),
    ensures
        position(front + rest, c) == front.len() + position(rest, c),
    decreases front.len(),
{
    if front.len() == 0 {
        assert(front + rest == rest);
    } else {
        let shorter = front.drop_first();
        assert(front[0] != c);
        assert forall|i: int| 0 <= i < shorter.len() implies shorter[i] != c by {
            assert(shorter[i] == front[i + 1]);
        }
        assert((front + rest).drop_first() == shorter + rest);
        lemma_position_behind(shorter, rest, c);
    }
}

/// What a cut takes from the front of a text holds no such character, and all of the
/// text is there.
pub proof fn cut_is_first(s: Seq<char>, c: char)
    ensures
        !before(s, c).contains(c),
        match after(s, c) {
            Some(rest) => s == before(s, c) + seq![c] + rest,
            None => s == before(s, c),
        },
{
    lemma_position_is_first(s, c);
    if after(s, c) is Some {
        assert(s =~= before(s, c) + seq![c] + after(s, c)->0);
    } else {
        assert(s =~= before(s, c));
    }
}

proof fn lemma_position_is_first(s: Seq<char>, c: char)
    ensures
        position(s, c) <= s.len(),
        position(s, c) < s.len() ==> s[position(s, c) as int] == c,
        forall|i: int| 0 <= i < position(s, c) ==> #[trigger] s[i] != c,
    decreases s.len(),
{
    if s.len() > 0 && s.first() != c {
        let rest = s.drop_first();
        lemma_position_is_first(rest, c);
        assert forall|i: int| 0 <= i < position(s, c) implies #[trigger] s[i] != c by {
            if i > 0 {
                assert(rest[i - 1] == s[i]);
            }
        }
    }
}

/// Trimming adds no character.
pub proof fn trim_adds_nothing(s: Seq<char>, c: char)
    requires
        trim(s).contains(c),
    ensures
        s.contains(c),
{
    lemma_trim_start_part(s);
    lemma_trim_end_part(trim_start(s));
    let i = choose|i: int| 0 <= i < trim(s).len() && trim(s)[i] == c;
    let cut = s.len() - trim_start(s).len();
    assert(trim(s)[i] == trim_start(s)[i]);
    assert(trim_start(s)[i] == s[cut + i]);
}

proof fn lemma_trim_start_part(s: Seq<char>)
    ensures
        trim_start(s).len() <= s.len(),
        trim_start(s) == s.skip(s.len() - trim_start(s).len()),
    decreases s.len(),
{
    if s.len() > 0 && is_white(s.first()) {
        lemma_trim_start_part(s.drop_first());
        assert(trim_start(s) =~= s.skip(s.len() - trim_start(s).len()));
    } else {
        assert(s.skip(0) == s);
    }
}

proof fn lemma_trim_end_part(s: Seq<char>)
    ensures
        trim_end(s).len() <= s.len(),
        trim_end(s) == s.take(trim_end(s).len() as int),
    decreases s.len(),
{
    if s.len() > 0 && is_white(s.last()) {
        lemma_trim_end_part(s.drop_last());
        assert(trim_end(s) =~= s.take(trim_end(s).len() as int));
    } else {
        assert(s.take(s.len() as int) == s);
    }
}

/// Whether every character of a text is whitespace.
pub open spec fn all_white(s: Seq<char>) -> bool {
    forall|i: int| 0 <= i < s.len() ==> is_white(#[trigger] s[i])
}

/// Whether a text neither begins nor ends with whitespace.
pub open spec fn is_bare(s: Seq<char>) -> bool {
    s.len() > 0 ==> !is_white(s[0]) && !is_white(s[s.len() - 1])
}

/// Among the ASCII characters the space and the five control characters from tab to
/// carriage return are whitespace, and no other.
pub proof fn ascii_whitespace(c: char)
    requires
        (c as u32) < 128,
    ensures
        is_white(c) <==> c as u32 == 32 || 9 <= c as u32 <= 13,
{
}

/// Beyond ASCII seventeen characters and the two separators of lines and paragraphs are
/// whitespace, by their code points.
pub proof fn other_whitespace(c: char)
    requires
        c as u32 >= 128,
    ensures
        is_white(c) <==> {
            ||| c as u32 == 0x85
            ||| c as u32 == 0xa0
            ||| c as u32 == 0x1680
            ||| 0x2000 <= c as u32 <= 0x200a
            ||| 0x2028 <= c as u32 <= 0x2029
            ||| c as u32 == 0x202f
            ||| c as u32 == 0x205f
            ||| c as u32 == 0x3000
        },
{
}

/// Trimming finds the bare text that stands between whitespace, character for
/// character.
pub proof fn trim_finds_the_bare_text(front: Seq<char>, bare: Seq<char>, back: Seq<char>)
    requires
        all_white(front),
        is_bare(bare),
        all_white(back),
    ensures
        trim(front + bare + back) == bare,
{
    assert(front + bare + back =~= front + (bare + back));
    if bare.len() == 0 {
        assert(bare + back =~= back);
        assert(all_white(front + back)) by {
            assert forall|i: int| 0 <= i < (front + back).len() implies is_white(
                #[trigger] (front + back)[i],
            ) by {
                if i < front.len() {
                    assert(is_white(front[i]));
                } else {
                    assert(is_white(back[i - front.len()]));
                }
            }
        }
        lemma_trim_start_of_white(front + back, Seq::empty());
        assert(front + back + Seq::<char>::empty() =~= front + back);
        assert(trim(front + bare + back) =~= bare);
    } else {
        lemma_trim_start_of_white(front, bare + back);
        assert((bare + back)[0] == bare[0]);
        assert(trim_start(bare + back) == bare + back);
        lemma_trim_end_of_white(bare, back);
        assert(trim_end(bare) == bare);
    }
}

proof fn lemma_trim_start_of_white(front: Seq<char>, rest: Seq<char>)
    requires
        all_white(front),
    ensures
        trim_start(front + rest) == trim_start(rest),
    decreases front.len(),
{
    if front.len() == 0 {
        assert(front + rest =~= rest);
    } else {
        let shorter = front.drop_first();
        assert forall|i: int| 0 <= i < shorter.len() implies is_white(#[trigger] shorter[i]) by {
            assert(shorter[i] == front[i + 1]);
        }
        assert(is_white(front[0]));
        assert((front + rest).drop_first() =~= shorter + rest);
        lemma_trim_start_of_white(shorter, rest);
    }
}

proof fn lemma_trim_end_of_white(rest: Seq<char>, back: Seq<char>)
    requires
        all_white(back),
    ensures
        trim_end(rest + back) == trim_end(rest),
    decreases back.len(),
{
    if back.len() == 0 {
        assert(rest + back =~= rest);
    } else {
        let shorter = back.drop_last();
        assert forall|i: int| 0 <= i < shorter.len() implies is_white(#[trigger] shorter[i]) by {
            assert(shorter[i] == back[i]);
        }
        assert(is_white(back[back.len() - 1]));
        assert((rest + back).drop_last() =~= rest + shorter);
        lemma_trim_end_of_white(rest, shorter);
    }
}

/// Taking off the end of a line leaves what stands before its carriage returns and line
/// feeds, character for character.
pub proof fn line_ends_are_taken_off(line: Seq<char>, ends: Seq<char>)
    requires
        line.len() > 0 ==> line[line.len() - 1] != '\r' && line[line.len() - 1] != '\n',
        forall|i: int| 0 <= i < ends.len() ==> #[trigger] ends[i] == '\r' || ends[i] == '\n',
    ensures
        trim_line_end(line + ends) == line,
    decreases ends.len(),
{
    if ends.len() == 0 {
        assert(line + ends =~= line);
    } else {
        let shorter = ends.drop_last();
        assert forall|i: int| 0 <= i < shorter.len() implies #[trigger] shorter[i] == '\r'
            || shorter[i] == '\n' by {
            assert(shorter[i] == ends[i]);
        }
        assert((line + ends).last() == ends[ends.len() - 1]);
        assert((line + ends).drop_last() =~= line + shorter);
        line_ends_are_taken_off(line, shorter);
    }
}

/// The ten digits denote the numbers from zero to nine.
pub proof fn digits_in_order(d: int)
    requires
        0 <= d < 10,
    ensures
        digits_value(seq!["0123456789"@[d]]) == d,
        decimal(d as nat) == seq!["0123456789"@[d]],
        is_digit("0123456789"@[d]),
{
    reveal_strlit("0123456789");
    let c = "0123456789"@[d];
    assert(c as u32 == '0' as u32 + d);
    assert(seq![c].drop_last() =~= Seq::<char>::empty());
    assert(digits_value(Seq::<char>::empty()) == 0);
    assert(digit(d as nat) == c);
}

/// Digits are counted in base ten: digits in front of others count for as many powers
/// of ten as stand behind them.
pub proof fn digits_count_in_tens(front: Seq<char>, back: Seq<char>)
    ensures
        digits_value(front + back) == digits_value(front) * vstd::arithmetic::power::pow(
            10,
            back.len(),
        ) + digits_value(back),
    decreases back.len(),
{
    reveal(vstd::arithmetic::power::pow);
    if back.len() == 0 {
        assert(front + back =~= front);
        assert(vstd::arithmetic::power::pow(10, 0) == 1);
    } else {
        let shorter = back.drop_last();
        assert((front + back).drop_last() =~= front + shorter);
        assert((front + back).last() == back.last());
        digits_count_in_tens(front, shorter);
        let (v, p, q) = (
            digits_value(front) as int,
            vstd::arithmetic::power::pow(10, shorter.len()),
            digits_value(shorter) as int,
        );
        assert(vstd::arithmetic::power::pow(10, back.len()) == 10 * p);
        assert((v * p + q) * 10 == v * (10 * p) + q * 10) by (nonlinear_arith);
    }
}

/// Which texts spell a number: digits alone, with or without a plus sign in front, as
/// long as what they denote is within the range of `u64`.
pub proof fn numbers_are_digits(digits: Seq<char>)
    requires
        digits.len() > 0,
        forall|i: int| 0 <= i < digits.len() ==> '0' <= #[trigger] digits[i] <= '9',
    ensures
        digits_value(digits) <= u64::MAX ==> parsed_u64(digits) == Some(
            digits_value(digits) as u64,
        ) && parsed_u64(seq!['+'] + digits) == Some(digits_value(digits) as u64),
        digits_value(digits) > u64::MAX ==> parsed_u64(digits) is None && parsed_u64(
            seq!['+'] + digits,
        ) is None,
{
    assert((seq!['+'] + digits).drop_first() =~= digits);
    assert(digits[0] != '+');
}

/// A text with any other character, or without a digit, spells no number.
pub proof fn other_texts_are_no_numbers(s: Seq<char>, i: int)
    requires
        s.len() == 0 || s == seq!['+'] || (0 <= i < s.len() && !('0' <= s[i] <= '9') && (i > 0
            || s[0] != '+')),
    ensures
        parsed_u64(s) is None,
{
    if s == seq!['+'] {
        assert(s.drop_first().len() == 0);
    } else if s.len() > 0 {
        let digits = unsigned_digits(s);
        if s[0] == '+' {
            assert(digits[i - 1] == s[i]);
        } else {
            assert(digits[i] == s[i]);
        }
        if all_digits(digits) {
            assert(is_digit(s[i]));
        }
    }
}

/// No number is written with a zero in front, but zero itself.
pub proof fn decimal_has_no_leading_zero(n: nat)
    ensures
        n > 0 ==> decimal(n)[0] != '0',
    decreases n,
{
    if n >= 10 {
        decimal_has_no_leading_zero(n / 10);
        decimal_is_digits(n / 10);
        assert(decimal(n)[0] == decimal(n / 10)[0]);
    }
}

/// A negative number is a minus sign and its amount, any other its amount alone.
pub proof fn signs_stand_in_front(n: nat)
    ensures
        signed_decimal(n as int) == decimal(n),
        n > 0 ==> signed_decimal(-n) == seq!['-'] + decimal(n),
{
}

/// Lowering keeps the length of a text and every character but the capital letters,
/// which become the letters at the same place of the small alphabet.
pub proof fn lowering_is_by_the_alphabet(s: Seq<char>, i: int, letter: int)
    requires
        0 <= i < s.len(),
        0 <= letter < 26,
    ensures
        ascii_lower(s).len() == s.len(),
        s[i] == "ABCDEFGHIJKLMNOPQRSTUVWXYZ"@[letter] ==> ascii_lower(s)[i]
            == "abcdefghijklmnopqrstuvwxyz"@[letter],
        (s[i] < 'A' || s[i] > 'Z') ==> ascii_lower(s)[i] == s[i],
{
    reveal_strlit("ABCDEFGHIJKLMNOPQRSTUVWXYZ");
    reveal_strlit("abcdefghijklmnopqrstuvwxyz");
    assert("ABCDEFGHIJKLMNOPQRSTUVWXYZ"@[letter] as u32 == 65 + letter);
    assert("abcdefghijklmnopqrstuvwxyz"@[letter] as u32 == 97 + letter);
    assert(ascii_lower(s)[i] == ascii_lower_char(s[i]));
}

/// The first character in which two texts differ decides their order, and a text comes
/// before every longer one that it begins.
pub proof fn first_difference_decides(
    same: Seq<char>,
    a: char,
    after_a: Seq<char>,
    b: char,
    after_b: Seq<char>,
)
    requires
        a != b,
    ensures
        text_at_most(same + seq![a] + after_a, same + seq![b] + after_b) <==> (a as u32) < (
        b as u32),
        text_at_most(same, same + seq![b] + after_b),
        !text_at_most(same + seq![b] + after_b, same),
    decreases same.len(),
{
    let (left, right) = (same + seq![a] + after_a, same + seq![b] + after_b);
    if same.len() == 0 {
        assert(left[0] == a && right[0] == b);
    } else {
        let shorter = same.drop_first();
        assert(left[0] == same[0] && right[0] == same[0]);
        assert(left.drop_first() =~= shorter + seq![a] + after_a);
        assert(right.drop_first() =~= shorter + seq![b] + after_b);
        first_difference_decides(shorter, a, after_a, b, after_b);
    }
}

}
