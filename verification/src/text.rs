//! Text building blocks shared by every subsystem.
//!
//! Messages, identifiers and settings are compared and printed in many places.
//! The functions here do that on the characters of a string, so that each
//! caller can state its text exactly.

use vstd::prelude::*;

verus! {

/// `String::push` appends one character to the end of the string.
pub assume_specification[ String::push ](s: &mut String, c: char)
    ensures
        final(s)@ == old(s)@.push(c),
;

/// The character that stands for the digit `d` in bases up to sixteen.
pub open spec fn digit(d: nat) -> char {
    if d < 10 {
        (48 + d) as char
    } else {
        (87 + d) as char
    }
}

/// The decimal numeral of `n`, without leading zeros.
pub open spec fn decimal(n: nat) -> Seq<char>
    decreases n,
{
    if n < 10 {
        seq![digit(n)]
    } else {
        decimal(n / 10).push(digit(n % 10))
    }
}

/// The last `width` digits of `n` in `base`, padded with zeros.
pub open spec fn padded(n: nat, base: nat, width: nat) -> Seq<char>
    decreases width,
{
    if width == 0 {
        Seq::empty()
    } else {
        padded(n / base, base, (width - 1) as nat).push(digit(n % base))
    }
}

fn digit_char(d: u8) -> (c: char)
    requires
        d < 16,
    ensures
        c == digit(d as nat),
{
    if d < 10 {
        (48 + d) as char
    } else {
        (87 + d) as char
    }
}

/// Appends the decimal numeral of `n` to `out`.
pub fn push_decimal(out: &mut String, n: u128)
    ensures
        final(out)@ == old(out)@ + decimal(n as nat),
    decreases n,
{
    if n >= 10 {
        push_decimal(out, n / 10);
    }
    let d: u8 = (n % 10) as u8;
    out.push(digit_char(d));
    proof {
        if n < 10 {
            assert(old(out)@.push(digit(n as nat)) =~= old(out)@ + decimal(n as nat));
        } else {
            assert((old(out)@ + decimal((n / 10) as nat)).push(digit((n % 10) as nat)) =~= old(out)@
                + decimal(n as nat));
        }
    }
}

/// Appends the last `width` digits of `n` in `base` to `out`.
pub fn push_padded(out: &mut String, n: u128, base: u8, width: u8)
    requires
        2 <= base <= 16,
    ensures
        final(out)@ == old(out)@ + padded(n as nat, base as nat, width as nat),
    decreases width,
{
    if width > 0 {
        let b: u128 = base as u128;
        push_padded(out, n / b, base, width - 1);
        let d: u8 = (n % b) as u8;
        out.push(digit_char(d));
        proof {
            assert((old(out)@ + padded((n / b) as nat, base as nat, (width - 1) as nat)).push(
                digit((n % b) as nat),
            ) =~= old(out)@ + padded(n as nat, base as nat, width as nat));
        }
    } else {
        assert(old(out)@ =~= old(out)@ + padded(n as nat, base as nat, 0));
    }
}

/// Returns the characters of `s` in order.
pub fn chars_of(s: &str) -> (v: Vec<char>)
    ensures
        v@ == s@,
{
    let mut v: Vec<char> = Vec::new();
    for c in it: s.chars()
        invariant
            v@ == it.seq().take(it.index() as int),
            it.seq() == s@,
    {
        v.push(c);
        assert(v@ =~= it.seq().take(it.index() as int + 1));
    }
    assert(v@ =~= s@);
    v
}

/// Builds the string whose characters are `chars`.
pub fn string_of(chars: &[char]) -> (s: String)
    ensures
        s@ == chars@,
{
    let mut s = String::new();
    let mut i: usize = 0;
    while i < chars.len()
        invariant
            i <= chars@.len(),
            s@ == chars@.take(i as int),
        decreases chars@.len() - i,
    {
        s.push(chars[i]);
        i += 1;
        assert(s@ =~= chars@.take(i as int));
    }
    assert(s@ =~= chars@);
    s
}

/// Tells whether two strings hold the same characters.
pub fn same(a: &str, b: &str) -> (r: bool)
    ensures
        r == (a@ == b@),
{
    a.to_owned() == b.to_owned()
}

/// Characters with the Unicode `White_Space` property.
pub open spec fn is_space(c: char) -> bool {
    let n = c as u32;
    ||| 0x09 <= n <= 0x0d
    ||| n == 0x20
    ||| n == 0x85
    ||| n == 0xa0
    ||| n == 0x1680
    ||| 0x2000 <= n <= 0x200a
    ||| n == 0x2028
    ||| n == 0x2029
    ||| n == 0x202f
    ||| n == 0x205f
    ||| n == 0x3000
}

fn whitespace(c: char) -> (r: bool)
    ensures
        r == is_space(c),
{
    let n: u32 = c as u32;
    (0x09 <= n && n <= 0x0d) || n == 0x20 || n == 0x85 || n == 0xa0 || n == 0x1680 || (0x2000 <= n
        && n <= 0x200a) || n == 0x2028 || n == 0x2029 || n == 0x202f || n == 0x205f || n == 0x3000
}

/// `s` without its leading white space.
pub open spec fn trim_start(s: Seq<char>) -> Seq<char>
    decreases s.len(),
{
    if s.len() > 0 && is_space(s[0]) {
        trim_start(s.drop_first())
    } else {
        s
    }
}

/// `s` without its trailing white space.
pub open spec fn trim_end(s: Seq<char>) -> Seq<char>
    decreases s.len(),
{
    if s.len() > 0 && is_space(s.last()) {
        trim_end(s.drop_last())
    } else {
        s
    }
}

/// `s` without white space at either end.
pub open spec fn trimmed(s: Seq<char>) -> Seq<char> {
    trim_end(trim_start(s))
}

/// Returns `s` without white space at either end.
pub fn trim(s: &str) -> (r: String)
    ensures
        r@ == trimmed(s@),
{
    let chars = chars_of(s);
    let mut start: usize = 0;
    assert(chars@.skip(0) =~= chars@);
    while start < chars.len() && whitespace(chars[start])
        invariant
            start <= chars@.len(),
            trim_start(chars@.skip(start as int)) == trim_start(chars@),
        decreases chars@.len() - start,
    {
        assert(chars@.skip(start as int).drop_first() =~= chars@.skip(start as int + 1));
        start += 1;
    }
    let ghost kept = chars@.skip(start as int);
    assert(trim_start(chars@) == kept);
    let mut end: usize = chars.len();
    assert(chars@.subrange(start as int, end as int) =~= kept);
    while end > start && whitespace(chars[end - 1])
        invariant
            start <= end <= chars@.len(),
            kept == chars@.skip(start as int),
            trim_end(chars@.subrange(start as int, end as int)) == trim_end(kept),
        decreases end,
    {
        assert(chars@.subrange(start as int, end as int).drop_last() =~= chars@.subrange(
            start as int,
            end as int - 1,
        ));
        end -= 1;
    }
    string_of(vstd::slice::slice_subrange(chars.as_slice(), start, end))
}

/// `c` with an upper-case ASCII letter turned into its lower-case form.
pub open spec fn lower(c: char) -> char {
    if 'A' <= c <= 'Z' {
        (c as u32 + 32) as char
    } else {
        c
    }
}

/// `s` with its upper-case ASCII letters turned into lower case.
pub open spec fn lowered(s: Seq<char>) -> Seq<char> {
    s.map_values(|c: char| lower(c))
}

/// Returns `s` with its upper-case ASCII letters turned into lower case.
pub fn lowercase(s: &str) -> (r: String)
    ensures
        r@ == lowered(s@),
{
    let chars = chars_of(s);
    let mut r = String::new();
    let mut i: usize = 0;
    while i < chars.len()
        invariant
            i <= chars@.len(),
            r@ == lowered(chars@.take(i as int)),
        decreases chars@.len() - i,
    {
        let c: char = chars[i];
        let n: u32 = c as u32;
        if 65 <= n && n <= 90 {
            r.push(((n as u8) + 32) as char);
        } else {
            r.push(c);
        }
        i += 1;
        assert(r@ =~= lowered(chars@.take(i as int)));
    }
    assert(chars@.take(i as int) =~= s@);
    r
}

/// Dictionary order on characters: `a` stands strictly before `b`.
pub open spec fn precedes(a: Seq<char>, b: Seq<char>) -> bool
    decreases a.len(),
{
    if b.len() == 0 {
        false
    } else if a.len() == 0 {
        true
    } else if a[0] != b[0] {
        (a[0] as int) < (b[0] as int)
    } else {
        precedes(a.drop_first(), b.drop_first())
    }
}

/// No string stands before itself.
pub proof fn precedes_irreflexive(a: Seq<char>)
    ensures
        !precedes(a, a),
    decreases a.len(),
{
    if a.len() > 0 {
        precedes_irreflexive(a.drop_first());
    }
}

/// Dictionary order is transitive.
pub proof fn precedes_transitive(a: Seq<char>, b: Seq<char>, c: Seq<char>)
    requires
        precedes(a, b),
        precedes(b, c),
    ensures
        precedes(a, c),
    decreases a.len(),
{
    if a.len() > 0 && a[0] == b[0] && b[0] == c[0] {
        precedes_transitive(a.drop_first(), b.drop_first(), c.drop_first());
    }
}

/// Of two different strings one stands before the other.
pub proof fn precedes_total(a: Seq<char>, b: Seq<char>)
    ensures
        a == b || precedes(a, b) || precedes(b, a),
    decreases a.len(),
{
    if a.len() == 0 {
        if b.len() == 0 {
            assert(a =~= b);
        }
    } else if b.len() > 0 && a[0] == b[0] {
        precedes_total(a.drop_first(), b.drop_first());
        if a.drop_first() == b.drop_first() {
            assert(a =~= seq![a[0]] + a.drop_first());
            assert(b =~= seq![b[0]] + b.drop_first());
        }
    }
}

fn code_point(c: char) -> (n: u32)
    ensures
        n == c as int,
{
    c as u32
}

/// Tells whether `a` stands strictly before `b` in dictionary order.
pub fn before(a: &str, b: &str) -> (r: bool)
    ensures
        r == precedes(a@, b@),
{
    let x = chars_of(a);
    let y = chars_of(b);
    let mut i: usize = 0;
    assert(x@.skip(0) =~= x@);
    assert(y@.skip(0) =~= y@);
    while i < x.len() && i < y.len() && x[i] == y[i]
        invariant
            i <= x@.len(),
            i <= y@.len(),
            precedes(x@.skip(i as int), y@.skip(i as int)) == precedes(x@, y@),
        decreases x@.len() - i,
    {
        assert(x@.skip(i as int).drop_first() =~= x@.skip(i as int + 1));
        assert(y@.skip(i as int).drop_first() =~= y@.skip(i as int + 1));
        i += 1;
    }
    if i >= y.len() {
        false
    } else if i >= x.len() {
        true
    } else {
        code_point(x[i]) < code_point(y[i])
    }
}

/// Tells whether `c` is an ASCII decimal digit.
pub open spec fn is_digit(c: char) -> bool {
    '0' <= c <= '9'
}

/// Tells whether every character of `s` is a decimal digit.
pub open spec fn all_digits(s: Seq<char>) -> bool {
    forall|i: int| 0 <= i < s.len() ==> is_digit(#[trigger] s[i])
}

/// The number that a string of decimal digits denotes.
pub open spec fn digits_value(s: Seq<char>) -> nat
    decreases s.len(),
{
    if s.len() == 0 {
        0
    } else {
        digits_value(s.drop_last()) * 10 + (s.last() as u32 - 48) as nat
    }
}

/// The digits of an unsigned numeral: `s` without one leading plus sign.
pub open spec fn unsigned_body(s: Seq<char>) -> Seq<char> {
    if s.len() > 0 && s[0] == '+' {
        s.skip(1)
    } else {
        s
    }
}

/// The number that `s` denotes, if it is a non-empty run of digits, after an
/// optional plus sign, for a number that is at most `max`.
pub open spec fn parsed(s: Seq<char>, max: nat) -> Option<nat> {
    let body = unsigned_body(s);
    if body.len() > 0 && all_digits(body) && digits_value(body) <= max {
        Some(digits_value(body))
    } else {
        None
    }
}

proof fn digits_value_grows(s: Seq<char>, n: int)
    requires
        0 <= n <= s.len(),
    ensures
        digits_value(s.take(n)) <= digits_value(s),
    decreases s.len(),
{
    if n < s.len() {
        digits_value_grows(s.drop_last(), n);
        assert(s.drop_last().take(n) =~= s.take(n));
    } else {
        assert(s.take(n) =~= s);
    }
}

fn parse_digits(body: &[char], max: u64) -> (r: Option<u64>)
    ensures
        match r {
            Some(n) => all_digits(body@) && digits_value(body@) == n && n <= max,
            None => !all_digits(body@) || digits_value(body@) > max,
        },
{
    let mut i: usize = 0;
    let mut n: u64 = 0;
    while i < body.len()
        invariant
            i <= body@.len(),
            n <= max,
            n == digits_value(body@.take(i as int)),
            all_digits(body@.take(i as int)),
        decreases body@.len() - i,
    {
        let c: u32 = code_point(body[i]);
        if c < 48 || c > 57 {
            assert(!is_digit(body@[i as int]));
            return None;
        }
        assert(body@.take(i as int + 1).drop_last() =~= body@.take(i as int));
        proof {
            digits_value_grows(body@, i as int + 1);
        }
        let next: u128 = (n as u128) * 10 + ((c - 48) as u128);
        if next > max as u128 {
            return None;
        }
        n = next as u64;
        assert(forall|j: int| 0 <= j < i ==> body@.take(i as int)[j] == body@[j]);
        i += 1;
    }
    assert(body@.take(i as int) =~= body@);
    Some(n)
}

/// Parses an unsigned decimal number of at most `max`.
pub fn parse_unsigned(s: &str, max: u64) -> (r: Option<u64>)
    ensures
        match r {
            Some(n) => parsed(s@, max as nat) == Some(n as nat),
            None => parsed(s@, max as nat) is None,
        },
{
    let chars = chars_of(s);
    let start: usize = if chars.len() > 0 && chars[0] == '+' {
        1
    } else {
        0
    };
    let body = vstd::slice::slice_subrange(chars.as_slice(), start, chars.len());
    assert(body@ =~= unsigned_body(s@));
    if body.len() == 0 {
        return None;
    }
    parse_digits(body, max)
}

/// A numeral reads back as its number, has nothing but digits, and starts with a zero
/// only for zero itself.
pub proof fn numerals_read_back(n: nat, max: nat)
    ensures
        all_digits(decimal(n)),
        digits_value(decimal(n)) == n,
        parsed(decimal(n), max) == if n <= max {
            Some(n)
        } else {
            None
        },
        n > 0 ==> decimal(n)[0] != '0',
        decimal(n).len() > 0,
{
    numerals_hold_digits(n);
    assert(unsigned_body(decimal(n)) == decimal(n));
}

proof fn numerals_hold_digits(n: nat)
    ensures
        decimal(n).len() > 0,
        all_digits(decimal(n)),
        digits_value(decimal(n)) == n,
        n > 0 ==> decimal(n)[0] != '0',
    decreases n,
{
    let s = decimal(n);
    if n < 10 {
        assert(s.drop_last() =~= Seq::empty());
        assert(digits_value(s.drop_last()) == 0);
        assert(s.last() as u32 == 48 + n);
    } else {
        numerals_hold_digits(n / 10);
        assert(s.drop_last() =~= decimal(n / 10));
        assert(s.last() as u32 == 48 + n % 10);
        assert forall|i: int| 0 <= i < s.len() implies is_digit(#[trigger] s[i]) by {
            if i < decimal(n / 10).len() {
                assert(s[i] == decimal(n / 10)[i]);
            }
        }
    }
}

/// What reads as a number: digits, at least one, with a plus sign before them or not.
/// Each digit further left weighs ten times as much.
pub proof fn numbers_are_runs_of_digits(s: Seq<char>, c: char, max: nat)
    ensures
        parsed(s, max) is Some ==> parsed(s, max)->0 <= max,
        all_digits(s) && s.len() > 0 && digits_value(s) <= max ==> parsed(s, max) == Some(
            digits_value(s),
        ) && parsed(seq!['+'] + s, max) == parsed(s, max),
        s.len() > 0 && s[0] != '+' && !all_digits(s) ==> parsed(s, max) is None,
        s.len() == 0 ==> parsed(s, max) is None && parsed(seq!['+'], max) is None,
        is_digit(c) ==> digits_value(s.push(c)) == 10 * digits_value(s) + (c as int - '0' as int),
{
    assert(s.push(c).drop_last() =~= s);
    assert((seq!['+'] + s).skip(1) =~= s);
    assert(seq!['+'].skip(1) =~= Seq::<char>::empty());
    if all_digits(s) && s.len() > 0 {
        assert(is_digit(s[0]));
    }
}

/// The numeral of a given width has one digit for each place, from the last one up.
pub proof fn padded_numerals_have_a_digit_for_each_place(n: nat, base: nat, width: nat, i: nat)
    requires
        base > 0,
        i < width,
    ensures
        padded(n, base, width).len() == width,
        padded(n, base, width)[width - 1 - i] == digit(
            (n as int / vstd::arithmetic::power::pow(base as int, i) % base as int) as nat,
        ),
    decreases width,
{
    let b = base as int;
    vstd::arithmetic::power::lemma_pow0(b);
    padded_numerals_are_as_wide(n, base, width);
    padded_numerals_are_as_wide(n / base, base, (width - 1) as nat);
    if i > 0 {
        let j = (i - 1) as nat;
        padded_numerals_have_a_digit_for_each_place(n / base, base, (width - 1) as nat, j);
        vstd::arithmetic::power::lemma_pow_positive(b, j);
        vstd::arithmetic::div_mod::lemma_div_denominator(
            n as int,
            b,
            vstd::arithmetic::power::pow(b, j),
        );
        assert(vstd::arithmetic::power::pow(b, i) == b * vstd::arithmetic::power::pow(b, j)) by {
            reveal(vstd::arithmetic::power::pow);
        }
    }
}

proof fn padded_numerals_are_as_wide(n: nat, base: nat, width: nat)
    requires
        base > 0,
    ensures
        padded(n, base, width).len() == width,
    decreases width,
{
    if width > 0 {
        padded_numerals_are_as_wide(n / base, base, (width - 1) as nat);
    }
}

/// Digits stand for their values: those below ten by a numeral, those up to fifteen by
/// a lower-case letter.
pub proof fn digits_stand_for_their_values(d: nat)
    requires
        d < 16,
    ensures
        d < 10 ==> is_digit(digit(d)) && digit(d) as int == '0' as int + d,
        d >= 10 ==> digit(d) as int == 'a' as int + (d - 10),
{
}

/// Trimming takes white space off both ends, all of it and nothing else: what is left
/// stands in the text with only white space around it, and neither begins nor ends
/// with any.
pub proof fn trimming_takes_the_white_space_off(s: Seq<char>)
    ensures
        exists|a: int, b: int|
            {
                &&& 0 <= a <= b <= s.len()
                &&& #[trigger] s.subrange(a, b) == trimmed(s)
                &&& forall|i: int| 0 <= i < a || b <= i < s.len() ==> is_space(#[trigger] s[i])
            },
        trimmed(s).len() > 0 ==> !is_space(trimmed(s)[0]) && !is_space(trimmed(s).last()),
{
    starts_are_trimmed(s);
    let t = trim_start(s);
    ends_are_trimmed(t);
    let a = s.len() - t.len();
    let b = a + trimmed(s).len();
    assert(s.subrange(a, b) =~= trimmed(s));
    assert forall|i: int| 0 <= i < a || b <= i < s.len() implies is_space(#[trigger] s[i]) by {
        if b <= i {
            assert(t[i - a] == s[i]);
        }
    }
}

proof fn starts_are_trimmed(s: Seq<char>)
    ensures
        trim_start(s).len() <= s.len(),
        trim_start(s) == s.skip(s.len() - trim_start(s).len()),
        forall|i: int| 0 <= i < s.len() - trim_start(s).len() ==> is_space(#[trigger] s[i]),
        trim_start(s).len() > 0 ==> !is_space(trim_start(s)[0]),
    decreases s.len(),
{
    if s.len() > 0 && is_space(s[0]) {
        let rest = s.drop_first();
        starts_are_trimmed(rest);
        assert(trim_start(s) =~= s.skip(s.len() - trim_start(s).len()));
        assert forall|i: int| 0 <= i < s.len() - trim_start(s).len() implies is_space(
            #[trigger] s[i],
        ) by {
            if i > 0 {
                assert(rest[i - 1] == s[i]);
            }
        }
    } else {
        assert(s.skip(0) =~= s);
    }
}

proof fn ends_are_trimmed(s: Seq<char>)
    ensures
        trim_end(s).len() <= s.len(),
        trim_end(s) == s.take(trim_end(s).len() as int),
        forall|i: int| trim_end(s).len() <= i < s.len() ==> is_space(#[trigger] s[i]),
        trim_end(s).len() > 0 ==> !is_space(trim_end(s).last()),
    decreases s.len(),
{
    if s.len() > 0 && is_space(s.last()) {
        let rest = s.drop_last();
        ends_are_trimmed(rest);
        assert(trim_end(s) =~= s.take(trim_end(s).len() as int));
        assert forall|i: int| trim_end(s).len() <= i < s.len() implies is_space(
            #[trigger] s[i],
        ) by {
            if i < rest.len() {
                assert(rest[i] == s[i]);
            }
        }
    } else {
        assert(s.take(s.len() as int) =~= s);
    }
}

/// What is white space: blanks, tabs and line ends are, and no character that can be
/// seen in ASCII is.
pub proof fn white_space_cannot_be_seen(c: char)
    ensures
        is_space(' ') && is_space('\t') && is_space('\n') && is_space('\r'),
        '!' <= c <= '~' ==> !is_space(c),
{
}

/// Lower case keeps every character in its place: a capital from A to Z becomes the
/// small letter, and any other stays as it is. Doing it again changes nothing.
pub proof fn lower_case_changes_capitals_only(s: Seq<char>, i: int)
    requires
        0 <= i < s.len(),
    ensures
        lowered(s).len() == s.len(),
        'A' <= s[i] <= 'Z' ==> lowered(s)[i] as int - 'a' as int == s[i] as int - 'A' as int,
        !('A' <= s[i] <= 'Z') ==> lowered(s)[i] == s[i],
        lowered(lowered(s)) == lowered(s),
{
    assert(lowered(lowered(s)) =~= lowered(s));
}

/// Dictionary order: the first character in which two texts differ decides, and where
/// there is none, the shorter one stands before the longer.
pub proof fn the_first_difference_decides(a: Seq<char>, b: Seq<char>, k: int)
    requires
        0 <= k <= a.len(),
        k <= b.len(),
        a.take(k) == b.take(k),
        k < a.len() && k < b.len() ==> a[k] != b[k],
    ensures
        k < a.len() && k < b.len() ==> (precedes(a, b) <==> (a[k] as int) < (b[k] as int)),
        k == a.len() ==> (precedes(a, b) <==> a.len() < b.len()),
        k == b.len() ==> !precedes(a, b),
    decreases k,
{
    if k > 0 {
        assert(a[0] == a.take(k)[0] && b[0] == b.take(k)[0]);
        assert(a.drop_first().take(k - 1) =~= a.take(k).drop_first());
        assert(b.drop_first().take(k - 1) =~= b.take(k).drop_first());
        the_first_difference_decides(a.drop_first(), b.drop_first(), k - 1);
    }
}

} // verus!
