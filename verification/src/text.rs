use vstd::prelude::*;
use vstd::std_specs::iter::IteratorSpec;
use vstd::string::*;

verus! {

/// Whether a character has the Unicode `Alphabetic` property.
pub uninterp spec fn alphabetic(c: char) -> bool;

/// Whether a character belongs to one of the Unicode numeric categories.
pub uninterp spec fn numeric(c: char) -> bool;

/// The quoted and escaped form in which `Debug` prints a string.
pub uninterp spec fn quoted(s: Seq<char>) -> Seq<char>;

/// Calls `char::is_alphabetic`. The Unicode tables behind it are not restated:
/// the contract only gives the answer the name [`alphabetic`].
#[verifier::external_body]
pub(crate) fn char_is_alphabetic(c: char) -> (r: bool)
    ensures
        r == alphabetic(c),
{
    c.is_alphabetic()
}

/// Calls `char::is_numeric`. The Unicode tables behind it are not restated:
/// the contract only gives the answer the name [`numeric`].
#[verifier::external_body]
pub(crate) fn char_is_numeric(c: char) -> (r: bool)
    ensures
        r == numeric(c),
{
    c.is_numeric()
}

/// Calls `String::push`, which appends one character to the end of the string.
#[verifier::external_body]
pub(crate) fn push_char(s: &mut String, c: char)
    ensures
        final(s)@ == old(s)@.push(c),
{
    s.push(c)
}

/// Formats a string with `Debug`. The escaping rules are not restated: the
/// contract only gives the output the name [`quoted`].
#[verifier::external_body]
pub(crate) fn debug_quoted(s: &str) -> (r: String)
    ensures
        r@ == quoted(s@),
{
    format!("{:?}", s)
}

/// Whether two string slices hold the same characters.
pub(crate) fn same_text(a: &str, b: &str) -> (r: bool)
    ensures
        r == (a@ == b@),
{
    let x = a.to_owned();
    let y = b.to_owned();
    x == y
}

/// The characters of a string, in order.
pub(crate) fn chars_of(s: &str) -> (v: Vec<char>)
    ensures
        v@ == s@,
{
    broadcast use vstd::string::group_string_axioms;

    let mut v: Vec<char> = Vec::new();
    let mut it = s.chars();
    loop
        invariant
            it.obeys_prophetic_iter_laws(),
            v@ + it.remaining() == s@,
        ensures
            v@ == s@,
        decreases s@.len() - v@.len(),
    {
        match it.next() {
            Some(c) => {
                v.push(c);
            },
            None => {
                assert(v@ + it.remaining() =~= v@);
                break ;
            },
        }
    }
    v
}

/// The string made of `chars[from..to]`.
pub(crate) fn string_of(chars: &Vec<char>, from: usize, to: usize) -> (s: String)
    requires
        from <= to <= chars@.len(),
    ensures
        s@ == chars@.subrange(from as int, to as int),
{
    let mut s = String::new();
    let mut i: usize = from;
    while i < to
        invariant
            from <= i <= to <= chars@.len(),
            s@ == chars@.subrange(from as int, i as int),
        decreases to - i,
    {
        push_char(&mut s, chars[i]);
        i += 1;
        assert(s@ =~= chars@.subrange(from as int, i as int));
    }
    s
}

/// The character that writes the decimal digit `d`.
pub open spec fn digit_char(d: int) -> char
    recommends
        0 <= d < 10,
{
    ('0' as int + d) as char
}

/// Whether a character is one of `'0'` to `'9'`.
pub open spec fn is_decimal_digit(c: char) -> bool {
    '0' <= c && c <= '9'
}

/// The value of a decimal digit.
pub open spec fn digit_value(c: char) -> int
    recommends
        is_decimal_digit(c),
{
    c as int - '0' as int
}

/// Whether every character of `s` is a decimal digit.
pub open spec fn all_decimal_digits(s: Seq<char>) -> bool {
    forall|i: int| 0 <= i < s.len() ==> is_decimal_digit(#[trigger] s[i])
}

/// The number that a run of decimal digits denotes, most significant digit
/// first. The empty run denotes 0.
pub open spec fn decimal_value(s: Seq<char>) -> nat
    decreases s.len(),
{
    if s.len() == 0 {
        0
    } else {
        (decimal_value(s.drop_last()) * 10 + digit_value(s.last())) as nat
    }
}

/// The decimal digits of a natural number, without leading zeros.
pub open spec fn nat_text(n: nat) -> Seq<char>
    decreases n,
{
    if n < 10 {
        seq![digit_char(n as int)]
    } else {
        nat_text(n / 10).push(digit_char((n % 10) as int))
    }
}

/// The decimal text of an integer, with a leading `-` when it is negative.
pub open spec fn int_text(i: int) -> Seq<char> {
    if i < 0 {
        seq!['-'] + nat_text((-i) as nat)
    } else {
        nat_text(i as nat)
    }
}

fn push_nat(s: &mut String, n: u64)
    ensures
        final(s)@ == old(s)@ + nat_text(n as nat),
    decreases n,
{
    if n >= 10 {
        push_nat(s, n / 10);
    }
    let d: u8 = (n % 10) as u8;
    push_char(s, (48u8 + d) as char);
    assert(s@ =~= old(s)@ + nat_text(n as nat));
}

/// Appends the decimal text of `i` to `s`.
pub(crate) fn push_int(s: &mut String, i: i64)
    ensures
        final(s)@ == old(s)@ + int_text(i as int),
{
    if i < 0 {
        push_char(s, '-');
        let magnitude: u64 = ((-(i + 1)) as u64) + 1;
        push_nat(s, magnitude);
        assert(s@ =~= old(s)@ + int_text(i as int));
    } else {
        push_nat(s, i as u64);
    }
}

/// The decimal text of `i` as a new string.
pub(crate) fn int_to_string(i: i64) -> (s: String)
    ensures
        s@ == int_text(i as int),
{
    let mut s = String::new();
    push_int(&mut s, i);
    assert(s@ =~= int_text(i as int));
    s
}

/// Reads `chars[from..to]` as a decimal number.
///
/// Returns the number when every character of the run is a decimal digit
/// and the number fits in an `i64`, and `None` otherwise.
pub(crate) fn parse_decimal(chars: &Vec<char>, from: usize, to: usize) -> (r: Option<i64>)
    requires
        from <= to <= chars@.len(),
    ensures
        r is Some <==> fits_i64(chars@.subrange(from as int, to as int)),
        r is Some ==> r->0 == decimal_value(chars@.subrange(from as int, to as int)),
{
    let mut acc: i64 = 0;
    let mut i: usize = from;
    while i < to
        invariant
            from <= i <= to <= chars@.len(),
            all_decimal_digits(chars@.subrange(from as int, i as int)),
            acc == decimal_value(chars@.subrange(from as int, i as int)),
        decreases to - i,
    {
        let c = chars[i];
        let ghost run = chars@.subrange(from as int, to as int);
        let ghost next = chars@.subrange(from as int, i + 1);
        assert(next.drop_last() =~= chars@.subrange(from as int, i as int));
        assert(next.last() == c);
        if !('0' <= c && c <= '9') {
            assert(run[i - from] == c);
            return None;
        }
        let d: i64 = (c as u32 - 48) as i64;
        if acc > (i64::MAX - d) / 10 {
            proof {
                assert(decimal_value(next) > i64::MAX);
                if all_decimal_digits(run) {
                    lemma_decimal_value_prefix(run, i + 1 - from);
                    assert(run.take(i + 1 - from) =~= next);
                }
            }
            return None;
        }
        acc = acc * 10 + d;
        i += 1;
    }
    assert(chars@.subrange(from as int, i as int) == chars@.subrange(from as int, to as int));
    Some(acc)
}

/// Whether a run of characters is the decimal text of a number that an `i64`
/// can hold.
pub open spec fn fits_i64(s: Seq<char>) -> bool {
    all_decimal_digits(s) && decimal_value(s) <= i64::MAX
}

/// A prefix of a digit run denotes no more than the whole run.
pub proof fn lemma_decimal_value_prefix(s: Seq<char>, n: int)
    requires
        all_decimal_digits(s),
        0 <= n <= s.len(),
    ensures
        decimal_value(s.take(n)) <= decimal_value(s),
    decreases s.len(),
{
    if n < s.len() {
        lemma_decimal_value_prefix(s.drop_last(), n);
        assert(s.drop_last().take(n) =~= s.take(n));
        assert(is_decimal_digit(s[s.len() - 1]));
    } else {
        assert(s.take(n) =~= s);
    }
}

} // verus!
