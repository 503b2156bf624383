//! Text primitives shared by the counter-source parsers: splitting a source
//! into lines and fields, and reading decimal numbers.

use vstd::prelude::*;

verus! {

/// Separator classes used by the counter-source parsers.
#[derive(Clone, Copy, PartialEq, Eq, Structural, Debug)]
pub enum SepClass {
    /// Line breaks.
    Line,
    /// A single space, as between the fields of a CPU counter row.
    Space,
    /// ASCII whitespace.
    Whitespace,
    /// A decimal point, as in the uptime source.
    Dot,
}

pub open spec fn sep_matches(class: SepClass, c: char) -> bool {
    match class {
        SepClass::Line => c == '\n',
        SepClass::Space => c == ' ',
        SepClass::Whitespace => c == ' ' || c == '\t' || c == '\n' || c == '\r' || c == '\u{b}'
            || c == '\u{c}',
        SepClass::Dot => c == '.',
    }
}

/// Number of leading characters of `s` before the first separator of
/// `class`; the whole length when none occurs.
pub open spec fn prefix_len(s: Seq<char>, class: SepClass) -> nat
    decreases s.len(),
{
    if s.len() == 0 || sep_matches(class, s[0]) {
        0
    } else {
        1 + prefix_len(s.drop_first(), class)
    }
}

pub proof fn lemma_prefix_len_le(s: Seq<char>, class: SepClass)
    ensures
        prefix_len(s, class) <= s.len(),
    decreases s.len(),
{
    if s.len() == 0 || sep_matches(class, s[0]) {
    } else {
        lemma_prefix_len_le(s.drop_first(), class);
    }
}

/// The pieces of `s` between separators, one more than there are
/// separators: empty pieces are kept. With `SepClass::Line` this is how a
/// source splits into lines.
pub open spec fn spec_split_keep(s: Seq<char>, class: SepClass) -> Seq<Seq<char>>
    decreases s.len(),
    via spec_split_keep_dec
{
    let k = prefix_len(s, class) as int;
    if k == s.len() {
        seq![s]
    } else {
        seq![s.take(k)] + spec_split_keep(s.skip(k + 1), class)
    }
}

#[via_fn]
proof fn spec_split_keep_dec(s: Seq<char>, class: SepClass) {
    lemma_prefix_len_le(s, class);
}

/// The maximal nonempty runs of non-separator characters of `s`: how a line
/// splits into fields.
pub open spec fn spec_tokens(s: Seq<char>, class: SepClass) -> Seq<Seq<char>>
    decreases s.len(),
    via spec_tokens_dec
{
    if s.len() == 0 {
        Seq::empty()
    } else if sep_matches(class, s[0]) {
        spec_tokens(s.drop_first(), class)
    } else {
        let k = prefix_len(s, class) as int;
        seq![s.take(k)] + spec_tokens(s.skip(k), class)
    }
}

#[via_fn]
proof fn spec_tokens_dec(s: Seq<char>, class: SepClass) {
    lemma_prefix_len_le(s, class);
}

pub fn char_in_class(c: char, class: SepClass) -> (r: bool)
    ensures
        r == sep_matches(class, c),
{
    match class {
        SepClass::Line => c == '\n',
        SepClass::Space => c == ' ',
        SepClass::Whitespace => c == ' ' || c == '\t' || c == '\n' || c == '\r' || c == '\u{b}'
            || c == '\u{c}',
        SepClass::Dot => c == '.',
    }
}

pub fn prefix_len_exec(s: &str, class: SepClass) -> (k: usize)
    ensures
        k == prefix_len(s@, class),
        k <= s@.len(),
{
    let n = s.unicode_len();
    let mut i: usize = 0;
    proof {
        assert(s@.skip(0) =~= s@);
    }
    while i < n
        invariant
            i <= n,
            n == s@.len(),
            prefix_len(s@, class) == i + prefix_len(s@.skip(i as int), class),
        decreases n - i,
    {
        let c = s.get_char(i);
        if char_in_class(c, class) {
            proof {
                assert(s@.skip(i as int)[0] == s@[i as int]);
                assert(prefix_len(s@.skip(i as int), class) == 0);
            }
            return i;
        }
        proof {
            assert(s@.skip(i as int).drop_first() =~= s@.skip(i as int + 1));
            assert(s@.skip(i as int)[0] == s@[i as int]);
        }
        i = i + 1;
    }
    proof {
        assert(s@.skip(n as int) =~= Seq::<char>::empty());
    }
    i
}

/// Split `s` at every separator of `class`, keeping empty pieces.
pub fn split_keep(s: &str, class: SepClass) -> (r: Vec<String>)
    ensures
        r.deep_view() == spec_split_keep(s@, class),
    decreases s@.len(),
{
    let n = s.unicode_len();
    let k = prefix_len_exec(s, class);
    if k == n {
        let piece = String::from_str(s);
        let mut r: Vec<String> = Vec::new();
        r.push(piece);
        proof {
            assert(r.deep_view() =~= spec_split_keep(s@, class));
        }
        r
    } else {
        let head = String::from_str(s.substring_char(0, k));
        let rest = s.substring_char(k + 1, n);
        let mut r = split_keep(rest, class);
        r.insert(0, head);
        proof {
            assert(rest@ =~= s@.skip(k + 1));
            assert(head@ =~= s@.take(k as int));
            assert(r.deep_view() =~= spec_split_keep(s@, class));
        }
        r
    }
}

/// Split `s` into its maximal nonempty fields.
pub fn split_tokens(s: &str, class: SepClass) -> (r: Vec<String>)
    ensures
        r.deep_view() == spec_tokens(s@, class),
    decreases s@.len(),
{
    let n = s.unicode_len();
    if n == 0 {
        let r: Vec<String> = Vec::new();
        proof {
            assert(r.deep_view() =~= spec_tokens(s@, class));
        }
        return r;
    }
    let c = s.get_char(0);
    if char_in_class(c, class) {
        let rest = s.substring_char(1, n);
        let r = split_tokens(rest, class);
        proof {
            assert(rest@ =~= s@.drop_first());
        }
        r
    } else {
        let k = prefix_len_exec(s, class);
        proof {
            assert(k >= 1) by {
                assert(prefix_len(s@, class) == 1 + prefix_len(s@.drop_first(), class));
            }
        }
        let head = String::from_str(s.substring_char(0, k));
        let rest = s.substring_char(k, n);
        let mut r = split_tokens(rest, class);
        r.insert(0, head);
        proof {
            assert(rest@ =~= s@.skip(k as int));
            assert(head@ =~= s@.take(k as int));
            assert(r.deep_view() =~= spec_tokens(s@, class));
        }
        r
    }
}

pub open spec fn is_digit(c: char) -> bool {
    48 <= c as u32 && c as u32 <= 57
}

pub open spec fn digit_val(c: char) -> nat {
    (c as u32 - 48) as nat
}

/// The value of a run of decimal digits, most significant first.
pub open spec fn digits_val(s: Seq<char>) -> nat
    decreases s.len(),
{
    if s.len() == 0 {
        0
    } else {
        digits_val(s.drop_last()) * 10 + digit_val(s.last())
    }
}

pub open spec fn all_digits(s: Seq<char>) -> bool {
    forall|i: int| 0 <= i < s.len() ==> is_digit(s[i])
}

proof fn lemma_digits_val_extend(s: Seq<char>, i: int)
    requires
        0 <= i < s.len(),
    ensures
        digits_val(s.take(i + 1)) == digits_val(s.take(i)) * 10 + digit_val(s[i]),
{
    assert(s.take(i + 1).drop_last() =~= s.take(i));
    assert(s.take(i + 1).last() == s[i]);
}

proof fn lemma_digits_val_prefix_le(s: Seq<char>, i: int, j: int)
    requires
        0 <= i <= j <= s.len(),
    ensures
        digits_val(s.take(i)) <= digits_val(s.take(j)),
    decreases j - i,
{
    if i < j {
        lemma_digits_val_prefix_le(s, i, j - 1);
        lemma_digits_val_extend(s, j - 1);
    }
}

/// The run of digits of a decimal literal, an optional sign removed.
pub open spec fn number_body(s: Seq<char>) -> Seq<char> {
    if s.len() > 0 && (s[0] == '+' || s[0] == '-') {
        s.drop_first()
    } else {
        s
    }
}

pub open spec fn number_is_negative(s: Seq<char>) -> bool {
    s.len() > 0 && s[0] == '-'
}

/// Whether `s` is a decimal literal that `u64::from_str` accepts: an
/// optional plus sign, then digits whose value fits in the type.
pub open spec fn spec_parses_u64(s: Seq<char>) -> bool {
    let b = number_body(s);
    !number_is_negative(s) && b.len() > 0 && all_digits(b) && digits_val(b) <= u64::MAX
}

pub open spec fn spec_u64_val(s: Seq<char>) -> nat {
    digits_val(number_body(s))
}

/// Whether `s` is a decimal literal that `i64::from_str` accepts.
pub open spec fn spec_parses_i64(s: Seq<char>) -> bool {
    let b = number_body(s);
    b.len() > 0 && all_digits(b) && (if number_is_negative(s) {
        digits_val(b) <= i64::MIN as int * -1
    } else {
        digits_val(b) <= i64::MAX
    })
}

pub open spec fn spec_i64_val(s: Seq<char>) -> int {
    if number_is_negative(s) {
        -1 * digits_val(number_body(s))
    } else {
        digits_val(number_body(s)) as int
    }
}

/// Reads the digits of `s@.skip(start as int)` as a decimal number of at
/// most `max`.
fn parse_digits(s: &str, start: usize, max: u64) -> (r: Option<u64>)
    requires
        start <= s@.len(),
    ensures
        (match r {
            Some(v) => {
                let b = s@.skip(start as int);
                b.len() > 0 && all_digits(b) && digits_val(b) == v && v <= max
            },
            None => {
                let b = s@.skip(start as int);
                !(b.len() > 0 && all_digits(b) && digits_val(b) <= max)
            },
        }),
{
    let ghost b = s@.skip(start as int);
    let n = s.unicode_len();
    if start == n {
        return None;
    }
    let mut acc: u64 = 0;
    let mut i = start;
    while i < n
        invariant
            start <= i <= n,
            n == s@.len(),
            b == s@.skip(start as int),
            b.len() == n - start,
            all_digits(b.take(i - start)),
            acc == digits_val(b.take(i - start)),
            acc <= max,
        decreases n - i,
    {
        let c = s.get_char(i);
        let u = c as u32;
        proof {
            assert(b[i - start] == s@[i as int]);
        }
        if u < 48 || u > 57 {
            proof {
                assert(!is_digit(b[i - start]));
            }
            return None;
        }
        let d = (u - 48) as u64;
        let next: u128 = acc as u128 * 10 + d as u128;
        proof {
            lemma_digits_val_extend(b, i - start);
        }
        if next > max as u128 {
            proof {
                assert(digits_val(b.take(i - start + 1)) == next);
                lemma_digits_val_prefix_le(b, i - start + 1, b.len() as int);
                assert(b.take(b.len() as int) =~= b);
                assert(digits_val(b) > max);
            }
            return None;
        }
        acc = next as u64;
        i = i + 1;
    }
    proof {
        assert(b.take(n - start) =~= b);
    }
    Some(acc)
}

/// Reads `s` as `str::parse::<u64>` does: an optional plus sign, then
/// decimal digits; `None` on anything else, or when the value does not fit.
pub fn parse_u64(s: &str) -> (r: Option<u64>)
    ensures
        r is Some <==> spec_parses_u64(s@),
        (r matches Some(v) ==> v == spec_u64_val(s@)),
{
    let n = s.unicode_len();
    if n == 0 {
        return None;
    }
    let c0 = s.get_char(0);
    if c0 == '-' {
        return None;
    }
    let start: usize = if c0 == '+' {
        1
    } else {
        0
    };
    proof {
        if start == 0 {
            assert(s@.skip(0) =~= s@);
        }
        assert(number_body(s@) =~= s@.skip(start as int));
    }
    parse_digits(s, start, u64::MAX)
}

/// Reads `s` as `str::parse::<i64>` does: an optional sign, then decimal
/// digits; `None` on anything else, or when the value does not fit.
pub fn parse_i64(s: &str) -> (r: Option<i64>)
    ensures
        r is Some <==> spec_parses_i64(s@),
        (r matches Some(v) ==> v as int == spec_i64_val(s@)),
{
    let n = s.unicode_len();
    if n == 0 {
        return None;
    }
    let c0 = s.get_char(0);
    let negative = c0 == '-';
    let start: usize = if c0 == '+' || c0 == '-' {
        1
    } else {
        0
    };
    proof {
        if start == 0 {
            assert(s@.skip(0) =~= s@);
        }
        assert(number_body(s@) =~= s@.skip(start as int));
    }
    let max: u64 = if negative {
        9223372036854775808
    } else {
        9223372036854775807
    };
    match parse_digits(s, start, max) {
        None => None,
        Some(mag) => {
            if negative {
                proof {
                    assert(-(mag as i128) >= i64::MIN as i128);
                }
                Some((-(mag as i128)) as i64)
            } else {
                Some(mag as i64)
            }
        },
    }
}

pub open spec fn is_ws_char(c: char) -> bool {
    sep_matches(SepClass::Whitespace, c)
}

/// How many characters at the end of `s` are whitespace.
pub open spec fn trailing_ws(s: Seq<char>) -> nat
    decreases s.len(),
{
    if s.len() > 0 && is_ws_char(s.last()) {
        1 + trailing_ws(s.drop_last())
    } else {
        0
    }
}

pub proof fn lemma_trailing_ws_le(s: Seq<char>)
    ensures
        trailing_ws(s) <= s.len(),
    decreases s.len(),
{
    if s.len() > 0 && is_ws_char(s.last()) {
        lemma_trailing_ws_le(s.drop_last());
    }
}

/// `s` with its trailing whitespace removed, as `str::trim_end` leaves it.
pub open spec fn spec_trim_end(s: Seq<char>) -> Seq<char> {
    s.take(s.len() - trailing_ws(s))
}

pub fn trim_end(s: &str) -> (r: String)
    ensures
        r@ == spec_trim_end(s@),
{
    let n = s.unicode_len();
    let mut j = n;
    proof {
        assert(s@.take(n as int) =~= s@);
    }
    while j > 0 && is_ws_exec(s.get_char(j - 1))
        invariant
            j <= n,
            n == s@.len(),
            trailing_ws(s@) == (n - j) + trailing_ws(s@.take(j as int)),
        decreases j,
    {
        proof {
            assert(s@.take(j as int).last() == s@[j - 1]);
            assert(s@.take(j as int).drop_last() =~= s@.take(j - 1));
        }
        j = j - 1;
    }
    proof {
        lemma_trailing_ws_le(s@);
        if j > 0 {
            assert(s@.take(j as int).last() == s@[j - 1]);
        }
        assert(trailing_ws(s@.take(j as int)) == 0);
    }
    String::from_str(s.substring_char(0, j))
}

/// `s` with every line break removed.
pub open spec fn spec_remove_newlines(s: Seq<char>) -> Seq<char>
    decreases s.len(),
{
    if s.len() == 0 {
        Seq::empty()
    } else {
        let rest = spec_remove_newlines(s.drop_last());
        if s.last() == '\n' {
            rest
        } else {
            rest.push(s.last())
        }
    }
}

pub fn remove_newlines(s: &str) -> (r: String)
    ensures
        r@ == spec_remove_newlines(s@),
{
    let n = s.unicode_len();
    let mut r = String::new();
    let mut i: usize = 0;
    proof {
        assert(s@.take(0) =~= Seq::<char>::empty());
        assert(r@ =~= spec_remove_newlines(s@.take(0)));
    }
    while i < n
        invariant
            i <= n,
            n == s@.len(),
            r@ == spec_remove_newlines(s@.take(i as int)),
        decreases n - i,
    {
        proof {
            assert(s@.take(i + 1).drop_last() =~= s@.take(i as int));
            assert(s@.take(i + 1).last() == s@[i as int]);
        }
        let c = s.get_char(i);
        if c != '\n' {
            push_char(&mut r, c);
        }
        i = i + 1;
    }
    proof {
        assert(s@.take(n as int) =~= s@);
    }
    r
}

/// Relies on String::push: appends the given character to the end of the
/// string.
#[verifier::external_body]
pub(crate) fn push_char(s: &mut String, c: char)
    ensures
        final(s)@ == old(s)@.push(c),
{
    s.push(c);
}

/// Whether `s` starts with the prefix `p`.
pub fn has_prefix(s: &str, p: &str) -> (r: bool)
    ensures
        r == (s@.len() >= p@.len() && s@.take(p@.len() as int) == p@),
{
    let np = p.unicode_len();
    let ns = s.unicode_len();
    if ns < np {
        return false;
    }
    let mut i: usize = 0;
    while i < np
        invariant
            i <= np,
            np == p@.len(),
            ns == s@.len(),
            np <= ns,
            forall|j: int| 0 <= j < i ==> s@[j] == p@[j],
        decreases np - i,
    {
        if s.get_char(i) != p.get_char(i) {
            proof {
                assert(s@.take(np as int)[i as int] != p@[i as int]);
            }
            return false;
        }
        i = i + 1;
    }
    proof {
        assert(s@.take(np as int) =~= p@);
    }
    true
}

fn is_ws_exec(c: char) -> (r: bool)
    ensures
        r == is_ws_char(c),
{
    char_in_class(c, SepClass::Whitespace)
}

} // verus!
