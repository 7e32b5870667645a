//! The grammar of one `{...}` placeholder and of its format spec.
use vstd::prelude::*;

use crate::arg::FormatType;
use crate::error::FormatError;

verus! {

/// Alignment of the rendered value within its width.
#[derive(Clone, Copy, Debug, PartialEq, Eq, Structural)]
pub enum Align {
    Left,
    Center,
    Right,
}

/// Width/precision: either a literal, or an `n$` argument reference that is
/// resolved against the actual arguments at format time.
#[derive(Clone, Copy, Debug, PartialEq, Eq, Structural)]
pub enum Count {
    Lit(usize),
    Param(usize),
}

/// The parsed spec, before `n$` counts have been resolved.
#[derive(Clone, Copy, Debug, PartialEq, Eq)]
pub struct RawSpec {
    pub fill: char,
    pub align: Option<Align>,
    pub sign_plus: bool,
    pub alternate: bool,
    pub zero: bool,
    pub width: Option<Count>,
    pub precision: Option<Count>,
    pub ty: FormatType,
}

/// The fully resolved spec used for rendering.
#[derive(Clone, Copy, Debug, PartialEq, Eq)]
pub struct Spec {
    pub fill: char,
    pub align: Option<Align>,
    pub sign_plus: bool,
    pub alternate: bool,
    pub zero: bool,
    pub width: Option<usize>,
    pub precision: Option<usize>,
    pub ty: FormatType,
}

pub open spec fn is_digit(c: char) -> bool {
    '0' <= c <= '9'
}

pub open spec fn digit_value(c: char) -> nat {
    (c as int - '0' as int) as nat
}

/// The number denoted by a string of decimal digits.
pub open spec fn digits_value(s: Seq<char>) -> nat
    decreases s.len(),
{
    if s.len() == 0 {
        0
    } else {
        digits_value(s.drop_last()) * 10 + digit_value(s.last())
    }
}

pub open spec fn all_digits(s: Seq<char>) -> bool {
    forall|i: int| 0 <= i < s.len() ==> is_digit(#[trigger] s[i])
}

/// The length of the longest prefix of `s` made of decimal digits.
pub open spec fn digit_run(s: Seq<char>) -> nat
    decreases s.len(),
{
    if s.len() > 0 && is_digit(s[0]) {
        1 + digit_run(s.drop_first())
    } else {
        0
    }
}

/// A literal number or an `n$` argument reference at the start of `s`, with
/// the number of characters it spans; `None` if `s` does not start with a
/// digit, an error if the number does not fit in a `usize`.
pub open spec fn count_of(s: Seq<char>) -> Result<Option<(Count, nat)>, FormatError> {
    if s.len() == 0 || !is_digit(s[0]) {
        Ok(None)
    } else {
        let k = digit_run(s);
        let v = digits_value(s.take(k as int));
        if v > usize::MAX {
            Err(FormatError::InvalidFormatString)
        } else if k < s.len() && s[k as int] == '$' {
            Ok(Some((Count::Param(v as usize), k + 1)))
        } else {
            Ok(Some((Count::Lit(v as usize), k)))
        }
    }
}

pub proof fn lemma_digit_run(s: Seq<char>)
    ensures
        digit_run(s) <= s.len(),
        all_digits(s.take(digit_run(s) as int)),
        digit_run(s) < s.len() ==> !is_digit(s[digit_run(s) as int]),
    decreases s.len(),
{
    if s.len() > 0 && is_digit(s[0]) {
        lemma_digit_run(s.drop_first());
        let k = digit_run(s);
        assert forall|i: int| 0 <= i < k implies is_digit(#[trigger] s.take(k as int)[i]) by {
            if i > 0 {
                assert(s.take(k as int)[i] == s.drop_first().take(k - 1)[i - 1]);
            }
        }
        if k < s.len() {
            assert(s[k as int] == s.drop_first()[k - 1]);
        }
    }
}

/// Digit strings denote larger numbers as they grow.
pub proof fn lemma_digits_value_monotone(s: Seq<char>, j: int, k: int)
    requires
        0 <= j <= k <= s.len(),
    ensures
        digits_value(s.take(j)) <= digits_value(s.take(k)),
    decreases k - j,
{
    if j < k {
        lemma_digits_value_monotone(s, j, k - 1);
        assert(s.take(k).drop_last() == s.take(k - 1));
    }
}

/// The value of an ASCII digit character.
fn char_digit(c: char) -> (d: Option<u32>)
    ensures
        is_digit(c) ==> d == Some(digit_value(c) as u32),
        !is_digit(c) ==> d is None,
{
    if '0' <= c && c <= '9' {
        Some((c as u32) - ('0' as u32))
    } else {
        None
    }
}

/// Relates the exec view of a spec's count to [`count_of`].
pub open spec fn count_matches(
    r: Result<Option<(Count, usize)>, FormatError>,
    spec: Result<Option<(Count, nat)>, FormatError>,
) -> bool {
    match (r, spec) {
        (Ok(None), Ok(None)) => true,
        (Ok(Some((c, k))), Ok(Some((c2, k2)))) => c == c2 && k as nat == k2,
        (Err(e), Err(e2)) => e == e2,
        _ => false,
    }
}

/// Parses a literal number or an `n$` argument reference starting at
/// `chars[start]`; returns `None` if no digit stands there.
pub fn parse_count(chars: &Vec<char>, start: usize) -> (r: Result<Option<(Count, usize)>, FormatError>)
    requires
        start <= chars.len(),
    ensures
        count_matches(r, count_of(chars@.skip(start as int))),
        r matches Ok(Some((_, k))) ==> start + k <= chars.len(),
{
    let ghost s = chars@.skip(start as int);
    if start >= chars.len() || !('0' <= chars[start] && chars[start] <= '9') {
        return Ok(None);
    }
    proof {
        lemma_digit_run(s);
    }
    let ghost k = digit_run(s);
    assert(s[0] == chars@[start as int]);
    let mut n: usize = 0;
    let mut i: usize = start;
    while i < chars.len()
        invariant_except_break
            start <= i <= start + k,
            k <= s.len(),
            k == digit_run(s),
            s.len() == chars.len() - start,
            s.len() > 0 && is_digit(s[0]),
            s == chars@.skip(start as int),
            all_digits(s.take(k as int)),
            k < s.len() ==> !is_digit(s[k as int]),
            n == digits_value(s.take(i - start)),
        ensures
            i == start + k,
            n == digits_value(s.take(k as int)),
        decreases chars.len() - i,
    {
        match char_digit(chars[i]) {
            Some(d) => {
                assert(s[i - start] == chars@[i as int]);
                assert(i - start < k);
                assert(s.take(i - start) =~= s.take(i - start + 1).drop_last());
                assert(s.take(k as int)[i - start] == s[i - start]);
                assert(digits_value(s.take(i - start + 1)) == n * 10 + d);
                match n.checked_mul(10) {
                    Some(m) => match m.checked_add(d as usize) {
                        Some(m2) => {
                            n = m2;
                        },
                        None => {
                            proof {
                                lemma_digits_value_monotone(s.take(k as int), i - start + 1, k as int);
                                assert(s.take(k as int).take(i - start + 1) =~= s.take(i - start + 1));
                                assert(s.take(k as int).take(k as int) =~= s.take(k as int));
                                assert(digits_value(s.take(i - start + 1)) > usize::MAX);
                                assert(digits_value(s.take(k as int)) > usize::MAX);
                            }
                            return Err(FormatError::InvalidFormatString);
                        },
                    },
                    None => {
                        proof {
                            lemma_digits_value_monotone(s.take(k as int), i - start + 1, k as int);
                            assert(s.take(k as int).take(i - start + 1) =~= s.take(i - start + 1));
                            assert(s.take(k as int).take(k as int) =~= s.take(k as int));
                            assert(digits_value(s.take(i - start + 1)) > usize::MAX);
                            assert(digits_value(s.take(k as int)) > usize::MAX);
                        }
                        return Err(FormatError::InvalidFormatString);
                    },
                }
                i = i + 1;
            },
            None => {
                assert(s[i - start] == chars@[i as int]);
                proof {
                    if i - start < k {
                        assert(s.take(k as int)[i - start] == s[i - start]);
                    }
                }
                break;
            },
        }
    }
    if i < chars.len() && chars[i] == '$' {
        Ok(Some((Count::Param(n), i - start + 1)))
    } else {
        Ok(Some((Count::Lit(n), i - start)))
    }
}

pub open spec fn align_of(c: char) -> Option<Align> {
    if c == '<' {
        Some(Align::Left)
    } else if c == '^' {
        Some(Align::Center)
    } else if c == '>' {
        Some(Align::Right)
    } else {
        None
    }
}

/// The format type named by the trailing part of a spec.
pub open spec fn type_of(t: Seq<char>) -> Result<FormatType, FormatError> {
    if t.contains('$') {
        Err(FormatError::InvalidFormatString)
    } else if t.len() == 0 {
        Ok(FormatType::Display)
    } else if t.len() == 1 && t[0] == '?' {
        Ok(FormatType::Debug)
    } else if t.len() == 1 && t[0] == 'x' {
        Ok(FormatType::LowerHex)
    } else if t.len() == 1 && t[0] == 'X' {
        Ok(FormatType::UpperHex)
    } else if t.len() == 1 && t[0] == 'o' {
        Ok(FormatType::Octal)
    } else if t.len() == 1 && t[0] == 'b' {
        Ok(FormatType::Binary)
    } else if t.len() == 1 && t[0] == 'e' {
        Ok(FormatType::LowerExp)
    } else if t.len() == 1 && t[0] == 'E' {
        Ok(FormatType::UpperExp)
    } else {
        Err(FormatError::UnsupportedFormatType)
    }
}

/// Fill and alignment at the start of a spec, and the characters they span:
/// a character followed by an alignment is the fill, whatever it is (so
/// `>>` is fill `>`, right-aligned); otherwise a lone alignment.
pub open spec fn fill_align_of(s: Seq<char>) -> (char, Option<Align>, int) {
    if s.len() > 1 && align_of(s[1]) is Some {
        (s[0], align_of(s[1]), 2)
    } else if s.len() > 0 && align_of(s[0]) is Some {
        (' ', align_of(s[0]), 1)
    } else {
        (' ', None, 0)
    }
}

/// Whether `s[i]` exists and is `c`.
pub open spec fn char_at_is(s: Seq<char>, i: int, c: char) -> bool {
    0 <= i < s.len() && s[i] == c
}

/// The precision part `.N` / `.N$` at index `i`, if any, and where it ends.
pub open spec fn precision_of(s: Seq<char>, i: int) -> Result<(Option<Count>, int), FormatError> {
    if char_at_is(s, i, '.') {
        match count_of(s.skip(i + 1)) {
            Err(e) => Err(e),
            Ok(None) => Err(FormatError::InvalidFormatString),
            Ok(Some((c, k))) => Ok((Some(c), i + 1 + k)),
        }
    } else {
        Ok((None, i))
    }
}

/// The flags at the start of a spec: fill, alignment, `+`, `#`, `0`, and the
/// index just past them.
pub open spec fn flags_of(s: Seq<char>) -> (char, Option<Align>, bool, bool, bool, int) {
    let (fill, align, i1) = fill_align_of(s);
    let sign_plus = char_at_is(s, i1, '+');
    let i2 = if char_at_is(s, i1, '+') || char_at_is(s, i1, '-') {
        i1 + 1
    } else {
        i1
    };
    let alternate = char_at_is(s, i2, '#');
    let i3 = if alternate {
        i2 + 1
    } else {
        i2
    };
    let zero = char_at_is(s, i3, '0');
    let i4 = if zero {
        i3 + 1
    } else {
        i3
    };
    (fill, align, sign_plus, alternate, zero, i4)
}

/// Width, precision and type of a spec, from index `i` on.
pub open spec fn counts_and_type_of(s: Seq<char>, i: int) -> Result<
    (Option<Count>, Option<Count>, FormatType),
    FormatError,
> {
    match count_of(s.skip(i)) {
        Err(e) => Err(e),
        Ok(w) => {
            let width = match w {
                None => None,
                Some((c, _)) => Some(c),
            };
            let i5 = match w {
                None => i,
                Some((_, k)) => i + k,
            };
            match precision_of(s, i5) {
                Err(e) => Err(e),
                Ok((precision, i6)) => match type_of(s.skip(i6)) {
                    Err(e) => Err(e),
                    Ok(ty) => Ok((width, precision, ty)),
                },
            }
        },
    }
}

/// A format spec with the grammar
/// `[[fill]align][sign]['#']['0'][width]['.' precision][type]`.
pub open spec fn spec_of(s: Seq<char>) -> Result<RawSpec, FormatError> {
    let (fill, align, sign_plus, alternate, zero, i) = flags_of(s);
    match counts_and_type_of(s, i) {
        Err(e) => Err(e),
        Ok((width, precision, ty)) => Ok(
            RawSpec { fill, align, sign_plus, alternate, zero, width, precision, ty },
        ),
    }
}

fn align_of_char(c: char) -> (r: Option<Align>)
    ensures
        r == align_of(c),
{
    if c == '<' {
        Some(Align::Left)
    } else if c == '^' {
        Some(Align::Center)
    } else if c == '>' {
        Some(Align::Right)
    } else {
        None
    }
}

fn char_is(chars: &Vec<char>, i: usize, c: char) -> (r: bool)
    ensures
        r == char_at_is(chars@, i as int, c),
{
    i < chars.len() && chars[i] == c
}

/// Whether `c` occurs in `chars[start..]`.
fn contains_from(chars: &Vec<char>, start: usize, c: char) -> (r: bool)
    requires
        start <= chars.len(),
    ensures
        r == chars@.skip(start as int).contains(c),
{
    let mut i = start;
    while i < chars.len()
        invariant
            start <= i <= chars.len(),
            forall|j: int| start <= j < i ==> chars@[j] != c,
        decreases chars.len() - i,
    {
        if chars[i] == c {
            assert(chars@.skip(start as int)[i - start] == c);
            return true;
        }
        i = i + 1;
    }
    proof {
        if chars@.skip(start as int).contains(c) {
            let j = choose|j: int| 0 <= j < chars@.skip(start as int).len() && chars@.skip(start as int)[j] == c;
            assert(chars@[start + j] == c);
        }
    }
    false
}

/// Parses the flags of the spec `chars[start..]`.
fn parse_flags(chars: &Vec<char>, start: usize) -> (r: (char, Option<Align>, bool, bool, bool, usize))
    requires
        start <= chars.len(),
    ensures
        start <= r.5 <= chars.len(),
        ({
            let f = flags_of(chars@.skip(start as int));
            f == (r.0, r.1, r.2, r.3, r.4, r.5 - start)
        }),
{
    let ghost s = chars@.skip(start as int);
    let n = chars.len();
    let mut fill = ' ';
    let mut align: Option<Align> = None;
    let mut i = start;
    let a1 = if i < n && n - i > 1 {
        align_of_char(chars[i + 1])
    } else {
        None
    };
    if a1.is_some() {
        fill = chars[i];
        align = a1;
        i = i + 2;
    } else if i < n {
        let a0 = align_of_char(chars[i]);
        if a0.is_some() {
            align = a0;
            i = i + 1;
        }
    }
    assert(fill_align_of(s) == (fill, align, i - start));
    let sign_plus = char_is(chars, i, '+');
    assert(sign_plus == char_at_is(s, i - start, '+'));
    let minus = char_is(chars, i, '-');
    assert(minus == char_at_is(s, i - start, '-'));
    if sign_plus || minus {
        i = i + 1;
    }
    let alternate = char_is(chars, i, '#');
    assert(alternate == char_at_is(s, i - start, '#'));
    if alternate {
        i = i + 1;
    }
    let zero = char_is(chars, i, '0');
    assert(zero == char_at_is(s, i - start, '0'));
    if zero {
        i = i + 1;
    }
    (fill, align, sign_plus, alternate, zero, i)
}

/// Parses the type part `chars[start..]` of a spec.
fn parse_type(chars: &Vec<char>, start: usize) -> (r: Result<FormatType, FormatError>)
    requires
        start <= chars.len(),
    ensures
        r == type_of(chars@.skip(start as int)),
{
    let n = chars.len();
    if contains_from(chars, start, '$') {
        Err(FormatError::InvalidFormatString)
    } else if start == n {
        Ok(FormatType::Display)
    } else if start + 1 == n {
        assert(chars@.skip(start as int)[0] == chars@[start as int]);
        match chars[start] {
            '?' => Ok(FormatType::Debug),
            'x' => Ok(FormatType::LowerHex),
            'X' => Ok(FormatType::UpperHex),
            'o' => Ok(FormatType::Octal),
            'b' => Ok(FormatType::Binary),
            'e' => Ok(FormatType::LowerExp),
            'E' => Ok(FormatType::UpperExp),
            _ => Err(FormatError::UnsupportedFormatType),
        }
    } else {
        Err(FormatError::UnsupportedFormatType)
    }
}

/// Parses width, precision and type of the spec `chars[base..]`, from
/// index `start` on.
fn parse_counts_and_type(chars: &Vec<char>, base: usize, start: usize) -> (r: Result<
    (Option<Count>, Option<Count>, FormatType),
    FormatError,
>)
    requires
        base <= start <= chars.len(),
    ensures
        r == counts_and_type_of(chars@.skip(base as int), start - base),
{
    let ghost s = chars@.skip(base as int);
    let mut i = start;
    assert(chars@.skip(i as int) == s.skip(i - base));
    let width = match parse_count(chars, i) {
        Err(e) => {
            return Err(e);
        },
        Ok(None) => None,
        Ok(Some((c, k))) => {
            i = i + k;
            Some(c)
        },
    };
    let mut precision: Option<Count> = None;
    if char_is(chars, i, '.') {
        assert(char_at_is(s, i - base, '.'));
        assert(chars@.skip(i + 1) == s.skip(i - base + 1));
        match parse_count(chars, i + 1) {
            Err(e) => {
                return Err(e);
            },
            Ok(None) => {
                return Err(FormatError::InvalidFormatString);
            },
            Ok(Some((c, k))) => {
                i = i + 1 + k;
                precision = Some(c);
            },
        }
    } else {
        assert(!char_at_is(s, i - base, '.'));
    }
    assert(chars@.skip(i as int) == s.skip(i - base));
    match parse_type(chars, i) {
        Err(e) => Err(e),
        Ok(ty) => Ok((width, precision, ty)),
    }
}

/// Parses the format spec `chars[start..]`.
pub fn parse_spec(chars: &Vec<char>, start: usize) -> (r: Result<RawSpec, FormatError>)
    requires
        start <= chars.len(),
    ensures
        r == spec_of(chars@.skip(start as int)),
{
    let (fill, align, sign_plus, alternate, zero, i) = parse_flags(chars, start);
    match parse_counts_and_type(chars, start, i) {
        Err(e) => Err(e),
        Ok((width, precision, ty)) => Ok(
            RawSpec { fill, align, sign_plus, alternate, zero, width, precision, ty },
        ),
    }
}
/// The index of the first occurrence of `c` in `s`.
pub open spec fn first_index_of(s: Seq<char>, c: char) -> Option<nat>
    decreases s.len(),
{
    if s.len() == 0 {
        None
    } else if s[0] == c {
        Some(0)
    } else {
        match first_index_of(s.drop_first(), c) {
            None => None,
            Some(k) => Some(k + 1),
        }
    }
}

pub proof fn lemma_first_index_of(s: Seq<char>, c: char)
    ensures
        first_index_of(s, c) matches Some(k) ==> k < s.len() && s[k as int] == c && forall|j: int|
            0 <= j < k ==> s[j] != c,
        first_index_of(s, c) is None ==> forall|j: int| 0 <= j < s.len() ==> s[j] != c,
    decreases s.len(),
{
    if s.len() > 0 && s[0] != c {
        lemma_first_index_of(s.drop_first(), c);
        assert forall|j: int| 0 < j < s.len() implies s[j] == s.drop_first()[j - 1] by {}
    }
}

/// The explicit argument index before the `:` of a placeholder: `None` for
/// an implicit one, an error for a name or a number beyond `usize`.
pub open spec fn index_of_arg(a: Seq<char>) -> Result<Option<usize>, FormatError> {
    if a.len() == 0 {
        Ok(None)
    } else if all_digits(a) && digits_value(a) <= usize::MAX {
        Ok(Some(digits_value(a) as usize))
    } else {
        Err(FormatError::InvalidFormatString)
    }
}

/// The explicit index and the spec of a placeholder whose text between the
/// braces is `inner`.
pub open spec fn placeholder_of(inner: Seq<char>) -> Result<(Option<usize>, RawSpec), FormatError> {
    let (arg, sp) = match first_index_of(inner, ':') {
        Some(i) => (inner.take(i as int), inner.skip(i as int + 1)),
        None => (inner, Seq::<char>::empty()),
    };
    match index_of_arg(arg) {
        Err(e) => Err(e),
        Ok(idx) => match spec_of(sp) {
            Err(e) => Err(e),
            Ok(r) => Ok((idx, r)),
        },
    }
}

/// Parses the non-empty ASCII digit string `chars[lo..hi]` into a `usize`.
pub fn parse_usize(chars: &Vec<char>, lo: usize, hi: usize) -> (r: Option<usize>)
    requires
        lo <= hi <= chars.len(),
        all_digits(chars@.subrange(lo as int, hi as int)),
    ensures
        r == (if digits_value(chars@.subrange(lo as int, hi as int)) <= usize::MAX {
            Some(digits_value(chars@.subrange(lo as int, hi as int)) as usize)
        } else {
            None::<usize>
        }),
{
    let ghost s = chars@.subrange(lo as int, hi as int);
    let mut n: usize = 0;
    let mut i = lo;
    while i < hi
        invariant
            lo <= i <= hi <= chars.len(),
            s == chars@.subrange(lo as int, hi as int),
            all_digits(s),
            n == digits_value(s.take(i - lo)),
        decreases hi - i,
    {
        assert(s[i - lo] == chars@[i as int]);
        assert(is_digit(s[i - lo]));
        let d = (chars[i] as u32) - ('0' as u32);
        assert(s.take(i - lo) =~= s.take(i - lo + 1).drop_last());
        assert(digits_value(s.take(i - lo + 1)) == n * 10 + d);
        match n.checked_mul(10) {
            Some(m) => match m.checked_add(d as usize) {
                Some(m2) => {
                    n = m2;
                },
                None => {
                    proof {
                        lemma_digits_value_monotone(s, i - lo + 1, s.len() as int);
                        assert(s.take(s.len() as int) =~= s);
                    }
                    return None;
                },
            },
            None => {
                proof {
                    lemma_digits_value_monotone(s, i - lo + 1, s.len() as int);
                    assert(s.take(s.len() as int) =~= s);
                }
                return None;
            },
        }
        i = i + 1;
    }
    assert(s.take(s.len() as int) =~= s);
    Some(n)
}

/// Whether `chars[lo..hi]` is made of decimal digits only.
fn all_digits_in(chars: &Vec<char>, lo: usize, hi: usize) -> (r: bool)
    requires
        lo <= hi <= chars.len(),
    ensures
        r == all_digits(chars@.subrange(lo as int, hi as int)),
{
    let mut i = lo;
    while i < hi
        invariant
            lo <= i <= hi <= chars.len(),
            forall|j: int| lo <= j < i ==> is_digit(chars@[j]),
        decreases hi - i,
    {
        if !('0' <= chars[i] && chars[i] <= '9') {
            assert(!is_digit(chars@.subrange(lo as int, hi as int)[i - lo]));
            return false;
        }
        i = i + 1;
    }
    assert forall|j: int| 0 <= j < hi - lo implies is_digit(
        #[trigger] chars@.subrange(lo as int, hi as int)[j],
    ) by {
        assert(chars@.subrange(lo as int, hi as int)[j] == chars@[lo + j]);
    }
    true
}

/// Parses the inside of a `{...}` placeholder (without the braces) into its
/// explicit index (`None` for an implicit positional argument) and spec.
pub fn parse_placeholder(inner: &Vec<char>) -> (r: Result<(Option<usize>, RawSpec), FormatError>)
    ensures
        r == placeholder_of(inner@),
{
    let ghost s = inner@;
    let n = inner.len();
    let mut colon: usize = 0;
    while colon < n && inner[colon] != ':'
        invariant
            colon <= n == inner.len(),
            forall|j: int| 0 <= j < colon ==> inner@[j] != ':',
        decreases n - colon,
    {
        colon = colon + 1;
    }
    proof {
        lemma_first_index_of(s, ':');
        match first_index_of(s, ':') {
            Some(k) => {
                assert(k == colon);
            },
            None => {
                assert(colon == n);
            },
        }
    }
    let spec_start = if colon < n {
        colon + 1
    } else {
        n
    };
    assert(colon == n ==> inner@.subrange(0, colon as int) =~= s);
    assert(colon < n ==> inner@.subrange(0, colon as int) =~= s.take(colon as int));
    assert(colon == n ==> inner@.skip(spec_start as int) =~= Seq::<char>::empty());
    let index = if colon == 0 {
        None
    } else if all_digits_in(inner, 0, colon) {
        match parse_usize(inner, 0, colon) {
            Some(v) => Some(v),
            None => {
                return Err(FormatError::InvalidFormatString);
            },
        }
    } else {
        return Err(FormatError::InvalidFormatString);
    };
    match parse_spec(inner, spec_start) {
        Err(e) => Err(e),
        Ok(spec) => Ok((index, spec)),
    }
}

} // verus!
