//! Rendering one argument according to a resolved spec: sign, radix prefix,
//! zero padding, precision truncation, fill and alignment.
use vstd::prelude::*;

use crate::arg::FormatType;
use crate::error::FormatError;
use crate::placeholder::{Align, Spec};
use crate::strings::{chars_of, push_chars, string_of_chars};
use crate::sink::{lemma_flatten_one, lemma_wrote_nothing, lemma_wrote_stopped, lemma_wrote_then, write_piece, wrote, Sink};
use vstd::seq_lib::lemma_flatten_concat;

verus! {

/// The number of bytes of `c` in UTF-8.
pub open spec fn utf8_char_len(c: char) -> nat {
    if (c as u32) < 0x80 {
        1
    } else if (c as u32) < 0x800 {
        2
    } else if (c as u32) < 0x10000 {
        3
    } else {
        4
    }
}

/// The number of bytes of `s` in UTF-8.
pub open spec fn utf8_len(s: Seq<char>) -> nat
    decreases s.len(),
{
    if s.len() == 0 {
        0
    } else {
        utf8_len(s.drop_last()) + utf8_char_len(s.last())
    }
}

/// `c` repeated `n` times.
pub open spec fn repeat(c: char, n: nat) -> Seq<char> {
    Seq::new(n, |_i: int| c)
}

/// `body` padded with the spec's fill to the spec's width, where `total` is
/// the length the body counts for; `default` applies when the spec names no
/// alignment.
pub open spec fn padded(body: Seq<char>, total: nat, spec: Spec, default: Align) -> Seq<char> {
    match spec.width {
        None => body,
        Some(w) => if total >= w {
            body
        } else {
            let pad = (w - total) as nat;
            let a = match spec.align {
                Some(a) => a,
                None => default,
            };
            match a {
                Align::Left => body + repeat(spec.fill, pad),
                Align::Right => repeat(spec.fill, pad) + body,
                Align::Center => repeat(spec.fill, pad / 2) + body + repeat(
                    spec.fill,
                    (pad - pad / 2) as nat,
                ),
            }
        },
    }
}

/// The `#` radix prefix of each integer format type (`0x` for both hex
/// types: only the digits are uppercased).
pub open spec fn radix_prefix_of(ty: FormatType) -> Seq<char> {
    match ty {
        FormatType::LowerHex | FormatType::UpperHex => seq!['0', 'x'],
        FormatType::Octal => seq!['0', 'o'],
        FormatType::Binary => seq!['0', 'b'],
        _ => Seq::<char>::empty(),
    }
}

/// The rendering of a bare non-numeric value: cut to the precision (in
/// characters), then padded, left-aligned by default. The `0` flag has no
/// effect here.
pub open spec fn render_text(bare: Seq<char>, spec: Spec) -> Seq<char> {
    let body = match spec.precision {
        Some(p) => if bare.len() > p {
            bare.take(p as int)
        } else {
            bare
        },
        None => bare,
    };
    padded(body, body.len(), spec, Align::Left)
}

pub open spec fn nan() -> Seq<char> {
    seq!['N', 'a', 'N']
}

/// The sign written in front of a bare numeric value, and its digits.
pub open spec fn sign_split(bare: Seq<char>, sign_plus: bool) -> (Seq<char>, Seq<char>) {
    if bare.len() > 0 && bare[0] == '-' {
        (seq!['-'], bare.skip(1))
    } else if sign_plus && bare != nan() {
        (seq!['+'], bare)
    } else {
        (Seq::<char>::empty(), bare)
    }
}

/// The `#` prefix that the spec asks for, if any.
pub open spec fn prefix_of(spec: Spec) -> Seq<char> {
    if spec.alternate {
        radix_prefix_of(spec.ty)
    } else {
        Seq::<char>::empty()
    }
}

/// The rendering of a bare numeric value: sign, `#` prefix and digits,
/// either sign-aware zero-filled to the width (`0` flag, which overrides
/// fill and alignment) or padded, right-aligned by default. Lengths count
/// UTF-8 bytes. Precision was already applied to the bare value.
pub open spec fn render_number(bare: Seq<char>, spec: Spec) -> Seq<char> {
    let (sign, digits) = sign_split(bare, spec.sign_plus);
    let prefix = prefix_of(spec);
    let total = sign.len() + prefix.len() + utf8_len(digits);
    if spec.zero {
        let zeros = match spec.width {
            Some(w) => if total < w {
                repeat('0', (w - total) as nat)
            } else {
                Seq::<char>::empty()
            },
            None => Seq::<char>::empty(),
        };
        sign + prefix + zeros + digits
    } else {
        padded(sign + prefix + digits, total, spec, Align::Right)
    }
}

/// The rendering of one argument whose bare value is `bare`.
pub open spec fn render_of(bare: Seq<char>, numeric: bool, spec: Spec) -> Seq<char> {
    if numeric {
        render_number(bare, spec)
    } else {
        render_text(bare, spec)
    }
}

/// The `#` radix prefix for each integer format type.
pub fn radix_prefix(ty: FormatType) -> (r: &'static str)
    ensures
        r@ == radix_prefix_of(ty),
{
    proof {
        reveal_strlit("0x");
        reveal_strlit("0o");
        reveal_strlit("0b");
        reveal_strlit("");
    }
    match ty {
        FormatType::LowerHex | FormatType::UpperHex => "0x",
        FormatType::Octal => "0o",
        FormatType::Binary => "0b",
        _ => "",
    }
}

/// Maps whether the output sink accepted a write to the result of the
/// write: a rejected write is [`FormatError::WriteFailed`].
pub fn note_write(accepted: bool) -> (r: Result<(), FormatError>)
    ensures
        accepted ==> r == Ok::<(), FormatError>(()),
        !accepted ==> r == Err::<(), FormatError>(FormatError::WriteFailed),
{
    if accepted {
        Ok(())
    } else {
        Err(FormatError::WriteFailed)
    }
}

/// Appends `fill` repeated `n` times.
pub fn write_fill(out: &mut String, fill: char, n: usize)
    ensures
        final(out)@ == old(out)@ + repeat(fill, n as nat),
{
    let mut k: usize = 0;
    while k < n
        invariant
            k <= n,
            out@ == old(out)@ + repeat(fill, k as nat),
        decreases n - k,
    {
        out.push(fill);
        assert(repeat(fill, (k + 1) as nat) =~= repeat(fill, k as nat).push(fill));
        k = k + 1;
    }
}

/// Appends `body` padded to the spec's width, where `total` is the length
/// the body counts for (saturated at `usize::MAX`).
pub fn write_padded(out: &mut String, spec: &Spec, default: Align, total: usize, body: &Vec<char>)
    ensures
        final(out)@ == old(out)@ + padded(body@, total as nat, *spec, default),
{
    let n = body.len();
    match spec.width {
        None => {
            push_chars(out, body, 0, n);
        },
        Some(width) => {
            if total >= width {
                push_chars(out, body, 0, n);
            } else {
                let pad = width - total;
                let align = match spec.align {
                    Some(a) => a,
                    None => default,
                };
                match align {
                    Align::Left => {
                        push_chars(out, body, 0, n);
                        write_fill(out, spec.fill, pad);
                    },
                    Align::Right => {
                        write_fill(out, spec.fill, pad);
                        push_chars(out, body, 0, n);
                    },
                    Align::Center => {
                        let left = pad / 2;
                        write_fill(out, spec.fill, left);
                        push_chars(out, body, 0, n);
                        write_fill(out, spec.fill, pad - left);
                    },
                }
            }
        },
    }
    assert(body@.subrange(0, n as int) =~= body@);
    assert(final(out)@ =~= old(out)@ + padded(body@, total as nat, *spec, default));
}

/// `n` saturated at `usize::MAX`.
pub open spec fn sat_usize(n: nat) -> nat {
    if n > usize::MAX {
        usize::MAX as nat
    } else {
        n
    }
}

fn utf8_char_len_exec(c: char) -> (r: usize)
    ensures
        r == utf8_char_len(c),
{
    let u = c as u32;
    if u < 0x80 {
        1
    } else if u < 0x800 {
        2
    } else if u < 0x10000 {
        3
    } else {
        4
    }
}

/// The UTF-8 byte length of `chars[lo..]`, saturated at `usize::MAX`.
fn utf8_len_from(chars: &Vec<char>, lo: usize) -> (r: usize)
    requires
        lo <= chars.len(),
    ensures
        r == sat_usize(utf8_len(chars@.skip(lo as int))),
{
    let n = chars.len();
    let mut acc: usize = 0;
    let mut i = lo;
    while i < n
        invariant
            lo <= i <= n == chars.len(),
            acc == sat_usize(utf8_len(chars@.subrange(lo as int, i as int))),
        decreases n - i,
    {
        let c = utf8_char_len_exec(chars[i]);
        assert(chars@.subrange(lo as int, i + 1).drop_last() =~= chars@.subrange(lo as int, i as int));
        acc = if acc > usize::MAX - c {
            usize::MAX
        } else {
            acc + c
        };
        i = i + 1;
    }
    assert(chars@.subrange(lo as int, n as int) =~= chars@.skip(lo as int));
    acc
}

/// `s` cut to at most `max` characters.
pub fn truncate_chars(s: &Vec<char>, max: usize) -> (r: Vec<char>)
    ensures
        r@ == (if s@.len() > max {
            s@.take(max as int)
        } else {
            s@
        }),
{
    let len = s.len();
    let end = if len > max {
        max
    } else {
        len
    };
    let mut r: Vec<char> = Vec::new();
    let mut i: usize = 0;
    while i < end
        invariant
            i <= end <= len == s.len(),
            r@ == s@.take(i as int),
        decreases end - i,
    {
        r.push(s[i]);
        assert(s@.take(i + 1) =~= s@.take(i as int).push(s@[i as int]));
        i = i + 1;
    }
    assert(end == len ==> s@.take(end as int) =~= s@);
    r
}

/// Appends `bare` rendered as a non-numeric value.
fn render_text_arg(out: &mut String, bare: &Vec<char>, spec: &Spec)
    ensures
        final(out)@ == old(out)@ + render_text(bare@, *spec),
{
    let body = match spec.precision {
        Some(p) => truncate_chars(bare, p),
        None => truncate_chars(bare, bare.len()),
    };
    write_padded(out, spec, Align::Left, body.len(), &body);
}

/// The sign and `#` prefix written before the digits of a bare numeric
/// value, and the index at which its digits start.
fn number_head(bare: &Vec<char>, spec: &Spec) -> (r: (Vec<char>, usize))
    ensures
        r.0@ == sign_split(bare@, spec.sign_plus).0 + prefix_of(*spec),
        r.1 <= bare.len(),
        bare@.skip(r.1 as int) == sign_split(bare@, spec.sign_plus).1,
{
    let len = bare.len();
    let negative = len > 0 && bare[0] == '-';
    let is_nan = len == 3 && bare[0] == 'N' && bare[1] == 'a' && bare[2] == 'N';
    proof {
        if is_nan {
            assert(bare@ =~= nan());
        }
        if bare@ == nan() {
            assert(bare@[0] == 'N' && bare@[1] == 'a' && bare@[2] == 'N');
        }
    }
    let mut head: Vec<char> = Vec::new();
    let digits_start: usize = if negative {
        head.push('-');
        1
    } else if spec.sign_plus && !is_nan {
        head.push('+');
        0
    } else {
        0
    };
    let ghost sd = sign_split(bare@, spec.sign_plus);
    assert(head@ =~= sd.0);
    assert(bare@.skip(digits_start as int) =~= sd.1);
    if spec.alternate {
        let prefix = chars_of(radix_prefix(spec.ty));
        let mut k: usize = 0;
        while k < prefix.len()
            invariant
                k <= prefix.len(),
                prefix@ == radix_prefix_of(spec.ty),
                head@ == sd.0 + prefix@.take(k as int),
            decreases prefix.len() - k,
        {
            head.push(prefix[k]);
            assert(prefix@.take(k + 1) =~= prefix@.take(k as int).push(prefix@[k as int]));
            k = k + 1;
        }
        assert(prefix@.take(prefix.len() as int) =~= prefix@);
    } else {
        assert(head@ =~= sd.0 + Seq::<char>::empty());
    }
    assert(head@ =~= sd.0 + prefix_of(*spec));
    (head, digits_start)
}

/// Appends `bare` rendered as a numeric value.
fn render_number_arg(out: &mut String, bare: &Vec<char>, spec: &Spec)
    ensures
        final(out)@ == old(out)@ + render_number(bare@, *spec),
{
    let len = bare.len();
    let ghost sd = sign_split(bare@, spec.sign_plus);
    let ghost prefix = prefix_of(*spec);
    let (head, digits_start) = number_head(bare, spec);
    let digit_bytes = utf8_len_from(bare, digits_start);
    let head_len = head.len();
    let total = if digit_bytes > usize::MAX - head_len {
        usize::MAX
    } else {
        head_len + digit_bytes
    };
    let ghost t = sd.0.len() + prefix.len() + utf8_len(sd.1);
    assert(total == sat_usize(t));
    assert(bare@.subrange(digits_start as int, len as int) =~= sd.1);
    if spec.zero {
        push_chars(out, &head, 0, head_len);
        assert(head@.subrange(0, head_len as int) =~= head@);
        match spec.width {
            Some(width) => {
                if total < width {
                    write_fill(out, '0', width - total);
                }
            },
            None => {},
        }
        push_chars(out, bare, digits_start, len);
        assert(final(out)@ =~= old(out)@ + render_number(bare@, *spec));
    } else {
        let mut body = head;
        let mut i = digits_start;
        while i < len
            invariant
                digits_start <= i <= len == bare.len(),
                body@ == sd.0 + prefix + bare@.subrange(digits_start as int, i as int),
            decreases len - i,
        {
            body.push(bare[i]);
            assert(bare@.subrange(digits_start as int, i + 1) =~= bare@.subrange(
                digits_start as int,
                i as int,
            ).push(bare@[i as int]));
            i = i + 1;
        }
        proof {
            match spec.width {
                Some(w) => {
                    assert((total >= w) == (t >= w));
                    if total < w {
                        assert(total == t);
                    }
                },
                None => {},
            }
        }
        write_padded(out, spec, Align::Right, total, &body);
    }
}

/// Renders one argument whose bare value is `bare` according to `spec`,
/// appending to `out`.
pub fn render_arg(out: &mut String, bare: &str, numeric: bool, spec: &Spec)
    ensures
        final(out)@ == old(out)@ + render_of(bare@, numeric, *spec),
{
    let chars = chars_of(bare);
    if numeric {
        render_number_arg(out, &chars, spec);
    } else {
        render_text_arg(out, &chars, spec);
    }
}

/// `c` written `n` times, one piece per character.
pub open spec fn fill_pieces(c: char, n: nat) -> Seq<Seq<char>> {
    Seq::new(n, |_i: int| seq![c])
}

/// The pieces that padding `body` writes: the body's own pieces, with
/// the fill characters one piece each on the side(s) the alignment says.
pub open spec fn padded_pieces(body: Seq<Seq<char>>, total: nat, spec: Spec, default: Align) -> Seq<
    Seq<char>,
> {
    match spec.width {
        None => body,
        Some(w) => if total >= w {
            body
        } else {
            let pad = (w - total) as nat;
            let a = match spec.align {
                Some(a) => a,
                None => default,
            };
            match a {
                Align::Left => body + fill_pieces(spec.fill, pad),
                Align::Right => fill_pieces(spec.fill, pad) + body,
                Align::Center => fill_pieces(spec.fill, pad / 2) + body + fill_pieces(
                    spec.fill,
                    (pad - pad / 2) as nat,
                ),
            }
        },
    }
}

/// A bare non-numeric value cut to the precision.
pub open spec fn text_body(bare: Seq<char>, spec: Spec) -> Seq<char> {
    match spec.precision {
        Some(p) => if bare.len() > p {
            bare.take(p as int)
        } else {
            bare
        },
        None => bare,
    }
}

/// The pieces written for a bare non-numeric value: the cut text as one
/// piece, padded.
pub open spec fn text_pieces(bare: Seq<char>, spec: Spec) -> Seq<Seq<char>> {
    let body = text_body(bare, spec);
    padded_pieces(seq![body], body.len(), spec, Align::Left)
}

/// The pieces written for a bare numeric value: sign, `#` prefix and
/// digits as three pieces (any of them possibly empty), with the zeros of
/// the `0` flag one piece each between prefix and digits, or else padded.
pub open spec fn number_pieces(bare: Seq<char>, spec: Spec) -> Seq<Seq<char>> {
    let (sign, digits) = sign_split(bare, spec.sign_plus);
    let prefix = prefix_of(spec);
    let total = sign.len() + prefix.len() + utf8_len(digits);
    if spec.zero {
        let zeros: nat = match spec.width {
            Some(w) => if total < w {
                (w - total) as nat
            } else {
                0
            },
            None => 0,
        };
        seq![sign, prefix] + fill_pieces('0', zeros) + seq![digits]
    } else {
        padded_pieces(seq![sign, prefix, digits], total, spec, Align::Right)
    }
}

/// The pieces written for one argument whose bare value is `bare`, in the
/// order they are written.
pub open spec fn render_pieces(bare: Seq<char>, numeric: bool, spec: Spec) -> Seq<Seq<char>> {
    if numeric {
        number_pieces(bare, spec)
    } else {
        text_pieces(bare, spec)
    }
}

pub proof fn lemma_fill_pieces(c: char, n: nat)
    ensures
        fill_pieces(c, n).flatten() == repeat(c, n),
    decreases n,
{
    if n == 0 {
        assert(repeat(c, 0) =~= Seq::<char>::empty());
    } else {
        lemma_fill_pieces(c, (n - 1) as nat);
        assert(fill_pieces(c, n) =~= fill_pieces(c, (n - 1) as nat).push(seq![c]));
        fill_pieces(c, (n - 1) as nat).lemma_flatten_push(seq![c]);
        assert(repeat(c, n) =~= repeat(c, (n - 1) as nat) + seq![c]);
    }
}

proof fn lemma_flatten3(a: Seq<Seq<char>>, b: Seq<Seq<char>>, c: Seq<Seq<char>>)
    ensures
        (a + b + c).flatten() == a.flatten() + b.flatten() + c.flatten(),
{
    lemma_flatten_concat(a + b, c);
    lemma_flatten_concat(a, b);
}

pub proof fn lemma_padded_pieces(body: Seq<Seq<char>>, total: nat, spec: Spec, default: Align)
    ensures
        padded_pieces(body, total, spec, default).flatten() == padded(
            body.flatten(),
            total,
            spec,
            default,
        ),
{
    match spec.width {
        None => {},
        Some(w) => {
            if total < w {
                let pad = (w - total) as nat;
                lemma_fill_pieces(spec.fill, pad);
                lemma_fill_pieces(spec.fill, pad / 2);
                lemma_fill_pieces(spec.fill, (pad - pad / 2) as nat);
                lemma_flatten_concat(body, fill_pieces(spec.fill, pad));
                lemma_flatten_concat(fill_pieces(spec.fill, pad), body);
                lemma_flatten3(
                    fill_pieces(spec.fill, pad / 2),
                    body,
                    fill_pieces(spec.fill, (pad - pad / 2) as nat),
                );
            }
        },
    }
}

/// The pieces of one argument, written in order, give its rendering.
pub proof fn lemma_render_pieces(bare: Seq<char>, numeric: bool, spec: Spec)
    ensures
        render_pieces(bare, numeric, spec).flatten() == render_of(bare, numeric, spec),
{
    if numeric {
        let (sign, digits) = sign_split(bare, spec.sign_plus);
        let prefix = prefix_of(spec);
        let total = sign.len() + prefix.len() + utf8_len(digits);
        lemma_flatten_one(sign);
        lemma_flatten_one(prefix);
        lemma_flatten_one(digits);
        lemma_flatten_concat(seq![sign], seq![prefix]);
        assert(seq![sign] + seq![prefix] =~= seq![sign, prefix]);
        lemma_flatten_concat(seq![sign, prefix], seq![digits]);
        assert(seq![sign, prefix] + seq![digits] =~= seq![sign, prefix, digits]);
        if spec.zero {
            let zeros: nat = match spec.width {
                Some(w) => if total < w {
                    (w - total) as nat
                } else {
                    0
                },
                None => 0,
            };
            lemma_fill_pieces('0', zeros);
            lemma_flatten3(seq![sign, prefix], fill_pieces('0', zeros), seq![digits]);
            assert(repeat('0', 0) =~= Seq::<char>::empty());
            assert(sign + prefix + repeat('0', zeros) + digits == render_number(bare, spec));
        } else {
            lemma_padded_pieces(seq![sign, prefix, digits], total, spec, Align::Right);
        }
    } else {
        let body = text_body(bare, spec);
        lemma_flatten_one(body);
        lemma_padded_pieces(seq![body], body.len(), spec, Align::Left);
    }
}

/// The text of each of `v`.
pub open spec fn pieces_view(v: Seq<String>) -> Seq<Seq<char>> {
    v.map_values(|s: String| s@)
}

/// Writes each of `pieces` into `sink` in order, stopping at the first
/// rejected write.
pub fn write_all<S: Sink>(sink: &mut S, pieces: &Vec<String>) -> (r: Result<(), FormatError>)
    ensures
        wrote(*old(sink), *final(sink), pieces_view(pieces@), r),
        S::never_rejects() ==> r is Ok,
{
    let ghost start = *sink;
    let ghost all = pieces_view(pieces@);
    let n = pieces.len();
    let mut k: usize = 0;
    proof {
        lemma_wrote_nothing(start);
        assert(all.take(0) =~= Seq::<Seq<char>>::empty());
    }
    while k < n
        invariant
            k <= n == pieces.len(),
            all == pieces_view(pieces@),
            start == *old(sink),
            wrote(start, *sink, all.take(k as int), Ok(())),
        decreases n - k,
    {
        let ghost before = *sink;
        let w = write_piece(sink, pieces[k].as_str());
        proof {
            lemma_wrote_then(start, before, *sink, all.take(k as int), seq![pieces@[k as int]@], w);
            assert(all.take(k as int) + seq![pieces@[k as int]@] =~= all.take(k + 1));
        }
        match w {
            Ok(()) => {},
            Err(e) => {
                proof {
                    lemma_wrote_stopped(start, *sink, all.take(k + 1), all.skip(k + 1), w);
                    assert(all.take(k + 1) + all.skip(k + 1) =~= all);
                }
                return Err(e);
            },
        }
        k = k + 1;
    }
    assert(all.take(n as int) =~= all);
    Ok(())
}

/// Writes `fill` `n` times into `sink`, one piece per character, stopping
/// at the first rejected write.
pub fn write_fill_to<S: Sink>(sink: &mut S, fill: char, n: usize) -> (r: Result<(), FormatError>)
    ensures
        wrote(*old(sink), *final(sink), fill_pieces(fill, n as nat), r),
        S::never_rejects() ==> r is Ok,
{
    let ghost start = *sink;
    let mut piece = String::new();
    piece.push(fill);
    assert(piece@ =~= seq![fill]);
    let mut k: usize = 0;
    proof {
        lemma_wrote_nothing(start);
        assert(fill_pieces(fill, 0) =~= Seq::<Seq<char>>::empty());
    }
    while k < n
        invariant
            k <= n,
            piece@ == seq![fill],
            start == *old(sink),
            wrote(start, *sink, fill_pieces(fill, k as nat), Ok(())),
        decreases n - k,
    {
        let ghost before = *sink;
        let w = write_piece(sink, piece.as_str());
        proof {
            lemma_wrote_then(start, before, *sink, fill_pieces(fill, k as nat), seq![seq![fill]], w);
            assert(fill_pieces(fill, k as nat) + seq![seq![fill]] =~= fill_pieces(fill, (k + 1) as nat));
        }
        match w {
            Ok(()) => {},
            Err(e) => {
                proof {
                    let full = fill_pieces(fill, n as nat);
                    assert(fill_pieces(fill, (k + 1) as nat) =~= full.take(k + 1));
                    lemma_wrote_stopped(start, *sink, full.take(k + 1), full.skip(k + 1), w);
                    assert(full.take(k + 1) + full.skip(k + 1) =~= full);
                }
                return Err(e);
            },
        }
        k = k + 1;
    }
    Ok(())
}

/// Writes `body` padded to the spec's width into `sink`, where `total` is
/// the length the body counts for (saturated at `usize::MAX`).
pub fn write_padded_to<S: Sink>(
    sink: &mut S,
    spec: &Spec,
    default: Align,
    total: usize,
    body: &Vec<String>,
) -> (r: Result<(), FormatError>)
    ensures
        wrote(
            *old(sink),
            *final(sink),
            padded_pieces(pieces_view(body@), total as nat, *spec, default),
            r,
        ),
        S::never_rejects() ==> r is Ok,
{
    let ghost start = *sink;
    let ghost b = pieces_view(body@);
    match spec.width {
        None => write_all(sink, body),
        Some(width) => {
            if total >= width {
                write_all(sink, body)
            } else {
                let pad = width - total;
                let align = match spec.align {
                    Some(a) => a,
                    None => default,
                };
                match align {
                    Align::Left => {
                        let r1 = write_all(sink, body);
                        let ghost mid = *sink;
                        if r1.is_err() {
                            proof {
                                lemma_wrote_stopped(start, mid, b, fill_pieces(spec.fill, pad as nat), r1);
                            }
                            return r1;
                        }
                        let r2 = write_fill_to(sink, spec.fill, pad);
                        proof {
                            lemma_wrote_then(start, mid, *sink, b, fill_pieces(spec.fill, pad as nat), r2);
                        }
                        r2
                    },
                    Align::Right => {
                        let r1 = write_fill_to(sink, spec.fill, pad);
                        let ghost mid = *sink;
                        if r1.is_err() {
                            proof {
                                lemma_wrote_stopped(start, mid, fill_pieces(spec.fill, pad as nat), b, r1);
                            }
                            return r1;
                        }
                        let r2 = write_all(sink, body);
                        proof {
                            lemma_wrote_then(start, mid, *sink, fill_pieces(spec.fill, pad as nat), b, r2);
                        }
                        r2
                    },
                    Align::Center => {
                        let left = pad / 2;
                        let ghost fl = fill_pieces(spec.fill, left as nat);
                        let ghost fr = fill_pieces(spec.fill, (pad - left) as nat);
                        let r1 = write_fill_to(sink, spec.fill, left);
                        let ghost mid1 = *sink;
                        if r1.is_err() {
                            proof {
                                lemma_wrote_stopped(start, mid1, fl, b + fr, r1);
                                assert(fl + (b + fr) =~= fl + b + fr);
                            }
                            return r1;
                        }
                        let r2 = write_all(sink, body);
                        let ghost mid2 = *sink;
                        proof {
                            lemma_wrote_then(start, mid1, mid2, fl, b, r2);
                        }
                        if r2.is_err() {
                            proof {
                                lemma_wrote_stopped(start, mid2, fl + b, fr, r2);
                            }
                            return r2;
                        }
                        let r3 = write_fill_to(sink, spec.fill, pad - left);
                        proof {
                            lemma_wrote_then(start, mid2, *sink, fl + b, fr, r3);
                        }
                        r3
                    },
                }
            }
        },
    }
}

/// The sign and `#` prefix of a bare numeric value, and the index at
/// which its digits start.
fn number_parts(bare: &Vec<char>, spec: &Spec) -> (r: (String, String, usize))
    ensures
        r.0@ == sign_split(bare@, spec.sign_plus).0,
        r.1@ == prefix_of(*spec),
        r.2 <= bare.len(),
        bare@.skip(r.2 as int) == sign_split(bare@, spec.sign_plus).1,
{
    let len = bare.len();
    let negative = len > 0 && bare[0] == '-';
    let is_nan = len == 3 && bare[0] == 'N' && bare[1] == 'a' && bare[2] == 'N';
    proof {
        if is_nan {
            assert(bare@ =~= nan());
        }
        if bare@ == nan() {
            assert(bare@[0] == 'N' && bare@[1] == 'a' && bare@[2] == 'N');
        }
    }
    let mut sign = String::new();
    let digits_start: usize = if negative {
        sign.push('-');
        1
    } else if spec.sign_plus && !is_nan {
        sign.push('+');
        0
    } else {
        0
    };
    let ghost sd = sign_split(bare@, spec.sign_plus);
    assert(sign@ =~= sd.0);
    assert(bare@.skip(digits_start as int) =~= sd.1);
    let prefix = if spec.alternate {
        crate::strings::string_of_str(radix_prefix(spec.ty))
    } else {
        String::new()
    };
    (sign, prefix, digits_start)
}

/// Writes one argument whose bare value is `bare`, rendered according to
/// `spec`, into `sink` piece by piece, stopping at the first rejected
/// write.
pub fn render_arg_to<S: Sink>(sink: &mut S, bare: &str, numeric: bool, spec: &Spec) -> (r: Result<
    (),
    FormatError,
>)
    ensures
        wrote(*old(sink), *final(sink), render_pieces(bare@, numeric, *spec), r),
        S::never_rejects() ==> r is Ok,
{
    let chars = chars_of(bare);
    if !numeric {
        let body = match spec.precision {
            Some(p) => truncate_chars(&chars, p),
            None => truncate_chars(&chars, chars.len()),
        };
        let text = string_of_chars(&body);
        let total = body.len();
        let pieces = vec![text];
        assert(pieces_view(pieces@) =~= seq![text_body(bare@, *spec)]);
        return write_padded_to(sink, spec, Align::Left, total, &pieces);
    }
    let len = chars.len();
    let ghost sd = sign_split(bare@, spec.sign_plus);
    let ghost prefix_s = prefix_of(*spec);
    let (sign, prefix, digits_start) = number_parts(&chars, spec);
    let mut digits = String::new();
    push_chars(&mut digits, &chars, digits_start, len);
    assert(digits@ =~= sd.1);
    let head_len = chars_of(sign.as_str()).len() + chars_of(prefix.as_str()).len();
    assert(head_len <= 3) by {
        assert(sd.0.len() <= 1);
        assert(prefix_s.len() <= 2);
    }
    let digit_bytes = utf8_len_from(&chars, digits_start);
    let total = if digit_bytes > usize::MAX - head_len {
        usize::MAX
    } else {
        head_len + digit_bytes
    };
    let ghost t = sd.0.len() + prefix_s.len() + utf8_len(sd.1);
    assert(total == sat_usize(t));
    if spec.zero {
        let ghost start = *sink;
        let r1 = write_piece(sink, sign.as_str());
        let ghost m1 = *sink;
        let ghost zeros_s: nat = match spec.width {
            Some(w) => if t < w {
                (w - t) as nat
            } else {
                0
            },
            None => 0,
        };
        let ghost full = seq![sd.0, prefix_s] + fill_pieces('0', zeros_s) + seq![sd.1];
        if r1.is_err() {
            proof {
                lemma_wrote_stopped(start, m1, seq![sd.0], full.skip(1), r1);
                assert(seq![sd.0] + full.skip(1) =~= full);
            }
            return r1;
        }
        let r2 = write_piece(sink, prefix.as_str());
        let ghost m2 = *sink;
        proof {
            lemma_wrote_then(start, m1, m2, seq![sd.0], seq![prefix_s], r2);
            assert(seq![sd.0] + seq![prefix_s] =~= seq![sd.0, prefix_s]);
        }
        if r2.is_err() {
            proof {
                lemma_wrote_stopped(start, m2, seq![sd.0, prefix_s], full.skip(2), r2);
                assert(seq![sd.0, prefix_s] + full.skip(2) =~= full);
            }
            return r2;
        }
        let zeros: usize = match spec.width {
            Some(width) => if total < width {
                width - total
            } else {
                0
            },
            None => 0,
        };
        proof {
            match spec.width {
                Some(w) => {
                    assert((total < w) == (t < w));
                    if total < w {
                        assert(total == t);
                    }
                },
                None => {},
            }
        }
        let r3 = write_fill_to(sink, '0', zeros);
        let ghost m3 = *sink;
        proof {
            lemma_wrote_then(start, m2, m3, seq![sd.0, prefix_s], fill_pieces('0', zeros as nat), r3);
        }
        if r3.is_err() {
            proof {
                assert(zeros == zeros_s);
                lemma_wrote_stopped(start, m3, seq![sd.0, prefix_s] + fill_pieces('0', zeros as nat), seq![sd.1], r3);
            }
            return r3;
        }
        let r4 = write_piece(sink, digits.as_str());
        proof {
            lemma_wrote_then(
                start,
                m3,
                *sink,
                seq![sd.0, prefix_s] + fill_pieces('0', zeros as nat),
                seq![sd.1],
                r4,
            );
        }
        r4
    } else {
        let pieces = vec![sign, prefix, digits];
        assert(pieces_view(pieces@) =~= seq![sd.0, prefix_s, sd.1]);
        proof {
            match spec.width {
                Some(w) => {
                    assert((total >= w) == (t >= w));
                    if total < w {
                        assert(total == t);
                    }
                },
                None => {},
            }
        }
        write_padded_to(sink, spec, Align::Right, total, &pieces)
    }
}

} // verus!
