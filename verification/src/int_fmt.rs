//! The bare renderings of integers: decimal, two's-complement radix digits,
//! and scientific notation.
use vstd::prelude::*;

use crate::arg::FormatType;

verus! {

/// The digit character for `d` (`0`-`9`, then `a`-`f` or `A`-`F`).
pub open spec fn digit_char(d: nat, upper: bool) -> char {
    if d < 10 {
        (d + 48) as char
    } else if upper {
        (d - 10 + 65) as char
    } else {
        (d - 10 + 97) as char
    }
}

/// The digits of `n` in base `radix`, most significant first, without
/// leading zeros (`0` is one digit).
pub open spec fn radix_digits(n: nat, radix: nat, upper: bool) -> Seq<char>
    recommends
        radix >= 2,
    decreases n,
{
    if radix < 2 || n < radix {
        seq![digit_char(n, upper)]
    } else {
        proof {
            assert(n / radix < n) by (nonlinear_arith)
                requires
                    n >= radix,
                    radix >= 2,
            ;
        }
        radix_digits(n / radix, radix, upper).push(digit_char(n % radix, upper))
    }
}

/// `v` in decimal, with a leading `-` when negative.
pub open spec fn decimal_of(v: int) -> Seq<char> {
    if v < 0 {
        seq!['-'] + radix_digits((-v) as nat, 10, false)
    } else {
        radix_digits(v as nat, 10, false)
    }
}

/// The two's-complement bit pattern of `v` for a type with `modulus`
/// values.
pub open spec fn twos(v: int, modulus: nat) -> nat {
    if v < 0 {
        (modulus + v) as nat
    } else {
        v as nat
    }
}

/// `n` without its trailing decimal zeros, and how many there were (`0`
/// keeps its one digit).
pub open spec fn strip_zeros(n: nat) -> (nat, nat)
    decreases n,
{
    if n >= 10 && n % 10 == 0 {
        let (m, z) = strip_zeros(n / 10);
        (m, z + 1)
    } else {
        (n, 0)
    }
}

/// `v` in scientific notation: one digit, the remaining significant digits
/// after a `.`, then `e` (or `E`) and the exponent.
pub open spec fn exp_of(v: int, upper: bool) -> Seq<char> {
    let mag: nat = if v < 0 {
        (-v) as nat
    } else {
        v as nat
    };
    let (m, z) = strip_zeros(mag);
    let ds = radix_digits(m, 10, false);
    let e: nat = (z + ds.len() - 1) as nat;
    let mant = if ds.len() > 1 {
        seq![ds[0], '.'] + ds.skip(1)
    } else {
        ds
    };
    let sign = if v < 0 {
        seq!['-']
    } else {
        Seq::<char>::empty()
    };
    sign + mant + seq![
        if upper {
            'E'
        } else {
            'e'
        },
    ] + radix_digits(e, 10, false)
}

/// The bare rendering of the integer `v` of a type with `modulus` values.
/// `Debug` (pretty or not) renders as `Display` does.
pub open spec fn int_bare(v: int, modulus: nat, ty: FormatType) -> Seq<char> {
    match ty {
        FormatType::Display | FormatType::Debug => decimal_of(v),
        FormatType::LowerHex => radix_digits(twos(v, modulus), 16, false),
        FormatType::UpperHex => radix_digits(twos(v, modulus), 16, true),
        FormatType::Octal => radix_digits(twos(v, modulus), 8, false),
        FormatType::Binary => radix_digits(twos(v, modulus), 2, false),
        FormatType::LowerExp => exp_of(v, false),
        FormatType::UpperExp => exp_of(v, true),
    }
}

fn digit_char_exec(d: u128, upper: bool) -> (c: char)
    requires
        d < 16,
    ensures
        c == digit_char(d as nat, upper),
{
    if d < 10 {
        ((d as u8) + 48) as char
    } else if upper {
        ((d as u8) - 10 + 65) as char
    } else {
        ((d as u8) - 10 + 97) as char
    }
}

/// Appends the digits of `n` in base `radix`.
pub fn push_radix_digits(out: &mut Vec<char>, n: u128, radix: u128, upper: bool)
    requires
        2 <= radix <= 16,
    ensures
        final(out)@ == old(out)@ + radix_digits(n as nat, radix as nat, upper),
    decreases n,
{
    if n >= radix {
        assert(n / radix < n) by (nonlinear_arith)
            requires
                n >= radix,
                radix >= 2,
        ;
        push_radix_digits(out, n / radix, radix, upper);
    }
    out.push(digit_char_exec(n % radix, upper));
    proof {
        if n >= radix {
            assert(final(out)@ =~= old(out)@ + radix_digits(n as nat, radix as nat, upper));
        } else {
            assert(n % radix == n) by (nonlinear_arith)
                requires
                    n < radix,
                    radix >= 2,
            ;
            assert(final(out)@ =~= old(out)@ + radix_digits(n as nat, radix as nat, upper));
        }
    }
}

proof fn lemma_radix_digits_len(n: nat, radix: nat, upper: bool)
    requires
        2 <= radix,
    ensures
        radix_digits(n, radix, upper).len() >= 1,
    decreases n,
{
    if n >= radix {
        assert(n / radix < n) by (nonlinear_arith)
            requires
                n >= radix,
                radix >= 2,
        ;
        lemma_radix_digits_len(n / radix, radix, upper);
    }
}

/// Stripping trailing zeros takes one decimal digit off per zero.
proof fn lemma_strip_zeros_len(n: nat)
    ensures
        strip_zeros(n).1 + radix_digits(strip_zeros(n).0, 10, false).len() == radix_digits(
            n,
            10,
            false,
        ).len(),
    decreases n,
{
    if n >= 10 && n % 10 == 0 {
        assert(n / 10 < n);
        lemma_strip_zeros_len(n / 10);
    }
}

/// The bare rendering of an integer given by its sign and magnitude, for a
/// type with `modulus_minus_one + 1` values.
pub fn int_write(negative: bool, magnitude: u128, modulus_minus_one: u128, ty: FormatType) -> (r: Vec<char>)
    requires
        negative ==> 1 <= magnitude <= modulus_minus_one,
    ensures
        r@ == int_bare(
            if negative {
                -magnitude
            } else {
                magnitude as int
            },
            (modulus_minus_one + 1) as nat,
            ty,
        ),
{
    let ghost v: int = if negative {
        -magnitude
    } else {
        magnitude as int
    };
    let mut out: Vec<char> = Vec::new();
    match ty {
        FormatType::Display | FormatType::Debug => {
            if negative {
                out.push('-');
            }
            push_radix_digits(&mut out, magnitude, 10, false);
            assert(out@ =~= decimal_of(v));
        },
        FormatType::LowerHex | FormatType::UpperHex | FormatType::Octal | FormatType::Binary => {
            let bits = if negative {
                (modulus_minus_one - magnitude) + 1
            } else {
                magnitude
            };
            assert(bits == twos(v, (modulus_minus_one + 1) as nat));
            match ty {
                FormatType::LowerHex => push_radix_digits(&mut out, bits, 16, false),
                FormatType::UpperHex => push_radix_digits(&mut out, bits, 16, true),
                FormatType::Octal => push_radix_digits(&mut out, bits, 8, false),
                _ => push_radix_digits(&mut out, bits, 2, false),
            }
            assert(out@ =~= int_bare(v, (modulus_minus_one + 1) as nat, ty));
        },
        FormatType::LowerExp | FormatType::UpperExp => {
            exp_write(&mut out, negative, magnitude, ty == FormatType::UpperExp);
            assert(out@ =~= int_bare(v, (modulus_minus_one + 1) as nat, ty));
        },
    }
    out
}

/// Appends the scientific notation of the integer with the given sign and
/// magnitude.
fn exp_write(out: &mut Vec<char>, negative: bool, magnitude: u128, upper: bool)
    requires
        old(out)@.len() == 0,
        negative ==> magnitude >= 1,
    ensures
        final(out)@ == exp_of(
            if negative {
                -magnitude
            } else {
                magnitude as int
            },
            upper,
        ),
{
    let ghost v: int = if negative {
        -magnitude
    } else {
        magnitude as int
    };
    let mut m = magnitude;
    let ghost mut z: nat = 0;
    while m >= 10 && m % 10 == 0
        invariant
            m <= magnitude,
            strip_zeros(magnitude as nat).0 == strip_zeros(m as nat).0,
            strip_zeros(magnitude as nat).1 == strip_zeros(m as nat).1 + z,
        decreases m,
    {
        m = m / 10;
        proof {
            z = z + 1;
        }
    }
    let mut ds: Vec<char> = Vec::new();
    push_radix_digits(&mut ds, m, 10, false);
    let mut full: Vec<char> = Vec::new();
    push_radix_digits(&mut full, magnitude, 10, false);
    proof {
        lemma_radix_digits_len(m as nat, 10, false);
        lemma_strip_zeros_len(magnitude as nat);
        assert(ds@ =~= radix_digits(m as nat, 10, false));
        assert(full@ =~= radix_digits(magnitude as nat, 10, false));
        assert(strip_zeros(m as nat) == (m as nat, 0nat));
    }
    if negative {
        out.push('-');
    }
    out.push(ds[0]);
    let dn = ds.len();
    if dn > 1 {
        out.push('.');
        let mut i: usize = 1;
        while i < dn
            invariant
                1 <= i <= dn == ds.len(),
                out@ == (if negative {
                    seq!['-']
                } else {
                    Seq::<char>::empty()
                }) + seq![ds@[0], '.'] + ds@.subrange(1, i as int),
            decreases dn - i,
        {
            out.push(ds[i]);
            assert(ds@.subrange(1, i + 1) =~= ds@.subrange(1, i as int).push(ds@[i as int]));
            i = i + 1;
        }
        assert(ds@.subrange(1, dn as int) =~= ds@.skip(1));
    }
    out.push(if upper {
        'E'
    } else {
        'e'
    });
    let e = (full.len() - 1) as u128;
    push_radix_digits(out, e, 10, false);
    proof {
        let sign = if negative {
            seq!['-']
        } else {
            Seq::<char>::empty()
        };
        if dn > 1 {
            assert(final(out)@ =~= sign + (seq![ds@[0], '.'] + ds@.skip(1)) + seq![
                if upper {
                    'E'
                } else {
                    'e'
                },
            ] + radix_digits(e as nat, 10, false));
        } else {
            assert(ds@ =~= seq![ds@[0]]);
            assert(final(out)@ =~= sign + ds@ + seq![
                if upper {
                    'E'
                } else {
                    'e'
                },
            ] + radix_digits(e as nat, 10, false));
        }
    }
}

} // verus!
