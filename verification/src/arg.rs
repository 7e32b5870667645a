use vstd::prelude::*;

use crate::__private::{opt_view, wrap_bare, Wrap};
use crate::int_fmt::{int_bare, int_write};
use crate::strings::{
    char_debug, char_debug_text, char_pretty_debug, char_pretty_debug_text, str_debug,
    str_debug_text, str_pretty_debug, str_pretty_debug_text, string_of_chars, string_of_str,
};

verus! {

/// The trailing type character of a `{...}` placeholder spec.
#[derive(Clone, Copy, Debug, PartialEq, Eq, Structural)]
pub enum FormatType {
    /// `{}` — default `Display` formatting.
    Display,
    /// `{:?}` (combined with `#`, i.e. `{:#?}`, for pretty output).
    Debug,
    /// `{:x}`
    LowerHex,
    /// `{:X}`
    UpperHex,
    /// `{:o}`
    Octal,
    /// `{:b}`
    Binary,
    /// `{:e}`
    LowerExp,
    /// `{:E}`
    UpperExp,
}

/// A value that can be substituted into a `{}` placeholder.
///
/// `write` renders the **bare** value for the format type `ty`: signs, `#`
/// radix prefixes, width, alignment and (for non-numeric values) precision
/// are applied by the engine afterwards. `pretty` asks for the `{:#?}` style
/// when `ty` is [`FormatType::Debug`]; `precision` is meant for the digits
/// after the point of floating-point values. `None` means the value does not
/// support `ty`, which the engine reports as
/// [`FormatError::UnsupportedFormatType`](crate::FormatError::UnsupportedFormatType).
pub trait FormatArg {
    fn write(&self, ty: FormatType, pretty: bool, precision: Option<usize>) -> Option<String>;

    /// Whether the value is numeric. Affects the default alignment (right),
    /// the `+` sign flag and the `0` flag.
    fn is_numeric(&self) -> (r: bool)
        default_ensures
            !r,
    {
        false
    }

    /// Whether the value is an integer.
    fn is_integer(&self) -> (r: bool)
        default_ensures
            !r,
    {
        false
    }

    /// The value as a `usize`, used to resolve dynamic width/precision such
    /// as `{:1$}` / `{:.1$}`; `None` for values that are not unsigned
    /// integers fitting in a `usize`.
    fn as_usize(&self) -> (r: Option<usize>)
        default_ensures
            r is None,
    {
        None
    }
}

/// One argument of a format call, held as a plain value.
#[derive(Clone, Copy, Debug)]
pub enum ArgSlot<'a> {
    I8(i8),
    I16(i16),
    I32(i32),
    I64(i64),
    I128(i128),
    Isize(isize),
    U8(u8),
    U16(u16),
    U32(u32),
    U64(u64),
    U128(u128),
    Usize(usize),
    Str(&'a str),
    Char(char),
    Bool(bool),
    /// A value rendered through its own `Display` / `Debug`.
    Derived(&'a Wrap),
}

pub open spec fn bool_text(b: bool) -> Seq<char> {
    if b {
        seq!['t', 'r', 'u', 'e']
    } else {
        seq!['f', 'a', 'l', 's', 'e']
    }
}

/// The bare rendering of a string: itself for `{}`, its escaped form for
/// `{:?}` / `{:#?}`, nothing for other types.
pub open spec fn str_bare(s: Seq<char>, ty: FormatType, pretty: bool) -> Option<Seq<char>> {
    match ty {
        FormatType::Display => Some(s),
        FormatType::Debug => Some(
            if pretty {
                str_pretty_debug_text(s)
            } else {
                str_debug_text(s)
            },
        ),
        _ => None,
    }
}

pub open spec fn char_bare(c: char, ty: FormatType, pretty: bool) -> Option<Seq<char>> {
    match ty {
        FormatType::Display => Some(seq![c]),
        FormatType::Debug => Some(
            if pretty {
                char_pretty_debug_text(c)
            } else {
                char_debug_text(c)
            },
        ),
        _ => None,
    }
}

pub open spec fn bool_bare(b: bool, ty: FormatType) -> Option<Seq<char>> {
    match ty {
        FormatType::Display | FormatType::Debug => Some(bool_text(b)),
        _ => None,
    }
}

impl<'a> ArgSlot<'a> {
    /// The value of an integer argument and the number of values of its
    /// type.
    pub open spec fn int_value(&self) -> Option<(int, nat)> {
        match *self {
            ArgSlot::I8(v) => Some((v as int, 0x100nat)),
            ArgSlot::I16(v) => Some((v as int, 0x1_0000nat)),
            ArgSlot::I32(v) => Some((v as int, 0x1_0000_0000nat)),
            ArgSlot::I64(v) => Some((v as int, 0x1_0000_0000_0000_0000nat)),
            ArgSlot::I128(v) => Some((v as int, 0x1_0000_0000_0000_0000_0000_0000_0000_0000nat)),
            ArgSlot::Isize(v) => Some((v as int, (usize::MAX + 1) as nat)),
            ArgSlot::U8(v) => Some((v as int, 0x100nat)),
            ArgSlot::U16(v) => Some((v as int, 0x1_0000nat)),
            ArgSlot::U32(v) => Some((v as int, 0x1_0000_0000nat)),
            ArgSlot::U64(v) => Some((v as int, 0x1_0000_0000_0000_0000nat)),
            ArgSlot::U128(v) => Some((v as int, 0x1_0000_0000_0000_0000_0000_0000_0000_0000nat)),
            ArgSlot::Usize(v) => Some((v as int, (usize::MAX + 1) as nat)),
            _ => None,
        }
    }

    /// The bare rendering of the argument for a placeholder of type `ty`.
    /// Precision is ignored here: integers ignore it, and the engine cuts
    /// text to it.
    pub open spec fn bare(&self, ty: FormatType, pretty: bool) -> Option<Seq<char>> {
        match *self {
            ArgSlot::Str(s) => str_bare(s@, ty, pretty),
            ArgSlot::Char(c) => char_bare(c, ty, pretty),
            ArgSlot::Bool(b) => bool_bare(b, ty),
            ArgSlot::Derived(w) => wrap_bare(w@, ty, pretty),
            _ => match self.int_value() {
                Some((v, m)) => Some(int_bare(v, m, ty)),
                None => None,
            },
        }
    }

    /// Whether the argument is numeric (the integers).
    pub open spec fn numeric(&self) -> bool {
        self.int_value() is Some
    }

    /// The argument as a width or precision: a non-negative integer that
    /// fits in a `usize`.
    pub open spec fn usize_value(&self) -> Option<usize> {
        match self.int_value() {
            Some((v, _)) => if 0 <= v <= usize::MAX {
                Some(v as usize)
            } else {
                None
            },
            None => None,
        }
    }

    /// The sign and magnitude of an integer argument, and the largest value
    /// of its unsigned counterpart.
    fn int_parts(&self) -> (r: Option<(bool, u128, u128)>)
        ensures
            match (r, self.int_value()) {
                (Some((neg, mag, m1)), Some((v, m))) => {
                    &&& v == (if neg {
                        -mag
                    } else {
                        mag as int
                    })
                    &&& m == m1 + 1
                    &&& neg ==> 1 <= mag <= m1
                },
                (None, None) => true,
                _ => false,
            },
    {
        match *self {
            ArgSlot::I8(v) => {
                let (n, m) = signed_parts(v as i128);
                Some((n, m, 0xff))
            },
            ArgSlot::I16(v) => {
                let (n, m) = signed_parts(v as i128);
                Some((n, m, 0xffff))
            },
            ArgSlot::I32(v) => {
                let (n, m) = signed_parts(v as i128);
                Some((n, m, 0xffff_ffff))
            },
            ArgSlot::I64(v) => {
                let (n, m) = signed_parts(v as i128);
                Some((n, m, 0xffff_ffff_ffff_ffff))
            },
            ArgSlot::I128(v) => {
                let (n, m) = signed_parts(v);
                Some((n, m, u128::MAX))
            },
            ArgSlot::Isize(v) => {
                let (n, m) = signed_parts(v as i128);
                Some((n, m, usize::MAX as u128))
            },
            ArgSlot::U8(v) => Some((false, v as u128, 0xff)),
            ArgSlot::U16(v) => Some((false, v as u128, 0xffff)),
            ArgSlot::U32(v) => Some((false, v as u128, 0xffff_ffff)),
            ArgSlot::U64(v) => Some((false, v as u128, 0xffff_ffff_ffff_ffff)),
            ArgSlot::U128(v) => Some((false, v, u128::MAX)),
            ArgSlot::Usize(v) => Some((false, v as u128, usize::MAX as u128)),
            _ => None,
        }
    }

    /// The bare rendering of the argument for a placeholder of type `ty`.
    pub fn write_bare(&self, ty: FormatType, pretty: bool) -> (r: Option<String>)
        ensures
            opt_view(r) == self.bare(ty, pretty),
    {
        match self {
            ArgSlot::Str(s) => match ty {
                FormatType::Display => Some(string_of_str(s)),
                FormatType::Debug => Some(
                    if pretty {
                        str_pretty_debug(s)
                    } else {
                        str_debug(s)
                    },
                ),
                _ => None,
            },
            ArgSlot::Char(c) => match ty {
                FormatType::Display => {
                    let mut r = String::new();
                    r.push(*c);
                    assert(r@ =~= seq![*c]);
                    Some(r)
                },
                FormatType::Debug => Some(
                    if pretty {
                        char_pretty_debug(*c)
                    } else {
                        char_debug(*c)
                    },
                ),
                _ => None,
            },
            ArgSlot::Bool(b) => match ty {
                FormatType::Display | FormatType::Debug => {
                    let text = if *b {
                        vec!['t', 'r', 'u', 'e']
                    } else {
                        vec!['f', 'a', 'l', 's', 'e']
                    };
                    let r = string_of_chars(&text);
                    assert(r@ =~= bool_text(*b));
                    Some(r)
                },
                _ => None,
            },
            ArgSlot::Derived(w) => w.write_bare(ty, pretty),
            _ => match self.int_parts() {
                Some((neg, mag, m1)) => {
                    let v = int_write(neg, mag, m1, ty);
                    Some(string_of_chars(&v))
                },
                None => None,
            },
        }
    }

    /// Whether the argument is numeric.
    pub fn is_numeric_slot(&self) -> (r: bool)
        ensures
            r == self.numeric(),
    {
        self.int_parts().is_some()
    }

    /// The argument as a width or precision.
    pub fn as_usize_slot(&self) -> (r: Option<usize>)
        ensures
            r == self.usize_value(),
    {
        match self.int_parts() {
            Some((neg, mag, _)) => if !neg && mag <= usize::MAX as u128 {
                Some(mag as usize)
            } else {
                None
            },
            None => None,
        }
    }
}

/// The sign and magnitude of `v`.
fn signed_parts(v: i128) -> (r: (bool, u128))
    ensures
        v == (if r.0 {
            -r.1
        } else {
            r.1 as int
        }),
        r.0 ==> 1 <= r.1 <= 0x8000_0000_0000_0000_0000_0000_0000_0000,
        r.0 <==> v < 0,
{
    if v < 0 {
        (true, ((-(v + 1)) as u128) + 1)
    } else {
        (false, v as u128)
    }
}

impl<'a> FormatArg for ArgSlot<'a> {
    fn write(&self, ty: FormatType, pretty: bool, precision: Option<usize>) -> (r: Option<String>)
        ensures
            opt_view(r) == self.bare(ty, pretty),
    {
        self.write_bare(ty, pretty)
    }

    fn is_numeric(&self) -> (r: bool)
        ensures
            r == self.numeric(),
    {
        self.is_numeric_slot()
    }

    fn is_integer(&self) -> (r: bool)
        ensures
            r == self.numeric(),
    {
        self.is_numeric_slot()
    }

    fn as_usize(&self) -> (r: Option<usize>)
        ensures
            r == self.usize_value(),
    {
        self.as_usize_slot()
    }
}

impl FormatArg for i8 {
    fn write(&self, ty: FormatType, pretty: bool, precision: Option<usize>) -> (r: Option<String>)
        ensures
            opt_view(r) == ArgSlot::I8(*self).bare(ty, pretty),
    {
        ArgSlot::I8(*self).write_bare(ty, pretty)
    }

    fn is_numeric(&self) -> (r: bool)
        ensures
            r == ArgSlot::I8(*self).numeric(),
    {
        ArgSlot::I8(*self).is_numeric_slot()
    }

    fn is_integer(&self) -> (r: bool)
        ensures
            r == ArgSlot::I8(*self).numeric(),
    {
        ArgSlot::I8(*self).is_numeric_slot()
    }

    fn as_usize(&self) -> (r: Option<usize>)
        ensures
            r == ArgSlot::I8(*self).usize_value(),
    {
        ArgSlot::I8(*self).as_usize_slot()
    }
}

impl FormatArg for i16 {
    fn write(&self, ty: FormatType, pretty: bool, precision: Option<usize>) -> (r: Option<String>)
        ensures
            opt_view(r) == ArgSlot::I16(*self).bare(ty, pretty),
    {
        ArgSlot::I16(*self).write_bare(ty, pretty)
    }

    fn is_numeric(&self) -> (r: bool)
        ensures
            r == ArgSlot::I16(*self).numeric(),
    {
        ArgSlot::I16(*self).is_numeric_slot()
    }

    fn is_integer(&self) -> (r: bool)
        ensures
            r == ArgSlot::I16(*self).numeric(),
    {
        ArgSlot::I16(*self).is_numeric_slot()
    }

    fn as_usize(&self) -> (r: Option<usize>)
        ensures
            r == ArgSlot::I16(*self).usize_value(),
    {
        ArgSlot::I16(*self).as_usize_slot()
    }
}

impl FormatArg for i32 {
    fn write(&self, ty: FormatType, pretty: bool, precision: Option<usize>) -> (r: Option<String>)
        ensures
            opt_view(r) == ArgSlot::I32(*self).bare(ty, pretty),
    {
        ArgSlot::I32(*self).write_bare(ty, pretty)
    }

    fn is_numeric(&self) -> (r: bool)
        ensures
            r == ArgSlot::I32(*self).numeric(),
    {
        ArgSlot::I32(*self).is_numeric_slot()
    }

    fn is_integer(&self) -> (r: bool)
        ensures
            r == ArgSlot::I32(*self).numeric(),
    {
        ArgSlot::I32(*self).is_numeric_slot()
    }

    fn as_usize(&self) -> (r: Option<usize>)
        ensures
            r == ArgSlot::I32(*self).usize_value(),
    {
        ArgSlot::I32(*self).as_usize_slot()
    }
}

impl FormatArg for i64 {
    fn write(&self, ty: FormatType, pretty: bool, precision: Option<usize>) -> (r: Option<String>)
        ensures
            opt_view(r) == ArgSlot::I64(*self).bare(ty, pretty),
    {
        ArgSlot::I64(*self).write_bare(ty, pretty)
    }

    fn is_numeric(&self) -> (r: bool)
        ensures
            r == ArgSlot::I64(*self).numeric(),
    {
        ArgSlot::I64(*self).is_numeric_slot()
    }

    fn is_integer(&self) -> (r: bool)
        ensures
            r == ArgSlot::I64(*self).numeric(),
    {
        ArgSlot::I64(*self).is_numeric_slot()
    }

    fn as_usize(&self) -> (r: Option<usize>)
        ensures
            r == ArgSlot::I64(*self).usize_value(),
    {
        ArgSlot::I64(*self).as_usize_slot()
    }
}

impl FormatArg for i128 {
    fn write(&self, ty: FormatType, pretty: bool, precision: Option<usize>) -> (r: Option<String>)
        ensures
            opt_view(r) == ArgSlot::I128(*self).bare(ty, pretty),
    {
        ArgSlot::I128(*self).write_bare(ty, pretty)
    }

    fn is_numeric(&self) -> (r: bool)
        ensures
            r == ArgSlot::I128(*self).numeric(),
    {
        ArgSlot::I128(*self).is_numeric_slot()
    }

    fn is_integer(&self) -> (r: bool)
        ensures
            r == ArgSlot::I128(*self).numeric(),
    {
        ArgSlot::I128(*self).is_numeric_slot()
    }

    fn as_usize(&self) -> (r: Option<usize>)
        ensures
            r == ArgSlot::I128(*self).usize_value(),
    {
        ArgSlot::I128(*self).as_usize_slot()
    }
}

impl FormatArg for isize {
    fn write(&self, ty: FormatType, pretty: bool, precision: Option<usize>) -> (r: Option<String>)
        ensures
            opt_view(r) == ArgSlot::Isize(*self).bare(ty, pretty),
    {
        ArgSlot::Isize(*self).write_bare(ty, pretty)
    }

    fn is_numeric(&self) -> (r: bool)
        ensures
            r == ArgSlot::Isize(*self).numeric(),
    {
        ArgSlot::Isize(*self).is_numeric_slot()
    }

    fn is_integer(&self) -> (r: bool)
        ensures
            r == ArgSlot::Isize(*self).numeric(),
    {
        ArgSlot::Isize(*self).is_numeric_slot()
    }

    fn as_usize(&self) -> (r: Option<usize>)
        ensures
            r == ArgSlot::Isize(*self).usize_value(),
    {
        ArgSlot::Isize(*self).as_usize_slot()
    }
}

impl FormatArg for u8 {
    fn write(&self, ty: FormatType, pretty: bool, precision: Option<usize>) -> (r: Option<String>)
        ensures
            opt_view(r) == ArgSlot::U8(*self).bare(ty, pretty),
    {
        ArgSlot::U8(*self).write_bare(ty, pretty)
    }

    fn is_numeric(&self) -> (r: bool)
        ensures
            r == ArgSlot::U8(*self).numeric(),
    {
        ArgSlot::U8(*self).is_numeric_slot()
    }

    fn is_integer(&self) -> (r: bool)
        ensures
            r == ArgSlot::U8(*self).numeric(),
    {
        ArgSlot::U8(*self).is_numeric_slot()
    }

    fn as_usize(&self) -> (r: Option<usize>)
        ensures
            r == ArgSlot::U8(*self).usize_value(),
    {
        ArgSlot::U8(*self).as_usize_slot()
    }
}

impl FormatArg for u16 {
    fn write(&self, ty: FormatType, pretty: bool, precision: Option<usize>) -> (r: Option<String>)
        ensures
            opt_view(r) == ArgSlot::U16(*self).bare(ty, pretty),
    {
        ArgSlot::U16(*self).write_bare(ty, pretty)
    }

    fn is_numeric(&self) -> (r: bool)
        ensures
            r == ArgSlot::U16(*self).numeric(),
    {
        ArgSlot::U16(*self).is_numeric_slot()
    }

    fn is_integer(&self) -> (r: bool)
        ensures
            r == ArgSlot::U16(*self).numeric(),
    {
        ArgSlot::U16(*self).is_numeric_slot()
    }

    fn as_usize(&self) -> (r: Option<usize>)
        ensures
            r == ArgSlot::U16(*self).usize_value(),
    {
        ArgSlot::U16(*self).as_usize_slot()
    }
}

impl FormatArg for u32 {
    fn write(&self, ty: FormatType, pretty: bool, precision: Option<usize>) -> (r: Option<String>)
        ensures
            opt_view(r) == ArgSlot::U32(*self).bare(ty, pretty),
    {
        ArgSlot::U32(*self).write_bare(ty, pretty)
    }

    fn is_numeric(&self) -> (r: bool)
        ensures
            r == ArgSlot::U32(*self).numeric(),
    {
        ArgSlot::U32(*self).is_numeric_slot()
    }

    fn is_integer(&self) -> (r: bool)
        ensures
            r == ArgSlot::U32(*self).numeric(),
    {
        ArgSlot::U32(*self).is_numeric_slot()
    }

    fn as_usize(&self) -> (r: Option<usize>)
        ensures
            r == ArgSlot::U32(*self).usize_value(),
    {
        ArgSlot::U32(*self).as_usize_slot()
    }
}

impl FormatArg for u64 {
    fn write(&self, ty: FormatType, pretty: bool, precision: Option<usize>) -> (r: Option<String>)
        ensures
            opt_view(r) == ArgSlot::U64(*self).bare(ty, pretty),
    {
        ArgSlot::U64(*self).write_bare(ty, pretty)
    }

    fn is_numeric(&self) -> (r: bool)
        ensures
            r == ArgSlot::U64(*self).numeric(),
    {
        ArgSlot::U64(*self).is_numeric_slot()
    }

    fn is_integer(&self) -> (r: bool)
        ensures
            r == ArgSlot::U64(*self).numeric(),
    {
        ArgSlot::U64(*self).is_numeric_slot()
    }

    fn as_usize(&self) -> (r: Option<usize>)
        ensures
            r == ArgSlot::U64(*self).usize_value(),
    {
        ArgSlot::U64(*self).as_usize_slot()
    }
}

impl FormatArg for u128 {
    fn write(&self, ty: FormatType, pretty: bool, precision: Option<usize>) -> (r: Option<String>)
        ensures
            opt_view(r) == ArgSlot::U128(*self).bare(ty, pretty),
    {
        ArgSlot::U128(*self).write_bare(ty, pretty)
    }

    fn is_numeric(&self) -> (r: bool)
        ensures
            r == ArgSlot::U128(*self).numeric(),
    {
        ArgSlot::U128(*self).is_numeric_slot()
    }

    fn is_integer(&self) -> (r: bool)
        ensures
            r == ArgSlot::U128(*self).numeric(),
    {
        ArgSlot::U128(*self).is_numeric_slot()
    }

    fn as_usize(&self) -> (r: Option<usize>)
        ensures
            r == ArgSlot::U128(*self).usize_value(),
    {
        ArgSlot::U128(*self).as_usize_slot()
    }
}

impl FormatArg for usize {
    fn write(&self, ty: FormatType, pretty: bool, precision: Option<usize>) -> (r: Option<String>)
        ensures
            opt_view(r) == ArgSlot::Usize(*self).bare(ty, pretty),
    {
        ArgSlot::Usize(*self).write_bare(ty, pretty)
    }

    fn is_numeric(&self) -> (r: bool)
        ensures
            r == ArgSlot::Usize(*self).numeric(),
    {
        ArgSlot::Usize(*self).is_numeric_slot()
    }

    fn is_integer(&self) -> (r: bool)
        ensures
            r == ArgSlot::Usize(*self).numeric(),
    {
        ArgSlot::Usize(*self).is_numeric_slot()
    }

    fn as_usize(&self) -> (r: Option<usize>)
        ensures
            r == ArgSlot::Usize(*self).usize_value(),
    {
        ArgSlot::Usize(*self).as_usize_slot()
    }
}

impl FormatArg for char {
    fn write(&self, ty: FormatType, pretty: bool, precision: Option<usize>) -> (r: Option<String>)
        ensures
            opt_view(r) == ArgSlot::Char(*self).bare(ty, pretty),
    {
        ArgSlot::Char(*self).write_bare(ty, pretty)
    }

    fn is_numeric(&self) -> (r: bool)
        ensures
            r == ArgSlot::Char(*self).numeric(),
    {
        ArgSlot::Char(*self).is_numeric_slot()
    }

    fn is_integer(&self) -> (r: bool)
        ensures
            r == ArgSlot::Char(*self).numeric(),
    {
        ArgSlot::Char(*self).is_numeric_slot()
    }

    fn as_usize(&self) -> (r: Option<usize>)
        ensures
            r == ArgSlot::Char(*self).usize_value(),
    {
        ArgSlot::Char(*self).as_usize_slot()
    }
}

impl FormatArg for bool {
    fn write(&self, ty: FormatType, pretty: bool, precision: Option<usize>) -> (r: Option<String>)
        ensures
            opt_view(r) == ArgSlot::Bool(*self).bare(ty, pretty),
    {
        ArgSlot::Bool(*self).write_bare(ty, pretty)
    }

    fn is_numeric(&self) -> (r: bool)
        ensures
            r == ArgSlot::Bool(*self).numeric(),
    {
        ArgSlot::Bool(*self).is_numeric_slot()
    }

    fn is_integer(&self) -> (r: bool)
        ensures
            r == ArgSlot::Bool(*self).numeric(),
    {
        ArgSlot::Bool(*self).is_numeric_slot()
    }

    fn as_usize(&self) -> (r: Option<usize>)
        ensures
            r == ArgSlot::Bool(*self).usize_value(),
    {
        ArgSlot::Bool(*self).as_usize_slot()
    }
}

impl<'b> FormatArg for &'b str {
    fn write(&self, ty: FormatType, pretty: bool, precision: Option<usize>) -> (r: Option<String>)
        ensures
            opt_view(r) == str_bare(self@, ty, pretty),
    {
        ArgSlot::Str(*self).write_bare(ty, pretty)
    }
}

impl FormatArg for String {
    fn write(&self, ty: FormatType, pretty: bool, precision: Option<usize>) -> (r: Option<String>)
        ensures
            opt_view(r) == str_bare(self@, ty, pretty),
    {
        ArgSlot::Str(self.as_str()).write_bare(ty, pretty)
    }
}

impl FormatArg for Wrap {
    fn write(&self, ty: FormatType, pretty: bool, precision: Option<usize>) -> (r: Option<String>)
        ensures
            opt_view(r) == wrap_bare(self@, ty, pretty),
    {
        self.write_bare(ty, pretty)
    }
}

impl<'b, T: FormatArg> FormatArg for &'b T {
    fn write(&self, ty: FormatType, pretty: bool, precision: Option<usize>) -> (r: Option<String>)
        ensures
            call_ensures(T::write, (*self, ty, pretty, precision), r),
    {
        (**self).write(ty, pretty, precision)
    }

    fn is_numeric(&self) -> (r: bool)
        ensures
            call_ensures(T::is_numeric, (*self,), r),
    {
        (**self).is_numeric()
    }

    fn is_integer(&self) -> (r: bool)
        ensures
            call_ensures(T::is_integer, (*self,), r),
    {
        (**self).is_integer()
    }

    fn as_usize(&self) -> (r: Option<usize>)
        ensures
            call_ensures(T::as_usize, (*self,), r),
    {
        (**self).as_usize()
    }
}

impl FormatArg for str {
    fn write(&self, ty: FormatType, pretty: bool, precision: Option<usize>) -> (r: Option<String>)
        ensures
            opt_view(r) == str_bare(self@, ty, pretty),
    {
        ArgSlot::Str(self).write_bare(ty, pretty)
    }
}

impl<T: FormatArg> FormatArg for Box<T> {
    fn write(&self, ty: FormatType, pretty: bool, precision: Option<usize>) -> (r: Option<String>)
        ensures
            call_ensures(T::write, (&**self, ty, pretty, precision), r),
    {
        (**self).write(ty, pretty, precision)
    }

    fn is_numeric(&self) -> (r: bool)
        ensures
            call_ensures(T::is_numeric, (&**self,), r),
    {
        (**self).is_numeric()
    }

    fn is_integer(&self) -> (r: bool)
        ensures
            call_ensures(T::is_integer, (&**self,), r),
    {
        (**self).is_integer()
    }

    fn as_usize(&self) -> (r: Option<usize>)
        ensures
            call_ensures(T::as_usize, (&**self,), r),
    {
        (**self).as_usize()
    }
}

} // verus!
