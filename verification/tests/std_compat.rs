//! Every case checks that the library produces exactly what `std::format!`
//! produces for the same template and arguments.

use rtformat::{ArgSlot, Format, FormatArg, FormatType};

/// A `f64` argument, rendered by `core::fmt`.
struct F64(f64);

impl FormatArg for F64 {
    fn write(&self, ty: FormatType, pretty: bool, precision: Option<usize>) -> Option<String> {
        let v = self.0;
        match ty {
            FormatType::Display => Some(match precision {
                Some(p) => format!("{:.*}", p, v),
                None => format!("{}", v),
            }),
            FormatType::Debug if pretty => Some(format!("{:#?}", v)),
            FormatType::Debug => Some(format!("{:?}", v)),
            FormatType::LowerExp => Some(match precision {
                Some(p) => format!("{:.*e}", p, v),
                None => format!("{:e}", v),
            }),
            FormatType::UpperExp => Some(match precision {
                Some(p) => format!("{:.*E}", p, v),
                None => format!("{:E}", v),
            }),
            _ => None,
        }
    }

    fn is_numeric(&self) -> bool {
        true
    }
}

/// A `f32` argument, rendered by `core::fmt`.
struct F32(f32);

impl FormatArg for F32 {
    fn write(&self, ty: FormatType, pretty: bool, precision: Option<usize>) -> Option<String> {
        let v = self.0;
        match ty {
            FormatType::Display => Some(match precision {
                Some(p) => format!("{:.*}", p, v),
                None => format!("{}", v),
            }),
            FormatType::Debug if pretty => Some(format!("{:#?}", v)),
            FormatType::Debug => Some(format!("{:?}", v)),
            FormatType::LowerExp => Some(match precision {
                Some(p) => format!("{:.*e}", p, v),
                None => format!("{:e}", v),
            }),
            FormatType::UpperExp => Some(match precision {
                Some(p) => format!("{:.*E}", p, v),
                None => format!("{:E}", v),
            }),
            _ => None,
        }
    }

    fn is_numeric(&self) -> bool {
        true
    }
}

fn f(template: &str, arg: f64) -> String {
    template.try_format_with(&(F64(arg),)).unwrap()
}

#[test]
fn std_compat_basic() {
    assert_eq!(
        "Hello {} {}".format(&[ArgSlot::Str("World"), ArgSlot::Str("Rust")]),
        format!("Hello {} {}", "World", "Rust")
    );
    assert_eq!("no placeholders".format(&[]), format!("no placeholders"));
    assert_eq!("{{}} {{{}}}".format(&[ArgSlot::I32(1)]), format!("{{}} {{{}}}", 1));
    assert_eq!("}}".format(&[]), format!("}}"));
    assert_eq!(
        "{1} {0} {0}".format(&[ArgSlot::Str("a"), ArgSlot::Str("b")]),
        format!("{1} {0} {0}", "a", "b")
    );
    assert_eq!(
        "{} {1} {}".format(&[ArgSlot::Str("a"), ArgSlot::Str("b")]),
        format!("{} {1} {}", "a", "b")
    );
    assert_eq!("{0} {0}".format(&[ArgSlot::I32(7)]), format!("{0} {0}", 7));
    assert_eq!(
        "{0:5} | {0:.2}".try_format_with(&(F64(1.234567),)).unwrap(),
        format!("{0:5} | {0:.2}", 1.234567)
    );
}

#[test]
fn integers() {
    for v in [0i32, 1, 42, -7, -1, 255, i32::MIN, i32::MAX] {
        let a = [ArgSlot::I32(v)];
        assert_eq!("{}".format(&a), format!("{}", v));
        assert_eq!("{:?}".format(&a), format!("{:?}", v));
        assert_eq!("{:#?}".format(&a), format!("{:#?}", v));
        assert_eq!("{:x}".format(&a), format!("{:x}", v));
        assert_eq!("{:X}".format(&a), format!("{:X}", v));
        assert_eq!("{:o}".format(&a), format!("{:o}", v));
        assert_eq!("{:b}".format(&a), format!("{:b}", v));
        assert_eq!("{:#x}".format(&a), format!("{:#x}", v));
        assert_eq!("{:#X}".format(&a), format!("{:#X}", v));
        assert_eq!("{:#o}".format(&a), format!("{:#o}", v));
        assert_eq!("{:#b}".format(&a), format!("{:#b}", v));
    }
    assert_eq!("{}".format(&[ArgSlot::U128(u128::MAX)]), format!("{}", u128::MAX));
    assert_eq!("{:#x}".format(&[ArgSlot::I128(i128::MIN)]), format!("{:#x}", i128::MIN));
    assert_eq!("{}".format(&[ArgSlot::Usize(usize::MAX)]), format!("{}", usize::MAX));
    assert_eq!("{}".format(&[ArgSlot::I8(i8::MIN)]), format!("{}", i8::MIN));
    assert_eq!("{:b}".format(&[ArgSlot::I8(-1)]), format!("{:b}", -1i8));
    assert_eq!("{:#040x}".format(&[ArgSlot::U128(u128::MAX)]), format!("{:#040x}", u128::MAX));
}

#[test]
fn floats() {
    for v in [0.0f64, -0.0, 3.5, -2.5, 1.234567, 12345.678, -12345.678, 1e100, -1e-100] {
        assert_eq!(f("{}", v), format!("{}", v));
        assert_eq!(f("{:?}", v), format!("{:?}", v));
        assert_eq!(f("{:e}", v), format!("{:e}", v));
        assert_eq!(f("{:E}", v), format!("{:E}", v));
        assert_eq!(f("{:+}", v), format!("{:+}", v));
        assert_eq!(f("{:.2}", v), format!("{:.2}", v));
        assert_eq!(f("{:.0}", v), format!("{:.0}", v));
        assert_eq!(f("{:.5e}", v), format!("{:.5e}", v));
        assert_eq!(f("{:+.2}", v), format!("{:+.2}", v));
    }
    assert_eq!(f("{}", f64::INFINITY), format!("{}", f64::INFINITY));
    assert_eq!(f("{}", f64::NEG_INFINITY), format!("{}", f64::NEG_INFINITY));
    assert_eq!(f("{}", f64::NAN), format!("{}", f64::NAN));
    assert_eq!("{}".try_format_with(&(F32(f32::NAN),)).unwrap(), format!("{}", f32::NAN));
    assert_eq!(f("{:e}", f64::NAN), format!("{:e}", f64::NAN));
    assert_eq!(f("{:+}", f64::NAN), format!("{:+}", f64::NAN));
    assert_eq!(f("{:+05}", f64::NAN), format!("{:+05}", f64::NAN));
    assert_eq!(f("{:05}", f64::NAN), format!("{:05}", f64::NAN));
    assert_eq!(f("{:+}", f64::INFINITY), format!("{:+}", f64::INFINITY));
    assert_eq!(f("{:+e}", f64::INFINITY), format!("{:+e}", f64::INFINITY));
    assert_eq!(f("{:05}", f64::INFINITY), format!("{:05}", f64::INFINITY));
    assert_eq!(f("{:05}", f64::NEG_INFINITY), format!("{:05}", f64::NEG_INFINITY));
    assert_eq!(f("{:5}", f64::INFINITY), format!("{:5}", f64::INFINITY));
    assert_eq!(f("{:+}", -0.0f64), format!("{:+}", -0.0f64));
    assert_eq!(f("{:05}", -0.0f64), format!("{:05}", -0.0f64));
    assert_eq!(f("{:.2}", -0.0f64), format!("{:.2}", -0.0f64));
}

#[test]
fn text() {
    for v in ["", "a", "ab", "hello world", "héllo", "你好"] {
        let a = [ArgSlot::Str(v)];
        assert_eq!("{}".format(&a), format!("{}", v));
        assert_eq!("{:?}".format(&a), format!("{:?}", v));
        assert_eq!("{:5}".format(&a), format!("{:5}", v));
        assert_eq!("{:<5}".format(&a), format!("{:<5}", v));
        assert_eq!("{:>5}".format(&a), format!("{:>5}", v));
        assert_eq!("{:^6}".format(&a), format!("{:^6}", v));
        assert_eq!("{:_^7}".format(&a), format!("{:_^7}", v));
        assert_eq!("{:.3}".format(&a), format!("{:.3}", v));
        assert_eq!("{:8.3}".format(&a), format!("{:8.3}", v));
        // the `0` flag has no effect on non-numerics
        assert_eq!("{:05}".format(&a), format!("{:05}", v));
        assert_eq!("{:<05}".format(&a), format!("{:<05}", v));
    }
    let c = [ArgSlot::Char('a')];
    assert_eq!("{}".format(&c), format!("{}", 'a'));
    assert_eq!("{:?}".format(&c), format!("{:?}", 'a'));
    assert_eq!("{:5}".format(&c), format!("{:5}", 'a'));
    assert_eq!("{:04}".format(&c), format!("{:04}", 'a'));
    let b = [ArgSlot::Bool(true)];
    assert_eq!("{}".format(&b), format!("{}", true));
    assert_eq!("{:?}".format(&b), format!("{:?}", true));
    assert_eq!("{:7}".format(&b), format!("{:7}", true));
    assert_eq!("{:07}".format(&b), format!("{:07}", true));
    assert_eq!("{:#?}".format(&[ArgSlot::Str("s")]), format!("{:#?}", "s"));
}

#[test]
fn width_align_sign_zero() {
    for v in [0i32, 42, -7] {
        let a = [ArgSlot::I32(v)];
        assert_eq!("{:5}".format(&a), format!("{:5}", v));
        assert_eq!("{:<5}".format(&a), format!("{:<5}", v));
        assert_eq!("{:>5}".format(&a), format!("{:>5}", v));
        assert_eq!("{:^6}".format(&a), format!("{:^6}", v));
        assert_eq!("{:*<6}".format(&a), format!("{:*<6}", v));
        assert_eq!("{:_>6}".format(&a), format!("{:_>6}", v));
        assert_eq!("{:05}".format(&a), format!("{:05}", v));
        // std: the `0` flag overrides fill/align for numerics
        assert_eq!("{:<05}".format(&a), format!("{:<05}", v));
        assert_eq!("{:^07}".format(&a), format!("{:^07}", v));
        assert_eq!("{:_<05}".format(&a), format!("{:_<05}", v));
        assert_eq!("{:+}".format(&a), format!("{:+}", v));
        assert_eq!("{:+5}".format(&a), format!("{:+5}", v));
        assert_eq!("{:+05}".format(&a), format!("{:+05}", v));
        assert_eq!("{:-05}".format(&a), format!("{:-05}", v));
        assert_eq!("{:03}".format(&a), format!("{:03}", v));
    }
    for v in [3.5f64, -2.5, 1.234567] {
        assert_eq!(f("{:8}", v), format!("{:8}", v));
        assert_eq!(f("{:<8}", v), format!("{:<8}", v));
        assert_eq!(f("{:08.2}", v), format!("{:08.2}", v));
        assert_eq!(f("{:07.2}", v), format!("{:07.2}", v));
        assert_eq!(f("{:+08.2}", v), format!("{:+08.2}", v));
        assert_eq!(f("{:012.2e}", v), format!("{:012.2e}", v));
    }
    assert_eq!("{:#010x}".format(&[ArgSlot::I32(255)]), format!("{:#010x}", 255));
    assert_eq!("{:05x}".format(&[ArgSlot::I32(255)]), format!("{:05x}", 255));
    assert_eq!("{:03}".format(&[ArgSlot::I32(-5)]), format!("{:03}", -5));
    assert_eq!("{:<06}".format(&[ArgSlot::I32(-42)]), format!("{:<06}", -42));
    assert_eq!("{:^07}".format(&[ArgSlot::I32(-42)]), format!("{:^07}", -42));
}

#[test]
fn std_compat_precision() {
    assert_eq!(f("{:.2}", 1.234567), format!("{:.2}", 1.234567));
    assert_eq!(f("{:.2e}", 1.234567), format!("{:.2e}", 1.234567));
    assert_eq!("{:.3}".format(&[ArgSlot::Str("abcdef")]), format!("{:.3}", "abcdef"));
    assert_eq!("{:.5}".format(&[ArgSlot::I32(42)]), format!("{:.5}", 42));
    assert_eq!("{:.0}".format(&[ArgSlot::I32(42)]), format!("{:.0}", 42));
    assert_eq!(f("{:.0}", 3.7), format!("{:.0}", 3.7));
    assert_eq!("{:.10}".format(&[ArgSlot::I32(-42)]), format!("{:.10}", -42));
    assert_eq!("{:8.4}".format(&[ArgSlot::I32(42)]), format!("{:8.4}", 42));
    // precision is ignored for integers; width and the `0` flag still apply
    assert_eq!("{:08.4}".format(&[ArgSlot::I32(42)]), format!("{:08.4}", 42));
    assert_eq!("{:05.3}".format(&[ArgSlot::I32(42)]), format!("{:05.3}", 42));
    assert_eq!("{:<08.4}".format(&[ArgSlot::I32(42)]), format!("{:<08.4}", 42));
    assert_eq!("{:08.4}".format(&[ArgSlot::I32(-42)]), format!("{:08.4}", -42));
    assert_eq!("{:8.4}".format(&[ArgSlot::I32(-42)]), format!("{:8.4}", -42));
    assert_eq!("{:10.5}".format(&[ArgSlot::I32(42)]), format!("{:10.5}", 42));
}

#[test]
fn std_compat_dynamic_width_precision() {
    assert_eq!(
        "{:1$}".format(&[ArgSlot::Str("ab"), ArgSlot::I32(5)]),
        format!("{:1$}", "ab", 5)
    );
    assert_eq!(
        "{0:>1$}".format(&[ArgSlot::Str("ab"), ArgSlot::I32(5)]),
        format!("{0:>1$}", "ab", 5)
    );
    assert_eq!(
        "{:.1$}".try_format_with(&(F64(1.234567), 2)).unwrap(),
        format!("{:.1$}", 1.234567, 2)
    );
    assert_eq!(
        "{1:.0$}".try_format_with(&(2, F64(1.234567))).unwrap(),
        format!("{1:.0$}", 2, 1.234567)
    );
    assert_eq!(
        "{:01$}".format(&[ArgSlot::I32(42), ArgSlot::I32(6)]),
        format!("{:01$}", 42, 6)
    );
    assert_eq!(
        "{:+01$}".format(&[ArgSlot::I32(42), ArgSlot::I32(6)]),
        format!("{:+01$}", 42, 6)
    );
    assert_eq!(
        "{2:01$} {0}".format(&[ArgSlot::Str("x"), ArgSlot::I32(8), ArgSlot::I32(42)]),
        format!("{2:01$} {0}", "x", 8, 42)
    );
}
