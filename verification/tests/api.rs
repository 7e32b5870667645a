use rtformat::{ArgSlot, Format, FormatArg, FormatError, FormatType, Sink, Template, Wrap};
use std::fmt;

/// A `f64` argument, rendered by `core::fmt`.
struct F64(f64);

impl FormatArg for F64 {
    fn write(&self, ty: FormatType, pretty: bool, precision: Option<usize>) -> Option<String> {
        let v = self.0;
        match ty {
            FormatType::Display => Some(match precision {
                Some(p) => format!("{:.*}", p, v),
                None => format!("{}", v),
            }),
            FormatType::Debug if pretty => Some(format!("{:#?}", v)),
            FormatType::Debug => Some(format!("{:?}", v)),
            FormatType::LowerExp => Some(match precision {
                Some(p) => format!("{:.*e}", p, v),
                None => format!("{:e}", v),
            }),
            FormatType::UpperExp => Some(match precision {
                Some(p) => format!("{:.*E}", p, v),
                None => format!("{:E}", v),
            }),
            _ => None,
        }
    }

    fn is_numeric(&self) -> bool {
        true
    }
}

fn s(v: &str) -> ArgSlot<'_> {
    ArgSlot::Str(v)
}

fn i(v: i32) -> ArgSlot<'static> {
    ArgSlot::I32(v)
}

#[test]
fn tests_basic() {
    assert_eq!("Hello {} {}".format(&[s("World"), s("Rust")]), "Hello World Rust");
    assert_eq!("no placeholders".format(&[]), "no placeholders");
}

#[test]
fn index_and_reuse() {
    assert_eq!("{1} {0} {0}".format(&[s("a"), s("b")]), "b a a");
    assert_eq!("{} {1} {}".format(&[s("a"), s("b")]), "a b b");
}

#[test]
fn types() {
    assert_eq!("{:?}".format(&[s("s")]), "\"s\"");
    assert_eq!(
        "{:#x} {:X} {:#o} {:#b}".format(&[i(255), i(255), i(8), i(5)]),
        "0xff FF 0o10 0b101"
    );
    assert_eq!(
        "{:e} {:E}"
            .try_format_with(&(F64(12345.678), F64(12345.678)))
            .unwrap(),
        "1.2345678e4 1.2345678E4"
    );
    assert_eq!("{:#x}".format(&[i(-1)]), "0xffffffff");
}

#[derive(Debug)]
struct Point {
    x: i32,
    y: i32,
}

impl fmt::Display for Point {
    fn fmt(&self, f: &mut fmt::Formatter<'_>) -> fmt::Result {
        f.write_str(&format!("({}, {})", self.x, self.y))
    }
}

/// The wrapped renderings of a value implementing `Display` and `Debug`.
fn both<T: fmt::Display + fmt::Debug>(v: &T) -> Wrap {
    Wrap::new(
        Some(format!("{}", v)),
        Some(format!("{:?}", v)),
        Some(format!("{:#?}", v)),
    )
}

#[test]
fn custom_arg_and_pretty_debug() {
    let p = both(&Point { x: 1, y: 2 });
    assert_eq!("{}".format(&[ArgSlot::Derived(&p)]), "(1, 2)");
    assert_eq!("{:?}".format(&[ArgSlot::Derived(&p)]), "Point { x: 1, y: 2 }");
    let out = "{:#?}".format(&[ArgSlot::Derived(&p)]);
    assert!(out.contains('\n'));
    assert_eq!(
        "{:x}".try_format(&[ArgSlot::Derived(&p)]),
        Err(FormatError::UnsupportedFormatType)
    );
}

struct DisplayOnly;

impl fmt::Display for DisplayOnly {
    fn fmt(&self, f: &mut fmt::Formatter<'_>) -> fmt::Result {
        f.write_str("display-only")
    }
}

#[test]
fn derive_display_only() {
    let w = Wrap::new(Some(format!("{}", DisplayOnly)), None, None);
    assert_eq!("{}".format(&[ArgSlot::Derived(&w)]), "display-only");
    assert_eq!(
        "{:?}".try_format(&[ArgSlot::Derived(&w)]),
        Err(FormatError::UnsupportedFormatType)
    );
}

#[derive(Debug)]
struct DebugOnly;

#[test]
fn derive_debug_only() {
    let w = Wrap::new(
        None,
        Some(format!("{:?}", DebugOnly)),
        Some(format!("{:#?}", DebugOnly)),
    );
    assert_eq!("{:?}".format(&[ArgSlot::Derived(&w)]), "DebugOnly");
    assert_eq!("{}".format(&[ArgSlot::Derived(&w)]), "DebugOnly");
}

#[derive(Debug)]
struct Wrapper<T>(T);

impl<T: fmt::Display> fmt::Display for Wrapper<T> {
    fn fmt(&self, f: &mut fmt::Formatter<'_>) -> fmt::Result {
        f.write_str(&format!("<{}>", self.0))
    }
}

#[test]
fn derive_generic() {
    let a = both(&Wrapper(7));
    let b = both(&Wrapper("s"));
    assert_eq!("{}".format(&[ArgSlot::Derived(&a)]), "<7>");
    assert_eq!("{:?}".format(&[ArgSlot::Derived(&b)]), "Wrapper(\"s\")");
}

#[test]
fn align_fill() {
    assert_eq!(
        "{:<5}|{:>5}|{:^5}".format(&[s("a"), s("a"), s("a")]),
        "a    |    a|  a  "
    );
    assert_eq!("{:_^7}".format(&[s("ab")]), "__ab___");
    assert_eq!("{:5}".format(&[i(42)]), "   42");
}

#[test]
fn sign_and_zero() {
    assert_eq!("{:+} {:+}".format(&[i(42), i(-7)]), "+42 -7");
    assert_eq!("{:05}".format(&[i(42)]), "00042");
    assert_eq!("{:+05}".format(&[i(42)]), "+0042");
    assert_eq!("{:#010x}".format(&[i(255)]), "0x000000ff");
    assert_eq!("{:05x}".format(&[i(255)]), "000ff");
    assert_eq!("{:08.4}".format(&[i(42)]), "00000042");
    // the `0` flag overrides fill/align for numerics, like std
    assert_eq!("{:<05}".format(&[i(42)]), "00042");
    assert_eq!("{:_<05}".format(&[i(42)]), "00042");
    assert_eq!("{:<06}".format(&[i(-42)]), "-00042");
    // ...but is ignored for non-numerics, like std
    assert_eq!("{:05}".format(&[s("ab")]), "ab   ");
    assert_eq!("{:05}".format(&[ArgSlot::Bool(true)]), "true ");
    // std never attaches `+` to NaN
    assert_eq!("{:+}".try_format_with(&(F64(f64::NAN),)).unwrap(), "NaN");
    assert_eq!("{:+05}".try_format_with(&(F64(f64::NAN),)).unwrap(), "00NaN");
}

#[test]
fn tests_precision() {
    assert_eq!("{:.2}".try_format_with(&(F64(1.234567),)).unwrap(), "1.23");
    assert_eq!("{:.2e}".try_format_with(&(F64(1.234567),)).unwrap(), "1.23e0");
    assert_eq!("{:.3}".format(&[s("abcdef")]), "abc");
    assert_eq!("{:.5}".format(&[i(42)]), "42"); // precision is ignored for integers, like std
}

#[test]
fn tests_dynamic_width_precision() {
    assert_eq!("{:1$}".format(&[s("ab"), i(5)]), "ab   ");
    assert_eq!("{0:>1$}".format(&[s("ab"), i(5)]), "   ab");
    assert_eq!("{:.1$}".try_format_with(&(F64(1.234567), 2)).unwrap(), "1.23");
    assert_eq!("{1:.0$}".try_format_with(&(2, F64(1.234567))).unwrap(), "1.23");
}

#[test]
fn builder() {
    assert_eq!(
        "{} + {} = {2}".builder().arg(&1).arg(&2).arg(&3).build(),
        "1 + 2 = 3"
    );
    assert_eq!("Hi {}".builder().arg("Rust").build(), "Hi Rust");
    let width = 5;
    assert_eq!("{:1$}".builder().arg("ab").arg(&width).build(), "ab   ");
    assert_eq!("{0} {0}".builder().arg(&7).build(), "7 7");
    assert_eq!(
        "{:x}".builder().arg("str").try_build(),
        Err(FormatError::UnsupportedFormatType)
    );
    assert!("{}".builder().try_build().is_err());
}

#[test]
fn escape() {
    assert_eq!("{{}} {{{}}}".format(&[i(1)]), "{} {1}");
    assert_eq!("}}".format(&[]), "}");
}

#[test]
fn errors() {
    assert_eq!(
        "{} {}".try_format(&[s("only")]),
        Err(FormatError::InsufficientParameters)
    );
    assert_eq!("{".try_format(&[]), Err(FormatError::InvalidFormatString));
    assert_eq!("}".try_format(&[]), Err(FormatError::InvalidFormatString));
    assert_eq!(
        "{name}".try_format(&[s("v")]),
        Err(FormatError::InvalidFormatString)
    );
    assert_eq!(
        "{:0$}".try_format(&[i(42), i(5)]),
        Err(FormatError::InvalidFormatString)
    );
    assert_eq!(
        "{:x}".try_format(&[s("str")]),
        Err(FormatError::UnsupportedFormatType)
    );
    assert_eq!(
        "{:p}".try_format(&[i(1)]),
        Err(FormatError::UnsupportedFormatType)
    );
    assert_eq!(
        "{:1$}".try_format(&[s("ab"), s("cd")]),
        Err(FormatError::ExpectedUsize)
    );
}

#[test]
fn template_basic_and_reuse() {
    let tpl = Template::parse("{} + {} = {2}").unwrap();
    assert_eq!(tpl.format(&[i(1), i(2), i(3)]), "1 + 2 = 3");
    // The same parsed template works with different arguments:
    assert_eq!(tpl.format(&[s("a"), s("b"), s("ab")]), "a + b = ab");
}

#[test]
fn template_arity() {
    assert_eq!(Template::parse("no placeholders").unwrap().arity(), 0);
    assert_eq!(Template::parse("{} {}").unwrap().arity(), 2);
    assert_eq!(Template::parse("{0} {0} {1}").unwrap().arity(), 2);
    assert_eq!(Template::parse("{} {5}").unwrap().arity(), 6);
    // `n$` width/precision references count too:
    assert_eq!(Template::parse("{:1$}").unwrap().arity(), 2);
    assert_eq!(Template::parse("{{}}").unwrap().arity(), 0);
}

fn equiv(template: &str, args: &[ArgSlot]) {
    assert_eq!(
        Template::parse(template).unwrap().try_format(args),
        template.try_format(args),
        "template/eager mismatch for {:?}",
        template
    );
}

#[test]
fn template_matches_eager() {
    equiv("Hello {} {}", &[s("World"), s("Rust")]);
    equiv("no placeholders", &[]);
    equiv("{{}} {{{}}}", &[i(1)]);
    equiv("}}", &[]);
    equiv("{1} {0} {0}", &[s("a"), s("b")]);
    equiv("{} {1} {}", &[s("a"), s("b")]);
    equiv("{:#010x} {:X} {:#o} {:#b}", &[i(255), i(255), i(8), i(5)]);
    equiv("{:05} {:<05} {:08.4}", &[i(42), i(42), i(42)]);
    equiv("{:+} {:+}", &[i(42), i(-7)]);
    let t = "{:.2} {:.2e}";
    let p = (F64(1.234567), F64(1.234567));
    assert_eq!(Template::parse(t).unwrap().try_format_with(&p), t.try_format_with(&p));
    let t = "{:+} {:05}";
    let p = (F64(f64::NAN), F64(f64::NAN));
    assert_eq!(Template::parse(t).unwrap().try_format_with(&p), t.try_format_with(&p));
    equiv("{:1$} {0:>1$}", &[s("ab"), i(5)]);
    equiv("{:01$}", &[i(42), i(6)]);
    equiv("{:_^7} {:8.3}", &[s("ab"), s("hello")]);
    equiv("{:5} {:>5}", &[s("你好"), s("ok")]);
    equiv("{:?} {:#?}", &[s("s"), s("s")]);
}

#[test]
fn template_parse_errors() {
    assert_eq!(Template::parse("{"), Err(FormatError::InvalidFormatString));
    assert_eq!(Template::parse("}"), Err(FormatError::InvalidFormatString));
    assert_eq!(Template::parse("{name}"), Err(FormatError::InvalidFormatString));
    assert_eq!(Template::parse("{:q}"), Err(FormatError::UnsupportedFormatType));
    // Argument errors surface at format time, not parse time:
    let tpl = Template::parse("{} {}").unwrap();
    assert_eq!(tpl.try_format(&[s("only")]), Err(FormatError::InsufficientParameters));
}

/// A sink that rejects writes once its byte budget is exhausted.
struct Limited(usize);

impl Sink for Limited {
    fn write_str(&mut self, s: &str) -> bool {
        if s.len() > self.0 {
            return false;
        }
        self.0 -= s.len();
        true
    }
}

#[test]
fn write_to_appends() {
    let mut buf = String::from("log: ");
    "user {} ({})".try_write_to(&mut buf, &[s("ada"), i(7)]).unwrap();
    assert_eq!(buf, "log: user ada (7)");

    let tpl = Template::parse("x{}").unwrap();
    let mut buf = String::from("[");
    tpl.try_write_to(&mut buf, &[s("hi")]).unwrap();
    assert_eq!(buf, "[xhi");
}

#[test]
fn write_to_reports_sink_errors() {
    // "x{}" with ("hi",) writes "x" (1 byte), then "hi" (2 bytes).
    let tpl = Template::parse("x{}").unwrap();
    let mut sink = Limited(1);
    assert_eq!(tpl.try_write_to(&mut sink, &[s("hi")]), Err(FormatError::WriteFailed));
    let mut sink = Limited(3);
    assert_eq!(tpl.try_write_to(&mut sink, &[s("hi")]), Ok(()));
    assert_eq!(
        "hello {}".try_write_to(&mut Limited(0), &[s("x")]),
        Err(FormatError::WriteFailed)
    );
}

#[test]
fn builder_write_to() {
    let mut buf = String::new();
    "{} + {}".builder().arg(&1).arg(&2).build_to(&mut buf);
    assert_eq!(buf, "1 + 2");

    let mut buf = String::from("eq: ");
    "{} = {0}".builder().arg(&7).try_build_to(&mut buf).unwrap();
    assert_eq!(buf, "eq: 7 = 7");

    assert_eq!(
        "{}".builder().arg(&1).try_build_to(&mut Limited(0)),
        Err(FormatError::WriteFailed)
    );
}
