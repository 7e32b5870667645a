use rtformat::template::{ArgFacts, Request};
use rtformat::{
    ArgSlot, DebugFallback, DisplayFallback, FmtAbsent, Format, FormatArg, FormatError, FormatType, Sink, Template, Wrap,
};

fn s(v: &str) -> ArgSlot<'_> {
    ArgSlot::Str(v)
}

fn i(v: i32) -> ArgSlot<'static> {
    ArgSlot::I32(v)
}

#[test]
fn escaped_text_formats_to_itself() {
    assert_eq!("a{{b}}c".format(&[]), "a{b}c");
    assert_eq!("{{{{}}}}".format(&[i(1)]), "{{}}");
    assert_eq!(Template::parse("x{{}}y").unwrap().arity(), 0);
    assert_eq!("plain text".format(&[s("unused")]), "plain text");
}

#[test]
fn arity_counts_indices_and_references() {
    assert_eq!(Template::parse("{:.3$}").unwrap().arity(), 4);
    assert_eq!(Template::parse("{2:1$.5$}").unwrap().arity(), 6);
    assert_eq!(Template::parse("{} {} {0}").unwrap().arity(), 2);
    assert_eq!(Template::parse("{7:?}").unwrap().arity(), 8);
}

#[test]
fn enough_arguments_are_never_insufficient() {
    let tpl = Template::parse("{0:>1$}").unwrap();
    assert_eq!(tpl.arity(), 2);
    assert_eq!(tpl.try_format(&[s("ab"), i(4)]), Ok("  ab".to_string()));
    assert_eq!(tpl.try_format(&[s("ab")]), Err(FormatError::InsufficientParameters));
    // a width that is not an unsigned integer is the other way to fail here
    assert_eq!(tpl.try_format(&[s("ab"), i(-4)]), Err(FormatError::ExpectedUsize));
}

#[test]
fn zero_flag_ignored_for_text() {
    assert_eq!("{:05}".format(&[s("ab")]), "{:5}".format(&[s("ab")]));
    assert_eq!("{:^07}".format(&[ArgSlot::Char('x')]), "   x   ");
}

#[test]
fn precision_ignored_for_integers() {
    assert_eq!("{:8.3}".format(&[i(42)]), "{:8}".format(&[i(42)]));
    assert_eq!("{:.0x}".format(&[i(255)]), "ff");
}

#[test]
fn text_width_is_larger_of_width_and_cut_length() {
    assert_eq!("{:3.1}".format(&[s("hello")]), "h  ");
    assert_eq!("{:2.4}".format(&[s("hello")]), "hell");
    assert_eq!("{:>4}".format(&[s("你好")]), "  你好");
}

#[test]
fn zero_padded_number_width() {
    assert_eq!("{:+08x}".format(&[i(255)]), "+00000ff");
    assert_eq!("{:#06b}".format(&[i(5)]), "0b0101");
    assert_eq!("{:03}".format(&[i(12345)]), "12345");
}

#[test]
fn sign_rules() {
    assert_eq!("{:+}".format(&[i(-5)]), "-5");
    assert_eq!("{:+}".format(&[i(0)]), "+0");
    assert_eq!("{:+x}".format(&[i(-1)]), "+ffffffff");
}

#[test]
fn explicit_index_selects_argument() {
    assert_eq!("{3}".format(&[s("a"), s("b"), s("c"), s("d")]), "d");
    assert_eq!("{0}{1}{0}".format(&[s("x"), s("y")]), "xyx");
}

#[test]
fn integer_debug_is_display() {
    assert_eq!("{:#?}".format(&[i(-42)]), "-42");
    assert_eq!("{:?}".format(&[ArgSlot::U64(u64::MAX)]), "18446744073709551615");
}

#[test]
fn upper_hex_prefix_is_lowercase() {
    assert_eq!("{:#X}".format(&[i(255)]), "0xFF");
}

#[test]
fn index_overflow() {
    assert_eq!(
        Template::parse("{18446744073709551616}"),
        Err(FormatError::InvalidFormatString)
    );
    assert_eq!(
        Template::parse("{:99999999999999999999}"),
        Err(FormatError::InvalidFormatString)
    );
}

#[test]
fn integer_exponent_form() {
    assert_eq!("{:e}".format(&[i(1200)]), "1.2e3");
    assert_eq!("{:e}".format(&[i(0)]), "0e0");
    assert_eq!("{:e}".format(&[i(-7)]), "-7e0");
    assert_eq!("{:E}".format(&[i(123)]), "1.23E2");
    assert_eq!("{:e}".format(&[ArgSlot::U128(u128::MAX)]), format!("{:e}", u128::MAX));
    assert_eq!("{:e}".format(&[ArgSlot::I64(-1000)]), format!("{:e}", -1000i64));
}

#[test]
fn every_integer_type() {
    assert_eq!("{:x}".format(&[ArgSlot::I8(-128)]), format!("{:x}", -128i8));
    assert_eq!("{:o}".format(&[ArgSlot::I16(-2)]), format!("{:o}", -2i16));
    assert_eq!("{:b}".format(&[ArgSlot::I64(-3)]), format!("{:b}", -3i64));
    assert_eq!("{:X}".format(&[ArgSlot::Isize(-1)]), format!("{:X}", -1isize));
    assert_eq!("{}".format(&[ArgSlot::U8(200)]), "200");
    assert_eq!("{:x}".format(&[ArgSlot::U16(65535)]), "ffff");
    assert_eq!("{:b}".format(&[ArgSlot::U32(6)]), "110");
    assert_eq!("{}".format(&[ArgSlot::I128(i128::MIN)]), format!("{}", i128::MIN));
}

#[test]
fn escaped_debug_forms() {
    assert_eq!("{:?}".format(&[s("a\"b\n")]), format!("{:?}", "a\"b\n"));
    assert_eq!("{:?}".format(&[ArgSlot::Char('\n')]), "'\\n'");
    assert_eq!("{:#?}".format(&[ArgSlot::Char('x')]), "'x'");
    assert_eq!("{:#?}".format(&[s("tab\t")]), format!("{:#?}", "tab\t"));
    assert_eq!("{:?}".format(&[ArgSlot::Bool(false)]), "false");
}

#[test]
fn error_messages() {
    assert_eq!(FormatError::InsufficientParameters.message(), "Insufficient parameters");
    assert_eq!(FormatError::InvalidFormatString.message(), "Invalid format string");
    assert_eq!(
        FormatError::UnsupportedFormatType.message(),
        "Argument does not support the requested format type"
    );
    assert_eq!(
        FormatError::ExpectedUsize.message(),
        "Width/precision argument must be an unsigned integer"
    );
    assert_eq!(FormatError::WriteFailed.message(), "Output sink rejected a write");
}

#[test]
fn wrap_routing() {
    let w = Wrap::new(None, Some("D".to_string()), None);
    assert_eq!(w.fmt_display(), Err(FmtAbsent));
    assert_eq!(w.fmt_debug(), Ok("D".to_string()));
    assert_eq!(w.fmt_debug_pretty(), Err(FmtAbsent));
    assert_eq!(w.write(FormatType::Display, false, None), Some("D".to_string()));
    assert_eq!(w.write(FormatType::Debug, true, None), None);
    assert_eq!(
        "{:#?}".try_format(&[ArgSlot::Derived(&w)]),
        Err(FormatError::UnsupportedFormatType)
    );
    let none = Wrap::new(None, None, None);
    assert_eq!("{}".try_format(&[ArgSlot::Derived(&none)]), Err(FormatError::UnsupportedFormatType));
}

#[test]
fn parsed_templates_fail_only_on_arguments() {
    assert_eq!(Template::parse("{:x"), Err(FormatError::InvalidFormatString));
    assert_eq!(Template::parse("{:p}"), Err(FormatError::UnsupportedFormatType));
    let tpl = Template::parse("{:x} {:1$}").unwrap();
    assert_eq!(tpl.try_format(&[s("a"), i(3)]), Err(FormatError::UnsupportedFormatType));
    assert_eq!(tpl.try_format(&[i(10), s("w")]), Err(FormatError::ExpectedUsize));
    assert_eq!(tpl.try_format(&[i(10)]), Err(FormatError::InsufficientParameters));
    assert_eq!(tpl.try_format(&[i(10), i(3)]), Ok("a   3".to_string()));
}

struct Recorder(Vec<String>);

impl Sink for Recorder {
    fn write_str(&mut self, s: &str) -> bool {
        self.0.push(s.to_string());
        true
    }
}

struct Budget(usize);

impl Sink for Budget {
    fn write_str(&mut self, s: &str) -> bool {
        if s.len() > self.0 {
            return false;
        }
        self.0 -= s.len();
        true
    }
}

#[test]
fn sinks_receive_pieces_in_order() {
    let mut rec = Recorder(Vec::new());
    "a{:>4}{{".try_write_to(&mut rec, &[s("ab")]).unwrap();
    assert_eq!(rec.0, vec!["a", " ", " ", "ab", "{"]);
    let mut rec = Recorder(Vec::new());
    "{:+05}".try_write_to(&mut rec, &[i(42)]).unwrap();
    assert_eq!(rec.0, vec!["+", "", "0", "0", "42"]);
    let mut rec = Recorder(Vec::new());
    "{:^#6x}".try_write_to(&mut rec, &[i(10)]).unwrap();
    assert_eq!(rec.0, vec![" ", "", "0x", "a", " ", " "]);
    // the first write is accepted, the second rejected: writing stops there
    let tpl = Template::parse("x{}y").unwrap();
    let mut budget = Budget(1);
    assert_eq!(tpl.try_write_to(&mut budget, &[s("hi")]), Err(FormatError::WriteFailed));
    assert_eq!(budget.0, 0);
    // an argument error after accepted writes leaves them in place
    let mut buf = String::from(">");
    assert_eq!(
        "ok {:x}".try_write_to(&mut buf, &[s("no")]),
        Err(FormatError::UnsupportedFormatType)
    );
    assert_eq!(buf, ">ok ");
}

struct RefuseSecond(Vec<String>);

impl Sink for RefuseSecond {
    fn write_str(&mut self, s: &str) -> bool {
        self.0.push(s.to_string());
        self.0.len() != 2
    }
}

#[test]
fn nothing_is_written_after_a_refused_write() {
    let mut sink = RefuseSecond(Vec::new());
    assert_eq!("{:>6}".try_write_to(&mut sink, &[s("ab")]), Err(FormatError::WriteFailed));
    // the second fill character was refused; the rest was never attempted
    assert_eq!(sink.0, vec![" ", " "]);
    let mut sink = RefuseSecond(Vec::new());
    assert_eq!(
        "{:05}".builder().arg(&7).try_build_to(&mut sink),
        Err(FormatError::WriteFailed)
    );
    assert_eq!(sink.0, vec!["", ""]);
}

#[test]
fn fill_may_be_an_alignment_character() {
    assert_eq!("{:>>5}".format(&[i(42)]), format!("{:>>5}", 42));
    assert_eq!("{:<<5}".format(&[s("ab")]), format!("{:<<5}", "ab"));
    assert_eq!("{:^^6}".format(&[s("ab")]), format!("{:^^6}", "ab"));
    assert_eq!("{:<>4}".format(&[i(7)]), format!("{:<>4}", 7));
    assert_eq!("{:>^5}".format(&[ArgSlot::Char('x')]), format!("{:>^5}", 'x'));
    assert_eq!("{:<5}".format(&[s("ab")]), "ab   ");
}

#[test]
fn fallbacks_answer_absent() {
    let w = Wrap::new(Some("S".to_string()), Some("D".to_string()), Some("P".to_string()));
    assert_eq!(DisplayFallback::fmt_display(&w), Err(FmtAbsent));
    assert_eq!(DebugFallback::fmt_debug(&w), Err(FmtAbsent));
    assert_eq!(DebugFallback::fmt_debug_pretty(&w), Err(FmtAbsent));
    // the inherent methods take precedence in method-call syntax
    assert_eq!(w.fmt_display(), Ok("S".to_string()));
    assert_eq!(w.fmt_debug_pretty(), Ok("P".to_string()));
}

#[test]
fn builder_args_in_order() {
    assert_eq!("{} {} {}".builder().args(&["a", "b", "c"]).build(), "a b c");
    assert_eq!("{2}{1}{0}".builder().args(&[&1, &2, &3]).build(), "321");
    assert_eq!("{}-{}".builder().arg(&'x').arg(&true).build(), "x-true");
    let mut out = String::from(">");
    "{:>3}".builder().arg(&7u8).build_to(&mut out);
    assert_eq!(out, ">  7");
    // several at once is the same as one by one
    assert_eq!(
        "{2}{0}{1}".builder().arg(&1).args(&["b", "c"]).build(),
        "{2}{0}{1}".builder().arg(&1).arg("b").arg("c").build()
    );
    assert_eq!("{2}{0}{1}".builder().arg(&1).args(&["b", "c"]).build(), "c1b");
}

#[test]
fn implicit_counter_ignores_explicit_indices() {
    assert_eq!("{} {1} {}".format(&[s("a"), s("b")]), "a b b");
    assert_eq!("{1}{}{0}{}".format(&[s("a"), s("b")]), "baab");
    assert_eq!(Template::parse("{5}{}").unwrap().arity(), 6);
}

#[test]
fn panicking_write_matches_fallible() {
    let tpl = Template::parse("{:>4}|{}").unwrap();
    let args = [s("ab"), i(3)];
    let mut a = String::from("<");
    let mut b = String::from("<");
    tpl.write_to(&mut a, &args);
    assert_eq!(tpl.try_write_to(&mut b, &args), Ok(()));
    assert_eq!(a, b);
    assert_eq!(a, "<  ab|3");
}

#[test]
fn format_params() {
    assert_eq!("{}+{}".try_format_with(&[1, 2][..]), Ok("1+2".to_string()));
    assert_eq!("x".try_format_with(&()), Ok("x".to_string()));
    assert_eq!("{}".try_format_with(&()), Err(FormatError::InsufficientParameters));
    assert_eq!(
        "{} {} {}".try_format_with(&("a", 'b', true)),
        Ok("a b true".to_string())
    );
    assert_eq!("{:>4}".try_format_with(&(String::from("ab"),)), Ok("  ab".to_string()));
    assert_eq!("{}".try_format_with(&(Box::new(5u8),)), Ok("5".to_string()));
    assert_eq!("{:{".try_format_with(&(1,)), Err(FormatError::InvalidFormatString));
    let thirteen = (0, 1, 2, 3, 4, 5, 6, 7, 8, 9, 10, 11, "m");
    assert_eq!("{12}{0}{11}".try_format_with(&thirteen), Ok("m011".to_string()));
    let sixteen = (0, 1, 2, 3, 4, 5, 6, 7, 8, 9, 10, 11, 12, 13, 14, 'p');
    assert_eq!("{15}{14:x}{}".try_format_with(&sixteen), Ok("pe0".to_string()));
    assert_eq!("{16}".try_format_with(&sixteen), Err(FormatError::InsufficientParameters));
    assert_eq!(
        "{0}{1}{2}".try_format_with(&(1, 2)),
        Err(FormatError::InsufficientParameters)
    );
    assert_eq!("{:.1$}".try_format_with(&("abc",)), Err(FormatError::InsufficientParameters));
}

#[test]
fn requests_and_answers() {
    let tpl = Template::parse("{:.1$} {0:?} {:x}").unwrap();
    let facts = [
        ArgFacts { numeric: false, usize_value: None },
        ArgFacts { numeric: true, usize_value: Some(2) },
    ];
    let reqs = tpl.requests(&facts);
    assert_eq!(
        reqs,
        vec![
            Request { index: 0, ty: FormatType::Display, pretty: false, precision: Some(2) },
            Request { index: 0, ty: FormatType::Debug, pretty: false, precision: None },
            Request { index: 1, ty: FormatType::LowerHex, pretty: false, precision: None },
        ]
    );
    let mut out = String::new();
    let answers = [Some("abc".to_string()), Some("\"abc\"".to_string()), None];
    assert_eq!(
        tpl.render_answers(&mut out, &facts, &answers),
        Err(FormatError::UnsupportedFormatType)
    );
    assert_eq!(out, "ab \"abc\" ");
}

#[test]
fn partial_output_before_an_argument_error() {
    let mut out = String::from("[");
    assert_eq!(
        Template::parse("ok {} {:x}").unwrap().try_append_to(&mut out, &[s("a"), s("b")]),
        Err(FormatError::UnsupportedFormatType)
    );
    assert_eq!(out, "[ok a ");
}

#[test]
fn checked_and_panicking_forms() {
    assert_eq!("{}".checked_format(&[i(3)]), Some("3".to_string()));
    assert_eq!("{".checked_format(&[]), None);
    let mut out = String::from("a");
    "{}{}".write_to(&mut out, &[i(1), i(2)]);
    assert_eq!(out, "a12");
    let mut buf = String::new();
    assert!(buf.write_str("x"));
    assert_eq!(buf, "x");
}

/// A numeric argument whose bare form is not ASCII: numeric widths count
/// UTF-8 bytes.
struct Wide;

impl FormatArg for Wide {
    fn write(&self, _ty: FormatType, _pretty: bool, _precision: Option<usize>) -> Option<String> {
        Some("é".to_string())
    }

    fn is_numeric(&self) -> bool {
        true
    }
}

#[test]
fn numeric_width_counts_bytes() {
    assert_eq!("{:4}".try_format_with(&(Wide,)), Ok("  é".to_string()));
    assert_eq!("{:04}".try_format_with(&(Wide,)), Ok("00é".to_string()));
}
