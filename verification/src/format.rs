//! Formatting straight from a template string.
use vstd::prelude::*;

use crate::arg::ArgSlot;
use crate::builder::{format_text, format_text_pieces, FormatBuilder};
use crate::error::FormatError;
use crate::param::FormatParam;
use crate::sink::{accepts_all, after_all, Sink};
use crate::template::{param_outcome, result_of, streamed, template_of, unit_result, ArgFacts, Template};

verus! {

/// A template string that can be formatted with runtime arguments.
///
/// These one-shot methods parse the template on every call; for a template
/// used repeatedly, parse it once with [`Template::parse`].
pub trait Format {
    /// The template text.
    spec fn text(&self) -> Seq<char>;

    /// Formats `args` into a new `String`; the template and the arguments
    /// must suit each other.
    fn format(&self, args: &[ArgSlot]) -> (r: String)
        requires
            format_text(self.text(), args@).1 is None,
        ensures
            r@ == format_text(self.text(), args@).0,
    ;

    /// Formats `args` into a new `String`: the template's syntax error, or
    /// the first argument error, or the output.
    fn try_format(&self, args: &[ArgSlot]) -> (r: Result<String, FormatError>)
        ensures
            match (r, result_of(format_text(self.text(), args@))) {
                (Ok(s), Ok(t)) => s@ == t,
                (Err(e), Err(e2)) => e == e2,
                _ => false,
            },
    ;

    /// Like [`try_format`](Format::try_format), but `None` on error.
    fn checked_format(&self, args: &[ArgSlot]) -> (r: Option<String>)
        ensures
            match (r, result_of(format_text(self.text(), args@))) {
                (Some(s), Ok(t)) => s@ == t,
                (None, Err(_)) => true,
                _ => false,
            },
    ;

    /// Formats `args` into `sink`, appending to its contents; the template
    /// and the arguments must suit each other and the sink must accept
    /// every write (as a `String` does).
    fn write_to<S: Sink>(&self, sink: &mut S, args: &[ArgSlot])
        requires
            format_text(self.text(), args@).1 is None,
            accepts_all(*old(sink), format_text_pieces(self.text(), args@)),
        ensures
            S::keeps_text() ==> final(sink).written() == old(sink).written() + format_text(
                self.text(),
                args@,
            ).0,
            S::models_acceptance() ==> *final(sink) == after_all(
                *old(sink),
                format_text_pieces(self.text(), args@),
            ),
    ;

    /// Formats `args` into `sink`, appending to its contents piece by
    /// piece, as [`Template::try_write_to`] does; a template syntax error
    /// writes nothing.
    fn try_write_to<S: Sink>(&self, sink: &mut S, args: &[ArgSlot]) -> (r: Result<(), FormatError>)
        ensures
            streamed(
                *old(sink),
                *final(sink),
                format_text_pieces(self.text(), args@),
                format_text(self.text(), args@).1,
                r,
            ),
            format_text_pieces(self.text(), args@).flatten() == format_text(self.text(), args@).0,
            S::never_rejects() ==> r == unit_result(format_text(self.text(), args@).1),
    ;

    /// Formats the arguments of `param` through their own
    /// [`FormatArg`](crate::FormatArg) implementations: the template's
    /// syntax error, or what [`Template::try_format_with`] gives.
    fn try_format_with<P: FormatParam + ?Sized>(&self, param: &P) -> (r: Result<String, FormatError>)
        ensures
            match template_of(self.text()) {
                Err(e) => r == Err::<String, FormatError>(e),
                Ok(t) => (exists|facts: Seq<ArgFacts>, outs: Seq<Option<String>>|
                    #[trigger] param_outcome(t, param, facts, outs, r)) && (param.num_args()
                    < t.min_args ==> r == Err::<String, FormatError>(
                    FormatError::InsufficientParameters,
                )),
            },
    ;

    /// Starts a [`FormatBuilder`] for adding arguments one at a time.
    fn builder<'a>(&self) -> (r: FormatBuilder<'_, 'a>)
        ensures
            r@.template == self.text(),
            r@.slots == Seq::<ArgSlot<'a>>::empty(),
    ;
}

impl Format for str {
    open spec fn text(&self) -> Seq<char> {
        self@
    }

    fn format(&self, args: &[ArgSlot]) -> (r: String) {
        match Template::parse(self) {
            Err(_) => String::new(),
            Ok(t) => t.format(args),
        }
    }

    fn try_format(&self, args: &[ArgSlot]) -> (r: Result<String, FormatError>) {
        match Template::parse(self) {
            Err(e) => Err(e),
            Ok(t) => t.try_format(args),
        }
    }

    fn checked_format(&self, args: &[ArgSlot]) -> (r: Option<String>) {
        match self.try_format(args) {
            Ok(s) => Some(s),
            Err(_) => None,
        }
    }

    fn write_to<S: Sink>(&self, sink: &mut S, args: &[ArgSlot]) {
        match Template::parse(self) {
            Err(_) => {},
            Ok(t) => t.write_to(sink, args),
        }
    }

    fn try_write_to<S: Sink>(&self, sink: &mut S, args: &[ArgSlot]) -> (r: Result<(), FormatError>) {
        match Template::parse(self) {
            Err(e) => {
                proof {
                    crate::sink::lemma_wrote_nothing(*old(sink));
                }
                Err(e)
            },
            Ok(t) => t.try_write_to(sink, args),
        }
    }

    fn try_format_with<P: FormatParam + ?Sized>(&self, param: &P) -> (r: Result<String, FormatError>) {
        match Template::parse(self) {
            Err(e) => Err(e),
            Ok(t) => t.try_format_with(param),
        }
    }

    fn builder<'a>(&self) -> (r: FormatBuilder<'_, 'a>) {
        FormatBuilder::new(self)
    }
}

} // verus!
