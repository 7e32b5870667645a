//! Formatting a template by adding one argument at a time.
use vstd::prelude::*;

use crate::__private::Wrap;
use crate::arg::ArgSlot;
use crate::error::FormatError;
use crate::sink::{accepts_all, after_all, Sink};
use crate::template::{
    format_slots, result_of, slot_pieces, streamed, template_of, unit_result, Template,
};

verus! {

/// A type that can be passed to [`FormatBuilder::arg`]: a reference to a
/// built-in argument type, a string slice, or a wrapped value.
pub trait FormatArgRef<'a> {
    spec fn slot(self) -> ArgSlot<'a>;

    fn into_slot(self) -> (r: ArgSlot<'a>)
        ensures
            r == self.slot(),
    ;
}

impl<'a> FormatArgRef<'a> for ArgSlot<'a> {
    open spec fn slot(self) -> ArgSlot<'a> {
        self
    }

    fn into_slot(self) -> (r: ArgSlot<'a>) {
        self
    }
}

impl<'a> FormatArgRef<'a> for &'a str {
    open spec fn slot(self) -> ArgSlot<'a> {
        ArgSlot::Str(self)
    }

    fn into_slot(self) -> (r: ArgSlot<'a>) {
        ArgSlot::Str(self)
    }
}

impl<'a> FormatArgRef<'a> for &'a Wrap {
    open spec fn slot(self) -> ArgSlot<'a> {
        ArgSlot::Derived(self)
    }

    fn into_slot(self) -> (r: ArgSlot<'a>) {
        ArgSlot::Derived(self)
    }
}

impl<'a> FormatArgRef<'a> for &'a i8 {
    open spec fn slot(self) -> ArgSlot<'a> {
        ArgSlot::I8(*self)
    }

    fn into_slot(self) -> (r: ArgSlot<'a>) {
        ArgSlot::I8(*self)
    }
}

impl<'a> FormatArgRef<'a> for &'a i16 {
    open spec fn slot(self) -> ArgSlot<'a> {
        ArgSlot::I16(*self)
    }

    fn into_slot(self) -> (r: ArgSlot<'a>) {
        ArgSlot::I16(*self)
    }
}

impl<'a> FormatArgRef<'a> for &'a i32 {
    open spec fn slot(self) -> ArgSlot<'a> {
        ArgSlot::I32(*self)
    }

    fn into_slot(self) -> (r: ArgSlot<'a>) {
        ArgSlot::I32(*self)
    }
}

impl<'a> FormatArgRef<'a> for &'a i64 {
    open spec fn slot(self) -> ArgSlot<'a> {
        ArgSlot::I64(*self)
    }

    fn into_slot(self) -> (r: ArgSlot<'a>) {
        ArgSlot::I64(*self)
    }
}

impl<'a> FormatArgRef<'a> for &'a i128 {
    open spec fn slot(self) -> ArgSlot<'a> {
        ArgSlot::I128(*self)
    }

    fn into_slot(self) -> (r: ArgSlot<'a>) {
        ArgSlot::I128(*self)
    }
}

impl<'a> FormatArgRef<'a> for &'a isize {
    open spec fn slot(self) -> ArgSlot<'a> {
        ArgSlot::Isize(*self)
    }

    fn into_slot(self) -> (r: ArgSlot<'a>) {
        ArgSlot::Isize(*self)
    }
}

impl<'a> FormatArgRef<'a> for &'a u8 {
    open spec fn slot(self) -> ArgSlot<'a> {
        ArgSlot::U8(*self)
    }

    fn into_slot(self) -> (r: ArgSlot<'a>) {
        ArgSlot::U8(*self)
    }
}

impl<'a> FormatArgRef<'a> for &'a u16 {
    open spec fn slot(self) -> ArgSlot<'a> {
        ArgSlot::U16(*self)
    }

    fn into_slot(self) -> (r: ArgSlot<'a>) {
        ArgSlot::U16(*self)
    }
}

impl<'a> FormatArgRef<'a> for &'a u32 {
    open spec fn slot(self) -> ArgSlot<'a> {
        ArgSlot::U32(*self)
    }

    fn into_slot(self) -> (r: ArgSlot<'a>) {
        ArgSlot::U32(*self)
    }
}

impl<'a> FormatArgRef<'a> for &'a u64 {
    open spec fn slot(self) -> ArgSlot<'a> {
        ArgSlot::U64(*self)
    }

    fn into_slot(self) -> (r: ArgSlot<'a>) {
        ArgSlot::U64(*self)
    }
}

impl<'a> FormatArgRef<'a> for &'a u128 {
    open spec fn slot(self) -> ArgSlot<'a> {
        ArgSlot::U128(*self)
    }

    fn into_slot(self) -> (r: ArgSlot<'a>) {
        ArgSlot::U128(*self)
    }
}

impl<'a> FormatArgRef<'a> for &'a usize {
    open spec fn slot(self) -> ArgSlot<'a> {
        ArgSlot::Usize(*self)
    }

    fn into_slot(self) -> (r: ArgSlot<'a>) {
        ArgSlot::Usize(*self)
    }
}

impl<'a> FormatArgRef<'a> for &'a char {
    open spec fn slot(self) -> ArgSlot<'a> {
        ArgSlot::Char(*self)
    }

    fn into_slot(self) -> (r: ArgSlot<'a>) {
        ArgSlot::Char(*self)
    }
}

impl<'a> FormatArgRef<'a> for &'a bool {
    open spec fn slot(self) -> ArgSlot<'a> {
        ArgSlot::Bool(*self)
    }

    fn into_slot(self) -> (r: ArgSlot<'a>) {
        ArgSlot::Bool(*self)
    }
}

/// The model of a [`FormatBuilder`]: the template text and the arguments
/// added so far.
pub struct BuilderModel<'a> {
    pub template: Seq<char>,
    pub slots: Seq<ArgSlot<'a>>,
}

/// What formatting the template text `s` with `args` gives: the template's
/// syntax error, or the output and the argument error, if any.
pub open spec fn format_text(s: Seq<char>, args: Seq<ArgSlot>) -> (Seq<char>, Option<FormatError>) {
    match template_of(s) {
        Err(e) => (Seq::<char>::empty(), Some(e)),
        Ok(t) => format_slots(t, args),
    }
}

/// The pieces that formatting the template text `s` with `args` writes
/// into a sink, in order: none for a template with a syntax error.
pub open spec fn format_text_pieces(s: Seq<char>, args: Seq<ArgSlot>) -> Seq<Seq<char>> {
    match template_of(s) {
        Err(_) => Seq::<Seq<char>>::empty(),
        Ok(t) => slot_pieces(t, args).0,
    }
}

/// Incrementally formats a template string by adding one argument at a
/// time.
pub struct FormatBuilder<'t, 'a> {
    template: &'t str,
    slots: Vec<ArgSlot<'a>>,
}

impl<'t, 'a> View for FormatBuilder<'t, 'a> {
    type V = BuilderModel<'a>;

    closed spec fn view(&self) -> BuilderModel<'a> {
        BuilderModel { template: self.template@, slots: self.slots@ }
    }
}

impl<'t, 'a> FormatBuilder<'t, 'a> {
    /// A builder for `template` with no arguments yet.
    pub fn new(template: &'t str) -> (r: Self)
        ensures
            r@.template == template@,
            r@.slots == Seq::<ArgSlot<'a>>::empty(),
    {
        FormatBuilder { template, slots: Vec::new() }
    }

    /// Appends the next positional argument. Arguments are indexed in call
    /// order; explicit indices (`{1}`) and reused placeholders (`{0} {0}`)
    /// refer to this order.
    pub fn arg<A: FormatArgRef<'a>>(self, arg: A) -> (r: Self)
        ensures
            r@.template == self@.template,
            r@.slots == self@.slots.push(arg.slot()),
    {
        let mut b = self;
        b.slots.push(arg.into_slot());
        b
    }

    /// Appends several positional arguments, in order.
    pub fn args<A: FormatArgRef<'a> + Copy>(self, args: &[A]) -> (r: Self)
        ensures
            r@.template == self@.template,
            r@.slots == self@.slots + args@.map_values(|a: A| a.slot()),
    {
        let mut b = self;
        let n = args.len();
        let mut i: usize = 0;
        while i < n
            invariant
                n == args.len(),
                i <= n,
                b@.template == self@.template,
                b@.slots == self@.slots + args@.map_values(|a: A| a.slot()).take(i as int),
            decreases n - i,
        {
            let a = args[i];
            b.slots.push(a.into_slot());
            assert(args@.map_values(|a: A| a.slot()).take(i + 1) =~= args@.map_values(
                |a: A| a.slot(),
            ).take(i as int).push(a.slot()));
            i = i + 1;
        }
        assert(args@.map_values(|a: A| a.slot()).take(n as int) =~= args@.map_values(
            |a: A| a.slot(),
        ));
        b
    }

    /// Consumes the builder and formats the template.
    pub fn try_build(self) -> (r: Result<String, FormatError>)
        ensures
            match (r, result_of(format_text(self@.template, self@.slots))) {
                (Ok(s), Ok(t)) => s@ == t,
                (Err(e), Err(e2)) => e == e2,
                _ => false,
            },
    {
        match Template::parse(self.template) {
            Err(e) => Err(e),
            Ok(t) => t.try_format(self.slots.as_slice()),
        }
    }

    /// Consumes the builder and formats the template; the template and the
    /// arguments must suit each other.
    pub fn build(self) -> (r: String)
        requires
            format_text(self@.template, self@.slots).1 is None,
        ensures
            r@ == format_text(self@.template, self@.slots).0,
    {
        match Template::parse(self.template) {
            Err(e) => String::new(),
            Ok(t) => t.format(self.slots.as_slice()),
        }
    }

    /// Consumes the builder and formats the template into `sink`,
    /// appending to its contents; the template and the arguments must suit
    /// each other and the sink must accept every write (as a `String`
    /// does).
    pub fn build_to<S: Sink>(self, sink: &mut S)
        requires
            format_text(self@.template, self@.slots).1 is None,
            accepts_all(*old(sink), format_text_pieces(self@.template, self@.slots)),
        ensures
            S::keeps_text() ==> final(sink).written() == old(sink).written() + format_text(
                self@.template,
                self@.slots,
            ).0,
            S::models_acceptance() ==> *final(sink) == after_all(
                *old(sink),
                format_text_pieces(self@.template, self@.slots),
            ),
    {
        match Template::parse(self.template) {
            Err(e) => {},
            Ok(t) => t.write_to(sink, self.slots.as_slice()),
        }
    }

    /// Consumes the builder and formats the template into `sink`,
    /// appending to its contents piece by piece, as
    /// [`Template::try_write_to`] does; a template syntax error writes
    /// nothing.
    pub fn try_build_to<S: Sink>(self, sink: &mut S) -> (r: Result<(), FormatError>)
        ensures
            streamed(
                *old(sink),
                *final(sink),
                format_text_pieces(self@.template, self@.slots),
                format_text(self@.template, self@.slots).1,
                r,
            ),
            format_text_pieces(self@.template, self@.slots).flatten() == format_text(self@.template, self@.slots).0,
            S::never_rejects() ==> r == unit_result(format_text(self@.template, self@.slots).1),
    {
        match Template::parse(self.template) {
            Err(e) => {
                proof {
                    crate::sink::lemma_wrote_nothing(*old(sink));
                }
                Err(e)
            },
            Ok(t) => t.try_write_to(sink, self.slots.as_slice()),
        }
    }
}

} // verus!
