//! Templates: a string parsed once into literal text and placeholders.
use vstd::prelude::*;

use crate::__private::opt_view;
use crate::arg::{ArgSlot, FormatType};
use crate::engine::{lemma_render_pieces, render_arg, render_arg_to, render_of, render_pieces};
use crate::error::FormatError;
use crate::placeholder::{
    char_at_is, first_index_of, lemma_first_index_of, parse_placeholder, placeholder_of, Count,
    RawSpec, Spec,
};
use crate::param::FormatParam;
use crate::sink::{accepts_all, after_all, lemma_flatten_one, lemma_wrote_nothing, lemma_wrote_stopped, lemma_wrote_then, write_piece, wrote, Sink};
use vstd::seq_lib::lemma_flatten_concat;
use crate::strings::{chars_of, push_chars, sub_chars};

verus! {

/// One piece of a parsed [`Template`].
#[derive(Clone, Debug, PartialEq)]
pub enum Segment {
    /// Verbatim text copied through to the output.
    Literal(String),
    /// One literal `{` or `}` originating from a `{{` / `}}` escape.
    Escaped(char),
    /// One `{...}` placeholder. The positional index is fully resolved at
    /// parse time (implicit counters are materialized); only `n$`
    /// width/precision counts still await the actual arguments.
    Placeholder { index: usize, spec: RawSpec },
}

/// The mathematical content of a [`Segment`].
pub enum SegmentModel {
    Text(Seq<char>),
    Escaped(char),
    Hole(nat, RawSpec),
}

impl Segment {
    /// Whether this is a placeholder.
    pub fn is_placeholder(&self) -> (r: bool)
        ensures
            r == is_hole(self.model()),
    {
        match self {
            Segment::Placeholder { .. } => true,
            _ => false,
        }
    }

    pub open spec fn model(&self) -> SegmentModel {
        match self {
            Segment::Literal(s) => SegmentModel::Text(s@),
            Segment::Escaped(c) => SegmentModel::Escaped(*c),
            Segment::Placeholder { index, spec } => SegmentModel::Hole(*index as nat, *spec),
        }
    }
}

/// The mathematical content of a [`Template`]: its segments, and the
/// number of arguments it needs.
pub struct TemplateModel {
    pub segments: Seq<SegmentModel>,
    pub min_args: nat,
}

/// The largest argument index that a width or precision `n$` refers to.
pub open spec fn max_param_ref_of(raw: RawSpec) -> Option<nat> {
    match (raw.width, raw.precision) {
        (Some(Count::Param(a)), Some(Count::Param(b))) => Some(
            if a >= b {
                a as nat
            } else {
                b as nat
            },
        ),
        (Some(Count::Param(a)), _) => Some(a as nat),
        (_, Some(Count::Param(b))) => Some(b as nat),
        _ => None,
    }
}

/// The number of arguments a placeholder needs: one past its index and past
/// each `n$` reference.
pub open spec fn hole_need(index: nat, raw: RawSpec) -> nat {
    match max_param_ref_of(raw) {
        Some(p) => if p >= index {
            p + 1
        } else {
            index + 1
        },
        None => index + 1,
    }
}

pub open spec fn is_brace(c: char) -> bool {
    c == '{' || c == '}'
}

/// The length of the longest brace-free prefix of `s`.
pub open spec fn literal_run(s: Seq<char>) -> nat
    decreases s.len(),
{
    if s.len() > 0 && !is_brace(s[0]) {
        1 + literal_run(s.drop_first())
    } else {
        0
    }
}

pub open spec fn nat_max(a: nat, b: nat) -> nat {
    if a >= b {
        a
    } else {
        b
    }
}

/// Puts one segment, needing `need` arguments, in front of a parse result.
pub open spec fn prepend(
    seg: SegmentModel,
    need: nat,
    r: Result<(Seq<SegmentModel>, nat), FormatError>,
) -> Result<(Seq<SegmentModel>, nat), FormatError> {
    match r {
        Err(e) => Err(e),
        Ok((segs, m)) => Ok((seq![seg] + segs, nat_max(need, m))),
    }
}

/// The segments of the template text `s`, and the number of arguments they
/// need, where `implicit` implicit placeholders came before `s`. Reading from
/// the left, the first problem met is the error.
pub open spec fn parse_from(s: Seq<char>, implicit: nat) -> Result<(Seq<SegmentModel>, nat), FormatError>
    decreases s.len(),
{
    if s.len() == 0 {
        Ok((Seq::<SegmentModel>::empty(), 0))
    } else if s[0] == '{' && char_at_is(s, 1, '{') {
        prepend(SegmentModel::Escaped('{'), 0, parse_from(s.skip(2), implicit))
    } else if s[0] == '{' {
        match first_index_of(s.skip(1), '}') {
            None => Err(FormatError::InvalidFormatString),
            Some(j) => {
                proof {
                    lemma_first_index_of(s.skip(1), '}');
                }
                match placeholder_of(s.subrange(1, j as int + 1)) {
                Err(e) => Err(e),
                Ok((idx, raw)) => {
                    let index: nat = match idx {
                        Some(n) => n as nat,
                        None => implicit,
                    };
                    let next: nat = if idx is None {
                        implicit + 1
                    } else {
                        implicit
                    };
                    prepend(
                        SegmentModel::Hole(index, raw),
                        hole_need(index, raw),
                        parse_from(s.skip(j as int + 2), next),
                    )
                },
            }
            },
        }
    } else if s[0] == '}' && char_at_is(s, 1, '}') {
        prepend(SegmentModel::Escaped('}'), 0, parse_from(s.skip(2), implicit))
    } else if s[0] == '}' {
        Err(FormatError::InvalidFormatString)
    } else {
        let k = literal_run(s);
        proof {
            lemma_literal_run(s);
            assert(k >= 1);
        }
        prepend(SegmentModel::Text(s.take(k as int)), 0, parse_from(s.skip(k as int), implicit))
    }
}

/// The template that the text `s` denotes. The argument count saturates at
/// `usize::MAX`, which no argument list can reach anyway.
pub open spec fn template_of(s: Seq<char>) -> Result<TemplateModel, FormatError> {
    match parse_from(s, 0) {
        Err(e) => Err(e),
        Ok((segments, m)) => Ok(
            TemplateModel {
                segments,
                min_args: if m > usize::MAX {
                    usize::MAX as nat
                } else {
                    m
                },
            },
        ),
    }
}

/// Appends already parsed segments in front of the parse of the rest.
pub open spec fn combine(
    acc: Seq<SegmentModel>,
    m: nat,
    r: Result<(Seq<SegmentModel>, nat), FormatError>,
) -> Result<(Seq<SegmentModel>, nat), FormatError> {
    match r {
        Err(e) => Err(e),
        Ok((segs, m2)) => Ok((acc + segs, nat_max(m, m2))),
    }
}

proof fn lemma_combine_prepend(
    acc: Seq<SegmentModel>,
    m: nat,
    seg: SegmentModel,
    need: nat,
    r: Result<(Seq<SegmentModel>, nat), FormatError>,
)
    ensures
        combine(acc, m, prepend(seg, need, r)) == combine(acc.push(seg), nat_max(m, need), r),
{
    match r {
        Err(e) => {},
        Ok((segs, m2)) => {
            assert(acc + (seq![seg] + segs) =~= acc.push(seg) + segs);
        },
    }
}

pub proof fn lemma_literal_run(s: Seq<char>)
    ensures
        literal_run(s) <= s.len(),
        forall|i: int| 0 <= i < literal_run(s) ==> !is_brace(#[trigger] s[i]),
        literal_run(s) < s.len() ==> is_brace(s[literal_run(s) as int]),
    decreases s.len(),
{
    if s.len() > 0 && !is_brace(s[0]) {
        lemma_literal_run(s.drop_first());
        assert forall|i: int| 0 < i < literal_run(s) implies s[i] == s.drop_first()[i - 1] by {}
        if literal_run(s) < s.len() {
            assert(s[literal_run(s) as int] == s.drop_first()[literal_run(s) - 1]);
        }
    }
}

impl RawSpec {
    /// The largest argument index that the width or precision refers to.
    pub fn max_param_ref(&self) -> (r: Option<usize>)
        ensures
            r matches Some(p) ==> max_param_ref_of(*self) == Some(p as nat),
            r is None ==> max_param_ref_of(*self) is None,
    {
        match (self.width, self.precision) {
            (Some(Count::Param(a)), Some(Count::Param(b))) => Some(
                if a >= b {
                    a
                } else {
                    b
                },
            ),
            (Some(Count::Param(a)), _) => Some(a),
            (_, Some(Count::Param(b))) => Some(b),
            _ => None,
        }
    }
}

/// `n + 1`, saturating at `usize::MAX`.
fn saturating_succ(n: usize) -> (r: usize)
    ensures
        r == (if n + 1 > usize::MAX {
            usize::MAX as nat
        } else {
            (n + 1) as nat
        }),
{
    if n < usize::MAX {
        n + 1
    } else {
        usize::MAX
    }
}

/// The saturated number of arguments a placeholder needs.
fn need_of(index: usize, raw: &RawSpec) -> (r: usize)
    ensures
        r == sat(hole_need(index as nat, *raw)),
{
    let a = saturating_succ(index);
    match raw.max_param_ref() {
        Some(p) => {
            let b = saturating_succ(p);
            if a >= b {
                a
            } else {
                b
            }
        },
        None => a,
    }
}

/// The number of arguments a segment needs.
pub open spec fn need_of_model(seg: SegmentModel) -> nat {
    match seg {
        SegmentModel::Hole(index, raw) => hole_need(index, raw),
        _ => 0,
    }
}

/// What one parsing step guarantees: the segment read at `i`, followed by
/// the parse of the rest from `next` on, is the parse from `i` on.
pub open spec fn step_ok(
    s: Seq<char>,
    i: int,
    implicit: nat,
    seg: SegmentModel,
    next: int,
    next_implicit: nat,
) -> bool {
    &&& i < next <= s.len()
    &&& next_implicit <= next
    &&& parse_from(s.skip(i), implicit) == prepend(
        seg,
        need_of_model(seg),
        parse_from(s.skip(next), next_implicit),
    )
}

/// Reads the placeholder that opens at `chars[i]`.
fn parse_hole_step(chars: &Vec<char>, i: usize, implicit: usize) -> (r: Result<
    (Segment, usize, usize, usize),
    FormatError,
>)
    requires
        i < chars.len(),
        implicit <= i,
        chars@[i as int] == '{',
        !char_at_is(chars@, i + 1, '{'),
    ensures
        match r {
            Ok((seg, next, ni, need)) => step_ok(
                chars@,
                i as int,
                implicit as nat,
                seg.model(),
                next as int,
                ni as nat,
            ) && need == sat(need_of_model(seg.model())),
            Err(e) => parse_from(chars@.skip(i as int), implicit as nat) == Err::<
                (Seq<SegmentModel>, nat),
                FormatError,
            >(e),
        },
{
    let ghost s = chars@;
    let ghost rest = s.skip(i as int);
    let n = chars.len();
    assert(rest[0] == '{');
    assert(!char_at_is(rest, 1, '{'));
    let mut close = i + 1;
    while close < n && chars[close] != '}'
        invariant
            i < close <= n == chars.len(),
            forall|j: int| i < j < close ==> chars@[j] != '}',
        decreases n - close,
    {
        close = close + 1;
    }
    proof {
        lemma_first_index_of(rest.skip(1), '}');
        assert forall|j: int| 0 <= j < rest.skip(1).len() implies rest.skip(1)[j] == chars@[i + 1
            + j] by {}
        match first_index_of(rest.skip(1), '}') {
            Some(k) => {
                if i + 1 + k < close {
                    assert(chars@[i + 1 + k] == '}');
                }
                if i + 1 + k > close {
                    assert(rest.skip(1)[close - i - 1] == '}');
                }
            },
            None => {
                if close < n {
                    assert(rest.skip(1)[close - i - 1] == '}');
                }
            },
        }
    }
    if close == n {
        return Err(FormatError::InvalidFormatString);
    }
    let ghost j: int = close - i - 1;
    assert(first_index_of(rest.skip(1), '}') == Some(j as nat));
    let inner = sub_chars(chars, i + 1, close);
    assert(inner@ =~= rest.subrange(1, j + 1));
    let (idx, raw) = match parse_placeholder(&inner) {
        Ok(p) => p,
        Err(e) => {
            return Err(e);
        },
    };
    let mut next_implicit = implicit;
    let index = match idx {
        Some(v) => v,
        None => {
            next_implicit = implicit + 1;
            implicit
        },
    };
    let need = need_of(index, &raw);
    assert(rest.skip(j + 2) =~= s.skip(close + 1));
    Ok((Segment::Placeholder { index, spec: raw }, close + 1, next_implicit, need))
}

/// Reads the brace-free text that starts at `chars[i]`.
fn parse_text_step(chars: &Vec<char>, i: usize, implicit: usize) -> (r: (Segment, usize))
    requires
        i < chars.len(),
        implicit <= i,
        !is_brace(chars@[i as int]),
    ensures
        step_ok(chars@, i as int, implicit as nat, r.0.model(), r.1 as int, implicit as nat),
        need_of_model(r.0.model()) == 0,
{
    let ghost s = chars@;
    let ghost rest = s.skip(i as int);
    let n = chars.len();
    let mut end = i + 1;
    while end < n && chars[end] != '{' && chars[end] != '}'
        invariant
            i < end <= n == chars.len(),
            forall|j: int| i <= j < end ==> !is_brace(chars@[j]),
        decreases n - end,
    {
        end = end + 1;
    }
    proof {
        lemma_literal_run(rest);
        let k = literal_run(rest);
        assert forall|j: int| 0 <= j < rest.len() implies rest[j] == chars@[i + j] by {}
        if k < end - i {
            assert(is_brace(rest[k as int]));
        }
        if k > end - i {
            assert(!is_brace(rest[end - i]));
        }
        assert(k == end - i);
        assert(rest[0] == chars@[i as int]);
    }
    let mut text = String::new();
    push_chars(&mut text, chars, i, end);
    assert(text@ =~= rest.take(end - i));
    assert(rest.skip(end - i) =~= s.skip(end as int));
    (Segment::Literal(text), end)
}

/// Reads one segment at `chars[i]`.
fn parse_step(chars: &Vec<char>, i: usize, implicit: usize) -> (r: Result<
    (Segment, usize, usize, usize),
    FormatError,
>)
    requires
        i < chars.len(),
        implicit <= i,
    ensures
        match r {
            Ok((seg, next, ni, need)) => step_ok(
                chars@,
                i as int,
                implicit as nat,
                seg.model(),
                next as int,
                ni as nat,
            ) && need == sat(need_of_model(seg.model())),
            Err(e) => parse_from(chars@.skip(i as int), implicit as nat) == Err::<
                (Seq<SegmentModel>, nat),
                FormatError,
            >(e),
        },
{
    let ghost s = chars@;
    let ghost rest = s.skip(i as int);
    let n = chars.len();
    assert(rest[0] == chars@[i as int]);
    let c = chars[i];
    let double = i + 1 < n && chars[i + 1] == c;
    assert(double == char_at_is(rest, 1, c));
    if c == '{' && double {
        assert(rest.skip(2) =~= s.skip(i + 2));
        Ok((Segment::Escaped('{'), i + 2, implicit, 0))
    } else if c == '{' {
        parse_hole_step(chars, i, implicit)
    } else if c == '}' && double {
        assert(rest.skip(2) =~= s.skip(i + 2));
        Ok((Segment::Escaped('}'), i + 2, implicit, 0))
    } else if c == '}' {
        Err(FormatError::InvalidFormatString)
    } else {
        let (seg, next) = parse_text_step(chars, i, implicit);
        Ok((seg, next, implicit, 0))
    }
}


/// What the engine needs to know of an argument besides its renderings.
#[derive(Clone, Copy, Debug, PartialEq, Eq)]
pub struct ArgFacts {
    /// Whether the argument is numeric.
    pub numeric: bool,
    /// The argument as a width or precision, if it is one.
    pub usize_value: Option<usize>,
}

/// One rendering that a placeholder asks of its argument.
#[derive(Clone, Copy, Debug, PartialEq, Eq)]
pub struct Request {
    pub index: usize,
    pub ty: FormatType,
    pub pretty: bool,
    pub precision: Option<usize>,
}

/// A width or precision resolved against the arguments.
pub open spec fn resolve_count_of(c: Option<Count>, facts: Seq<ArgFacts>) -> Result<
    Option<usize>,
    FormatError,
> {
    match c {
        None => Ok(None),
        Some(Count::Lit(n)) => Ok(Some(n)),
        Some(Count::Param(i)) => if i >= facts.len() {
            Err(FormatError::InsufficientParameters)
        } else {
            match facts[i as int].usize_value {
                Some(v) => Ok(Some(v)),
                None => Err(FormatError::ExpectedUsize),
            }
        },
    }
}

/// A spec with its `n$` counts resolved against the arguments, the width
/// first.
pub open spec fn resolve_of(raw: RawSpec, facts: Seq<ArgFacts>) -> Result<Spec, FormatError> {
    match resolve_count_of(raw.width, facts) {
        Err(e) => Err(e),
        Ok(width) => match resolve_count_of(raw.precision, facts) {
            Err(e) => Err(e),
            Ok(precision) => Ok(
                Spec {
                    fill: raw.fill,
                    align: raw.align,
                    sign_plus: raw.sign_plus,
                    alternate: raw.alternate,
                    zero: raw.zero,
                    width,
                    precision,
                    ty: raw.ty,
                },
            ),
        },
    }
}

/// `{:#?}`: pretty-printed `Debug`.
pub open spec fn pretty_of(spec: Spec) -> bool {
    spec.alternate && spec.ty == FormatType::Debug
}

impl Spec {
    /// `{:#?}`: pretty-printed `Debug`.
    pub fn pretty(&self) -> (r: bool)
        ensures
            r == pretty_of(*self),
    {
        self.alternate && self.ty == FormatType::Debug
    }
}

fn resolve_count(c: Option<Count>, facts: &[ArgFacts]) -> (r: Result<Option<usize>, FormatError>)
    ensures
        r == resolve_count_of(c, facts@),
{
    match c {
        None => Ok(None),
        Some(Count::Lit(n)) => Ok(Some(n)),
        Some(Count::Param(i)) => {
            if i >= facts.len() {
                Err(FormatError::InsufficientParameters)
            } else {
                match facts[i].usize_value {
                    Some(v) => Ok(Some(v)),
                    None => Err(FormatError::ExpectedUsize),
                }
            }
        },
    }
}

impl RawSpec {
    /// Resolves `n$` width/precision counts against the arguments:
    /// [`FormatError::InsufficientParameters`] for an index out of range,
    /// [`FormatError::ExpectedUsize`] for an argument that is not an
    /// unsigned integer.
    pub fn resolve(&self, facts: &[ArgFacts]) -> (r: Result<Spec, FormatError>)
        ensures
            r == resolve_of(*self, facts@),
    {
        let width = match resolve_count(self.width, facts) {
            Ok(w) => w,
            Err(e) => {
                return Err(e);
            },
        };
        let precision = match resolve_count(self.precision, facts) {
            Ok(p) => p,
            Err(e) => {
                return Err(e);
            },
        };
        Ok(
            Spec {
                fill: self.fill,
                align: self.align,
                sign_plus: self.sign_plus,
                alternate: self.alternate,
                zero: self.zero,
                width,
                precision,
                ty: self.ty,
            },
        )
    }
}

/// The request a placeholder with argument `index` and resolved spec makes.
pub open spec fn request_of(index: nat, spec: Spec) -> Request {
    Request {
        index: index as usize,
        ty: spec.ty,
        pretty: pretty_of(spec),
        precision: spec.precision,
    }
}

/// The renderings that the segments ask of the arguments, in order, up to
/// the first placeholder whose index or counts cannot be resolved; and
/// whether such a placeholder was met.
pub open spec fn requests_of(segs: Seq<SegmentModel>, facts: Seq<ArgFacts>) -> (Seq<Request>, bool)
    decreases segs.len(),
{
    if segs.len() == 0 {
        (Seq::<Request>::empty(), false)
    } else {
        let (rq, stopped) = requests_of(segs.drop_last(), facts);
        if stopped {
            (rq, true)
        } else {
            match segs.last() {
                SegmentModel::Hole(i, raw) => if i >= facts.len() {
                    (rq, true)
                } else {
                    match resolve_of(raw, facts) {
                        Err(_) => (rq, true),
                        Ok(spec) => (rq.push(request_of(i, spec)), false),
                    }
                },
                _ => (rq, false),
            }
        }
    }
}

/// The output of one segment, where `answer` is what its argument rendered
/// for the placeholder's request (if it is a placeholder).
pub open spec fn segment_output(
    seg: SegmentModel,
    facts: Seq<ArgFacts>,
    answer: Option<Seq<char>>,
) -> Result<Seq<char>, FormatError> {
    match seg {
        SegmentModel::Text(t) => Ok(t),
        SegmentModel::Escaped(c) => Ok(seq![c]),
        SegmentModel::Hole(i, raw) => if i >= facts.len() {
            Err(FormatError::InsufficientParameters)
        } else {
            match resolve_of(raw, facts) {
                Err(e) => Err(e),
                Ok(spec) => match answer {
                    None => Err(FormatError::UnsupportedFormatType),
                    Some(bare) => Ok(render_of(bare, facts[i as int].numeric, spec)),
                },
            }
        },
    }
}

pub open spec fn is_hole(seg: SegmentModel) -> bool {
    seg is Hole
}

/// The `k`-th answer, if there is one.
pub open spec fn answer_at(answers: Seq<Option<Seq<char>>>, k: nat) -> Option<Seq<char>> {
    if k < answers.len() {
        answers[k as int]
    } else {
        None
    }
}

/// Rendering the segments in order: the output written, the first error
/// met (after which nothing more is written), and how many placeholders
/// were rendered. The `k`-th placeholder reached gets the `k`-th answer.
pub open spec fn run(
    segs: Seq<SegmentModel>,
    facts: Seq<ArgFacts>,
    answers: Seq<Option<Seq<char>>>,
) -> (Seq<char>, Option<FormatError>, nat)
    decreases segs.len(),
{
    if segs.len() == 0 {
        (Seq::<char>::empty(), None, 0)
    } else {
        let (out, err, k) = run(segs.drop_last(), facts, answers);
        if err is Some {
            (out, err, k)
        } else {
            match segment_output(segs.last(), facts, answer_at(answers, k)) {
                Err(e) => (out, Some(e), k),
                Ok(piece) => (
                    out + piece,
                    None,
                    if is_hole(segs.last()) {
                        k + 1
                    } else {
                        k
                    },
                ),
            }
        }
    }
}

/// Formatting a template: with fewer arguments than it needs,
/// [`FormatError::InsufficientParameters`] and no output; otherwise the
/// segments rendered in order.
pub open spec fn format_with(
    t: TemplateModel,
    facts: Seq<ArgFacts>,
    answers: Seq<Option<Seq<char>>>,
) -> (Seq<char>, Option<FormatError>) {
    if facts.len() < t.min_args {
        (Seq::<char>::empty(), Some(FormatError::InsufficientParameters))
    } else {
        let (out, err, _) = run(t.segments, facts, answers);
        (out, err)
    }
}

/// The plain facts of each argument.
pub open spec fn slot_facts(args: Seq<ArgSlot>) -> Seq<ArgFacts> {
    args.map_values(|a: ArgSlot| ArgFacts { numeric: a.numeric(), usize_value: a.usize_value() })
}

/// What the arguments render for each request.
pub open spec fn slot_answers(args: Seq<ArgSlot>, requests: Seq<Request>) -> Seq<Option<Seq<char>>> {
    requests.map_values(|r: Request| args[r.index as int].bare(r.ty, r.pretty))
}

/// Formatting a template with arguments held as [`ArgSlot`]s: the output
/// and the error, if any.
pub open spec fn format_slots(t: TemplateModel, args: Seq<ArgSlot>) -> (Seq<char>, Option<FormatError>) {
    let facts = slot_facts(args);
    format_with(t, facts, slot_answers(args, requests_of(t.segments, facts).0))
}

/// The `Result` of a formatting outcome.
pub open spec fn result_of(outcome: (Seq<char>, Option<FormatError>)) -> Result<Seq<char>, FormatError> {
    match outcome.1 {
        Some(e) => Err(e),
        None => Ok(outcome.0),
    }
}

/// Once rendering has met an error, further segments change nothing.
pub proof fn lemma_run_stops(
    segs: Seq<SegmentModel>,
    facts: Seq<ArgFacts>,
    answers: Seq<Option<Seq<char>>>,
    k: int,
)
    requires
        0 <= k <= segs.len(),
        run(segs.take(k), facts, answers).1 is Some,
    ensures
        run(segs, facts, answers) == run(segs.take(k), facts, answers),
    decreases segs.len() - k,
{
    if k < segs.len() {
        assert(segs.take(k + 1).drop_last() =~= segs.take(k));
        lemma_run_stops(segs, facts, answers, k + 1);
    } else {
        assert(segs.take(k) =~= segs);
    }
}

/// Once a placeholder could not be resolved, no further requests are made.
pub proof fn lemma_requests_stop(segs: Seq<SegmentModel>, facts: Seq<ArgFacts>, k: int)
    requires
        0 <= k <= segs.len(),
        requests_of(segs.take(k), facts).1,
    ensures
        requests_of(segs, facts) == requests_of(segs.take(k), facts),
    decreases segs.len() - k,
{
    if k < segs.len() {
        assert(segs.take(k + 1).drop_last() =~= segs.take(k));
        lemma_requests_stop(segs, facts, k + 1);
    } else {
        assert(segs.take(k) =~= segs);
    }
}

pub open spec fn answers_view(answers: Seq<Option<String>>) -> Seq<Option<Seq<char>>> {
    answers.map_values(|a: Option<String>| opt_view(a))
}

/// Appends the characters of `s`.
fn push_chars_of(out: &mut String, s: &String)
    ensures
        final(out)@ == old(out)@ + s@,
{
    let v = chars_of(s.as_str());
    push_chars(out, &v, 0, v.len());
    assert(v@.subrange(0, v@.len() as int) =~= v@);
}

/// Every request names an argument that exists.
pub proof fn lemma_requests_in_range(segs: Seq<SegmentModel>, facts: Seq<ArgFacts>)
    ensures
        forall|j: int|
            0 <= j < requests_of(segs, facts).0.len() ==> (#[trigger] requests_of(
                segs,
                facts,
            ).0[j]).index < facts.len(),
    decreases segs.len(),
{
    if segs.len() > 0 {
        lemma_requests_in_range(segs.drop_last(), facts);
    }
}

/// The plain facts of each argument.
pub fn slot_facts_of(args: &[ArgSlot]) -> (r: Vec<ArgFacts>)
    ensures
        r@ == slot_facts(args@),
{
    let mut r: Vec<ArgFacts> = Vec::new();
    let n = args.len();
    let mut i: usize = 0;
    while i < n
        invariant
            n == args.len(),
            i <= n,
            r@ == slot_facts(args@).take(i as int),
        decreases n - i,
    {
        let facts = ArgFacts { numeric: args[i].is_numeric_slot(), usize_value: args[i].as_usize_slot() };
        r.push(facts);
        assert(slot_facts(args@).take(i + 1) =~= slot_facts(args@).take(i as int).push(facts));
        i = i + 1;
    }
    assert(slot_facts(args@).take(n as int) =~= slot_facts(args@));
    r
}

/// What the arguments render for each request.
pub fn slot_answers_of(args: &[ArgSlot], requests: &Vec<Request>) -> (r: Vec<Option<String>>)
    requires
        forall|j: int| 0 <= j < requests@.len() ==> (#[trigger] requests@[j]).index < args.len(),
    ensures
        answers_view(r@) == slot_answers(args@, requests@),
{
    let mut r: Vec<Option<String>> = Vec::new();
    let n = requests.len();
    let mut i: usize = 0;
    while i < n
        invariant
            n == requests.len(),
            i <= n,
            forall|j: int| 0 <= j < requests@.len() ==> (#[trigger] requests@[j]).index < args.len(),
            answers_view(r@) == slot_answers(args@, requests@).take(i as int),
        decreases n - i,
    {
        let q = requests[i];
        let a = args[q.index].write_bare(q.ty, q.pretty);
        let ghost before = r@;
        r.push(a);
        assert(answers_view(r@) =~= answers_view(before).push(opt_view(a)));
        assert(slot_answers(args@, requests@).take(i + 1) =~= slot_answers(args@, requests@).take(
            i as int,
        ).push(opt_view(a)));
        i = i + 1;
    }
    assert(slot_answers(args@, requests@).take(n as int) =~= slot_answers(args@, requests@));
    r
}

/// An outcome is what formatting `t` can give when the arguments report
/// the given facts and renderings.
pub open spec fn outcome_matches(
    t: TemplateModel,
    facts: Seq<ArgFacts>,
    answers: Seq<Option<Seq<char>>>,
    r: Result<String, FormatError>,
) -> bool {
    &&& answers.len() == requests_of(t.segments, facts).0.len()
    &&& match r {
        Ok(s) => format_with(t, facts, answers) == (s@, None::<FormatError>),
        Err(e) => format_with(t, facts, answers).1 == Some(e),
    }
}

/// `fact` is what `param` reported for position `k`: whether it is numeric,
/// and its value as a width or precision.
pub open spec fn fact_reported<P: FormatParam + ?Sized>(param: &P, k: int, fact: ArgFacts) -> bool {
    &&& call_ensures(P::arg_is_numeric, (param, k as usize), fact.numeric)
    &&& call_ensures(P::arg_as_usize, (param, k as usize), fact.usize_value)
}

/// Each of `facts` is what `param` reported for its position.
pub open spec fn facts_reported<P: FormatParam + ?Sized>(param: &P, facts: Seq<ArgFacts>) -> bool {
    forall|k: int| 0 <= k < facts.len() ==> #[trigger] fact_reported(param, k, facts[k])
}

/// `answer` is what `param` rendered for the request `q`: its argument
/// index, type, pretty flag and precision.
pub open spec fn answer_reported<P: FormatParam + ?Sized>(param: &P, q: Request, answer: Option<String>) -> bool {
    call_ensures(P::arg_write, (param, q.index, q.ty, q.pretty, q.precision), answer)
}

/// An outcome of formatting `t` with the arguments of `param`: one set of
/// facts per argument, each as `param` reported it; one answer per request
/// made for those facts, each as `param` rendered it; and the result that
/// formatting gives for them.
pub open spec fn param_outcome<P: FormatParam + ?Sized>(
    t: TemplateModel,
    param: &P,
    facts: Seq<ArgFacts>,
    outs: Seq<Option<String>>,
    r: Result<String, FormatError>,
) -> bool {
    let requests = requests_of(t.segments, facts).0;
    &&& facts.len() == param.num_args()
    &&& facts_reported(param, facts)
    &&& outs.len() == requests.len()
    &&& forall|j: int| 0 <= j < outs.len() ==> #[trigger] answer_reported(param, requests[j], outs[j])
    &&& outcome_matches(t, facts, answers_view(outs), r)
}

/// The pieces that one segment writes, in order, where `answer` is what
/// its argument rendered (if it is a placeholder): a literal text as one
/// piece, an escaped brace as one, a placeholder as [`render_pieces`] says.
pub open spec fn segment_pieces(
    seg: SegmentModel,
    facts: Seq<ArgFacts>,
    answer: Option<Seq<char>>,
) -> Result<Seq<Seq<char>>, FormatError> {
    match seg {
        SegmentModel::Text(t) => Ok(seq![t]),
        SegmentModel::Escaped(c) => Ok(seq![seq![c]]),
        SegmentModel::Hole(i, raw) => if i >= facts.len() {
            Err(FormatError::InsufficientParameters)
        } else {
            match resolve_of(raw, facts) {
                Err(e) => Err(e),
                Ok(spec) => match answer {
                    None => Err(FormatError::UnsupportedFormatType),
                    Some(bare) => Ok(render_pieces(bare, facts[i as int].numeric, spec)),
                },
            }
        },
    }
}

/// [`run`], piece by piece: the pieces written, the first error met, and
/// how many placeholders were rendered.
pub open spec fn run_pieces(
    segs: Seq<SegmentModel>,
    facts: Seq<ArgFacts>,
    answers: Seq<Option<Seq<char>>>,
) -> (Seq<Seq<char>>, Option<FormatError>, nat)
    decreases segs.len(),
{
    if segs.len() == 0 {
        (Seq::<Seq<char>>::empty(), None, 0)
    } else {
        let (out, err, k) = run_pieces(segs.drop_last(), facts, answers);
        if err is Some {
            (out, err, k)
        } else {
            match segment_pieces(segs.last(), facts, answer_at(answers, k)) {
                Err(e) => (out, Some(e), k),
                Ok(p) => (
                    out + p,
                    None,
                    if is_hole(segs.last()) {
                        k + 1
                    } else {
                        k
                    },
                ),
            }
        }
    }
}

/// [`format_with`], piece by piece: the pieces that formatting writes into
/// a sink, in order, and the error, if any.
pub open spec fn format_pieces(
    t: TemplateModel,
    facts: Seq<ArgFacts>,
    answers: Seq<Option<Seq<char>>>,
) -> (Seq<Seq<char>>, Option<FormatError>) {
    if facts.len() < t.min_args {
        (Seq::<Seq<char>>::empty(), Some(FormatError::InsufficientParameters))
    } else {
        let (out, err, _) = run_pieces(t.segments, facts, answers);
        (out, err)
    }
}

/// The pieces that formatting `t` with arguments held as [`ArgSlot`]s
/// writes, and the error, if any.
pub open spec fn slot_pieces(t: TemplateModel, args: Seq<ArgSlot>) -> (Seq<Seq<char>>, Option<FormatError>) {
    let facts = slot_facts(args);
    format_pieces(t, facts, slot_answers(args, requests_of(t.segments, facts).0))
}

/// The `Result` that an error, if any, gives.
pub open spec fn unit_result(err: Option<FormatError>) -> Result<(), FormatError> {
    match err {
        Some(e) => Err(e),
        None => Ok(()),
    }
}

/// What streaming `pieces` (ending in the error `err`, if any) into a sink
/// that went from `before` to `after` gave: either a write was refused,
/// which is [`FormatError::WriteFailed`] as [`wrote`] says (for a sink that
/// models acceptance: the first piece it refuses, with nothing written
/// after it); or every piece was accepted, as [`wrote`] says, and the
/// result is that of formatting.
pub open spec fn streamed<S: Sink>(
    before: S,
    after: S,
    pieces: Seq<Seq<char>>,
    err: Option<FormatError>,
    r: Result<(), FormatError>,
) -> bool {
    ||| (r == Err::<(), FormatError>(FormatError::WriteFailed) && wrote(before, after, pieces, r))
    ||| (r == unit_result(err) && wrote(before, after, pieces, Ok(())))
}

proof fn lemma_segment_pieces(seg: SegmentModel, facts: Seq<ArgFacts>, answer: Option<Seq<char>>)
    ensures
        match (segment_pieces(seg, facts, answer), segment_output(seg, facts, answer)) {
            (Ok(p), Ok(o)) => p.flatten() == o,
            (Err(e), Err(e2)) => e == e2,
            _ => false,
        },
{
    match seg {
        SegmentModel::Text(t) => lemma_flatten_one(t),
        SegmentModel::Escaped(c) => lemma_flatten_one(seq![c]),
        SegmentModel::Hole(i, raw) => {
            if i < facts.len() {
                match resolve_of(raw, facts) {
                    Ok(spec) => match answer {
                        Some(bare) => lemma_render_pieces(bare, facts[i as int].numeric, spec),
                        None => {},
                    },
                    Err(_) => {},
                }
            }
        },
    }
}

/// Written piece by piece, the segments give what [`run`] says.
pub proof fn lemma_run_pieces(
    segs: Seq<SegmentModel>,
    facts: Seq<ArgFacts>,
    answers: Seq<Option<Seq<char>>>,
)
    ensures
        run_pieces(segs, facts, answers).0.flatten() == run(segs, facts, answers).0,
        run_pieces(segs, facts, answers).1 == run(segs, facts, answers).1,
        run_pieces(segs, facts, answers).2 == run(segs, facts, answers).2,
    decreases segs.len(),
{
    if segs.len() > 0 {
        lemma_run_pieces(segs.drop_last(), facts, answers);
        let (out, err, k) = run_pieces(segs.drop_last(), facts, answers);
        lemma_segment_pieces(segs.last(), facts, answer_at(answers, k));
        match segment_pieces(segs.last(), facts, answer_at(answers, k)) {
            Ok(p) => lemma_flatten_concat(out, p),
            Err(_) => {},
        }
    } else {
        assert(Seq::<Seq<char>>::empty().flatten() =~= Seq::<char>::empty());
    }
}

/// Formatting piece by piece gives what [`format_with`] says.
pub proof fn lemma_format_pieces(t: TemplateModel, facts: Seq<ArgFacts>, answers: Seq<Option<Seq<char>>>)
    ensures
        format_pieces(t, facts, answers).0.flatten() == format_with(t, facts, answers).0,
        format_pieces(t, facts, answers).1 == format_with(t, facts, answers).1,
{
    lemma_run_pieces(t.segments, facts, answers);
    assert(Seq::<Seq<char>>::empty().flatten() =~= Seq::<char>::empty());
}

/// Rendering more segments only adds pieces after those already written.
proof fn lemma_run_pieces_grow(
    segs: Seq<SegmentModel>,
    facts: Seq<ArgFacts>,
    answers: Seq<Option<Seq<char>>>,
    k: int,
)
    requires
        0 <= k <= segs.len(),
    ensures
        run_pieces(segs.take(k), facts, answers).0.len() <= run_pieces(segs, facts, answers).0.len(),
        run_pieces(segs, facts, answers).0.take(run_pieces(segs.take(k), facts, answers).0.len() as int)
            == run_pieces(segs.take(k), facts, answers).0,
    decreases segs.len() - k,
{
    if k < segs.len() {
        lemma_run_pieces_grow(segs, facts, answers, k + 1);
        assert(segs.take(k + 1).drop_last() =~= segs.take(k));
        let a = run_pieces(segs.take(k), facts, answers).0;
        let b = run_pieces(segs.take(k + 1), facts, answers).0;
        let full = run_pieces(segs, facts, answers).0;
        assert(b.take(a.len() as int) =~= a);
        assert(full.take(a.len() as int) =~= b.take(a.len() as int));
    } else {
        assert(segs.take(k) =~= segs);
        assert(run_pieces(segs, facts, answers).0.take(run_pieces(segs, facts, answers).0.len() as int)
            =~= run_pieces(segs, facts, answers).0);
    }
}

/// Once rendering piece by piece has met an error, further segments change
/// nothing.
proof fn lemma_run_pieces_stops(
    segs: Seq<SegmentModel>,
    facts: Seq<ArgFacts>,
    answers: Seq<Option<Seq<char>>>,
    k: int,
)
    requires
        0 <= k <= segs.len(),
        run_pieces(segs.take(k), facts, answers).1 is Some,
    ensures
        run_pieces(segs, facts, answers) == run_pieces(segs.take(k), facts, answers),
    decreases segs.len() - k,
{
    if k < segs.len() {
        assert(segs.take(k + 1).drop_last() =~= segs.take(k));
        lemma_run_pieces_stops(segs, facts, answers, k + 1);
    } else {
        assert(segs.take(k) =~= segs);
    }
}

/// A template string parsed once and formattable many times.
#[derive(Clone, Debug, PartialEq)]
pub struct Template {
    segments: Vec<Segment>,
    min_args: usize,
}

impl View for Template {
    type V = TemplateModel;

    closed spec fn view(&self) -> TemplateModel {
        TemplateModel {
            segments: self.segments@.map_values(|s: Segment| s.model()),
            min_args: self.min_args as nat,
        }
    }
}

pub open spec fn sat(m: nat) -> nat {
    if m > usize::MAX {
        usize::MAX as nat
    } else {
        m
    }
}

impl Template {
    /// Parses `template` into a reusable form.
    ///
    /// Template syntax errors (unbalanced braces, named arguments, an
    /// illegal or unsupported spec) surface here; argument errors surface
    /// at format time.
    pub fn parse(template: &str) -> (r: Result<Template, FormatError>)
        ensures
            match (r, template_of(template@)) {
                (Ok(t), Ok(m)) => t@ == m,
                (Err(e), Err(e2)) => e == e2,
                _ => false,
            },
    {
        let chars = chars_of(template);
        let n = chars.len();
        let ghost s = chars@;
        let mut segments: Vec<Segment> = Vec::new();
        let mut min_args: usize = 0;
        let ghost mut need: nat = 0;
        let mut implicit: usize = 0;
        let mut i: usize = 0;
        proof {
            assert(s.skip(0) =~= s);
            match parse_from(s, 0) {
                Err(e) => {},
                Ok((segs, m)) => {
                    assert(Seq::<SegmentModel>::empty() + segs =~= segs);
                },
            }
            assert(segments@.map_values(|g: Segment| g.model()) =~= Seq::<SegmentModel>::empty());
        }
        while i < n
            invariant
                n == chars.len(),
                s == chars@,
                s == template@,
                i <= n,
                implicit <= i,
                min_args == sat(need),
                parse_from(s, 0) == combine(
                    segments@.map_values(|g: Segment| g.model()),
                    need,
                    parse_from(s.skip(i as int), implicit as nat),
                ),
            decreases n - i,
        {
            let ghost acc = segments@.map_values(|g: Segment| g.model());
            let (seg, next, next_implicit, seg_need) = match parse_step(&chars, i, implicit) {
                Ok(step) => step,
                Err(e) => {
                    return Err(e);
                },
            };
            proof {
                lemma_combine_prepend(
                    acc,
                    need,
                    seg.model(),
                    need_of_model(seg.model()),
                    parse_from(s.skip(next as int), next_implicit as nat),
                );
                need = nat_max(need, need_of_model(seg.model()));
            }
            min_args = if min_args >= seg_need {
                min_args
            } else {
                seg_need
            };
            segments.push(seg);
            assert(segments@.map_values(|g: Segment| g.model()) =~= acc.push(seg.model()));
            i = next;
            implicit = next_implicit;
        }
        assert(s.skip(n as int) =~= Seq::<char>::empty());
        assert(segments@.map_values(|g: Segment| g.model()) + Seq::<SegmentModel>::empty()
            =~= segments@.map_values(|g: Segment| g.model()));
        Ok(Template { segments, min_args })
    }

    /// The renderings that formatting asks of the arguments with the given
    /// facts, in order.
    pub fn requests(&self, facts: &[ArgFacts]) -> (r: Vec<Request>)
        ensures
            r@ == requests_of(self@.segments, facts@).0,
    {
        let ghost segs = self@.segments;
        let n = self.segments.len();
        let mut r: Vec<Request> = Vec::new();
        let mut k: usize = 0;
        assert(segs.take(0) =~= Seq::<SegmentModel>::empty());
        while k < n
            invariant
                n == self.segments.len(),
                segs == self@.segments,
                segs.len() == n,
                k <= n,
                requests_of(segs.take(k as int), facts@) == (r@, false),
            decreases n - k,
        {
            assert(segs.take(k + 1).drop_last() =~= segs.take(k as int));
            assert(segs.take(k + 1).last() == segs[k as int]);
            assert(segs[k as int] == self.segments@[k as int].model());
            match &self.segments[k] {
                Segment::Placeholder { index, spec } => {
                    if *index >= facts.len() {
                        proof {
                            lemma_requests_stop(segs, facts@, k + 1);
                        }
                        return r;
                    }
                    match spec.resolve(facts) {
                        Ok(resolved) => {
                            r.push(
                                Request {
                                    index: *index,
                                    ty: resolved.ty,
                                    pretty: resolved.pretty(),
                                    precision: resolved.precision,
                                },
                            );
                        },
                        Err(_) => {
                            proof {
                                lemma_requests_stop(segs, facts@, k + 1);
                            }
                            return r;
                        },
                    }
                },
                _ => {},
            }
            k = k + 1;
        }
        assert(segs.take(n as int) =~= segs);
        r
    }

    /// Renders the segments into `out` with the given argument facts, where
    /// the `k`-th placeholder reached gets `answers[k]` as its argument's
    /// bare rendering (`None`: the argument does not support the type).
    pub fn render_answers(
        &self,
        out: &mut String,
        facts: &[ArgFacts],
        answers: &[Option<String>],
    ) -> (r: Result<(), FormatError>)
        ensures
            final(out)@ == old(out)@ + format_with(self@, facts@, answers_view(answers@)).0,
            r == (match format_with(self@, facts@, answers_view(answers@)).1 {
                Some(e) => Err(e),
                None => Ok(()),
            }),
    {
        if facts.len() < self.min_args {
            assert(old(out)@ + Seq::<char>::empty() =~= old(out)@);
            return Err(FormatError::InsufficientParameters);
        }
        let ghost segs = self@.segments;
        let ghost av = answers_view(answers@);
        let ghost start = out@;
        let n = self.segments.len();
        let mut k: usize = 0;
        let mut holes: usize = 0;
        assert(segs.take(0) =~= Seq::<SegmentModel>::empty());
        assert(start + Seq::<char>::empty() =~= start);
        while k < n
            invariant
                n == self.segments.len(),
                segs == self@.segments,
                segs.len() == n,
                av == answers_view(answers@),
                k <= n,
                holes <= k,
                run(segs.take(k as int), facts@, av) == (
                    out@.skip(start.len() as int),
                    None::<FormatError>,
                    holes as nat,
                ),
                out@.len() >= start.len(),
                out@.take(start.len() as int) == start,
                start == old(out)@,
                facts@.len() >= self@.min_args,
            decreases n - k,
        {
            let ghost before = out@;
            assert(segs.take(k + 1).drop_last() =~= segs.take(k as int));
            assert(segs.take(k + 1).last() == segs[k as int]);
            assert(segs[k as int] == self.segments@[k as int].model());
            match &self.segments[k] {
                Segment::Literal(text) => {
                    push_chars_of(out, text);
                },
                Segment::Escaped(c) => {
                    out.push(*c);
                },
                Segment::Placeholder { index, spec } => {
                    if *index >= facts.len() {
                        proof {
                            lemma_run_stops(segs, facts@, av, k + 1);
                            assert(out@ =~= start + out@.skip(start.len() as int));
                        }
                        return Err(FormatError::InsufficientParameters);
                    }
                    let resolved = match spec.resolve(facts) {
                        Ok(r) => r,
                        Err(e) => {
                            proof {
                                lemma_run_stops(segs, facts@, av, k + 1);
                                assert(out@ =~= start + out@.skip(start.len() as int));
                            }
                            return Err(e);
                        },
                    };
                    let answer = if holes < answers.len() {
                        &answers[holes]
                    } else {
                        &None
                    };
                    assert(opt_view(*answer) == answer_at(av, holes as nat));
                    match answer {
                        Some(bare) => {
                            render_arg(out, bare.as_str(), facts[*index].numeric, &resolved);
                        },
                        None => {
                            proof {
                                lemma_run_stops(segs, facts@, av, k + 1);
                                assert(out@ =~= start + out@.skip(start.len() as int));
                            }
                            return Err(FormatError::UnsupportedFormatType);
                        },
                    }
                    holes = holes + 1;
                },
            }
            assert(out@.take(start.len() as int) =~= start);
            assert(out@.skip(start.len() as int) =~= before.skip(start.len() as int) + (out@.skip(
                before.len() as int,
            )));
            k = k + 1;
        }
        assert(segs.take(n as int) =~= segs);
        assert(out@ =~= start + out@.skip(start.len() as int));
        Ok(())
    }

    /// Formats `args` onto the end of `out`. On an argument error, `out`
    /// keeps what was written before it.
    pub fn try_append_to(&self, out: &mut String, args: &[ArgSlot]) -> (r: Result<(), FormatError>)
        ensures
            final(out)@ == old(out)@ + format_slots(self@, args@).0,
            r == (match format_slots(self@, args@).1 {
                Some(e) => Err(e),
                None => Ok(()),
            }),
    {
        let facts = slot_facts_of(args);
        let requests = self.requests(&facts);
        proof {
            lemma_requests_in_range(self@.segments, facts@);
        }
        let answers = slot_answers_of(args, &requests);
        self.render_answers(out, &facts, &answers)
    }

    /// Formats `args` into a new `String`.
    pub fn try_format(&self, args: &[ArgSlot]) -> (r: Result<String, FormatError>)
        ensures
            match (r, result_of(format_slots(self@, args@))) {
                (Ok(s), Ok(t)) => s@ == t,
                (Err(e), Err(e2)) => e == e2,
                _ => false,
            },
    {
        let mut out = String::new();
        match self.try_append_to(&mut out, args) {
            Ok(()) => {
                assert(out@ =~= format_slots(self@, args@).0);
                Ok(out)
            },
            Err(e) => Err(e),
        }
    }

    /// Formats `args` into a new `String`; the arguments must suit the
    /// template.
    pub fn format(&self, args: &[ArgSlot]) -> (r: String)
        requires
            format_slots(self@, args@).1 is None,
        ensures
            r@ == format_slots(self@, args@).0,
    {
        let mut out = String::new();
        let _ = self.try_append_to(&mut out, args);
        assert(out@ =~= format_slots(self@, args@).0);
        out
    }

    /// Formats `args` into `sink`, appending to its contents, as
    /// [`try_write_to`](Template::try_write_to) does; the arguments must
    /// suit the template and the sink must accept every write (as a
    /// `String` does).
    pub fn write_to<S: Sink>(&self, sink: &mut S, args: &[ArgSlot])
        requires
            format_slots(self@, args@).1 is None,
            accepts_all(*old(sink), slot_pieces(self@, args@).0),
        ensures
            S::keeps_text() ==> final(sink).written() == old(sink).written() + format_slots(
                self@,
                args@,
            ).0,
            S::models_acceptance() ==> *final(sink) == after_all(*old(sink), slot_pieces(self@, args@).0),
    {
        let _ = self.try_write_to(sink, args);
    }

    /// Renders the segments into `sink` piece by piece, as
    /// [`render_answers`](Template::render_answers) does into a `String`:
    /// each literal text, escaped brace and piece of a placeholder's
    /// rendering is one write, and the first rejected write stops it with
    /// [`FormatError::WriteFailed`].
    pub fn render_answers_to<S: Sink>(
        &self,
        sink: &mut S,
        facts: &[ArgFacts],
        answers: &[Option<String>],
    ) -> (r: Result<(), FormatError>)
        ensures
            streamed(
                *old(sink),
                *final(sink),
                format_pieces(self@, facts@, answers_view(answers@)).0,
                format_pieces(self@, facts@, answers_view(answers@)).1,
                r,
            ),
            S::never_rejects() ==> r == unit_result(
                format_pieces(self@, facts@, answers_view(answers@)).1,
            ),
    {
        let ghost start = *sink;
        if facts.len() < self.min_args {
            proof {
                lemma_wrote_nothing(start);
            }
            return Err(FormatError::InsufficientParameters);
        }
        let ghost segs = self@.segments;
        let ghost av = answers_view(answers@);
        let n = self.segments.len();
        let mut k: usize = 0;
        let mut holes: usize = 0;
        assert(segs.take(0) =~= Seq::<SegmentModel>::empty());
        proof {
            lemma_wrote_nothing(start);
        }
        while k < n
            invariant
                n == self.segments.len(),
                segs == self@.segments,
                segs.len() == n,
                av == answers_view(answers@),
                k <= n,
                holes <= k,
                run_pieces(segs.take(k as int), facts@, av).1 is None,
                run_pieces(segs.take(k as int), facts@, av).2 == holes as nat,
                wrote(start, *sink, run_pieces(segs.take(k as int), facts@, av).0, Ok(())),
                start == *old(sink),
                facts@.len() >= self@.min_args,
            decreases n - k,
        {
            let ghost before = *sink;
            let ghost done = run_pieces(segs.take(k as int), facts@, av).0;
            assert(segs.take(k + 1).drop_last() =~= segs.take(k as int));
            assert(segs.take(k + 1).last() == segs[k as int]);
            assert(segs[k as int] == self.segments@[k as int].model());
            let w = match &self.segments[k] {
                Segment::Literal(text) => write_piece(sink, text.as_str()),
                Segment::Escaped(c) => {
                    let mut piece = String::new();
                    piece.push(*c);
                    assert(piece@ =~= seq![*c]);
                    write_piece(sink, piece.as_str())
                },
                Segment::Placeholder { index, spec } => {
                    if *index >= facts.len() {
                        proof {
                            lemma_run_pieces_stops(segs, facts@, av, k + 1);
                        }
                        return Err(FormatError::InsufficientParameters);
                    }
                    let resolved = match spec.resolve(facts) {
                        Ok(r) => r,
                        Err(e) => {
                            proof {
                                lemma_run_pieces_stops(segs, facts@, av, k + 1);
                            }
                            return Err(e);
                        },
                    };
                    let answer = if holes < answers.len() {
                        &answers[holes]
                    } else {
                        &None
                    };
                    assert(opt_view(*answer) == answer_at(av, holes as nat));
                    match answer {
                        Some(bare) => render_arg_to(sink, bare.as_str(), facts[*index].numeric, &resolved),
                        None => {
                            proof {
                                lemma_run_pieces_stops(segs, facts@, av, k + 1);
                            }
                            return Err(FormatError::UnsupportedFormatType);
                        },
                    }
                },
            };
            let ghost piece = segment_pieces(segs[k as int], facts@, answer_at(av, holes as nat))->Ok_0;
            assert(run_pieces(segs.take(k + 1), facts@, av).0 == done + piece);
            proof {
                lemma_wrote_then(start, before, *sink, done, piece, w);
            }
            match w {
                Ok(()) => {},
                Err(e) => {
                    proof {
                        lemma_run_pieces_grow(segs, facts@, av, k + 1);
                        assert(segs =~= segs.take(n as int));
                        let pre = run_pieces(segs.take(k + 1), facts@, av).0;
                        let full = run_pieces(segs, facts@, av).0;
                        assert(full =~= pre + full.skip(pre.len() as int));
                        lemma_wrote_stopped(start, *sink, pre, full.skip(pre.len() as int), w);
                    }
                    return Err(e);
                },
            }
            if self.segments[k].is_placeholder() {
                holes = holes + 1;
            }
            k = k + 1;
        }
        assert(segs.take(n as int) =~= segs);
        Ok(())
    }

    /// Formats `args` into `sink`, appending to its contents, piece by
    /// piece: literal texts, escaped braces, and the pieces of each
    /// placeholder's rendering (sign, `#` prefix, digits, each fill
    /// character), stopping at an argument error or at the first write the
    /// sink rejects, which gives [`FormatError::WriteFailed`].
    pub fn try_write_to<S: Sink>(&self, sink: &mut S, args: &[ArgSlot]) -> (r: Result<(), FormatError>)
        ensures
            streamed(
                *old(sink),
                *final(sink),
                slot_pieces(self@, args@).0,
                format_slots(self@, args@).1,
                r,
            ),
            slot_pieces(self@, args@).0.flatten() == format_slots(self@, args@).0,
            S::never_rejects() ==> r == unit_result(format_slots(self@, args@).1),
    {
        let facts = slot_facts_of(args);
        let requests = self.requests(&facts);
        proof {
            lemma_requests_in_range(self@.segments, facts@);
        }
        let answers = slot_answers_of(args, &requests);
        proof {
            lemma_format_pieces(self@, facts@, answers_view(answers@));
        }
        self.render_answers_to(sink, &facts, &answers)
    }

    /// Formats the arguments of `param`, whose renderings come from their
    /// own [`FormatArg`](crate::FormatArg) implementations: the facts of
    /// argument `k` are what `param` reported for position `k`, each
    /// placeholder reached asks `param` for the rendering of its argument
    /// with its type, pretty flag and precision, and the result is what
    /// formatting gives for those facts and renderings.
    pub fn try_format_with<P: FormatParam + ?Sized>(&self, param: &P) -> (r: Result<String, FormatError>)
        ensures
            exists|facts: Seq<ArgFacts>, outs: Seq<Option<String>>|
                #[trigger] param_outcome(self@, param, facts, outs, r),
            param.num_args() < self@.min_args ==> r == Err::<String, FormatError>(
                FormatError::InsufficientParameters,
            ),
    {
        let n = param.arg_count();
        let mut facts: Vec<ArgFacts> = Vec::new();
        let mut i: usize = 0;
        while i < n
            invariant
                i <= n,
                n == param.num_args(),
                facts@.len() == i,
                facts_reported(param, facts@),
            decreases n - i,
        {
            let numeric = param.arg_is_numeric(i);
            let usize_value = param.arg_as_usize(i);
            let ghost before = facts@;
            facts.push(ArgFacts { numeric, usize_value });
            assert forall|k: int| 0 <= k < facts@.len() implies #[trigger] fact_reported(
                param,
                k,
                facts@[k],
            ) by {
                if k < i {
                    assert(facts@[k] == before[k]);
                }
            }
            i = i + 1;
        }
        let requests = self.requests(&facts);
        let mut answers: Vec<Option<String>> = Vec::new();
        let m = requests.len();
        let mut j: usize = 0;
        while j < m
            invariant
                m == requests.len(),
                j <= m,
                answers@.len() == j,
                forall|k: int| 0 <= k < j ==> #[trigger] answer_reported(
                    param,
                    requests@[k],
                    answers@[k],
                ),
            decreases m - j,
        {
            let q = requests[j];
            let a = param.arg_write(q.index, q.ty, q.pretty, q.precision);
            let ghost before = answers@;
            answers.push(a);
            assert forall|k: int| 0 <= k < j + 1 implies #[trigger] answer_reported(
                param,
                requests@[k],
                answers@[k],
            ) by {
                if k < j {
                    assert(answers@[k] == before[k]);
                }
            }
            j = j + 1;
        }
        let mut out = String::new();
        let res = self.render_answers(&mut out, &facts, &answers);
        let r = match res {
            Ok(()) => {
                assert(out@ =~= format_with(self@, facts@, answers_view(answers@)).0);
                Ok(out)
            },
            Err(e) => Err(e),
        };
        assert(outcome_matches(self@, facts@, answers_view(answers@), r));
        assert(param_outcome(self@, param, facts@, answers@, r));
        r
    }

    /// The minimum number of arguments this template references (counting
    /// placeholder indices and `n$` width/precision references).
    pub fn arity(&self) -> (r: usize)
        ensures
            r == self@.min_args,
    {
        self.min_args
    }
}

} // verus!
