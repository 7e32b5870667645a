//! Properties of the library as a whole, proved over the models that the
//! functions' contracts speak of.
use vstd::prelude::*;

use crate::arg::{ArgSlot, FormatType};
use crate::engine::{padded, render_number, render_of, render_text, sign_split, nan, prefix_of, repeat, utf8_len};
use crate::int_fmt::{digit_char, radix_digits, int_bare, twos, strip_zeros, exp_of};
use vstd::arithmetic::power::pow;
use crate::placeholder::{all_digits, count_of, digits_value, digit_value, is_digit, spec_of, Align, RawSpec, Spec};
use crate::builder::{format_text, FormatArgRef};
use crate::template::{format_slots as fmt_slots_of, lemma_format_pieces, slot_pieces, streamed, unit_result};
use crate::error::FormatError;
use crate::placeholder::{char_at_is, first_index_of, lemma_first_index_of, placeholder_of, Count};
use crate::placeholder::{counts_and_type_of, lemma_digit_run, digit_run, type_of};
use crate::template::{slot_facts, slot_answers, requests_of, lemma_run_stops, pretty_of, request_of, answer_at};
use crate::template::{
    format_slots, format_with, hole_need, is_brace, lemma_literal_run, literal_run,
    max_param_ref_of, nat_max, need_of_model, parse_from, prepend, resolve_count_of, resolve_of, run,
    sat, segment_output, template_of, ArgFacts, SegmentModel, TemplateModel,
};

verus! {

/// `c` as it must be written in a template to stand for itself.
pub open spec fn escape_char(c: char) -> Seq<char> {
    if c == '{' {
        seq!['{', '{']
    } else if c == '}' {
        seq!['}', '}']
    } else {
        seq![c]
    }
}

/// `s` with every brace doubled: the template text that stands for `s`.
pub open spec fn escape(s: Seq<char>) -> Seq<char>
    decreases s.len(),
{
    if s.len() == 0 {
        Seq::<char>::empty()
    } else {
        escape_char(s[0]) + escape(s.drop_first())
    }
}

/// The text that placeholder-free segments stand for.
pub open spec fn plain_output(segs: Seq<SegmentModel>) -> Seq<char>
    decreases segs.len(),
{
    if segs.len() == 0 {
        Seq::<char>::empty()
    } else {
        plain_output(segs.drop_last()) + match segs.last() {
            SegmentModel::Text(t) => t,
            SegmentModel::Escaped(c) => seq![c],
            SegmentModel::Hole(_, _) => Seq::<char>::empty(),
        }
    }
}

pub open spec fn no_holes(segs: Seq<SegmentModel>) -> bool {
    forall|i: int| 0 <= i < segs.len() ==> !(#[trigger] segs[i] is Hole)
}

proof fn lemma_plain_output_prepend(x: SegmentModel, segs: Seq<SegmentModel>)
    ensures
        plain_output(seq![x] + segs) == plain_output(seq![x]) + plain_output(segs),
    decreases segs.len(),
{
    if segs.len() > 0 {
        lemma_plain_output_prepend(x, segs.drop_last());
        assert((seq![x] + segs).drop_last() =~= seq![x] + segs.drop_last());
        assert((seq![x] + segs).last() == segs.last());
    } else {
        assert(seq![x] + segs =~= seq![x]);
    }
    assert(seq![x].drop_last() =~= Seq::<SegmentModel>::empty());
}

proof fn lemma_escape_literal(s: Seq<char>)
    ensures
        literal_run(escape(s)) == literal_run(s),
        escape(s) =~= s.take(literal_run(s) as int) + escape(s.skip(literal_run(s) as int)),
    decreases s.len(),
{
    if s.len() > 0 {
        lemma_escape_literal(s.drop_first());
        let e = escape(s);
        assert(e =~= escape_char(s[0]) + escape(s.drop_first()));
        if !is_brace(s[0]) {
            assert(e[0] == s[0]);
            assert(e.drop_first() =~= escape(s.drop_first()));
            let r = literal_run(s.drop_first());
            lemma_literal_run(s.drop_first());
            assert(s.drop_first().skip(r as int) =~= s.skip(r as int + 1));
            assert(s.take(r as int + 1) =~= seq![s[0]] + s.drop_first().take(r as int));
        } else {
            assert(is_brace(e[0]));
            assert(s.skip(0) =~= s);
        }
    } else {
        assert(s.skip(0) =~= s);
    }
}

/// The template text `escape(s)` parses, from any implicit counter, into
/// placeholder-free segments that stand for `s` and need no argument.
proof fn lemma_parse_escaped(s: Seq<char>, k: nat)
    ensures
        parse_from(escape(s), k) matches Ok((segs, m)) && m == 0 && no_holes(segs) && plain_output(
            segs,
        ) == s,
    decreases s.len(),
{
    let e = escape(s);
    if s.len() == 0 {
        assert(plain_output(Seq::<SegmentModel>::empty()) =~= s);
    } else if is_brace(s[0]) {
        let c = s[0];
        let rest = s.drop_first();
        lemma_parse_escaped(rest, k);
        assert(e =~= seq![c, c] + escape(rest));
        assert(e.skip(2) =~= escape(rest));
        let (segs, m) = parse_from(escape(rest), k)->Ok_0;
        let x = SegmentModel::Escaped(c);
        assert(parse_from(e, k) == prepend(x, 0, parse_from(escape(rest), k)));
        lemma_plain_output_prepend(x, segs);
        assert(plain_output(seq![x]) =~= seq![c]) by {
            assert(seq![x].drop_last() =~= Seq::<SegmentModel>::empty());
            assert(plain_output(Seq::<SegmentModel>::empty()) =~= Seq::<char>::empty());
            assert(seq![x].last() == x);
        }
        assert(seq![c] + rest =~= s);
        assert forall|i: int| 0 <= i < (seq![x] + segs).len() implies !(#[trigger] (seq![x]
            + segs)[i] is Hole) by {
            if i > 0 {
                assert((seq![x] + segs)[i] == segs[i - 1]);
            }
        }
    } else {
        lemma_escape_literal(s);
        lemma_literal_run(s);
        let r = literal_run(s);
        assert(r >= 1);
        let rest = s.skip(r as int);
        lemma_parse_escaped(rest, k);
        assert(e[0] == s[0]);
        assert(e.take(r as int) =~= s.take(r as int));
        assert(e.skip(r as int) =~= escape(rest));
        let (segs, m) = parse_from(escape(rest), k)->Ok_0;
        let x = SegmentModel::Text(s.take(r as int));
        assert(parse_from(e, k) == prepend(x, 0, parse_from(escape(rest), k)));
        lemma_plain_output_prepend(x, segs);
        assert(plain_output(seq![x]) =~= s.take(r as int)) by {
            assert(seq![x].drop_last() =~= Seq::<SegmentModel>::empty());
            assert(plain_output(Seq::<SegmentModel>::empty()) =~= Seq::<char>::empty());
            assert(seq![x].last() == x);
        }
        assert(s.take(r as int) + rest =~= s);
        assert forall|i: int| 0 <= i < (seq![x] + segs).len() implies !(#[trigger] (seq![x]
            + segs)[i] is Hole) by {
            if i > 0 {
                assert((seq![x] + segs)[i] == segs[i - 1]);
            }
        }
    }
}

/// Rendering placeholder-free segments writes the text they stand for and
/// cannot fail.
proof fn lemma_run_plain(
    segs: Seq<SegmentModel>,
    facts: Seq<ArgFacts>,
    answers: Seq<Option<Seq<char>>>,
)
    requires
        no_holes(segs),
    ensures
        run(segs, facts, answers) == (plain_output(segs), None::<FormatError>, 0nat),
    decreases segs.len(),
{
    if segs.len() > 0 {
        assert(no_holes(segs.drop_last())) by {
            assert forall|i: int| 0 <= i < segs.drop_last().len() implies !(
            #[trigger] segs.drop_last()[i] is Hole) by {
                assert(segs.drop_last()[i] == segs[i]);
            }
        }
        lemma_run_plain(segs.drop_last(), facts, answers);
        assert(!(segs[segs.len() - 1] is Hole));
    }
}

/// Doubling every brace of any text gives a template that needs no
/// argument and formats back to that text, whatever the arguments.
pub proof fn law_escaped_text_formats_to_itself(
    s: Seq<char>,
    facts: Seq<ArgFacts>,
    answers: Seq<Option<Seq<char>>>,
)
    ensures
        template_of(escape(s)) matches Ok(t) && t.min_args == 0 && format_with(t, facts, answers)
            == (s, None::<FormatError>),
{
    lemma_parse_escaped(s, 0);
    let (segs, m) = parse_from(escape(s), 0)->Ok_0;
    lemma_run_plain(segs, facts, answers);
}

/// The same, for one-shot formatting with arguments held as slots.
pub proof fn law_escaped_text_formats_to_itself_with_slots(s: Seq<char>, args: Seq<ArgSlot>)
    ensures
        format_text(escape(s), args) == (s, None::<FormatError>),
{
    lemma_parse_escaped(s, 0);
    let (segs, m) = parse_from(escape(s), 0)->Ok_0;
    let t = template_of(escape(s))->Ok_0;
    let facts = crate::template::slot_facts(args);
    let answers = crate::template::slot_answers(
        args,
        crate::template::requests_of(t.segments, facts).0,
    );
    lemma_run_plain(segs, facts, answers);
}

/// The number of arguments that segments need: the largest need of any of
/// them, `0` for none.
pub open spec fn arity_of(segs: Seq<SegmentModel>) -> nat
    decreases segs.len(),
{
    if segs.len() == 0 {
        0
    } else {
        nat_max(arity_of(segs.drop_last()), need_of_model(segs.last()))
    }
}

proof fn lemma_arity_prepend(x: SegmentModel, segs: Seq<SegmentModel>)
    ensures
        arity_of(seq![x] + segs) == nat_max(need_of_model(x), arity_of(segs)),
    decreases segs.len(),
{
    if segs.len() > 0 {
        lemma_arity_prepend(x, segs.drop_last());
        assert((seq![x] + segs).drop_last() =~= seq![x] + segs.drop_last());
        assert((seq![x] + segs).last() == segs.last());
    } else {
        assert(seq![x] + segs =~= seq![x]);
        assert(seq![x].drop_last() =~= Seq::<SegmentModel>::empty());
        assert(arity_of(Seq::<SegmentModel>::empty()) == 0);
        assert(seq![x].last() == x);
    }
}

proof fn lemma_prepend_arity(x: SegmentModel, r: Result<(Seq<SegmentModel>, nat), FormatError>)
    requires
        r matches Ok((segs, m)) ==> m == arity_of(segs),
    ensures
        prepend(x, need_of_model(x), r) matches Ok((segs, m)) ==> m == arity_of(segs),
{
    if let Ok((segs, m)) = r {
        lemma_arity_prepend(x, segs);
    }
}

/// The number of arguments a parse reports is the arity of its segments.
proof fn lemma_parse_arity(s: Seq<char>, k: nat)
    ensures
        parse_from(s, k) matches Ok((segs, m)) ==> m == arity_of(segs),
    decreases s.len(),
{
    if s.len() == 0 {
    } else if s[0] == '{' && char_at_is(s, 1, '{') {
        lemma_parse_arity(s.skip(2), k);
        lemma_prepend_arity(SegmentModel::Escaped('{'), parse_from(s.skip(2), k));
    } else if s[0] == '{' {
        match first_index_of(s.skip(1), '}') {
            None => {},
            Some(j) => {
                lemma_first_index_of(s.skip(1), '}');
                match placeholder_of(s.subrange(1, j as int + 1)) {
                    Err(_) => {},
                    Ok((idx, raw)) => {
                        let index: nat = match idx {
                            Some(n) => n as nat,
                            None => k,
                        };
                        let next: nat = if idx is None {
                            k + 1
                        } else {
                            k
                        };
                        lemma_parse_arity(s.skip(j as int + 2), next);
                        lemma_prepend_arity(
                            SegmentModel::Hole(index, raw),
                            parse_from(s.skip(j as int + 2), next),
                        );
                    },
                }
            },
        }
    } else if s[0] == '}' && char_at_is(s, 1, '}') {
        lemma_parse_arity(s.skip(2), k);
        lemma_prepend_arity(SegmentModel::Escaped('}'), parse_from(s.skip(2), k));
    } else if s[0] == '}' {
    } else {
        let r = literal_run(s);
        lemma_literal_run(s);
        lemma_parse_arity(s.skip(r as int), k);
        lemma_prepend_arity(SegmentModel::Text(s.take(r as int)), parse_from(s.skip(r as int), k));
    }
}

/// Every segment needs at most the arity, and a non-zero arity is the need
/// of some segment.
proof fn lemma_arity_bounds(segs: Seq<SegmentModel>)
    ensures
        forall|i: int| 0 <= i < segs.len() ==> need_of_model(#[trigger] segs[i]) <= arity_of(segs),
        arity_of(segs) > 0 ==> exists|i: int|
            0 <= i < segs.len() && need_of_model(#[trigger] segs[i]) == arity_of(segs),
    decreases segs.len(),
{
    if segs.len() > 0 {
        let p = segs.drop_last();
        lemma_arity_bounds(p);
        assert forall|i: int| 0 <= i < segs.len() implies need_of_model(#[trigger] segs[i])
            <= arity_of(segs) by {
            if i < segs.len() - 1 {
                assert(segs[i] == p[i]);
            }
        }
        if arity_of(segs) > 0 {
            if arity_of(segs) == need_of_model(segs.last()) {
                assert(need_of_model(segs[segs.len() - 1]) == arity_of(segs));
            } else {
                let i = choose|i: int| 0 <= i < p.len() && need_of_model(#[trigger] p[i]) == arity_of(p);
                assert(segs[i] == p[i]);
            }
        }
    }
}

/// `Template::arity` counts placeholder indices and `n$` references: every
/// placeholder's index and every width/precision argument it refers to is
/// below the arity, and the arity is the least number with that property
/// (saturating at `usize::MAX`).
pub proof fn law_arity_is_least_sufficient(s: Seq<char>)
    ensures
        template_of(s) matches Ok(t) ==> {
            &&& t.min_args == sat(arity_of(t.segments))
            &&& forall|i: int|
                0 <= i < t.segments.len() ==> need_of_model(#[trigger] t.segments[i]) <= arity_of(
                    t.segments,
                )
            &&& arity_of(t.segments) > 0 ==> exists|i: int|
                0 <= i < t.segments.len() && need_of_model(#[trigger] t.segments[i]) == arity_of(
                    t.segments,
                )
        },
{
    lemma_parse_arity(s, 0);
    if let Ok(t) = template_of(s) {
        lemma_arity_bounds(t.segments);
    }
}

/// A placeholder's need covers its index and its `n$` references.
pub proof fn lemma_hole_need(index: nat, raw: crate::placeholder::RawSpec)
    ensures
        index < hole_need(index, raw),
        raw.width matches Some(Count::Param(a)) ==> a < hole_need(index, raw),
        raw.precision matches Some(Count::Param(b)) ==> b < hole_need(index, raw),
{
}

proof fn lemma_run_never_insufficient(
    segs: Seq<SegmentModel>,
    facts: Seq<ArgFacts>,
    answers: Seq<Option<Seq<char>>>,
)
    requires
        forall|i: int| 0 <= i < segs.len() ==> need_of_model(#[trigger] segs[i]) <= facts.len(),
    ensures
        run(segs, facts, answers).1 != Some(FormatError::InsufficientParameters),
    decreases segs.len(),
{
    if segs.len() > 0 {
        let p = segs.drop_last();
        assert forall|i: int| 0 <= i < p.len() implies need_of_model(#[trigger] p[i])
            <= facts.len() by {
            assert(p[i] == segs[i]);
        }
        lemma_run_never_insufficient(p, facts, answers);
        assert(need_of_model(segs[segs.len() - 1]) <= facts.len());
        if let SegmentModel::Hole(index, raw) = segs.last() {
            lemma_hole_need(index, raw);
        }
    }
}

/// With at least as many arguments as the placeholders and their `n$`
/// references need, formatting never reports missing arguments.
pub proof fn law_enough_arguments_are_never_insufficient(
    s: Seq<char>,
    facts: Seq<ArgFacts>,
    answers: Seq<Option<Seq<char>>>,
)
    requires
        template_of(s) is Ok,
        facts.len() >= arity_of(template_of(s)->Ok_0.segments),
    ensures
        format_with(template_of(s)->Ok_0, facts, answers).1 != Some(
            FormatError::InsufficientParameters,
        ),
{
    let t = template_of(s)->Ok_0;
    law_arity_is_least_sufficient(s);
    lemma_run_never_insufficient(t.segments, facts, answers);
}

/// The `0` flag has no effect on non-numeric values.
pub proof fn law_zero_flag_ignored_for_text(bare: Seq<char>, spec: Spec)
    ensures
        render_of(bare, false, spec) == render_of(bare, false, Spec { zero: !spec.zero, ..spec }),
{
}

/// Precision is ignored when rendering numbers: the bare value already
/// carries whatever precision applies (none for integers).
pub proof fn law_precision_ignored_for_numbers(bare: Seq<char>, spec: Spec, p: Option<usize>)
    ensures
        render_of(bare, true, spec) == render_of(bare, true, Spec { precision: p, ..spec }),
{
}

/// Text is cut to the precision and then padded to the width: its length
/// is the larger of the two.
pub proof fn law_text_width(bare: Seq<char>, spec: Spec)
    ensures
        ({
            let body_len = match spec.precision {
                Some(p) => if bare.len() > p {
                    p as nat
                } else {
                    bare.len()
                },
                None => bare.len(),
            };
            render_text(bare, spec).len() == match spec.width {
                Some(w) => nat_max(w as nat, body_len),
                None => body_len,
            }
        }),
{
}

proof fn lemma_utf8_len_concat(a: Seq<char>, b: Seq<char>)
    ensures
        utf8_len(a + b) == utf8_len(a) + utf8_len(b),
    decreases b.len(),
{
    if b.len() == 0 {
        assert(a + b =~= a);
    } else {
        lemma_utf8_len_concat(a, b.drop_last());
        assert((a + b).drop_last() =~= a + b.drop_last());
        assert((a + b).last() == b.last());
    }
}

proof fn lemma_utf8_len_ascii(s: Seq<char>)
    requires
        forall|i: int| 0 <= i < s.len() ==> (#[trigger] s[i] as u32) < 0x80,
    ensures
        utf8_len(s) == s.len(),
    decreases s.len(),
{
    if s.len() > 0 {
        assert forall|i: int| 0 <= i < s.drop_last().len() implies (#[trigger] s.drop_last()[i]
            as u32) < 0x80 by {
            assert(s.drop_last()[i] == s[i]);
        }
        lemma_utf8_len_ascii(s.drop_last());
        assert((s[s.len() - 1] as u32) < 0x80);
    }
}

/// With the `0` flag, a number is written as sign, `#` prefix, zeros and
/// digits, and takes the larger of the width and its own length in UTF-8
/// bytes.
pub proof fn law_zero_padded_number_width(bare: Seq<char>, spec: Spec)
    requires
        spec.zero,
    ensures
        ({
            let (sign, digits) = sign_split(bare, spec.sign_plus);
            let own = sign.len() + prefix_of(spec).len() + utf8_len(digits);
            utf8_len(render_number(bare, spec)) == match spec.width {
                Some(w) => nat_max(w as nat, own),
                None => own,
            }
        }),
{
    let (sign, digits) = sign_split(bare, spec.sign_plus);
    let prefix = prefix_of(spec);
    let zeros = match spec.width {
        Some(w) => if sign.len() + prefix.len() + utf8_len(digits) < w {
            repeat('0', (w - (sign.len() + prefix.len() + utf8_len(digits))) as nat)
        } else {
            Seq::<char>::empty()
        },
        None => Seq::<char>::empty(),
    };
    lemma_utf8_len_ascii(sign);
    lemma_utf8_len_ascii(prefix);
    lemma_utf8_len_ascii(zeros);
    lemma_utf8_len_concat(sign, prefix);
    lemma_utf8_len_concat(sign + prefix, zeros);
    lemma_utf8_len_concat(sign + prefix + zeros, digits);
}

/// `+` is written before a non-negative number when the spec asks for it,
/// but never before `NaN`; a negative number keeps its own `-`.
pub proof fn law_sign(bare: Seq<char>, spec: Spec)
    requires
        spec.width is None,
        !spec.alternate,
    ensures
        bare.len() > 0 && bare[0] == '-' ==> render_number(bare, spec) == bare,
        spec.sign_plus && !(bare.len() > 0 && bare[0] == '-') && bare != nan() ==> render_number(
            bare,
            spec,
        ) == seq!['+'] + bare,
        bare == nan() ==> render_number(bare, spec) == nan(),
{
    if bare.len() > 0 && bare[0] == '-' {
        assert(seq!['-'] + bare.skip(1) =~= bare);
    }
    assert(Seq::<char>::empty() + Seq::<char>::empty() + bare =~= bare);
    assert(seq!['+'] + Seq::<char>::empty() + bare =~= seq!['+'] + bare);
    assert(seq!['+'] + Seq::<char>::empty() + Seq::<char>::empty() + bare =~= seq!['+'] + bare);
    assert(Seq::<char>::empty() + Seq::<char>::empty() + Seq::<char>::empty() + bare =~= bare);
    if bare.len() > 0 && bare[0] == '-' {
        assert(seq!['-'] + Seq::<char>::empty() + Seq::<char>::empty() + bare.skip(1) =~= bare);
        assert(seq!['-'] + Seq::<char>::empty() + bare.skip(1) =~= bare);
    }
}

/// Integers render in decimal digits that read back as the same number,
/// and hold no `:` or `}`.
pub proof fn law_decimal_reads_back(n: nat)
    ensures
        all_digits(radix_digits(n, 10, false)),
        radix_digits(n, 10, false).len() >= 1,
        digits_value(radix_digits(n, 10, false)) == n,
        forall|i: int|
            0 <= i < radix_digits(n, 10, false).len() ==> #[trigger] radix_digits(n, 10, false)[i]
                != ':' && radix_digits(n, 10, false)[i] != '}',
    decreases n,
{
    let d = radix_digits(n, 10, false);
    if n < 10 {
        assert(d =~= seq![digit_char(n, false)]);
        assert(d.drop_last() =~= Seq::<char>::empty());
        assert(digits_value(Seq::<char>::empty()) == 0);
    } else {
        assert(n / 10 < n);
        law_decimal_reads_back(n / 10);
        let p = radix_digits(n / 10, 10, false);
        assert(d =~= p.push(digit_char(n % 10, false)));
        assert(d.drop_last() =~= p);
        assert(n == (n / 10) * 10 + n % 10);
        assert forall|i: int| 0 <= i < d.len() implies is_digit(#[trigger] d[i]) by {
            if i < p.len() {
                assert(d[i] == p[i]);
            }
        }
        assert forall|i: int| 0 <= i < d.len() implies #[trigger] d[i] != ':' && d[i] != '}' by {
            if i < p.len() {
                assert(d[i] == p[i]);
            }
        }
    }
}

/// The spec of a placeholder without `:`: `Display`, no flags, no width or
/// precision.
pub open spec fn plain_spec() -> RawSpec {
    RawSpec {
        fill: ' ',
        align: None,
        sign_plus: false,
        alternate: false,
        zero: false,
        width: None,
        precision: None,
        ty: FormatType::Display,
    }
}

/// `{n}`, written with the decimal digits of `n`, is one placeholder for
/// argument `n`, and the template needs `n + 1` arguments: a number that
/// the library renders reads back as the same index.
pub proof fn law_explicit_index(n: usize)
    ensures
        template_of(seq!['{'] + radix_digits(n as nat, 10, false) + seq!['}']) == Ok::<
            TemplateModel,
            FormatError,
        >(
            TemplateModel {
                segments: seq![SegmentModel::Hole(n as nat, plain_spec())],
                min_args: sat((n + 1) as nat),
            },
        ),
{
    let d = radix_digits(n as nat, 10, false);
    let s = seq!['{'] + d + seq!['}'];
    law_decimal_reads_back(n as nat);
    assert(s[0] == '{');
    assert(s[1] == d[0]);
    assert(!char_at_is(s, 1, '{'));
    lemma_first_index_of(s.skip(1), '}');
    assert(s.skip(1) =~= d + seq!['}']);
    assert(first_index_of(s.skip(1), '}') == Some(d.len())) by {
        assert((d + seq!['}'])[d.len() as int] == '}');
        if first_index_of(s.skip(1), '}') != Some(d.len()) {
            match first_index_of(s.skip(1), '}') {
                Some(k) => {
                    assert((d + seq!['}'])[k as int] == d[k as int]);
                },
                None => {},
            }
        }
    }
    assert(s.subrange(1, d.len() as int + 1) =~= d);
    lemma_first_index_of(d, ':');
    assert(first_index_of(d, ':') is None) by {
        if let Some(k) = first_index_of(d, ':') {
            assert(d[k as int] != ':');
        }
    }
    assert(count_of(Seq::<char>::empty()) == Ok::<Option<(Count, nat)>, FormatError>(None));
    assert(Seq::<char>::empty().skip(0) =~= Seq::<char>::empty());
    assert(spec_of(Seq::<char>::empty()) == Ok::<RawSpec, FormatError>(plain_spec()));
    assert(placeholder_of(d) == Ok::<(Option<usize>, RawSpec), FormatError>((Some(n), plain_spec())));
    assert(s.skip(d.len() as int + 2) =~= Seq::<char>::empty());
    assert(parse_from(Seq::<char>::empty(), 0) == Ok::<(Seq<SegmentModel>, nat), FormatError>(
        (Seq::<SegmentModel>::empty(), 0),
    ));
    assert(seq![SegmentModel::Hole(n as nat, plain_spec())] + Seq::<SegmentModel>::empty()
        =~= seq![SegmentModel::Hole(n as nat, plain_spec())]);
}

/// `{n}` renders a string argument `n` as exactly its text.
pub proof fn law_plain_placeholder_shows_text(n: usize, args: Seq<ArgSlot>, text: &str)
    requires
        n < args.len(),
        args[n as int] == ArgSlot::Str(text),
    ensures
        format_text(seq!['{'] + radix_digits(n as nat, 10, false) + seq!['}'], args) == (
            text@,
            None::<FormatError>,
        ),
{
    law_explicit_index(n);
    let t = template_of(seq!['{'] + radix_digits(n as nat, 10, false) + seq!['}'])->Ok_0;
    let facts = slot_facts(args);
    let segs = t.segments;
    assert(segs.drop_last() =~= Seq::<SegmentModel>::empty());
    assert(requests_of(Seq::<SegmentModel>::empty(), facts) == (Seq::<crate::template::Request>::empty(), false));
    assert(run(Seq::<SegmentModel>::empty(), facts, Seq::<Option<Seq<char>>>::empty()) == (Seq::<char>::empty(), None::<FormatError>, 0nat));
    let rq = requests_of(segs, facts).0;
    assert(rq.len() == 1);
    let answers = slot_answers(args, rq);
    assert(answers[0] == Some(text@));
    assert(run(Seq::<SegmentModel>::empty(), facts, answers) == (Seq::<char>::empty(), None::<FormatError>, 0nat));
    assert(Seq::<char>::empty() + text@ =~= text@);
}

/// Formatting from a template string is parsing it and formatting the
/// parsed template: a syntax error comes with no output.
pub proof fn law_one_shot_is_parse_then_format(s: Seq<char>, args: Seq<ArgSlot>)
    ensures
        match template_of(s) {
            Ok(t) => format_text(s, args) == format_slots(t, args),
            Err(e) => format_text(s, args) == (Seq::<char>::empty(), Some(e)),
        },
{
}

/// `{:?}` and `{:#?}` render integers as `{}` does.
pub proof fn law_integer_debug_is_display(a: ArgSlot, pretty: bool)
    requires
        a.int_value() is Some,
    ensures
        a.bare(FormatType::Debug, pretty) == a.bare(FormatType::Display, false),
{
}

/// The `#` prefix of `{:#X}` is the lowercase `0x`; only the digits are
/// uppercased.
pub proof fn law_upper_hex_prefix_is_lowercase()
    ensures
        crate::engine::radix_prefix_of(FormatType::UpperHex) == seq!['0', 'x'],
{
}

/// The errors that only the arguments can cause: a missing argument, a
/// width or precision argument that is not an unsigned integer, and an
/// argument that does not support the placeholder's type.
pub open spec fn is_argument_error(e: FormatError) -> bool {
    ||| e == FormatError::InsufficientParameters
    ||| e == FormatError::ExpectedUsize
    ||| e == FormatError::UnsupportedFormatType
}

proof fn lemma_run_argument_errors(
    segs: Seq<SegmentModel>,
    facts: Seq<ArgFacts>,
    answers: Seq<Option<Seq<char>>>,
)
    ensures
        run(segs, facts, answers).1 matches Some(e) ==> is_argument_error(e),
    decreases segs.len(),
{
    if segs.len() > 0 {
        lemma_run_argument_errors(segs.drop_last(), facts, answers);
    }
}

/// Template syntax errors surface when the template is parsed: formatting
/// a parsed template fails only because of its arguments.
pub proof fn law_format_errors_are_argument_errors(
    t: TemplateModel,
    facts: Seq<ArgFacts>,
    answers: Seq<Option<Seq<char>>>,
)
    ensures
        format_with(t, facts, answers).1 matches Some(e) ==> is_argument_error(e),
{
    lemma_run_argument_errors(t.segments, facts, answers);
}

/// A placeholder without an explicit index takes the next implicit index
/// and advances the implicit counter by one.
pub proof fn law_implicit_placeholder_takes_next_index(rest: Seq<char>, c: nat)
    ensures
        parse_from(seq!['{', '}'] + rest, c) == prepend(
            SegmentModel::Hole(c, plain_spec()),
            c + 1,
            parse_from(rest, c + 1),
        ),
{
    let s = seq!['{', '}'] + rest;
    assert(s[0] == '{' && s[1] == '}');
    assert(!char_at_is(s, 1, '{'));
    lemma_first_index_of(s.skip(1), '}');
    assert(s.skip(1)[0] == '}');
    assert(first_index_of(s.skip(1), '}') == Some(0nat));
    assert(s.subrange(1, 1) =~= Seq::<char>::empty());
    assert(first_index_of(Seq::<char>::empty(), ':') is None);
    assert(count_of(Seq::<char>::empty()) == Ok::<Option<(Count, nat)>, FormatError>(None));
    assert(Seq::<char>::empty().skip(0) =~= Seq::<char>::empty());
    assert(spec_of(Seq::<char>::empty()) == Ok::<RawSpec, FormatError>(plain_spec()));
    assert(placeholder_of(Seq::<char>::empty()) == Ok::<(Option<usize>, RawSpec), FormatError>(
        (None, plain_spec()),
    ));
    assert(s.skip(2) =~= rest);
}

/// A placeholder `{n}` with an explicit index neither takes nor advances
/// the implicit counter: `{} {1} {}` reads its placeholders as arguments
/// `0`, `1` and `1`.
pub proof fn law_explicit_placeholder_keeps_counter(n: usize, rest: Seq<char>, c: nat)
    ensures
        parse_from(seq!['{'] + radix_digits(n as nat, 10, false) + seq!['}'] + rest, c) == prepend(
            SegmentModel::Hole(n as nat, plain_spec()),
            (n + 1) as nat,
            parse_from(rest, c),
        ),
{
    let d = radix_digits(n as nat, 10, false);
    let s = seq!['{'] + d + seq!['}'] + rest;
    law_decimal_reads_back(n as nat);
    assert(s[0] == '{');
    assert(s[1] == d[0]);
    assert(!char_at_is(s, 1, '{'));
    lemma_first_index_of(s.skip(1), '}');
    assert(s.skip(1) =~= d + seq!['}'] + rest);
    assert(first_index_of(s.skip(1), '}') == Some(d.len())) by {
        assert(s.skip(1)[d.len() as int] == '}');
        if first_index_of(s.skip(1), '}') != Some(d.len()) {
            match first_index_of(s.skip(1), '}') {
                Some(k) => {
                    assert(s.skip(1)[k as int] == d[k as int]);
                },
                None => {},
            }
        }
    }
    assert(s.subrange(1, d.len() as int + 1) =~= d);
    lemma_first_index_of(d, ':');
    assert(first_index_of(d, ':') is None) by {
        if let Some(k) = first_index_of(d, ':') {
            assert(d[k as int] != ':');
        }
    }
    assert(count_of(Seq::<char>::empty()) == Ok::<Option<(Count, nat)>, FormatError>(None));
    assert(Seq::<char>::empty().skip(0) =~= Seq::<char>::empty());
    assert(spec_of(Seq::<char>::empty()) == Ok::<RawSpec, FormatError>(plain_spec()));
    assert(placeholder_of(d) == Ok::<(Option<usize>, RawSpec), FormatError>((Some(n), plain_spec())));
    assert(s.skip(d.len() as int + 2) =~= rest);
}

/// The panicking writes (`Template::write_to`, `Format::write_to`,
/// `FormatBuilder::build_to`) append what the fallible ones do: into a sink
/// that keeps its text and never rejects a write (such as a `String`), the
/// fallible write succeeds exactly when the arguments suit the template,
/// which is what the panicking write requires, and then appends the same
/// formatted text.
pub proof fn law_panicking_write_matches_fallible(
    t: TemplateModel,
    args: Seq<ArgSlot>,
    before: String,
    after: String,
    r: Result<(), FormatError>,
)
    requires
        streamed(before, after, slot_pieces(t, args).0, fmt_slots_of(t, args).1, r),
        r == unit_result(fmt_slots_of(t, args).1),
    ensures
        (r is Ok) == (fmt_slots_of(t, args).1 is None),
        r is Ok ==> after@ == before@ + fmt_slots_of(t, args).0,
{
    let facts = slot_facts(args);
    lemma_format_pieces(t, facts, slot_answers(args, requests_of(t.segments, facts).0));
}

/// Each argument added to a builder becomes the next index: the earlier
/// arguments keep theirs.
pub proof fn law_builder_arg_is_next_index<'a, A: FormatArgRef<'a>>(slots: Seq<ArgSlot<'a>>, a: A)
    ensures
        slots.push(a.slot())[slots.len() as int] == a.slot(),
        slots.push(a.slot()).len() == slots.len() + 1,
        forall|i: int| 0 <= i < slots.len() ==> #[trigger] slots.push(a.slot())[i] == slots[i],
{
}

/// `slots` after adding each of `items` one at a time, in order.
pub open spec fn add_each<'a, A: FormatArgRef<'a>>(slots: Seq<ArgSlot<'a>>, items: Seq<A>) -> Seq<
    ArgSlot<'a>,
>
    decreases items.len(),
{
    if items.len() == 0 {
        slots
    } else {
        add_each(slots.push(items[0].slot()), items.drop_first())
    }
}

/// Adding several arguments at once (`FormatBuilder::args`) is adding them
/// one by one (`FormatBuilder::arg`) in order.
pub proof fn law_args_is_arg_repeated<'a, A: FormatArgRef<'a>>(slots: Seq<ArgSlot<'a>>, items: Seq<A>)
    ensures
        slots + items.map_values(|a: A| a.slot()) == add_each(slots, items),
    decreases items.len(),
{
    if items.len() == 0 {
        assert(slots + items.map_values(|a: A| a.slot()) =~= slots);
    } else {
        law_args_is_arg_repeated(slots.push(items[0].slot()), items.drop_first());
        assert(slots + items.map_values(|a: A| a.slot()) =~= slots.push(items[0].slot())
            + items.drop_first().map_values(|a: A| a.slot()));
    }
}

/// Rendering without an error has asked one rendering per placeholder.
proof fn lemma_run_requests(segs: Seq<SegmentModel>, facts: Seq<ArgFacts>, answers: Seq<Option<Seq<char>>>)
    requires
        run(segs, facts, answers).1 is None,
    ensures
        !requests_of(segs, facts).1,
        requests_of(segs, facts).0.len() == run(segs, facts, answers).2,
    decreases segs.len(),
{
    if segs.len() > 0 {
        lemma_run_requests(segs.drop_last(), facts, answers);
    }
}

/// The requests of the first segments are the first requests.
proof fn lemma_requests_prefix(segs: Seq<SegmentModel>, facts: Seq<ArgFacts>, k: int)
    requires
        0 <= k <= segs.len(),
    ensures
        requests_of(segs.take(k), facts).0.len() <= requests_of(segs, facts).0.len(),
        requests_of(segs, facts).0.take(requests_of(segs.take(k), facts).0.len() as int)
            == requests_of(segs.take(k), facts).0,
    decreases segs.len() - k,
{
    if k < segs.len() {
        lemma_requests_prefix(segs, facts, k + 1);
        assert(segs.take(k + 1).drop_last() =~= segs.take(k));
        let a = requests_of(segs.take(k), facts).0;
        let b = requests_of(segs.take(k + 1), facts).0;
        let full = requests_of(segs, facts).0;
        assert(b.take(a.len() as int) =~= a);
        assert(full.take(a.len() as int) =~= b.take(a.len() as int));
    } else {
        assert(segs.take(k) =~= segs);
        assert(requests_of(segs, facts).0.take(requests_of(segs, facts).0.len() as int)
            =~= requests_of(segs, facts).0);
    }
}

/// A placeholder renders the argument its index names: when formatting
/// succeeds, the output of a placeholder `Hole(i, raw)` is argument `i`
/// rendered for the placeholder's type, pretty flag and resolved spec.
/// With the parse laws above (`{}` takes the next implicit index, `{n}`
/// takes `n` and leaves the counter alone), the `j`-th placeholder without
/// an index shows argument `j`, and `{n}` shows argument `n`.
pub proof fn law_placeholder_renders_its_argument(t: TemplateModel, args: Seq<ArgSlot>, k: int)
    requires
        args.len() <= usize::MAX,
        0 <= k < t.segments.len(),
        t.segments[k] is Hole,
        fmt_slots_of(t, args).1 is None,
    ensures
        ({
            let facts = slot_facts(args);
            let answers = slot_answers(args, requests_of(t.segments, facts).0);
            let i = t.segments[k]->Hole_0;
            let raw = t.segments[k]->Hole_1;
            let spec = resolve_of(raw, facts)->Ok_0;
            &&& i < args.len()
            &&& resolve_of(raw, facts) is Ok
            &&& args[i as int].bare(spec.ty, pretty_of(spec)) is Some
            &&& run(t.segments.take(k + 1), facts, answers).0 == run(t.segments.take(k), facts, answers).0
                + render_of(
                args[i as int].bare(spec.ty, pretty_of(spec))->Some_0,
                args[i as int].numeric(),
                spec,
            )
        }),
{
    let segs = t.segments;
    let facts = slot_facts(args);
    let rq = requests_of(segs, facts).0;
    let answers = slot_answers(args, rq);
    let i = segs[k]->Hole_0;
    let raw = segs[k]->Hole_1;
    assert(facts.len() >= t.min_args);
    assert(run(segs, facts, answers).1 is None);
    if run(segs.take(k + 1), facts, answers).1 is Some {
        lemma_run_stops(segs, facts, answers, k + 1);
    }
    assert(segs.take(k + 1).drop_last() =~= segs.take(k));
    assert(segs.take(k + 1).last() == segs[k]);
    let h = run(segs.take(k), facts, answers).2;
    lemma_run_requests(segs.take(k), facts, answers);
    lemma_requests_prefix(segs, facts, k + 1);
    let spec = resolve_of(raw, facts)->Ok_0;
    assert(requests_of(segs.take(k + 1), facts).0 == requests_of(segs.take(k), facts).0.push(
        request_of(i, spec),
    ));
    assert(rq[h as int] == request_of(i, spec)) by {
        assert(rq.take(h as int + 1)[h as int] == rq[h as int]);
    }
    assert(answer_at(answers, h) == args[i as int].bare(spec.ty, pretty_of(spec)));
}

/// `fill` written `n` times.
pub open spec fn fill_run(fill: char, n: nat) -> Seq<char> {
    Seq::new(n, |_i: int| fill)
}

/// Text is cut to at most the precision in characters, then placed in the
/// width by the spec's own alignment (left when it names none): left puts
/// the fill after the text, right before it, center splits it with the
/// smaller half first. Without a width, or with a width the cut text
/// already reaches, the cut text alone is written.
pub proof fn law_text_alignment(bare: Seq<char>, spec: Spec)
    ensures
        ({
            let cut = match spec.precision {
                Some(p) => if bare.len() > p {
                    bare.take(p as int)
                } else {
                    bare
                },
                None => bare,
            };
            let out = render_of(bare, false, spec);
            match spec.width {
                Some(w) if cut.len() < w => {
                    let pad = (w - cut.len()) as nat;
                    match spec.align {
                        Some(Align::Right) => out == fill_run(spec.fill, pad) + cut,
                        Some(Align::Center) => out == fill_run(spec.fill, pad / 2) + cut + fill_run(
                            spec.fill,
                            (pad - pad / 2) as nat,
                        ),
                        _ => out == cut + fill_run(spec.fill, pad),
                    }
                },
                _ => out == cut,
            }
        }),
{
    let cut = match spec.precision {
        Some(p) => if bare.len() > p {
            bare.take(p as int)
        } else {
            bare
        },
        None => bare,
    };
    match spec.width {
        Some(w) => {
            if cut.len() < w {
                let pad = (w - cut.len()) as nat;
                assert(repeat(spec.fill, pad) =~= fill_run(spec.fill, pad));
                assert(repeat(spec.fill, pad / 2) =~= fill_run(spec.fill, pad / 2));
                assert(repeat(spec.fill, (pad - pad / 2) as nat) =~= fill_run(
                    spec.fill,
                    (pad - pad / 2) as nat,
                ));
            }
        },
        None => {},
    }
}

/// An integer argument serves as a width or precision exactly when its
/// value is non-negative and fits in a `usize`, whatever its type; and an
/// `n$` reference to it resolves to that value.
pub proof fn law_integer_width_argument(args: Seq<ArgSlot>, i: usize)
    requires
        i < args.len(),
        args[i as int].int_value() is Some,
    ensures
        ({
            let v = args[i as int].int_value()->Some_0.0;
            &&& (0 <= v <= usize::MAX) ==> args[i as int].usize_value() == Some(v as usize)
            &&& (0 <= v <= usize::MAX) ==> resolve_count_of(Some(Count::Param(i)), slot_facts(args))
                == Ok::<Option<usize>, FormatError>(Some(v as usize))
            &&& !(0 <= v <= usize::MAX) ==> args[i as int].usize_value() is None
            &&& !(0 <= v <= usize::MAX) ==> resolve_count_of(Some(Count::Param(i)), slot_facts(args))
                == Err::<Option<usize>, FormatError>(FormatError::ExpectedUsize)
        }),
{
}

/// An argument added to a builder keeps its value and its type: an integer
/// keeps its value and the number of values of its type (so it renders
/// as itself, in two's complement for its own width), and a string, a
/// character or a boolean shows as itself.
pub proof fn law_builder_slots_keep_values<'a>(
    x_i8: &'a i8,
    x_i16: &'a i16,
    x_i32: &'a i32,
    x_i64: &'a i64,
    x_i128: &'a i128,
    x_isize: &'a isize,
    x_u8: &'a u8,
    x_u16: &'a u16,
    x_u32: &'a u32,
    x_u64: &'a u64,
    x_u128: &'a u128,
    x_usize: &'a usize,
    c: &'a char,
    b: &'a bool,
    t: &'a str,
)
    ensures
        x_i8.slot().int_value() == Some((*x_i8 as int, 0x100nat)),
        x_i16.slot().int_value() == Some((*x_i16 as int, 0x1_0000nat)),
        x_i32.slot().int_value() == Some((*x_i32 as int, 0x1_0000_0000nat)),
        x_i64.slot().int_value() == Some((*x_i64 as int, 0x1_0000_0000_0000_0000nat)),
        x_i128.slot().int_value() == Some((*x_i128 as int, 0x1_0000_0000_0000_0000_0000_0000_0000_0000nat)),
        x_isize.slot().int_value() == Some((*x_isize as int, (usize::MAX + 1) as nat)),
        x_u8.slot().int_value() == Some((*x_u8 as int, 0x100nat)),
        x_u16.slot().int_value() == Some((*x_u16 as int, 0x1_0000nat)),
        x_u32.slot().int_value() == Some((*x_u32 as int, 0x1_0000_0000nat)),
        x_u64.slot().int_value() == Some((*x_u64 as int, 0x1_0000_0000_0000_0000nat)),
        x_u128.slot().int_value() == Some((*x_u128 as int, 0x1_0000_0000_0000_0000_0000_0000_0000_0000nat)),
        x_usize.slot().int_value() == Some((*x_usize as int, (usize::MAX + 1) as nat)),
        c.slot().bare(FormatType::Display, false) == Some(seq![*c]),
        b.slot().bare(FormatType::Display, false) == Some(
            if *b {
                seq!['t', 'r', 'u', 'e']
            } else {
                seq!['f', 'a', 'l', 's', 'e']
            },
        ),
        t.slot().bare(FormatType::Display, false) == Some(t@),
{
}

/// Whether `c` is one of the alignment characters `<`, `^`, `>`.
pub open spec fn is_alignment_char(c: char) -> bool {
    c == '<' || c == '^' || c == '>'
}

/// The alignment an alignment character names.
pub open spec fn alignment_named(c: char) -> Option<Align> {
    if c == '<' {
        Some(Align::Left)
    } else if c == '^' {
        Some(Align::Center)
    } else if c == '>' {
        Some(Align::Right)
    } else {
        None
    }
}

/// Whether a spec starts with a fill and alignment, or an alignment: an
/// alignment character at its first or second place.
pub open spec fn starts_with_alignment(s: Seq<char>) -> bool {
    (s.len() > 0 && is_alignment_char(s[0])) || (s.len() > 1 && is_alignment_char(s[1]))
}

proof fn lemma_count_len(t: Seq<char>)
    ensures
        count_of(t) matches Ok(Some((_, k))) ==> k <= t.len(),
{
    if t.len() > 0 {
        lemma_digit_run(t);
    }
}

/// Width, precision and type read the same after any prefix.
proof fn lemma_counts_shift(p: Seq<char>, rest: Seq<char>, i: int)
    requires
        0 <= i <= rest.len(),
    ensures
        counts_and_type_of(p + rest, p.len() + i) == counts_and_type_of(rest, i),
{
    let s = p + rest;
    let n = p.len() as int;
    assert(s.skip(n + i) =~= rest.skip(i));
    lemma_count_len(rest.skip(i));
    match count_of(rest.skip(i)) {
        Err(_) => {},
        Ok(w) => {
            let i5 = match w {
                None => i,
                Some((_, k)) => i + k,
            };
            assert(i5 <= rest.len());
            assert(char_at_is(s, n + i5, '.') == char_at_is(rest, i5, '.')) by {
                if i5 < rest.len() {
                    assert(s[n + i5] == rest[i5]);
                }
            }
            if char_at_is(rest, i5, '.') {
                assert(s.skip(n + i5 + 1) =~= rest.skip(i5 + 1));
                lemma_count_len(rest.skip(i5 + 1));
                match count_of(rest.skip(i5 + 1)) {
                    Ok(Some((c, k))) => {
                        assert(s.skip(n + i5 + 1 + k) =~= rest.skip(i5 + 1 + k));
                    },
                    _ => {},
                }
            } else {
                assert(s.skip(n + i5) =~= rest.skip(i5));
            }
        },
    }
}

/// The sign, `#`, `0`, width, precision and type of a spec are read the
/// same whether or not an alignment character precedes them: `{:>+5}`
/// has the `+` sign as `{:+5}` does, and is right-aligned.
pub proof fn law_alignment_prefix_keeps_rest(a: char, rest: Seq<char>)
    requires
        is_alignment_char(a),
        !starts_with_alignment(rest),
    ensures
        spec_of(seq![a] + rest) == (match spec_of(rest) {
            Ok(r) => Ok(RawSpec { align: alignment_named(a), ..r }),
            Err(e) => Err(e),
        }),
{
    let s = seq![a] + rest;
    assert(s[0] == a);
    assert(rest.len() > 0 ==> s[1] == rest[0]);
    assert forall|j: int, c: char| 0 <= j implies char_at_is(s, 1 + j, c) == char_at_is(rest, j, c) by {
        if j < rest.len() {
            assert(s[1 + j] == rest[j]);
        }
    }
    let (_, _, _, _, _, i) = crate::placeholder::flags_of(rest);
    assert(0 <= i <= rest.len());
    lemma_counts_shift(seq![a], rest, i);
}

/// The same with a fill character before the alignment: `{:*>+5}` has the
/// `+` sign, fill `*` and right alignment.
pub proof fn law_fill_alignment_prefix_keeps_rest(f: char, a: char, rest: Seq<char>)
    requires
        is_alignment_char(a),
        !starts_with_alignment(rest),
    ensures
        spec_of(seq![f, a] + rest) == (match spec_of(rest) {
            Ok(r) => Ok(RawSpec { fill: f, align: alignment_named(a), ..r }),
            Err(e) => Err(e),
        }),
{
    let s = seq![f, a] + rest;
    assert(s[0] == f && s[1] == a);
    assert forall|j: int, c: char| 0 <= j implies char_at_is(s, 2 + j, c) == char_at_is(rest, j, c) by {
        if j < rest.len() {
            assert(s[2 + j] == rest[j]);
        }
    }
    let (_, _, _, _, _, i) = crate::placeholder::flags_of(rest);
    assert(0 <= i <= rest.len());
    lemma_counts_shift(seq![f, a], rest, i);
}

/// The value of a digit character in bases up to 36: `0`-`9`, then the
/// letters in either case from 10 on; `-1` for any other character.
pub open spec fn radix_value_of(c: char) -> int {
    if '0' <= c && c <= '9' {
        c as int - '0' as int
    } else if 'a' <= c && c <= 'z' {
        c as int - 'a' as int + 10
    } else if 'A' <= c && c <= 'Z' {
        c as int - 'A' as int + 10
    } else {
        -1
    }
}

/// The number that the digit string `s` denotes in base `radix`.
pub open spec fn read_radix(s: Seq<char>, radix: nat) -> int
    decreases s.len(),
{
    if s.len() == 0 {
        0
    } else {
        read_radix(s.drop_last(), radix) * radix + radix_value_of(s.last())
    }
}

/// Whether `c` is a digit of base `radix` in the requested letter case.
pub open spec fn is_radix_digit(c: char, radix: nat, upper: bool) -> bool {
    &&& 0 <= radix_value_of(c) < radix
    &&& if upper {
        !('a' <= c && c <= 'z')
    } else {
        !('A' <= c && c <= 'Z')
    }
}

proof fn lemma_digit_char_value(d: nat, upper: bool)
    requires
        d < 16,
    ensures
        radix_value_of(digit_char(d, upper)) == d,
        is_radix_digit(digit_char(d, upper), 16, upper),
        d != 0 ==> digit_char(d, upper) != '0',
{
}

/// The digits of `n` in base 2 to 16 read back as `n` in that base: every
/// character is a digit of the base in the requested case, and there is no
/// leading zero (`0` itself is the one digit `0`).
pub proof fn law_radix_digits_read_back(n: nat, radix: nat, upper: bool)
    requires
        2 <= radix <= 16,
    ensures
        radix_digits(n, radix, upper).len() >= 1,
        forall|i: int|
            0 <= i < radix_digits(n, radix, upper).len() ==> is_radix_digit(
                #[trigger] radix_digits(n, radix, upper)[i],
                radix,
                upper,
            ),
        read_radix(radix_digits(n, radix, upper), radix) == n,
        radix_digits(n, radix, upper).len() > 1 ==> radix_digits(n, radix, upper)[0] != '0',
    decreases n,
{
    let d = radix_digits(n, radix, upper);
    if n < radix {
        lemma_digit_char_value(n, upper);
        assert(d =~= seq![digit_char(n, upper)]);
        assert(d.drop_last() =~= Seq::<char>::empty());
        assert(read_radix(d.drop_last(), radix) == 0);
        assert(d.last() == digit_char(n, upper));
        assert(read_radix(d, radix) == 0 * radix + radix_value_of(d.last()));
        assert(0 * radix == 0);
    } else {
        assert(n / radix < n) by (nonlinear_arith)
            requires
                n >= radix,
                radix >= 2,
        ;
        assert(n / radix >= 1) by (nonlinear_arith)
            requires
                n >= radix,
                radix >= 2,
        ;
        assert(n % radix < radix) by (nonlinear_arith)
            requires
                radix >= 2,
        ;
        assert(n == (n / radix) * radix + n % radix) by (nonlinear_arith)
            requires
                radix >= 2,
        ;
        law_radix_digits_read_back(n / radix, radix, upper);
        let p = radix_digits(n / radix, radix, upper);
        lemma_digit_char_value(n % radix, upper);
        assert(d =~= p.push(digit_char(n % radix, upper)));
        assert(d.drop_last() =~= p);
        assert forall|i: int| 0 <= i < d.len() implies is_radix_digit(#[trigger] d[i], radix, upper) by {
            if i < p.len() {
                assert(d[i] == p[i]);
            }
        }
        assert(d[0] == p[0]);
        if n / radix < radix {
            lemma_digit_char_value(n / radix, upper);
            assert(p =~= seq![digit_char(n / radix, upper)]);
        } else {
            assert(n / radix / radix < n / radix) by (nonlinear_arith)
                requires
                    n / radix >= radix,
                    radix >= 2,
            ;
            law_radix_digits_read_back(n / radix / radix, radix, upper);
        }
        assert(d.last() == digit_char(n % radix, upper));
        assert(read_radix(d, radix) == read_radix(p, radix) * radix + radix_value_of(d.last()));
        assert(read_radix(p, radix) * radix == (n / radix) * radix);
        assert(radix_value_of(d.last()) == n % radix);
    }
}

/// The `{:x}`, `{:X}`, `{:o}` and `{:b}` renderings of an integer argument
/// read back, in their base, as its two's-complement bit pattern: the
/// value itself when it is non-negative, the value plus the number of
/// values of its type when it is negative. Decimal renders its magnitude,
/// after a `-` for a negative value.
pub proof fn law_integer_radix_renderings(a: ArgSlot)
    requires
        a.int_value() is Some,
    ensures
        ({
            let (v, m) = a.int_value()->Some_0;
            let bits = if v >= 0 {
                v
            } else {
                v + m
            };
            &&& read_radix(a.bare(FormatType::LowerHex, false)->Some_0, 16) == bits
            &&& read_radix(a.bare(FormatType::UpperHex, false)->Some_0, 16) == bits
            &&& read_radix(a.bare(FormatType::Octal, false)->Some_0, 8) == bits
            &&& read_radix(a.bare(FormatType::Binary, false)->Some_0, 2) == bits
            &&& forall|i: int|
                0 <= i < a.bare(FormatType::LowerHex, false)->Some_0.len() ==> is_radix_digit(
                    #[trigger] a.bare(FormatType::LowerHex, false)->Some_0[i],
                    16,
                    false,
                )
            &&& forall|i: int|
                0 <= i < a.bare(FormatType::UpperHex, false)->Some_0.len() ==> is_radix_digit(
                    #[trigger] a.bare(FormatType::UpperHex, false)->Some_0[i],
                    16,
                    true,
                )
            &&& v >= 0 ==> read_radix(a.bare(FormatType::Display, false)->Some_0, 10) == v
            &&& v < 0 ==> a.bare(FormatType::Display, false)->Some_0[0] == '-' && read_radix(
                a.bare(FormatType::Display, false)->Some_0.skip(1),
                10,
            ) == -v
        }),
{
    let (v, m) = a.int_value()->Some_0;
    assert(v + m >= 0);
    let t = twos(v, m);
    law_radix_digits_read_back(t, 16, false);
    law_radix_digits_read_back(t, 16, true);
    law_radix_digits_read_back(t, 8, false);
    law_radix_digits_read_back(t, 2, false);
    if v >= 0 {
        law_radix_digits_read_back(v as nat, 10, false);
    } else {
        law_radix_digits_read_back((-v) as nat, 10, false);
        let ds = radix_digits((-v) as nat, 10, false);
        assert((seq!['-'] + ds).skip(1) =~= ds);
    }
}

/// What is written before the digits of a bare numeric value: its own `-`,
/// or `+` when the spec asks for it (never before `NaN`), then the `#`
/// radix prefix of the type when the spec asks for it.
pub open spec fn number_head(bare: Seq<char>, spec: Spec) -> Seq<char> {
    let neg = bare.len() > 0 && bare[0] == '-';
    let sign = if neg {
        seq!['-']
    } else if spec.sign_plus && bare != seq!['N', 'a', 'N'] {
        seq!['+']
    } else {
        Seq::<char>::empty()
    };
    let prefix = if spec.alternate {
        match spec.ty {
            FormatType::LowerHex | FormatType::UpperHex => seq!['0', 'x'],
            FormatType::Octal => seq!['0', 'o'],
            FormatType::Binary => seq!['0', 'b'],
            _ => Seq::<char>::empty(),
        }
    } else {
        Seq::<char>::empty()
    };
    sign + prefix
}

/// A bare numeric value in ASCII (as every integer rendering is) is written
/// as its sign and `#` prefix, then its digits. With the `0` flag, zeros
/// go between the two up to the width, whatever the fill and alignment;
/// otherwise the whole is placed in the width by the spec's alignment,
/// right when it names none.
pub proof fn law_number_alignment(bare: Seq<char>, spec: Spec)
    requires
        forall|i: int| 0 <= i < bare.len() ==> (#[trigger] bare[i] as u32) < 0x80,
    ensures
        ({
            let neg = bare.len() > 0 && bare[0] == '-';
            let digits = if neg {
                bare.skip(1)
            } else {
                bare
            };
            let head = number_head(bare, spec);
            let len = head.len() + digits.len();
            let out = render_of(bare, true, spec);
            match spec.width {
                Some(w) if len < w => {
                    let pad = (w - len) as nat;
                    if spec.zero {
                        out == head + fill_run('0', pad) + digits
                    } else {
                        match spec.align {
                            Some(Align::Left) => out == head + digits + fill_run(spec.fill, pad),
                            Some(Align::Center) => out == fill_run(spec.fill, pad / 2) + head
                                + digits + fill_run(spec.fill, (pad - pad / 2) as nat),
                            _ => out == fill_run(spec.fill, pad) + head + digits,
                        }
                    }
                },
                _ => out == head + digits,
            }
        }),
{
    let (sign, digits) = sign_split(bare, spec.sign_plus);
    let prefix = prefix_of(spec);
    let neg = bare.len() > 0 && bare[0] == '-';
    assert(bare != nan() <==> bare != seq!['N', 'a', 'N']);
    assert(sign + prefix == number_head(bare, spec));
    assert forall|i: int| 0 <= i < digits.len() implies (#[trigger] digits[i] as u32) < 0x80 by {
        if neg {
            assert(digits[i] == bare[i + 1]);
        } else {
            assert(digits[i] == bare[i]);
        }
    }
    lemma_utf8_len_ascii(digits);
    let body = sign + prefix + digits;
    assert(body =~= number_head(bare, spec) + digits);
    match spec.width {
        Some(w) => {
            let len = sign.len() + prefix.len() + digits.len();
            if len < w {
                let pad = (w - len) as nat;
                assert(repeat('0', pad) =~= fill_run('0', pad));
                assert(repeat(spec.fill, pad) =~= fill_run(spec.fill, pad));
                assert(repeat(spec.fill, pad / 2) =~= fill_run(spec.fill, pad / 2));
                assert(repeat(spec.fill, (pad - pad / 2) as nat) =~= fill_run(
                    spec.fill,
                    (pad - pad / 2) as nat,
                ));
                assert(sign + prefix + repeat('0', pad) + digits =~= number_head(bare, spec)
                    + fill_run('0', pad) + digits);
                assert(repeat(spec.fill, pad) + body =~= fill_run(spec.fill, pad) + number_head(
                    bare,
                    spec,
                ) + digits);
                assert(body + repeat(spec.fill, pad) =~= number_head(bare, spec) + digits
                    + fill_run(spec.fill, pad));
                assert(repeat(spec.fill, pad / 2) + body + repeat(spec.fill, (pad - pad / 2) as nat)
                    =~= fill_run(spec.fill, pad / 2) + number_head(bare, spec) + digits + fill_run(
                    spec.fill,
                    (pad - pad / 2) as nat,
                ));
            } else {
                assert(sign + prefix + Seq::<char>::empty() + digits =~= body);
            }
        },
        None => {
            assert(sign + prefix + Seq::<char>::empty() + digits =~= body);
        },
    }
}

proof fn lemma_read_decimal(d: Seq<char>)
    requires
        all_digits(d),
    ensures
        read_radix(d, 10) == digits_value(d),
    decreases d.len(),
{
    if d.len() > 0 {
        assert(all_digits(d.drop_last())) by {
            assert forall|i: int| 0 <= i < d.drop_last().len() implies is_digit(
                #[trigger] d.drop_last()[i],
            ) by {
                assert(d.drop_last()[i] == d[i]);
            }
        }
        lemma_read_decimal(d.drop_last());
        assert(is_digit(d[d.len() - 1]));
    }
}

proof fn lemma_digit_run_all(d: Seq<char>, rest: Seq<char>)
    requires
        all_digits(d),
        rest.len() == 0 || !is_digit(rest[0]),
    ensures
        digit_run(d + rest) == d.len(),
        (d + rest).take(d.len() as int) == d,
{
    let s = d + rest;
    lemma_digit_run(s);
    let k = digit_run(s);
    if k < d.len() {
        assert(s[k as int] == d[k as int]);
    }
    if k > d.len() {
        assert(s.take(k as int)[d.len() as int] == rest[0]);
    }
    assert(s.take(d.len() as int) =~= d);
}

/// A width or precision is read as the number its decimal digits denote:
/// a spec of digits `d` (not starting with `0`, which would be the `0`
/// flag) has width `d`; followed by `$`, it takes the width from argument
/// `d`; after a `.`, any digits are the precision.
pub proof fn law_width_and_precision_read_back(d: Seq<char>)
    requires
        d.len() > 0,
        forall|i: int| 0 <= i < d.len() ==> '0' <= #[trigger] d[i] && d[i] <= '9',
        read_radix(d, 10) <= usize::MAX,
    ensures
        d[0] != '0' ==> spec_of(d) == Ok::<RawSpec, FormatError>(
            RawSpec { width: Some(Count::Lit(read_radix(d, 10) as usize)), ..plain_spec() },
        ),
        d[0] != '0' ==> spec_of(d + seq!['$']) == Ok::<RawSpec, FormatError>(
            RawSpec { width: Some(Count::Param(read_radix(d, 10) as usize)), ..plain_spec() },
        ),
        spec_of(seq!['.'] + d) == Ok::<RawSpec, FormatError>(
            RawSpec { precision: Some(Count::Lit(read_radix(d, 10) as usize)), ..plain_spec() },
        ),
{
    assert(all_digits(d));
    lemma_read_decimal(d);
    let none = Seq::<char>::empty();
    assert(type_of(none) == Ok::<FormatType, FormatError>(FormatType::Display)) by {
        assert(!none.contains('$'));
    }
    // the digits alone
    lemma_digit_run_all(d, none);
    assert(d + none =~= d);
    assert(d.skip(0) =~= d);
    assert(d.skip(d.len() as int) =~= none);
    assert(!is_alignment_char(d[0]));
    assert(d.len() > 1 ==> !is_alignment_char(d[1]));
    // followed by `$`
    let ds = d + seq!['$'];
    lemma_digit_run_all(d, seq!['$']);
    assert(ds[0] == d[0]);
    assert(ds[1] == (if d.len() > 1 { d[1] } else { '$' }));
    assert(ds.skip(0) =~= ds);
    assert(ds[d.len() as int] == '$');
    assert(ds.skip(d.len() as int + 1) =~= none);
    // after a `.`
    let pd = seq!['.'] + d;
    assert(pd[0] == '.');
    assert(pd[1] == d[0]);
    assert(pd.skip(0) =~= pd);
    assert(pd.skip(1) =~= d);
    assert(pd.skip(d.len() as int + 1) =~= none);
}

/// `out` is scientific notation for the magnitude `mag`: the sign, the
/// first mantissa digit, the other mantissa digits after a `.` (none and no
/// `.` for a one-digit mantissa), the marker, and the exponent digits; the
/// mantissa times ten to the exponent is `mag`, with the point after its
/// first digit and no trailing zero after the point.
pub open spec fn exp_form(
    out: Seq<char>,
    sign: Seq<char>,
    marker: char,
    mag: nat,
    md: Seq<char>,
    ed: Seq<char>,
) -> bool {
    &&& md.len() >= 1
    &&& ed.len() >= 1
    &&& forall|i: int| 0 <= i < md.len() ==> is_radix_digit(#[trigger] md[i], 10, false)
    &&& forall|i: int| 0 <= i < ed.len() ==> is_radix_digit(#[trigger] ed[i], 10, false)
    &&& out == sign + seq![md[0]] + (if md.len() > 1 {
        seq!['.'] + md.skip(1)
    } else {
        Seq::<char>::empty()
    }) + seq![marker] + ed
    &&& read_radix(ed, 10) >= md.len() - 1
    &&& read_radix(md, 10) * pow(10, (read_radix(ed, 10) - (md.len() - 1)) as nat) == mag
    &&& md.len() > 1 ==> md[md.len() - 1] != '0'
}

proof fn lemma_strip_zeros_value(n: nat)
    ensures
        strip_zeros(n).0 * pow(10, strip_zeros(n).1) == n,
        strip_zeros(n).0 >= 10 ==> strip_zeros(n).0 % 10 != 0,
    decreases n,
{
    reveal(pow);
    if n >= 10 && n % 10 == 0 {
        lemma_strip_zeros_value(n / 10);
        let (m, z) = strip_zeros(n / 10);
        assert(pow(10, z + 1) == 10 * pow(10, z));
        assert(m * (10 * pow(10, z)) == 10 * (m * pow(10, z))) by (nonlinear_arith);
        assert(n == 10 * (n / 10)) by (nonlinear_arith)
            requires
                n % 10 == 0,
        ;
    } else {
        assert(pow(10, 0) == 1);
        assert(n * 1 == n);
    }
}

proof fn lemma_decimal_len(n: nat)
    ensures
        radix_digits(n, 10, false).len() > 1 <==> n >= 10,
{
    let d = radix_digits(n, 10, false);
    if n >= 10 {
        assert(n / 10 < n);
        law_radix_digits_read_back(n / 10, 10, false);
        assert(d == radix_digits(n / 10, 10, false).push(digit_char(n % 10, false)));
        assert(d.len() == radix_digits(n / 10, 10, false).len() + 1);
        assert(d.len() > 1);
    } else {
        assert(d == seq![digit_char(n, false)]);
        assert(d.len() == 1);
    }
}

/// The `{:e}` / `{:E}` rendering of an integer argument is its value in
/// scientific notation: a `-` for a negative value, a mantissa whose point
/// stands after its first digit and which has no trailing zero after the
/// point, `e` (or `E`), and an exponent, so that the mantissa times ten to
/// the exponent is the value's magnitude. The mantissa and exponent digits
/// are returned.
pub proof fn law_integer_exponent_form(a: ArgSlot, upper: bool) -> (parts: (Seq<char>, Seq<char>))
    requires
        a.int_value() is Some,
    ensures
        ({
            let v = a.int_value()->Some_0.0;
            let ty = if upper {
                FormatType::UpperExp
            } else {
                FormatType::LowerExp
            };
            let marker = if upper {
                'E'
            } else {
                'e'
            };
            let sign = if v < 0 {
                seq!['-']
            } else {
                Seq::<char>::empty()
            };
            let mag: nat = if v < 0 {
                (-v) as nat
            } else {
                v as nat
            };
            exp_form(a.bare(ty, false)->Some_0, sign, marker, mag, parts.0, parts.1)
        }),
{
    let v = a.int_value()->Some_0.0;
    let mag: nat = if v < 0 {
        (-v) as nat
    } else {
        v as nat
    };
    let (mm, z) = strip_zeros(mag);
    lemma_strip_zeros_value(mag);
    let md = radix_digits(mm, 10, false);
    law_radix_digits_read_back(mm, 10, false);
    lemma_decimal_len(mm);
    let e: nat = (z + md.len() - 1) as nat;
    let ed = radix_digits(e, 10, false);
    law_radix_digits_read_back(e, 10, false);
    if md.len() > 1 {
        let last = md[md.len() - 1];
        assert(md.drop_last().push(digit_char(mm % 10, false)) =~= md);
        assert(last == digit_char(mm % 10, false));
        lemma_digit_char_value(mm % 10, false);
    }
    assert(e - (md.len() - 1) == z);
    let marker = if upper {
        'E'
    } else {
        'e'
    };
    let sign = if v < 0 {
        seq!['-']
    } else {
        Seq::<char>::empty()
    };
    let mant = if md.len() > 1 {
        seq![md[0], '.'] + md.skip(1)
    } else {
        md
    };
    assert(exp_of(v, upper) == sign + mant + seq![marker] + ed);
    let rest = if md.len() > 1 {
        seq!['.'] + md.skip(1)
    } else {
        Seq::<char>::empty()
    };
    assert(mant =~= seq![md[0]] + rest);
    assert(sign + mant + seq![marker] + ed =~= sign + seq![md[0]] + rest + seq![marker] + ed);
    assert(exp_form(exp_of(v, upper), sign, marker, mag, md, ed));
    let ty = if upper {
        FormatType::UpperExp
    } else {
        FormatType::LowerExp
    };
    assert(a.bare(ty, false) == Some(exp_of(v, upper)));
    assert(exp_form(a.bare(ty, false)->Some_0, sign, marker, mag, md, ed));
    (md, ed)
}

/// A width or precision that refers past the last argument is a missing
/// argument; one that refers to a string, character, boolean or wrapped
/// value is not an unsigned integer.
pub proof fn law_width_argument_errors(args: Seq<ArgSlot>, i: usize)
    ensures
        i >= args.len() ==> resolve_count_of(Some(Count::Param(i)), slot_facts(args)) == Err::<
            Option<usize>,
            FormatError,
        >(FormatError::InsufficientParameters),
        i < args.len() && args[i as int].int_value() is None ==> resolve_count_of(
            Some(Count::Param(i)),
            slot_facts(args),
        ) == Err::<Option<usize>, FormatError>(FormatError::ExpectedUsize),
{
}

/// Strings, characters and booleans show as themselves for `{}`; a
/// boolean shows the same for `{:?}`; none of them supports the radix or
/// exponent types.
pub proof fn law_text_values(t: &str, c: char, b: bool, ty: FormatType, pretty: bool)
    ensures
        ArgSlot::Str(t).bare(FormatType::Display, pretty) == Some(t@),
        ArgSlot::Char(c).bare(FormatType::Display, pretty) == Some(seq![c]),
        ArgSlot::Bool(b).bare(FormatType::Display, pretty) == ArgSlot::Bool(b).bare(
            FormatType::Debug,
            pretty,
        ),
        ArgSlot::Bool(b).bare(FormatType::Display, pretty) == Some(
            if b {
                seq!['t', 'r', 'u', 'e']
            } else {
                seq!['f', 'a', 'l', 's', 'e']
            },
        ),
        ty != FormatType::Display && ty != FormatType::Debug ==> ArgSlot::Str(t).bare(ty, pretty) is None
            && ArgSlot::Char(c).bare(ty, pretty) is None && ArgSlot::Bool(b).bare(ty, pretty) is None,
        !ArgSlot::Str(t).numeric() && !ArgSlot::Char(c).numeric() && !ArgSlot::Bool(b).numeric(),
{
}

/// A wrapped value shows `{}` through its `Display` rendering, and through
/// its `Debug` rendering when it has no `Display`; `{:?}` and `{:#?}` show
/// its plain and pretty `Debug` renderings; it supports no other type.
pub proof fn law_wrapped_value_routing(w: &crate::__private::Wrap, ty: FormatType, pretty: bool)
    ensures
        w@.display is Some ==> ArgSlot::Derived(w).bare(FormatType::Display, pretty) == w@.display,
        w@.display is None ==> ArgSlot::Derived(w).bare(FormatType::Display, pretty) == w@.debug,
        ArgSlot::Derived(w).bare(FormatType::Debug, false) == w@.debug,
        ArgSlot::Derived(w).bare(FormatType::Debug, true) == w@.debug_pretty,
        ty != FormatType::Display && ty != FormatType::Debug ==> ArgSlot::Derived(w).bare(ty, pretty) is None,
        !ArgSlot::Derived(w).numeric(),
{
}

/// The type letter of a spec names its format type: `?` Debug, `x` and
/// `X` lower- and upper-case hex, `o` octal, `b` binary, `e` and `E`
/// exponent forms; with nothing else in the spec, every other setting is
/// the default.
pub proof fn law_type_letters(c: char)
    ensures
        c == '?' ==> spec_of(seq![c]) == Ok::<RawSpec, FormatError>(RawSpec { ty: FormatType::Debug, ..plain_spec() }),
        c == 'x' ==> spec_of(seq![c]) == Ok::<RawSpec, FormatError>(RawSpec { ty: FormatType::LowerHex, ..plain_spec() }),
        c == 'X' ==> spec_of(seq![c]) == Ok::<RawSpec, FormatError>(RawSpec { ty: FormatType::UpperHex, ..plain_spec() }),
        c == 'o' ==> spec_of(seq![c]) == Ok::<RawSpec, FormatError>(RawSpec { ty: FormatType::Octal, ..plain_spec() }),
        c == 'b' ==> spec_of(seq![c]) == Ok::<RawSpec, FormatError>(RawSpec { ty: FormatType::Binary, ..plain_spec() }),
        c == 'e' ==> spec_of(seq![c]) == Ok::<RawSpec, FormatError>(RawSpec { ty: FormatType::LowerExp, ..plain_spec() }),
        c == 'E' ==> spec_of(seq![c]) == Ok::<RawSpec, FormatError>(RawSpec { ty: FormatType::UpperExp, ..plain_spec() }),
        spec_of(Seq::<char>::empty()) == Ok::<RawSpec, FormatError>(plain_spec()),
{
    let s = seq![c];
    assert(s.skip(0) =~= s);
    assert(s.skip(1) =~= Seq::<char>::empty());
    assert(Seq::<char>::empty().skip(0) =~= Seq::<char>::empty());
    assert(!Seq::<char>::empty().contains('$'));
    assert(c != '$' ==> !s.contains('$')) by {
        if c != '$' && s.contains('$') {
            let j = choose|j: int| 0 <= j < s.len() && s[j] == '$';
            assert(s[j] == c);
        }
    }
}

} // verus!
