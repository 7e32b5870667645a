//! Output sinks that formatted text is written into.
use vstd::prelude::*;
use vstd::seq_lib::lemma_flatten_concat;

use crate::error::FormatError;
use crate::strings::chars_of;

verus! {

/// A destination for formatted text, such as a `String` or a byte-limited
/// buffer. `write_str` appends `s` and returns whether the sink accepted it.
///
/// A sink may describe itself to the verifier, in any of three ways:
/// - `keeps_text`: `written` is the text it holds, which an accepted write
///   extends by `s`;
/// - `never_rejects`: every write is accepted;
/// - `models_acceptance`: whether a write of `s` is accepted is
///   `accepts(s)`, an accepted write leaves the sink as `after(s)`, and a
///   refused write leaves it unchanged.
///
/// A sink that says none of these (the default) is promised nothing about
/// what it holds or which writes it accepts.
pub trait Sink: Sized {
    /// Whether `written` is the text the sink holds.
    open spec fn keeps_text() -> bool {
        false
    }

    /// The text written into the sink, where `keeps_text` holds.
    open spec fn written(&self) -> Seq<char> {
        Seq::<char>::empty()
    }

    /// Whether every write is accepted.
    open spec fn never_rejects() -> bool {
        false
    }

    /// Whether `accepts` and `after` describe the sink.
    open spec fn models_acceptance() -> bool {
        false
    }

    /// Whether the sink, as it is, accepts a write of `s`.
    open spec fn accepts(&self, s: Seq<char>) -> bool {
        true
    }

    /// The sink after it accepted a write of `s`.
    open spec fn after(&self, s: Seq<char>) -> Self {
        *self
    }

    fn write_str(&mut self, s: &str) -> (r: bool)
        ensures
            Self::keeps_text() && r ==> final(self).written() == old(self).written() + s@,
            Self::never_rejects() ==> r,
            Self::models_acceptance() ==> r == old(self).accepts(s@),
            Self::models_acceptance() && r ==> *final(self) == old(self).after(s@),
            Self::models_acceptance() && !r ==> *final(self) == *old(self),
    ;
}

/// Whether the sink accepts each of `pieces` written in order: it never
/// rejects a write, or it models acceptance and refuses none of them.
pub open spec fn accepts_all<S: Sink>(sink: S, pieces: Seq<Seq<char>>) -> bool {
    S::never_rejects() || (S::models_acceptance() && refused_at(sink, pieces) is None)
}

/// The sink after it accepted each of `pieces` in order.
pub open spec fn after_all<S: Sink>(sink: S, pieces: Seq<Seq<char>>) -> S
    decreases pieces.len(),
{
    if pieces.len() == 0 {
        sink
    } else {
        after_all(sink, pieces.drop_last()).after(pieces.last())
    }
}

/// The index of the first of `pieces` that the sink refuses, when it is
/// written all the pieces before in order.
pub open spec fn refused_at<S: Sink>(sink: S, pieces: Seq<Seq<char>>) -> Option<nat>
    decreases pieces.len(),
{
    if pieces.len() == 0 {
        None
    } else {
        match refused_at(sink, pieces.drop_last()) {
            Some(k) => Some(k),
            None => if after_all(sink, pieces.drop_last()).accepts(pieces.last()) {
                None
            } else {
                Some((pieces.len() - 1) as nat)
            },
        }
    }
}

impl Sink for String {
    open spec fn keeps_text() -> bool {
        true
    }

    open spec fn written(&self) -> Seq<char> {
        self@
    }

    open spec fn never_rejects() -> bool {
        true
    }

    /// Appending to a `String` never fails.
    fn write_str(&mut self, s: &str) -> (r: bool)
        ensures
            final(self)@ == old(self)@ + s@,
            r,
    {
        let v = chars_of(s);
        crate::strings::push_chars(self, &v, 0, v.len());
        assert(v@.subrange(0, v@.len() as int) =~= v@);
        true
    }
}

/// What writing `pieces` in order, stopping at the first refused write,
/// did to a sink that went from `before` to `after`. With `Ok`, every piece
/// was accepted: a sink that keeps its text holds the pieces after its old
/// text, and one that models acceptance refuses none of them and is as
/// after accepting them all. Otherwise the error is
/// [`FormatError::WriteFailed`], which a write of some piece gave: for a
/// sink that models acceptance, the first piece it refuses, after which
/// nothing more was written.
pub open spec fn wrote<S: Sink>(before: S, after: S, pieces: Seq<Seq<char>>, r: Result<(), FormatError>) -> bool {
    match r {
        Ok(()) => {
            &&& S::keeps_text() ==> after.written() == before.written() + pieces.flatten()
            &&& S::models_acceptance() ==> refused_at(before, pieces) is None && after == after_all(
                before,
                pieces,
            )
        },
        Err(e) => {
            &&& e == FormatError::WriteFailed
            &&& pieces.len() > 0
            &&& S::models_acceptance() ==> (refused_at(before, pieces) matches Some(k) && after
                == after_all(before, pieces.take(k as int)))
        },
    }
}

/// Accepting `p` then `q` is accepting `p + q`.
pub proof fn lemma_after_all_concat<S: Sink>(sink: S, p: Seq<Seq<char>>, q: Seq<Seq<char>>)
    ensures
        after_all(sink, p + q) == after_all(after_all(sink, p), q),
        refused_at(sink, p + q) == (match refused_at(sink, p) {
            Some(k) => Some(k),
            None => match refused_at(after_all(sink, p), q) {
                Some(k) => Some(p.len() + k),
                None => None,
            },
        }),
    decreases q.len(),
{
    if q.len() == 0 {
        assert(p + q =~= p);
    } else {
        lemma_after_all_concat(sink, p, q.drop_last());
        assert((p + q).drop_last() =~= p + q.drop_last());
        assert((p + q).last() == q.last());
    }
}

/// Writes that follow successful writes continue them.
pub proof fn lemma_wrote_then<S: Sink>(
    a: S,
    b: S,
    c: S,
    p: Seq<Seq<char>>,
    q: Seq<Seq<char>>,
    r: Result<(), FormatError>,
)
    requires
        wrote(a, b, p, Ok(())),
        wrote(b, c, q, r),
    ensures
        wrote(a, c, p + q, r),
{
    lemma_flatten_concat(p, q);
    assert(a.written() + p.flatten() + q.flatten() =~= a.written() + (p + q).flatten());
    lemma_after_all_concat(a, p, q);
    lemma_refused_in_range(b, q);
    if let Some(k) = refused_at(b, q) {
        assert((p + q).take(p.len() + k as int) =~= p + q.take(k as int));
        lemma_after_all_concat(a, p, q.take(k as int));
    }
}

/// Writing nothing leaves the sink as it is.
pub proof fn lemma_wrote_nothing<S: Sink>(sink: S)
    ensures
        wrote(sink, sink, Seq::<Seq<char>>::empty(), Ok(())),
{
    assert(sink.written() + Seq::<Seq<char>>::empty().flatten() =~= sink.written());
}

/// The first refused piece is one of the pieces.
pub proof fn lemma_refused_in_range<S: Sink>(sink: S, pieces: Seq<Seq<char>>)
    ensures
        refused_at(sink, pieces) matches Some(k) ==> k < pieces.len(),
    decreases pieces.len(),
{
    if pieces.len() > 0 {
        lemma_refused_in_range(sink, pieces.drop_last());
    }
}

/// Writes that stopped at a refusal stay stopped whatever was meant to
/// follow.
pub proof fn lemma_wrote_stopped<S: Sink>(
    a: S,
    b: S,
    p: Seq<Seq<char>>,
    q: Seq<Seq<char>>,
    r: Result<(), FormatError>,
)
    requires
        wrote(a, b, p, r),
        r is Err,
    ensures
        wrote(a, b, p + q, r),
{
    lemma_after_all_concat(a, p, q);
    lemma_refused_in_range(a, p);
    if let Some(k) = refused_at(a, p) {
        assert((p + q).take(k as int) =~= p.take(k as int));
    }
}

/// One piece flattens to itself.
pub proof fn lemma_flatten_one(x: Seq<char>)
    ensures
        seq![x].flatten() == x,
{
    seq![x].lemma_flatten_singleton();
}

/// Writes `s` into `sink` as one piece.
pub fn write_piece<S: Sink>(sink: &mut S, s: &str) -> (r: Result<(), FormatError>)
    ensures
        wrote(*old(sink), *final(sink), seq![s@], r),
        S::never_rejects() ==> r is Ok,
{
    let ghost before = *sink;
    let accepted = sink.write_str(s);
    proof {
        let one = seq![s@];
        let none = Seq::<Seq<char>>::empty();
        assert(one.drop_last() =~= none);
        assert(one.take(0) =~= none);
        assert(one.last() == s@);
        assert(refused_at(before, none) is None);
        assert(after_all(before, none) == before);
    }
    proof {
        lemma_flatten_one(s@);
    }
    crate::engine::note_write(accepted)
}

} // verus!
