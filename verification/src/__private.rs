//! Support for arguments whose rendering comes from their own `Display` and
//! `Debug` implementations: `{}` prefers `Display` and falls back to
//! `Debug`, `{:?}` / `{:#?}` require `Debug`, and every other format type is
//! unsupported.
use vstd::prelude::*;

use crate::arg::FormatType;

verus! {

/// Signals "the required trait is not implemented" — distinct from a real
/// formatting failure.
#[derive(Clone, Copy, Debug, PartialEq, Eq, Structural)]
pub struct FmtAbsent;

/// The renderings of a value through the traits it implements: each is
/// `None` when the value does not implement the trait.
#[derive(Clone, Debug)]
pub struct Wrap {
    display: Option<String>,
    debug: Option<String>,
    debug_pretty: Option<String>,
}

pub open spec fn opt_view(o: Option<String>) -> Option<Seq<char>> {
    match o {
        Some(s) => Some(s@),
        None => None,
    }
}

/// The model of a [`Wrap`]: its `Display`, `Debug` and pretty `Debug`
/// renderings, where present.
pub struct WrapModel {
    pub display: Option<Seq<char>>,
    pub debug: Option<Seq<char>>,
    pub debug_pretty: Option<Seq<char>>,
}

impl View for Wrap {
    type V = WrapModel;

    closed spec fn view(&self) -> WrapModel {
        WrapModel {
            display: opt_view(self.display),
            debug: opt_view(self.debug),
            debug_pretty: opt_view(self.debug_pretty),
        }
    }
}

/// The bare rendering of a wrapped value: `{}` via `Display`, else via
/// `Debug`; `{:?}` and `{:#?}` via `Debug`; nothing for other types.
pub open spec fn wrap_bare(w: WrapModel, ty: FormatType, pretty: bool) -> Option<Seq<char>> {
    match ty {
        FormatType::Display => match w.display {
            Some(d) => Some(d),
            None => w.debug,
        },
        FormatType::Debug => if pretty {
            w.debug_pretty
        } else {
            w.debug
        },
        _ => None,
    }
}

fn clone_present(o: &Option<String>) -> (r: Result<String, FmtAbsent>)
    ensures
        match (r, opt_view(*o)) {
            (Ok(s), Some(t)) => s@ == t,
            (Err(_), None) => true,
            _ => false,
        },
{
    match o {
        Some(s) => Ok(s.clone()),
        None => Err(FmtAbsent),
    }
}

impl Wrap {
    /// Wraps the renderings of a value through `Display`, `Debug` and
    /// `Debug` with the `#` flag (`None` where the value lacks the trait).
    pub fn new(display: Option<String>, debug: Option<String>, debug_pretty: Option<String>) -> (r: Wrap)
        ensures
            r@ == (WrapModel {
                display: opt_view(display),
                debug: opt_view(debug),
                debug_pretty: opt_view(debug_pretty),
            }),
    {
        Wrap { display, debug, debug_pretty }
    }

    /// The `Display` rendering, or `FmtAbsent` when there is none.
    pub fn fmt_display(&self) -> (r: Result<String, FmtAbsent>)
        ensures
            match (r, self@.display) {
                (Ok(s), Some(t)) => s@ == t,
                (Err(_), None) => true,
                _ => false,
            },
    {
        clone_present(&self.display)
    }

    /// The `Debug` rendering, or `FmtAbsent` when there is none.
    pub fn fmt_debug(&self) -> (r: Result<String, FmtAbsent>)
        ensures
            match (r, self@.debug) {
                (Ok(s), Some(t)) => s@ == t,
                (Err(_), None) => true,
                _ => false,
            },
    {
        clone_present(&self.debug)
    }

    /// The pretty (`{:#?}`) `Debug` rendering, or `FmtAbsent` when there is
    /// none.
    pub fn fmt_debug_pretty(&self) -> (r: Result<String, FmtAbsent>)
        ensures
            match (r, self@.debug_pretty) {
                (Ok(s), Some(t)) => s@ == t,
                (Err(_), None) => true,
                _ => false,
            },
    {
        clone_present(&self.debug_pretty)
    }

    /// The bare rendering for a placeholder of type `ty`, routed as
    /// [`wrap_bare`] says.
    pub fn write_bare(&self, ty: FormatType, pretty: bool) -> (r: Option<String>)
        ensures
            opt_view(r) == wrap_bare(self@, ty, pretty),
    {
        match ty {
            FormatType::Display => match self.fmt_display() {
                Ok(s) => Some(s),
                Err(_) => match self.fmt_debug() {
                    Ok(s) => Some(s),
                    Err(_) => None,
                },
            },
            FormatType::Debug => {
                let r = if pretty {
                    self.fmt_debug_pretty()
                } else {
                    self.fmt_debug()
                };
                match r {
                    Ok(s) => Some(s),
                    Err(_) => None,
                }
            },
            _ => None,
        }
    }
}

/// The answer for `{}` on a value without `Display`: the derived rendering
/// then tries `Debug` before giving up.
pub trait DisplayFallback {
    fn fmt_display(&self) -> (r: Result<String, FmtAbsent>)
        ensures
            r == Err::<String, FmtAbsent>(FmtAbsent),
    {
        Err(FmtAbsent)
    }
}

impl DisplayFallback for Wrap {}

/// The answer for `{:?}` / `{:#?}` on a value without `Debug`.
pub trait DebugFallback {
    fn fmt_debug(&self) -> (r: Result<String, FmtAbsent>)
        ensures
            r == Err::<String, FmtAbsent>(FmtAbsent),
    {
        Err(FmtAbsent)
    }

    fn fmt_debug_pretty(&self) -> (r: Result<String, FmtAbsent>)
        ensures
            r == Err::<String, FmtAbsent>(FmtAbsent),
    {
        Err(FmtAbsent)
    }
}

impl DebugFallback for Wrap {}

} // verus!
