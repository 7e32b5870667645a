//! All arguments of one format call.
use vstd::prelude::*;

use crate::arg::{FormatArg, FormatType};

verus! {

/// All arguments of one format call, reachable by position (in declaration
/// order). Positions past the last argument render nothing and have no
/// facts.
pub trait FormatParam {
    /// The number of arguments.
    spec fn num_args(&self) -> nat;

    /// The number of arguments.
    fn arg_count(&self) -> (r: usize)
        ensures
            r == self.num_args(),
    ;

    /// The bare rendering of argument `i` (see [`FormatArg::write`]).
    fn arg_write(&self, i: usize, ty: FormatType, pretty: bool, precision: Option<usize>) -> (r: Option<String>)
        ensures
            i >= self.num_args() ==> r is None,
    ;

    /// Whether argument `i` is numeric.
    fn arg_is_numeric(&self, i: usize) -> (r: bool)
        ensures
            i >= self.num_args() ==> !r,
    ;

    /// Argument `i` as a width or precision.
    fn arg_as_usize(&self, i: usize) -> (r: Option<usize>)
        ensures
            i >= self.num_args() ==> r is None,
    ;
}

impl FormatParam for () {
    open spec fn num_args(&self) -> nat {
        0
    }

    fn arg_count(&self) -> (r: usize) {
        0
    }

    fn arg_write(&self, i: usize, ty: FormatType, pretty: bool, precision: Option<usize>) -> (r: Option<String>) {
        None
    }

    fn arg_is_numeric(&self, i: usize) -> (r: bool) {
        false
    }

    fn arg_as_usize(&self, i: usize) -> (r: Option<usize>) {
        None
    }
}

impl<A: FormatArg> FormatParam for [A] {
    open spec fn num_args(&self) -> nat {
        self@.len()
    }

    fn arg_count(&self) -> (r: usize) {
        self.len()
    }

    fn arg_write(&self, i: usize, ty: FormatType, pretty: bool, precision: Option<usize>) -> (r: Option<String>)
        ensures
            i < self@.len() ==> call_ensures(A::write, (&self@[i as int], ty, pretty, precision), r),
    {
        if i < self.len() {
            self[i].write(ty, pretty, precision)
        } else {
            None
        }
    }

    fn arg_is_numeric(&self, i: usize) -> (r: bool)
        ensures
            i < self@.len() ==> call_ensures(A::is_numeric, (&self@[i as int],), r),
    {
        i < self.len() && self[i].is_numeric()
    }

    fn arg_as_usize(&self, i: usize) -> (r: Option<usize>)
        ensures
            i < self@.len() ==> call_ensures(A::as_usize, (&self@[i as int],), r),
    {
        if i < self.len() {
            self[i].as_usize()
        } else {
            None
        }
    }
}

impl<A: FormatArg> FormatParam for (A,) {
    open spec fn num_args(&self) -> nat {
        1
    }

    fn arg_count(&self) -> (r: usize) {
        1
    }

    fn arg_write(&self, i: usize, ty: FormatType, pretty: bool, precision: Option<usize>) -> (r: Option<String>)
        ensures
            i == 0 ==> call_ensures(A::write, (&self.0, ty, pretty, precision), r),
    {
        match i {
            0 => self.0.write(ty, pretty, precision),
            _ => None,
        }
    }

    fn arg_is_numeric(&self, i: usize) -> (r: bool)
        ensures
            i == 0 ==> call_ensures(A::is_numeric, (&self.0,), r),
    {
        match i {
            0 => self.0.is_numeric(),
            _ => false,
        }
    }

    fn arg_as_usize(&self, i: usize) -> (r: Option<usize>)
        ensures
            i == 0 ==> call_ensures(A::as_usize, (&self.0,), r),
    {
        match i {
            0 => self.0.as_usize(),
            _ => None,
        }
    }
}

impl<A: FormatArg, B: FormatArg> FormatParam for (A, B) {
    open spec fn num_args(&self) -> nat {
        2
    }

    fn arg_count(&self) -> (r: usize) {
        2
    }

    fn arg_write(&self, i: usize, ty: FormatType, pretty: bool, precision: Option<usize>) -> (r: Option<String>)
        ensures
            i == 0 ==> call_ensures(A::write, (&self.0, ty, pretty, precision), r),
            i == 1 ==> call_ensures(B::write, (&self.1, ty, pretty, precision), r),
    {
        match i {
            0 => self.0.write(ty, pretty, precision),
            1 => self.1.write(ty, pretty, precision),
            _ => None,
        }
    }

    fn arg_is_numeric(&self, i: usize) -> (r: bool)
        ensures
            i == 0 ==> call_ensures(A::is_numeric, (&self.0,), r),
            i == 1 ==> call_ensures(B::is_numeric, (&self.1,), r),
    {
        match i {
            0 => self.0.is_numeric(),
            1 => self.1.is_numeric(),
            _ => false,
        }
    }

    fn arg_as_usize(&self, i: usize) -> (r: Option<usize>)
        ensures
            i == 0 ==> call_ensures(A::as_usize, (&self.0,), r),
            i == 1 ==> call_ensures(B::as_usize, (&self.1,), r),
    {
        match i {
            0 => self.0.as_usize(),
            1 => self.1.as_usize(),
            _ => None,
        }
    }
}

impl<A: FormatArg, B: FormatArg, C: FormatArg> FormatParam for (A, B, C) {
    open spec fn num_args(&self) -> nat {
        3
    }

    fn arg_count(&self) -> (r: usize) {
        3
    }

    fn arg_write(&self, i: usize, ty: FormatType, pretty: bool, precision: Option<usize>) -> (r: Option<String>)
        ensures
            i == 0 ==> call_ensures(A::write, (&self.0, ty, pretty, precision), r),
            i == 1 ==> call_ensures(B::write, (&self.1, ty, pretty, precision), r),
            i == 2 ==> call_ensures(C::write, (&self.2, ty, pretty, precision), r),
    {
        match i {
            0 => self.0.write(ty, pretty, precision),
            1 => self.1.write(ty, pretty, precision),
            2 => self.2.write(ty, pretty, precision),
            _ => None,
        }
    }

    fn arg_is_numeric(&self, i: usize) -> (r: bool)
        ensures
            i == 0 ==> call_ensures(A::is_numeric, (&self.0,), r),
            i == 1 ==> call_ensures(B::is_numeric, (&self.1,), r),
            i == 2 ==> call_ensures(C::is_numeric, (&self.2,), r),
    {
        match i {
            0 => self.0.is_numeric(),
            1 => self.1.is_numeric(),
            2 => self.2.is_numeric(),
            _ => false,
        }
    }

    fn arg_as_usize(&self, i: usize) -> (r: Option<usize>)
        ensures
            i == 0 ==> call_ensures(A::as_usize, (&self.0,), r),
            i == 1 ==> call_ensures(B::as_usize, (&self.1,), r),
            i == 2 ==> call_ensures(C::as_usize, (&self.2,), r),
    {
        match i {
            0 => self.0.as_usize(),
            1 => self.1.as_usize(),
            2 => self.2.as_usize(),
            _ => None,
        }
    }
}

impl<A: FormatArg, B: FormatArg, C: FormatArg, D: FormatArg> FormatParam for (A, B, C, D) {
    open spec fn num_args(&self) -> nat {
        4
    }

    fn arg_count(&self) -> (r: usize) {
        4
    }

    fn arg_write(&self, i: usize, ty: FormatType, pretty: bool, precision: Option<usize>) -> (r: Option<String>)
        ensures
            i == 0 ==> call_ensures(A::write, (&self.0, ty, pretty, precision), r),
            i == 1 ==> call_ensures(B::write, (&self.1, ty, pretty, precision), r),
            i == 2 ==> call_ensures(C::write, (&self.2, ty, pretty, precision), r),
            i == 3 ==> call_ensures(D::write, (&self.3, ty, pretty, precision), r),
    {
        match i {
            0 => self.0.write(ty, pretty, precision),
            1 => self.1.write(ty, pretty, precision),
            2 => self.2.write(ty, pretty, precision),
            3 => self.3.write(ty, pretty, precision),
            _ => None,
        }
    }

    fn arg_is_numeric(&self, i: usize) -> (r: bool)
        ensures
            i == 0 ==> call_ensures(A::is_numeric, (&self.0,), r),
            i == 1 ==> call_ensures(B::is_numeric, (&self.1,), r),
            i == 2 ==> call_ensures(C::is_numeric, (&self.2,), r),
            i == 3 ==> call_ensures(D::is_numeric, (&self.3,), r),
    {
        match i {
            0 => self.0.is_numeric(),
            1 => self.1.is_numeric(),
            2 => self.2.is_numeric(),
            3 => self.3.is_numeric(),
            _ => false,
        }
    }

    fn arg_as_usize(&self, i: usize) -> (r: Option<usize>)
        ensures
            i == 0 ==> call_ensures(A::as_usize, (&self.0,), r),
            i == 1 ==> call_ensures(B::as_usize, (&self.1,), r),
            i == 2 ==> call_ensures(C::as_usize, (&self.2,), r),
            i == 3 ==> call_ensures(D::as_usize, (&self.3,), r),
    {
        match i {
            0 => self.0.as_usize(),
            1 => self.1.as_usize(),
            2 => self.2.as_usize(),
            3 => self.3.as_usize(),
            _ => None,
        }
    }
}

impl<A: FormatArg, B: FormatArg, C: FormatArg, D: FormatArg, E: FormatArg> FormatParam for (A, B, C, D, E) {
    open spec fn num_args(&self) -> nat {
        5
    }

    fn arg_count(&self) -> (r: usize) {
        5
    }

    fn arg_write(&self, i: usize, ty: FormatType, pretty: bool, precision: Option<usize>) -> (r: Option<String>)
        ensures
            i == 0 ==> call_ensures(A::write, (&self.0, ty, pretty, precision), r),
            i == 1 ==> call_ensures(B::write, (&self.1, ty, pretty, precision), r),
            i == 2 ==> call_ensures(C::write, (&self.2, ty, pretty, precision), r),
            i == 3 ==> call_ensures(D::write, (&self.3, ty, pretty, precision), r),
            i == 4 ==> call_ensures(E::write, (&self.4, ty, pretty, precision), r),
    {
        match i {
            0 => self.0.write(ty, pretty, precision),
            1 => self.1.write(ty, pretty, precision),
            2 => self.2.write(ty, pretty, precision),
            3 => self.3.write(ty, pretty, precision),
            4 => self.4.write(ty, pretty, precision),
            _ => None,
        }
    }

    fn arg_is_numeric(&self, i: usize) -> (r: bool)
        ensures
            i == 0 ==> call_ensures(A::is_numeric, (&self.0,), r),
            i == 1 ==> call_ensures(B::is_numeric, (&self.1,), r),
            i == 2 ==> call_ensures(C::is_numeric, (&self.2,), r),
            i == 3 ==> call_ensures(D::is_numeric, (&self.3,), r),
            i == 4 ==> call_ensures(E::is_numeric, (&self.4,), r),
    {
        match i {
            0 => self.0.is_numeric(),
            1 => self.1.is_numeric(),
            2 => self.2.is_numeric(),
            3 => self.3.is_numeric(),
            4 => self.4.is_numeric(),
            _ => false,
        }
    }

    fn arg_as_usize(&self, i: usize) -> (r: Option<usize>)
        ensures
            i == 0 ==> call_ensures(A::as_usize, (&self.0,), r),
            i == 1 ==> call_ensures(B::as_usize, (&self.1,), r),
            i == 2 ==> call_ensures(C::as_usize, (&self.2,), r),
            i == 3 ==> call_ensures(D::as_usize, (&self.3,), r),
            i == 4 ==> call_ensures(E::as_usize, (&self.4,), r),
    {
        match i {
            0 => self.0.as_usize(),
            1 => self.1.as_usize(),
            2 => self.2.as_usize(),
            3 => self.3.as_usize(),
            4 => self.4.as_usize(),
            _ => None,
        }
    }
}

impl<A: FormatArg, B: FormatArg, C: FormatArg, D: FormatArg, E: FormatArg, F: FormatArg> FormatParam for (A, B, C, D, E, F) {
    open spec fn num_args(&self) -> nat {
        6
    }

    fn arg_count(&self) -> (r: usize) {
        6
    }

    fn arg_write(&self, i: usize, ty: FormatType, pretty: bool, precision: Option<usize>) -> (r: Option<String>)
        ensures
            i == 0 ==> call_ensures(A::write, (&self.0, ty, pretty, precision), r),
            i == 1 ==> call_ensures(B::write, (&self.1, ty, pretty, precision), r),
            i == 2 ==> call_ensures(C::write, (&self.2, ty, pretty, precision), r),
            i == 3 ==> call_ensures(D::write, (&self.3, ty, pretty, precision), r),
            i == 4 ==> call_ensures(E::write, (&self.4, ty, pretty, precision), r),
            i == 5 ==> call_ensures(F::write, (&self.5, ty, pretty, precision), r),
    {
        match i {
            0 => self.0.write(ty, pretty, precision),
            1 => self.1.write(ty, pretty, precision),
            2 => self.2.write(ty, pretty, precision),
            3 => self.3.write(ty, pretty, precision),
            4 => self.4.write(ty, pretty, precision),
            5 => self.5.write(ty, pretty, precision),
            _ => None,
        }
    }

    fn arg_is_numeric(&self, i: usize) -> (r: bool)
        ensures
            i == 0 ==> call_ensures(A::is_numeric, (&self.0,), r),
            i == 1 ==> call_ensures(B::is_numeric, (&self.1,), r),
            i == 2 ==> call_ensures(C::is_numeric, (&self.2,), r),
            i == 3 ==> call_ensures(D::is_numeric, (&self.3,), r),
            i == 4 ==> call_ensures(E::is_numeric, (&self.4,), r),
            i == 5 ==> call_ensures(F::is_numeric, (&self.5,), r),
    {
        match i {
            0 => self.0.is_numeric(),
            1 => self.1.is_numeric(),
            2 => self.2.is_numeric(),
            3 => self.3.is_numeric(),
            4 => self.4.is_numeric(),
            5 => self.5.is_numeric(),
            _ => false,
        }
    }

    fn arg_as_usize(&self, i: usize) -> (r: Option<usize>)
        ensures
            i == 0 ==> call_ensures(A::as_usize, (&self.0,), r),
            i == 1 ==> call_ensures(B::as_usize, (&self.1,), r),
            i == 2 ==> call_ensures(C::as_usize, (&self.2,), r),
            i == 3 ==> call_ensures(D::as_usize, (&self.3,), r),
            i == 4 ==> call_ensures(E::as_usize, (&self.4,), r),
            i == 5 ==> call_ensures(F::as_usize, (&self.5,), r),
    {
        match i {
            0 => self.0.as_usize(),
            1 => self.1.as_usize(),
            2 => self.2.as_usize(),
            3 => self.3.as_usize(),
            4 => self.4.as_usize(),
            5 => self.5.as_usize(),
            _ => None,
        }
    }
}

impl<A: FormatArg, B: FormatArg, C: FormatArg, D: FormatArg, E: FormatArg, F: FormatArg, G: FormatArg> FormatParam for (A, B, C, D, E, F, G) {
    open spec fn num_args(&self) -> nat {
        7
    }

    fn arg_count(&self) -> (r: usize) {
        7
    }

    fn arg_write(&self, i: usize, ty: FormatType, pretty: bool, precision: Option<usize>) -> (r: Option<String>)
        ensures
            i == 0 ==> call_ensures(A::write, (&self.0, ty, pretty, precision), r),
            i == 1 ==> call_ensures(B::write, (&self.1, ty, pretty, precision), r),
            i == 2 ==> call_ensures(C::write, (&self.2, ty, pretty, precision), r),
            i == 3 ==> call_ensures(D::write, (&self.3, ty, pretty, precision), r),
            i == 4 ==> call_ensures(E::write, (&self.4, ty, pretty, precision), r),
            i == 5 ==> call_ensures(F::write, (&self.5, ty, pretty, precision), r),
            i == 6 ==> call_ensures(G::write, (&self.6, ty, pretty, precision), r),
    {
        match i {
            0 => self.0.write(ty, pretty, precision),
            1 => self.1.write(ty, pretty, precision),
            2 => self.2.write(ty, pretty, precision),
            3 => self.3.write(ty, pretty, precision),
            4 => self.4.write(ty, pretty, precision),
            5 => self.5.write(ty, pretty, precision),
            6 => self.6.write(ty, pretty, precision),
            _ => None,
        }
    }

    fn arg_is_numeric(&self, i: usize) -> (r: bool)
        ensures
            i == 0 ==> call_ensures(A::is_numeric, (&self.0,), r),
            i == 1 ==> call_ensures(B::is_numeric, (&self.1,), r),
            i == 2 ==> call_ensures(C::is_numeric, (&self.2,), r),
            i == 3 ==> call_ensures(D::is_numeric, (&self.3,), r),
            i == 4 ==> call_ensures(E::is_numeric, (&self.4,), r),
            i == 5 ==> call_ensures(F::is_numeric, (&self.5,), r),
            i == 6 ==> call_ensures(G::is_numeric, (&self.6,), r),
    {
        match i {
            0 => self.0.is_numeric(),
            1 => self.1.is_numeric(),
            2 => self.2.is_numeric(),
            3 => self.3.is_numeric(),
            4 => self.4.is_numeric(),
            5 => self.5.is_numeric(),
            6 => self.6.is_numeric(),
            _ => false,
        }
    }

    fn arg_as_usize(&self, i: usize) -> (r: Option<usize>)
        ensures
            i == 0 ==> call_ensures(A::as_usize, (&self.0,), r),
            i == 1 ==> call_ensures(B::as_usize, (&self.1,), r),
            i == 2 ==> call_ensures(C::as_usize, (&self.2,), r),
            i == 3 ==> call_ensures(D::as_usize, (&self.3,), r),
            i == 4 ==> call_ensures(E::as_usize, (&self.4,), r),
            i == 5 ==> call_ensures(F::as_usize, (&self.5,), r),
            i == 6 ==> call_ensures(G::as_usize, (&self.6,), r),
    {
        match i {
            0 => self.0.as_usize(),
            1 => self.1.as_usize(),
            2 => self.2.as_usize(),
            3 => self.3.as_usize(),
            4 => self.4.as_usize(),
            5 => self.5.as_usize(),
            6 => self.6.as_usize(),
            _ => None,
        }
    }
}

impl<A: FormatArg, B: FormatArg, C: FormatArg, D: FormatArg, E: FormatArg, F: FormatArg, G: FormatArg, H: FormatArg> FormatParam for (A, B, C, D, E, F, G, H) {
    open spec fn num_args(&self) -> nat {
        8
    }

    fn arg_count(&self) -> (r: usize) {
        8
    }

    fn arg_write(&self, i: usize, ty: FormatType, pretty: bool, precision: Option<usize>) -> (r: Option<String>)
        ensures
            i == 0 ==> call_ensures(A::write, (&self.0, ty, pretty, precision), r),
            i == 1 ==> call_ensures(B::write, (&self.1, ty, pretty, precision), r),
            i == 2 ==> call_ensures(C::write, (&self.2, ty, pretty, precision), r),
            i == 3 ==> call_ensures(D::write, (&self.3, ty, pretty, precision), r),
            i == 4 ==> call_ensures(E::write, (&self.4, ty, pretty, precision), r),
            i == 5 ==> call_ensures(F::write, (&self.5, ty, pretty, precision), r),
            i == 6 ==> call_ensures(G::write, (&self.6, ty, pretty, precision), r),
            i == 7 ==> call_ensures(H::write, (&self.7, ty, pretty, precision), r),
    {
        match i {
            0 => self.0.write(ty, pretty, precision),
            1 => self.1.write(ty, pretty, precision),
            2 => self.2.write(ty, pretty, precision),
            3 => self.3.write(ty, pretty, precision),
            4 => self.4.write(ty, pretty, precision),
            5 => self.5.write(ty, pretty, precision),
            6 => self.6.write(ty, pretty, precision),
            7 => self.7.write(ty, pretty, precision),
            _ => None,
        }
    }

    fn arg_is_numeric(&self, i: usize) -> (r: bool)
        ensures
            i == 0 ==> call_ensures(A::is_numeric, (&self.0,), r),
            i == 1 ==> call_ensures(B::is_numeric, (&self.1,), r),
            i == 2 ==> call_ensures(C::is_numeric, (&self.2,), r),
            i == 3 ==> call_ensures(D::is_numeric, (&self.3,), r),
            i == 4 ==> call_ensures(E::is_numeric, (&self.4,), r),
            i == 5 ==> call_ensures(F::is_numeric, (&self.5,), r),
            i == 6 ==> call_ensures(G::is_numeric, (&self.6,), r),
            i == 7 ==> call_ensures(H::is_numeric, (&self.7,), r),
    {
        match i {
            0 => self.0.is_numeric(),
            1 => self.1.is_numeric(),
            2 => self.2.is_numeric(),
            3 => self.3.is_numeric(),
            4 => self.4.is_numeric(),
            5 => self.5.is_numeric(),
            6 => self.6.is_numeric(),
            7 => self.7.is_numeric(),
            _ => false,
        }
    }

    fn arg_as_usize(&self, i: usize) -> (r: Option<usize>)
        ensures
            i == 0 ==> call_ensures(A::as_usize, (&self.0,), r),
            i == 1 ==> call_ensures(B::as_usize, (&self.1,), r),
            i == 2 ==> call_ensures(C::as_usize, (&self.2,), r),
            i == 3 ==> call_ensures(D::as_usize, (&self.3,), r),
            i == 4 ==> call_ensures(E::as_usize, (&self.4,), r),
            i == 5 ==> call_ensures(F::as_usize, (&self.5,), r),
            i == 6 ==> call_ensures(G::as_usize, (&self.6,), r),
            i == 7 ==> call_ensures(H::as_usize, (&self.7,), r),
    {
        match i {
            0 => self.0.as_usize(),
            1 => self.1.as_usize(),
            2 => self.2.as_usize(),
            3 => self.3.as_usize(),
            4 => self.4.as_usize(),
            5 => self.5.as_usize(),
            6 => self.6.as_usize(),
            7 => self.7.as_usize(),
            _ => None,
        }
    }
}

impl<A: FormatArg, B: FormatArg, C: FormatArg, D: FormatArg, E: FormatArg, F: FormatArg, G: FormatArg, H: FormatArg, I: FormatArg> FormatParam for (A, B, C, D, E, F, G, H, I) {
    open spec fn num_args(&self) -> nat {
        9
    }

    fn arg_count(&self) -> (r: usize) {
        9
    }

    fn arg_write(&self, i: usize, ty: FormatType, pretty: bool, precision: Option<usize>) -> (r: Option<String>)
        ensures
            i == 0 ==> call_ensures(A::write, (&self.0, ty, pretty, precision), r),
            i == 1 ==> call_ensures(B::write, (&self.1, ty, pretty, precision), r),
            i == 2 ==> call_ensures(C::write, (&self.2, ty, pretty, precision), r),
            i == 3 ==> call_ensures(D::write, (&self.3, ty, pretty, precision), r),
            i == 4 ==> call_ensures(E::write, (&self.4, ty, pretty, precision), r),
            i == 5 ==> call_ensures(F::write, (&self.5, ty, pretty, precision), r),
            i == 6 ==> call_ensures(G::write, (&self.6, ty, pretty, precision), r),
            i == 7 ==> call_ensures(H::write, (&self.7, ty, pretty, precision), r),
            i == 8 ==> call_ensures(I::write, (&self.8, ty, pretty, precision), r),
    {
        match i {
            0 => self.0.write(ty, pretty, precision),
            1 => self.1.write(ty, pretty, precision),
            2 => self.2.write(ty, pretty, precision),
            3 => self.3.write(ty, pretty, precision),
            4 => self.4.write(ty, pretty, precision),
            5 => self.5.write(ty, pretty, precision),
            6 => self.6.write(ty, pretty, precision),
            7 => self.7.write(ty, pretty, precision),
            8 => self.8.write(ty, pretty, precision),
            _ => None,
        }
    }

    fn arg_is_numeric(&self, i: usize) -> (r: bool)
        ensures
            i == 0 ==> call_ensures(A::is_numeric, (&self.0,), r),
            i == 1 ==> call_ensures(B::is_numeric, (&self.1,), r),
            i == 2 ==> call_ensures(C::is_numeric, (&self.2,), r),
            i == 3 ==> call_ensures(D::is_numeric, (&self.3,), r),
            i == 4 ==> call_ensures(E::is_numeric, (&self.4,), r),
            i == 5 ==> call_ensures(F::is_numeric, (&self.5,), r),
            i == 6 ==> call_ensures(G::is_numeric, (&self.6,), r),
            i == 7 ==> call_ensures(H::is_numeric, (&self.7,), r),
            i == 8 ==> call_ensures(I::is_numeric, (&self.8,), r),
    {
        match i {
            0 => self.0.is_numeric(),
            1 => self.1.is_numeric(),
            2 => self.2.is_numeric(),
            3 => self.3.is_numeric(),
            4 => self.4.is_numeric(),
            5 => self.5.is_numeric(),
            6 => self.6.is_numeric(),
            7 => self.7.is_numeric(),
            8 => self.8.is_numeric(),
            _ => false,
        }
    }

    fn arg_as_usize(&self, i: usize) -> (r: Option<usize>)
        ensures
            i == 0 ==> call_ensures(A::as_usize, (&self.0,), r),
            i == 1 ==> call_ensures(B::as_usize, (&self.1,), r),
            i == 2 ==> call_ensures(C::as_usize, (&self.2,), r),
            i == 3 ==> call_ensures(D::as_usize, (&self.3,), r),
            i == 4 ==> call_ensures(E::as_usize, (&self.4,), r),
            i == 5 ==> call_ensures(F::as_usize, (&self.5,), r),
            i == 6 ==> call_ensures(G::as_usize, (&self.6,), r),
            i == 7 ==> call_ensures(H::as_usize, (&self.7,), r),
            i == 8 ==> call_ensures(I::as_usize, (&self.8,), r),
    {
        match i {
            0 => self.0.as_usize(),
            1 => self.1.as_usize(),
            2 => self.2.as_usize(),
            3 => self.3.as_usize(),
            4 => self.4.as_usize(),
            5 => self.5.as_usize(),
            6 => self.6.as_usize(),
            7 => self.7.as_usize(),
            8 => self.8.as_usize(),
            _ => None,
        }
    }
}

impl<A: FormatArg, B: FormatArg, C: FormatArg, D: FormatArg, E: FormatArg, F: FormatArg, G: FormatArg, H: FormatArg, I: FormatArg, J: FormatArg> FormatParam for (A, B, C, D, E, F, G, H, I, J) {
    open spec fn num_args(&self) -> nat {
        10
    }

    fn arg_count(&self) -> (r: usize) {
        10
    }

    fn arg_write(&self, i: usize, ty: FormatType, pretty: bool, precision: Option<usize>) -> (r: Option<String>)
        ensures
            i == 0 ==> call_ensures(A::write, (&self.0, ty, pretty, precision), r),
            i == 1 ==> call_ensures(B::write, (&self.1, ty, pretty, precision), r),
            i == 2 ==> call_ensures(C::write, (&self.2, ty, pretty, precision), r),
            i == 3 ==> call_ensures(D::write, (&self.3, ty, pretty, precision), r),
            i == 4 ==> call_ensures(E::write, (&self.4, ty, pretty, precision), r),
            i == 5 ==> call_ensures(F::write, (&self.5, ty, pretty, precision), r),
            i == 6 ==> call_ensures(G::write, (&self.6, ty, pretty, precision), r),
            i == 7 ==> call_ensures(H::write, (&self.7, ty, pretty, precision), r),
            i == 8 ==> call_ensures(I::write, (&self.8, ty, pretty, precision), r),
            i == 9 ==> call_ensures(J::write, (&self.9, ty, pretty, precision), r),
    {
        match i {
            0 => self.0.write(ty, pretty, precision),
            1 => self.1.write(ty, pretty, precision),
            2 => self.2.write(ty, pretty, precision),
            3 => self.3.write(ty, pretty, precision),
            4 => self.4.write(ty, pretty, precision),
            5 => self.5.write(ty, pretty, precision),
            6 => self.6.write(ty, pretty, precision),
            7 => self.7.write(ty, pretty, precision),
            8 => self.8.write(ty, pretty, precision),
            9 => self.9.write(ty, pretty, precision),
            _ => None,
        }
    }

    fn arg_is_numeric(&self, i: usize) -> (r: bool)
        ensures
            i == 0 ==> call_ensures(A::is_numeric, (&self.0,), r),
            i == 1 ==> call_ensures(B::is_numeric, (&self.1,), r),
            i == 2 ==> call_ensures(C::is_numeric, (&self.2,), r),
            i == 3 ==> call_ensures(D::is_numeric, (&self.3,), r),
            i == 4 ==> call_ensures(E::is_numeric, (&self.4,), r),
            i == 5 ==> call_ensures(F::is_numeric, (&self.5,), r),
            i == 6 ==> call_ensures(G::is_numeric, (&self.6,), r),
            i == 7 ==> call_ensures(H::is_numeric, (&self.7,), r),
            i == 8 ==> call_ensures(I::is_numeric, (&self.8,), r),
            i == 9 ==> call_ensures(J::is_numeric, (&self.9,), r),
    {
        match i {
            0 => self.0.is_numeric(),
            1 => self.1.is_numeric(),
            2 => self.2.is_numeric(),
            3 => self.3.is_numeric(),
            4 => self.4.is_numeric(),
            5 => self.5.is_numeric(),
            6 => self.6.is_numeric(),
            7 => self.7.is_numeric(),
            8 => self.8.is_numeric(),
            9 => self.9.is_numeric(),
            _ => false,
        }
    }

    fn arg_as_usize(&self, i: usize) -> (r: Option<usize>)
        ensures
            i == 0 ==> call_ensures(A::as_usize, (&self.0,), r),
            i == 1 ==> call_ensures(B::as_usize, (&self.1,), r),
            i == 2 ==> call_ensures(C::as_usize, (&self.2,), r),
            i == 3 ==> call_ensures(D::as_usize, (&self.3,), r),
            i == 4 ==> call_ensures(E::as_usize, (&self.4,), r),
            i == 5 ==> call_ensures(F::as_usize, (&self.5,), r),
            i == 6 ==> call_ensures(G::as_usize, (&self.6,), r),
            i == 7 ==> call_ensures(H::as_usize, (&self.7,), r),
            i == 8 ==> call_ensures(I::as_usize, (&self.8,), r),
            i == 9 ==> call_ensures(J::as_usize, (&self.9,), r),
    {
        match i {
            0 => self.0.as_usize(),
            1 => self.1.as_usize(),
            2 => self.2.as_usize(),
            3 => self.3.as_usize(),
            4 => self.4.as_usize(),
            5 => self.5.as_usize(),
            6 => self.6.as_usize(),
            7 => self.7.as_usize(),
            8 => self.8.as_usize(),
            9 => self.9.as_usize(),
            _ => None,
        }
    }
}

impl<A: FormatArg, B: FormatArg, C: FormatArg, D: FormatArg, E: FormatArg, F: FormatArg, G: FormatArg, H: FormatArg, I: FormatArg, J: FormatArg, K: FormatArg> FormatParam for (A, B, C, D, E, F, G, H, I, J, K) {
    open spec fn num_args(&self) -> nat {
        11
    }

    fn arg_count(&self) -> (r: usize) {
        11
    }

    fn arg_write(&self, i: usize, ty: FormatType, pretty: bool, precision: Option<usize>) -> (r: Option<String>)
        ensures
            i == 0 ==> call_ensures(A::write, (&self.0, ty, pretty, precision), r),
            i == 1 ==> call_ensures(B::write, (&self.1, ty, pretty, precision), r),
            i == 2 ==> call_ensures(C::write, (&self.2, ty, pretty, precision), r),
            i == 3 ==> call_ensures(D::write, (&self.3, ty, pretty, precision), r),
            i == 4 ==> call_ensures(E::write, (&self.4, ty, pretty, precision), r),
            i == 5 ==> call_ensures(F::write, (&self.5, ty, pretty, precision), r),
            i == 6 ==> call_ensures(G::write, (&self.6, ty, pretty, precision), r),
            i == 7 ==> call_ensures(H::write, (&self.7, ty, pretty, precision), r),
            i == 8 ==> call_ensures(I::write, (&self.8, ty, pretty, precision), r),
            i == 9 ==> call_ensures(J::write, (&self.9, ty, pretty, precision), r),
            i == 10 ==> call_ensures(K::write, (&self.10, ty, pretty, precision), r),
    {
        match i {
            0 => self.0.write(ty, pretty, precision),
            1 => self.1.write(ty, pretty, precision),
            2 => self.2.write(ty, pretty, precision),
            3 => self.3.write(ty, pretty, precision),
            4 => self.4.write(ty, pretty, precision),
            5 => self.5.write(ty, pretty, precision),
            6 => self.6.write(ty, pretty, precision),
            7 => self.7.write(ty, pretty, precision),
            8 => self.8.write(ty, pretty, precision),
            9 => self.9.write(ty, pretty, precision),
            10 => self.10.write(ty, pretty, precision),
            _ => None,
        }
    }

    fn arg_is_numeric(&self, i: usize) -> (r: bool)
        ensures
            i == 0 ==> call_ensures(A::is_numeric, (&self.0,), r),
            i == 1 ==> call_ensures(B::is_numeric, (&self.1,), r),
            i == 2 ==> call_ensures(C::is_numeric, (&self.2,), r),
            i == 3 ==> call_ensures(D::is_numeric, (&self.3,), r),
            i == 4 ==> call_ensures(E::is_numeric, (&self.4,), r),
            i == 5 ==> call_ensures(F::is_numeric, (&self.5,), r),
            i == 6 ==> call_ensures(G::is_numeric, (&self.6,), r),
            i == 7 ==> call_ensures(H::is_numeric, (&self.7,), r),
            i == 8 ==> call_ensures(I::is_numeric, (&self.8,), r),
            i == 9 ==> call_ensures(J::is_numeric, (&self.9,), r),
            i == 10 ==> call_ensures(K::is_numeric, (&self.10,), r),
    {
        match i {
            0 => self.0.is_numeric(),
            1 => self.1.is_numeric(),
            2 => self.2.is_numeric(),
            3 => self.3.is_numeric(),
            4 => self.4.is_numeric(),
            5 => self.5.is_numeric(),
            6 => self.6.is_numeric(),
            7 => self.7.is_numeric(),
            8 => self.8.is_numeric(),
            9 => self.9.is_numeric(),
            10 => self.10.is_numeric(),
            _ => false,
        }
    }

    fn arg_as_usize(&self, i: usize) -> (r: Option<usize>)
        ensures
            i == 0 ==> call_ensures(A::as_usize, (&self.0,), r),
            i == 1 ==> call_ensures(B::as_usize, (&self.1,), r),
            i == 2 ==> call_ensures(C::as_usize, (&self.2,), r),
            i == 3 ==> call_ensures(D::as_usize, (&self.3,), r),
            i == 4 ==> call_ensures(E::as_usize, (&self.4,), r),
            i == 5 ==> call_ensures(F::as_usize, (&self.5,), r),
            i == 6 ==> call_ensures(G::as_usize, (&self.6,), r),
            i == 7 ==> call_ensures(H::as_usize, (&self.7,), r),
            i == 8 ==> call_ensures(I::as_usize, (&self.8,), r),
            i == 9 ==> call_ensures(J::as_usize, (&self.9,), r),
            i == 10 ==> call_ensures(K::as_usize, (&self.10,), r),
    {
        match i {
            0 => self.0.as_usize(),
            1 => self.1.as_usize(),
            2 => self.2.as_usize(),
            3 => self.3.as_usize(),
            4 => self.4.as_usize(),
            5 => self.5.as_usize(),
            6 => self.6.as_usize(),
            7 => self.7.as_usize(),
            8 => self.8.as_usize(),
            9 => self.9.as_usize(),
            10 => self.10.as_usize(),
            _ => None,
        }
    }
}

impl<A: FormatArg, B: FormatArg, C: FormatArg, D: FormatArg, E: FormatArg, F: FormatArg, G: FormatArg, H: FormatArg, I: FormatArg, J: FormatArg, K: FormatArg, L: FormatArg> FormatParam for (A, B, C, D, E, F, G, H, I, J, K, L) {
    open spec fn num_args(&self) -> nat {
        12
    }

    fn arg_count(&self) -> (r: usize) {
        12
    }

    fn arg_write(&self, i: usize, ty: FormatType, pretty: bool, precision: Option<usize>) -> (r: Option<String>)
        ensures
            i == 0 ==> call_ensures(A::write, (&self.0, ty, pretty, precision), r),
            i == 1 ==> call_ensures(B::write, (&self.1, ty, pretty, precision), r),
            i == 2 ==> call_ensures(C::write, (&self.2, ty, pretty, precision), r),
            i == 3 ==> call_ensures(D::write, (&self.3, ty, pretty, precision), r),
            i == 4 ==> call_ensures(E::write, (&self.4, ty, pretty, precision), r),
            i == 5 ==> call_ensures(F::write, (&self.5, ty, pretty, precision), r),
            i == 6 ==> call_ensures(G::write, (&self.6, ty, pretty, precision), r),
            i == 7 ==> call_ensures(H::write, (&self.7, ty, pretty, precision), r),
            i == 8 ==> call_ensures(I::write, (&self.8, ty, pretty, precision), r),
            i == 9 ==> call_ensures(J::write, (&self.9, ty, pretty, precision), r),
            i == 10 ==> call_ensures(K::write, (&self.10, ty, pretty, precision), r),
            i == 11 ==> call_ensures(L::write, (&self.11, ty, pretty, precision), r),
    {
        match i {
            0 => self.0.write(ty, pretty, precision),
            1 => self.1.write(ty, pretty, precision),
            2 => self.2.write(ty, pretty, precision),
            3 => self.3.write(ty, pretty, precision),
            4 => self.4.write(ty, pretty, precision),
            5 => self.5.write(ty, pretty, precision),
            6 => self.6.write(ty, pretty, precision),
            7 => self.7.write(ty, pretty, precision),
            8 => self.8.write(ty, pretty, precision),
            9 => self.9.write(ty, pretty, precision),
            10 => self.10.write(ty, pretty, precision),
            11 => self.11.write(ty, pretty, precision),
            _ => None,
        }
    }

    fn arg_is_numeric(&self, i: usize) -> (r: bool)
        ensures
            i == 0 ==> call_ensures(A::is_numeric, (&self.0,), r),
            i == 1 ==> call_ensures(B::is_numeric, (&self.1,), r),
            i == 2 ==> call_ensures(C::is_numeric, (&self.2,), r),
            i == 3 ==> call_ensures(D::is_numeric, (&self.3,), r),
            i == 4 ==> call_ensures(E::is_numeric, (&self.4,), r),
            i == 5 ==> call_ensures(F::is_numeric, (&self.5,), r),
            i == 6 ==> call_ensures(G::is_numeric, (&self.6,), r),
            i == 7 ==> call_ensures(H::is_numeric, (&self.7,), r),
            i == 8 ==> call_ensures(I::is_numeric, (&self.8,), r),
            i == 9 ==> call_ensures(J::is_numeric, (&self.9,), r),
            i == 10 ==> call_ensures(K::is_numeric, (&self.10,), r),
            i == 11 ==> call_ensures(L::is_numeric, (&self.11,), r),
    {
        match i {
            0 => self.0.is_numeric(),
            1 => self.1.is_numeric(),
            2 => self.2.is_numeric(),
            3 => self.3.is_numeric(),
            4 => self.4.is_numeric(),
            5 => self.5.is_numeric(),
            6 => self.6.is_numeric(),
            7 => self.7.is_numeric(),
            8 => self.8.is_numeric(),
            9 => self.9.is_numeric(),
            10 => self.10.is_numeric(),
            11 => self.11.is_numeric(),
            _ => false,
        }
    }

    fn arg_as_usize(&self, i: usize) -> (r: Option<usize>)
        ensures
            i == 0 ==> call_ensures(A::as_usize, (&self.0,), r),
            i == 1 ==> call_ensures(B::as_usize, (&self.1,), r),
            i == 2 ==> call_ensures(C::as_usize, (&self.2,), r),
            i == 3 ==> call_ensures(D::as_usize, (&self.3,), r),
            i == 4 ==> call_ensures(E::as_usize, (&self.4,), r),
            i == 5 ==> call_ensures(F::as_usize, (&self.5,), r),
            i == 6 ==> call_ensures(G::as_usize, (&self.6,), r),
            i == 7 ==> call_ensures(H::as_usize, (&self.7,), r),
            i == 8 ==> call_ensures(I::as_usize, (&self.8,), r),
            i == 9 ==> call_ensures(J::as_usize, (&self.9,), r),
            i == 10 ==> call_ensures(K::as_usize, (&self.10,), r),
            i == 11 ==> call_ensures(L::as_usize, (&self.11,), r),
    {
        match i {
            0 => self.0.as_usize(),
            1 => self.1.as_usize(),
            2 => self.2.as_usize(),
            3 => self.3.as_usize(),
            4 => self.4.as_usize(),
            5 => self.5.as_usize(),
            6 => self.6.as_usize(),
            7 => self.7.as_usize(),
            8 => self.8.as_usize(),
            9 => self.9.as_usize(),
            10 => self.10.as_usize(),
            11 => self.11.as_usize(),
            _ => None,
        }
    }
}

impl<A: FormatArg, B: FormatArg, C: FormatArg, D: FormatArg, E: FormatArg, F: FormatArg, G: FormatArg, H: FormatArg, I: FormatArg, J: FormatArg, K: FormatArg, L: FormatArg, M: FormatArg> FormatParam for (A, B, C, D, E, F, G, H, I, J, K, L, M) {
    open spec fn num_args(&self) -> nat {
        13
    }

    fn arg_count(&self) -> (r: usize) {
        13
    }

    fn arg_write(&self, i: usize, ty: FormatType, pretty: bool, precision: Option<usize>) -> (r: Option<String>)
        ensures
            i == 0 ==> call_ensures(A::write, (&self.0, ty, pretty, precision), r),
            i == 1 ==> call_ensures(B::write, (&self.1, ty, pretty, precision), r),
            i == 2 ==> call_ensures(C::write, (&self.2, ty, pretty, precision), r),
            i == 3 ==> call_ensures(D::write, (&self.3, ty, pretty, precision), r),
            i == 4 ==> call_ensures(E::write, (&self.4, ty, pretty, precision), r),
            i == 5 ==> call_ensures(F::write, (&self.5, ty, pretty, precision), r),
            i == 6 ==> call_ensures(G::write, (&self.6, ty, pretty, precision), r),
            i == 7 ==> call_ensures(H::write, (&self.7, ty, pretty, precision), r),
            i == 8 ==> call_ensures(I::write, (&self.8, ty, pretty, precision), r),
            i == 9 ==> call_ensures(J::write, (&self.9, ty, pretty, precision), r),
            i == 10 ==> call_ensures(K::write, (&self.10, ty, pretty, precision), r),
            i == 11 ==> call_ensures(L::write, (&self.11, ty, pretty, precision), r),
            i == 12 ==> call_ensures(M::write, (&self.12, ty, pretty, precision), r),
    {
        match i {
            0 => self.0.write(ty, pretty, precision),
            1 => self.1.write(ty, pretty, precision),
            2 => self.2.write(ty, pretty, precision),
            3 => self.3.write(ty, pretty, precision),
            4 => self.4.write(ty, pretty, precision),
            5 => self.5.write(ty, pretty, precision),
            6 => self.6.write(ty, pretty, precision),
            7 => self.7.write(ty, pretty, precision),
            8 => self.8.write(ty, pretty, precision),
            9 => self.9.write(ty, pretty, precision),
            10 => self.10.write(ty, pretty, precision),
            11 => self.11.write(ty, pretty, precision),
            12 => self.12.write(ty, pretty, precision),
            _ => None,
        }
    }

    fn arg_is_numeric(&self, i: usize) -> (r: bool)
        ensures
            i == 0 ==> call_ensures(A::is_numeric, (&self.0,), r),
            i == 1 ==> call_ensures(B::is_numeric, (&self.1,), r),
            i == 2 ==> call_ensures(C::is_numeric, (&self.2,), r),
            i == 3 ==> call_ensures(D::is_numeric, (&self.3,), r),
            i == 4 ==> call_ensures(E::is_numeric, (&self.4,), r),
            i == 5 ==> call_ensures(F::is_numeric, (&self.5,), r),
            i == 6 ==> call_ensures(G::is_numeric, (&self.6,), r),
            i == 7 ==> call_ensures(H::is_numeric, (&self.7,), r),
            i == 8 ==> call_ensures(I::is_numeric, (&self.8,), r),
            i == 9 ==> call_ensures(J::is_numeric, (&self.9,), r),
            i == 10 ==> call_ensures(K::is_numeric, (&self.10,), r),
            i == 11 ==> call_ensures(L::is_numeric, (&self.11,), r),
            i == 12 ==> call_ensures(M::is_numeric, (&self.12,), r),
    {
        match i {
            0 => self.0.is_numeric(),
            1 => self.1.is_numeric(),
            2 => self.2.is_numeric(),
            3 => self.3.is_numeric(),
            4 => self.4.is_numeric(),
            5 => self.5.is_numeric(),
            6 => self.6.is_numeric(),
            7 => self.7.is_numeric(),
            8 => self.8.is_numeric(),
            9 => self.9.is_numeric(),
            10 => self.10.is_numeric(),
            11 => self.11.is_numeric(),
            12 => self.12.is_numeric(),
            _ => false,
        }
    }

    fn arg_as_usize(&self, i: usize) -> (r: Option<usize>)
        ensures
            i == 0 ==> call_ensures(A::as_usize, (&self.0,), r),
            i == 1 ==> call_ensures(B::as_usize, (&self.1,), r),
            i == 2 ==> call_ensures(C::as_usize, (&self.2,), r),
            i == 3 ==> call_ensures(D::as_usize, (&self.3,), r),
            i == 4 ==> call_ensures(E::as_usize, (&self.4,), r),
            i == 5 ==> call_ensures(F::as_usize, (&self.5,), r),
            i == 6 ==> call_ensures(G::as_usize, (&self.6,), r),
            i == 7 ==> call_ensures(H::as_usize, (&self.7,), r),
            i == 8 ==> call_ensures(I::as_usize, (&self.8,), r),
            i == 9 ==> call_ensures(J::as_usize, (&self.9,), r),
            i == 10 ==> call_ensures(K::as_usize, (&self.10,), r),
            i == 11 ==> call_ensures(L::as_usize, (&self.11,), r),
            i == 12 ==> call_ensures(M::as_usize, (&self.12,), r),
    {
        match i {
            0 => self.0.as_usize(),
            1 => self.1.as_usize(),
            2 => self.2.as_usize(),
            3 => self.3.as_usize(),
            4 => self.4.as_usize(),
            5 => self.5.as_usize(),
            6 => self.6.as_usize(),
            7 => self.7.as_usize(),
            8 => self.8.as_usize(),
            9 => self.9.as_usize(),
            10 => self.10.as_usize(),
            11 => self.11.as_usize(),
            12 => self.12.as_usize(),
            _ => None,
        }
    }
}

impl<A: FormatArg, B: FormatArg, C: FormatArg, D: FormatArg, E: FormatArg, F: FormatArg, G: FormatArg, H: FormatArg, I: FormatArg, J: FormatArg, K: FormatArg, L: FormatArg, M: FormatArg, N: FormatArg> FormatParam for (A, B, C, D, E, F, G, H, I, J, K, L, M, N) {
    open spec fn num_args(&self) -> nat {
        14
    }

    fn arg_count(&self) -> (r: usize) {
        14
    }

    fn arg_write(&self, i: usize, ty: FormatType, pretty: bool, precision: Option<usize>) -> (r: Option<String>)
        ensures
            i == 0 ==> call_ensures(A::write, (&self.0, ty, pretty, precision), r),
            i == 1 ==> call_ensures(B::write, (&self.1, ty, pretty, precision), r),
            i == 2 ==> call_ensures(C::write, (&self.2, ty, pretty, precision), r),
            i == 3 ==> call_ensures(D::write, (&self.3, ty, pretty, precision), r),
            i == 4 ==> call_ensures(E::write, (&self.4, ty, pretty, precision), r),
            i == 5 ==> call_ensures(F::write, (&self.5, ty, pretty, precision), r),
            i == 6 ==> call_ensures(G::write, (&self.6, ty, pretty, precision), r),
            i == 7 ==> call_ensures(H::write, (&self.7, ty, pretty, precision), r),
            i == 8 ==> call_ensures(I::write, (&self.8, ty, pretty, precision), r),
            i == 9 ==> call_ensures(J::write, (&self.9, ty, pretty, precision), r),
            i == 10 ==> call_ensures(K::write, (&self.10, ty, pretty, precision), r),
            i == 11 ==> call_ensures(L::write, (&self.11, ty, pretty, precision), r),
            i == 12 ==> call_ensures(M::write, (&self.12, ty, pretty, precision), r),
            i == 13 ==> call_ensures(N::write, (&self.13, ty, pretty, precision), r),
    {
        match i {
            0 => self.0.write(ty, pretty, precision),
            1 => self.1.write(ty, pretty, precision),
            2 => self.2.write(ty, pretty, precision),
            3 => self.3.write(ty, pretty, precision),
            4 => self.4.write(ty, pretty, precision),
            5 => self.5.write(ty, pretty, precision),
            6 => self.6.write(ty, pretty, precision),
            7 => self.7.write(ty, pretty, precision),
            8 => self.8.write(ty, pretty, precision),
            9 => self.9.write(ty, pretty, precision),
            10 => self.10.write(ty, pretty, precision),
            11 => self.11.write(ty, pretty, precision),
            12 => self.12.write(ty, pretty, precision),
            13 => self.13.write(ty, pretty, precision),
            _ => None,
        }
    }

    fn arg_is_numeric(&self, i: usize) -> (r: bool)
        ensures
            i == 0 ==> call_ensures(A::is_numeric, (&self.0,), r),
            i == 1 ==> call_ensures(B::is_numeric, (&self.1,), r),
            i == 2 ==> call_ensures(C::is_numeric, (&self.2,), r),
            i == 3 ==> call_ensures(D::is_numeric, (&self.3,), r),
            i == 4 ==> call_ensures(E::is_numeric, (&self.4,), r),
            i == 5 ==> call_ensures(F::is_numeric, (&self.5,), r),
            i == 6 ==> call_ensures(G::is_numeric, (&self.6,), r),
            i == 7 ==> call_ensures(H::is_numeric, (&self.7,), r),
            i == 8 ==> call_ensures(I::is_numeric, (&self.8,), r),
            i == 9 ==> call_ensures(J::is_numeric, (&self.9,), r),
            i == 10 ==> call_ensures(K::is_numeric, (&self.10,), r),
            i == 11 ==> call_ensures(L::is_numeric, (&self.11,), r),
            i == 12 ==> call_ensures(M::is_numeric, (&self.12,), r),
            i == 13 ==> call_ensures(N::is_numeric, (&self.13,), r),
    {
        match i {
            0 => self.0.is_numeric(),
            1 => self.1.is_numeric(),
            2 => self.2.is_numeric(),
            3 => self.3.is_numeric(),
            4 => self.4.is_numeric(),
            5 => self.5.is_numeric(),
            6 => self.6.is_numeric(),
            7 => self.7.is_numeric(),
            8 => self.8.is_numeric(),
            9 => self.9.is_numeric(),
            10 => self.10.is_numeric(),
            11 => self.11.is_numeric(),
            12 => self.12.is_numeric(),
            13 => self.13.is_numeric(),
            _ => false,
        }
    }

    fn arg_as_usize(&self, i: usize) -> (r: Option<usize>)
        ensures
            i == 0 ==> call_ensures(A::as_usize, (&self.0,), r),
            i == 1 ==> call_ensures(B::as_usize, (&self.1,), r),
            i == 2 ==> call_ensures(C::as_usize, (&self.2,), r),
            i == 3 ==> call_ensures(D::as_usize, (&self.3,), r),
            i == 4 ==> call_ensures(E::as_usize, (&self.4,), r),
            i == 5 ==> call_ensures(F::as_usize, (&self.5,), r),
            i == 6 ==> call_ensures(G::as_usize, (&self.6,), r),
            i == 7 ==> call_ensures(H::as_usize, (&self.7,), r),
            i == 8 ==> call_ensures(I::as_usize, (&self.8,), r),
            i == 9 ==> call_ensures(J::as_usize, (&self.9,), r),
            i == 10 ==> call_ensures(K::as_usize, (&self.10,), r),
            i == 11 ==> call_ensures(L::as_usize, (&self.11,), r),
            i == 12 ==> call_ensures(M::as_usize, (&self.12,), r),
            i == 13 ==> call_ensures(N::as_usize, (&self.13,), r),
    {
        match i {
            0 => self.0.as_usize(),
            1 => self.1.as_usize(),
            2 => self.2.as_usize(),
            3 => self.3.as_usize(),
            4 => self.4.as_usize(),
            5 => self.5.as_usize(),
            6 => self.6.as_usize(),
            7 => self.7.as_usize(),
            8 => self.8.as_usize(),
            9 => self.9.as_usize(),
            10 => self.10.as_usize(),
            11 => self.11.as_usize(),
            12 => self.12.as_usize(),
            13 => self.13.as_usize(),
            _ => None,
        }
    }
}

impl<A: FormatArg, B: FormatArg, C: FormatArg, D: FormatArg, E: FormatArg, F: FormatArg, G: FormatArg, H: FormatArg, I: FormatArg, J: FormatArg, K: FormatArg, L: FormatArg, M: FormatArg, N: FormatArg, O: FormatArg> FormatParam for (A, B, C, D, E, F, G, H, I, J, K, L, M, N, O) {
    open spec fn num_args(&self) -> nat {
        15
    }

    fn arg_count(&self) -> (r: usize) {
        15
    }

    fn arg_write(&self, i: usize, ty: FormatType, pretty: bool, precision: Option<usize>) -> (r: Option<String>)
        ensures
            i == 0 ==> call_ensures(A::write, (&self.0, ty, pretty, precision), r),
            i == 1 ==> call_ensures(B::write, (&self.1, ty, pretty, precision), r),
            i == 2 ==> call_ensures(C::write, (&self.2, ty, pretty, precision), r),
            i == 3 ==> call_ensures(D::write, (&self.3, ty, pretty, precision), r),
            i == 4 ==> call_ensures(E::write, (&self.4, ty, pretty, precision), r),
            i == 5 ==> call_ensures(F::write, (&self.5, ty, pretty, precision), r),
            i == 6 ==> call_ensures(G::write, (&self.6, ty, pretty, precision), r),
            i == 7 ==> call_ensures(H::write, (&self.7, ty, pretty, precision), r),
            i == 8 ==> call_ensures(I::write, (&self.8, ty, pretty, precision), r),
            i == 9 ==> call_ensures(J::write, (&self.9, ty, pretty, precision), r),
            i == 10 ==> call_ensures(K::write, (&self.10, ty, pretty, precision), r),
            i == 11 ==> call_ensures(L::write, (&self.11, ty, pretty, precision), r),
            i == 12 ==> call_ensures(M::write, (&self.12, ty, pretty, precision), r),
            i == 13 ==> call_ensures(N::write, (&self.13, ty, pretty, precision), r),
            i == 14 ==> call_ensures(O::write, (&self.14, ty, pretty, precision), r),
    {
        match i {
            0 => self.0.write(ty, pretty, precision),
            1 => self.1.write(ty, pretty, precision),
            2 => self.2.write(ty, pretty, precision),
            3 => self.3.write(ty, pretty, precision),
            4 => self.4.write(ty, pretty, precision),
            5 => self.5.write(ty, pretty, precision),
            6 => self.6.write(ty, pretty, precision),
            7 => self.7.write(ty, pretty, precision),
            8 => self.8.write(ty, pretty, precision),
            9 => self.9.write(ty, pretty, precision),
            10 => self.10.write(ty, pretty, precision),
            11 => self.11.write(ty, pretty, precision),
            12 => self.12.write(ty, pretty, precision),
            13 => self.13.write(ty, pretty, precision),
            14 => self.14.write(ty, pretty, precision),
            _ => None,
        }
    }

    fn arg_is_numeric(&self, i: usize) -> (r: bool)
        ensures
            i == 0 ==> call_ensures(A::is_numeric, (&self.0,), r),
            i == 1 ==> call_ensures(B::is_numeric, (&self.1,), r),
            i == 2 ==> call_ensures(C::is_numeric, (&self.2,), r),
            i == 3 ==> call_ensures(D::is_numeric, (&self.3,), r),
            i == 4 ==> call_ensures(E::is_numeric, (&self.4,), r),
            i == 5 ==> call_ensures(F::is_numeric, (&self.5,), r),
            i == 6 ==> call_ensures(G::is_numeric, (&self.6,), r),
            i == 7 ==> call_ensures(H::is_numeric, (&self.7,), r),
            i == 8 ==> call_ensures(I::is_numeric, (&self.8,), r),
            i == 9 ==> call_ensures(J::is_numeric, (&self.9,), r),
            i == 10 ==> call_ensures(K::is_numeric, (&self.10,), r),
            i == 11 ==> call_ensures(L::is_numeric, (&self.11,), r),
            i == 12 ==> call_ensures(M::is_numeric, (&self.12,), r),
            i == 13 ==> call_ensures(N::is_numeric, (&self.13,), r),
            i == 14 ==> call_ensures(O::is_numeric, (&self.14,), r),
    {
        match i {
            0 => self.0.is_numeric(),
            1 => self.1.is_numeric(),
            2 => self.2.is_numeric(),
            3 => self.3.is_numeric(),
            4 => self.4.is_numeric(),
            5 => self.5.is_numeric(),
            6 => self.6.is_numeric(),
            7 => self.7.is_numeric(),
            8 => self.8.is_numeric(),
            9 => self.9.is_numeric(),
            10 => self.10.is_numeric(),
            11 => self.11.is_numeric(),
            12 => self.12.is_numeric(),
            13 => self.13.is_numeric(),
            14 => self.14.is_numeric(),
            _ => false,
        }
    }

    fn arg_as_usize(&self, i: usize) -> (r: Option<usize>)
        ensures
            i == 0 ==> call_ensures(A::as_usize, (&self.0,), r),
            i == 1 ==> call_ensures(B::as_usize, (&self.1,), r),
            i == 2 ==> call_ensures(C::as_usize, (&self.2,), r),
            i == 3 ==> call_ensures(D::as_usize, (&self.3,), r),
            i == 4 ==> call_ensures(E::as_usize, (&self.4,), r),
            i == 5 ==> call_ensures(F::as_usize, (&self.5,), r),
            i == 6 ==> call_ensures(G::as_usize, (&self.6,), r),
            i == 7 ==> call_ensures(H::as_usize, (&self.7,), r),
            i == 8 ==> call_ensures(I::as_usize, (&self.8,), r),
            i == 9 ==> call_ensures(J::as_usize, (&self.9,), r),
            i == 10 ==> call_ensures(K::as_usize, (&self.10,), r),
            i == 11 ==> call_ensures(L::as_usize, (&self.11,), r),
            i == 12 ==> call_ensures(M::as_usize, (&self.12,), r),
            i == 13 ==> call_ensures(N::as_usize, (&self.13,), r),
            i == 14 ==> call_ensures(O::as_usize, (&self.14,), r),
    {
        match i {
            0 => self.0.as_usize(),
            1 => self.1.as_usize(),
            2 => self.2.as_usize(),
            3 => self.3.as_usize(),
            4 => self.4.as_usize(),
            5 => self.5.as_usize(),
            6 => self.6.as_usize(),
            7 => self.7.as_usize(),
            8 => self.8.as_usize(),
            9 => self.9.as_usize(),
            10 => self.10.as_usize(),
            11 => self.11.as_usize(),
            12 => self.12.as_usize(),
            13 => self.13.as_usize(),
            14 => self.14.as_usize(),
            _ => None,
        }
    }
}

impl<A: FormatArg, B: FormatArg, C: FormatArg, D: FormatArg, E: FormatArg, F: FormatArg, G: FormatArg, H: FormatArg, I: FormatArg, J: FormatArg, K: FormatArg, L: FormatArg, M: FormatArg, N: FormatArg, O: FormatArg, P: FormatArg> FormatParam for (A, B, C, D, E, F, G, H, I, J, K, L, M, N, O, P) {
    open spec fn num_args(&self) -> nat {
        16
    }

    fn arg_count(&self) -> (r: usize) {
        16
    }

    fn arg_write(&self, i: usize, ty: FormatType, pretty: bool, precision: Option<usize>) -> (r: Option<String>)
        ensures
            i == 0 ==> call_ensures(A::write, (&self.0, ty, pretty, precision), r),
            i == 1 ==> call_ensures(B::write, (&self.1, ty, pretty, precision), r),
            i == 2 ==> call_ensures(C::write, (&self.2, ty, pretty, precision), r),
            i == 3 ==> call_ensures(D::write, (&self.3, ty, pretty, precision), r),
            i == 4 ==> call_ensures(E::write, (&self.4, ty, pretty, precision), r),
            i == 5 ==> call_ensures(F::write, (&self.5, ty, pretty, precision), r),
            i == 6 ==> call_ensures(G::write, (&self.6, ty, pretty, precision), r),
            i == 7 ==> call_ensures(H::write, (&self.7, ty, pretty, precision), r),
            i == 8 ==> call_ensures(I::write, (&self.8, ty, pretty, precision), r),
            i == 9 ==> call_ensures(J::write, (&self.9, ty, pretty, precision), r),
            i == 10 ==> call_ensures(K::write, (&self.10, ty, pretty, precision), r),
            i == 11 ==> call_ensures(L::write, (&self.11, ty, pretty, precision), r),
            i == 12 ==> call_ensures(M::write, (&self.12, ty, pretty, precision), r),
            i == 13 ==> call_ensures(N::write, (&self.13, ty, pretty, precision), r),
            i == 14 ==> call_ensures(O::write, (&self.14, ty, pretty, precision), r),
            i == 15 ==> call_ensures(P::write, (&self.15, ty, pretty, precision), r),
    {
        match i {
            0 => self.0.write(ty, pretty, precision),
            1 => self.1.write(ty, pretty, precision),
            2 => self.2.write(ty, pretty, precision),
            3 => self.3.write(ty, pretty, precision),
            4 => self.4.write(ty, pretty, precision),
            5 => self.5.write(ty, pretty, precision),
            6 => self.6.write(ty, pretty, precision),
            7 => self.7.write(ty, pretty, precision),
            8 => self.8.write(ty, pretty, precision),
            9 => self.9.write(ty, pretty, precision),
            10 => self.10.write(ty, pretty, precision),
            11 => self.11.write(ty, pretty, precision),
            12 => self.12.write(ty, pretty, precision),
            13 => self.13.write(ty, pretty, precision),
            14 => self.14.write(ty, pretty, precision),
            15 => self.15.write(ty, pretty, precision),
            _ => None,
        }
    }

    fn arg_is_numeric(&self, i: usize) -> (r: bool)
        ensures
            i == 0 ==> call_ensures(A::is_numeric, (&self.0,), r),
            i == 1 ==> call_ensures(B::is_numeric, (&self.1,), r),
            i == 2 ==> call_ensures(C::is_numeric, (&self.2,), r),
            i == 3 ==> call_ensures(D::is_numeric, (&self.3,), r),
            i == 4 ==> call_ensures(E::is_numeric, (&self.4,), r),
            i == 5 ==> call_ensures(F::is_numeric, (&self.5,), r),
            i == 6 ==> call_ensures(G::is_numeric, (&self.6,), r),
            i == 7 ==> call_ensures(H::is_numeric, (&self.7,), r),
            i == 8 ==> call_ensures(I::is_numeric, (&self.8,), r),
            i == 9 ==> call_ensures(J::is_numeric, (&self.9,), r),
            i == 10 ==> call_ensures(K::is_numeric, (&self.10,), r),
            i == 11 ==> call_ensures(L::is_numeric, (&self.11,), r),
            i == 12 ==> call_ensures(M::is_numeric, (&self.12,), r),
            i == 13 ==> call_ensures(N::is_numeric, (&self.13,), r),
            i == 14 ==> call_ensures(O::is_numeric, (&self.14,), r),
            i == 15 ==> call_ensures(P::is_numeric, (&self.15,), r),
    {
        match i {
            0 => self.0.is_numeric(),
            1 => self.1.is_numeric(),
            2 => self.2.is_numeric(),
            3 => self.3.is_numeric(),
            4 => self.4.is_numeric(),
            5 => self.5.is_numeric(),
            6 => self.6.is_numeric(),
            7 => self.7.is_numeric(),
            8 => self.8.is_numeric(),
            9 => self.9.is_numeric(),
            10 => self.10.is_numeric(),
            11 => self.11.is_numeric(),
            12 => self.12.is_numeric(),
            13 => self.13.is_numeric(),
            14 => self.14.is_numeric(),
            15 => self.15.is_numeric(),
            _ => false,
        }
    }

    fn arg_as_usize(&self, i: usize) -> (r: Option<usize>)
        ensures
            i == 0 ==> call_ensures(A::as_usize, (&self.0,), r),
            i == 1 ==> call_ensures(B::as_usize, (&self.1,), r),
            i == 2 ==> call_ensures(C::as_usize, (&self.2,), r),
            i == 3 ==> call_ensures(D::as_usize, (&self.3,), r),
            i == 4 ==> call_ensures(E::as_usize, (&self.4,), r),
            i == 5 ==> call_ensures(F::as_usize, (&self.5,), r),
            i == 6 ==> call_ensures(G::as_usize, (&self.6,), r),
            i == 7 ==> call_ensures(H::as_usize, (&self.7,), r),
            i == 8 ==> call_ensures(I::as_usize, (&self.8,), r),
            i == 9 ==> call_ensures(J::as_usize, (&self.9,), r),
            i == 10 ==> call_ensures(K::as_usize, (&self.10,), r),
            i == 11 ==> call_ensures(L::as_usize, (&self.11,), r),
            i == 12 ==> call_ensures(M::as_usize, (&self.12,), r),
            i == 13 ==> call_ensures(N::as_usize, (&self.13,), r),
            i == 14 ==> call_ensures(O::as_usize, (&self.14,), r),
            i == 15 ==> call_ensures(P::as_usize, (&self.15,), r),
    {
        match i {
            0 => self.0.as_usize(),
            1 => self.1.as_usize(),
            2 => self.2.as_usize(),
            3 => self.3.as_usize(),
            4 => self.4.as_usize(),
            5 => self.5.as_usize(),
            6 => self.6.as_usize(),
            7 => self.7.as_usize(),
            8 => self.8.as_usize(),
            9 => self.9.as_usize(),
            10 => self.10.as_usize(),
            11 => self.11.as_usize(),
            12 => self.12.as_usize(),
            13 => self.13.as_usize(),
            14 => self.14.as_usize(),
            15 => self.15.as_usize(),
            _ => None,
        }
    }
}

} // verus!
