//! Runtime string formatting with `std::fmt`-compatible placeholder syntax.
//!
//! - `{}` implicit positional arguments; `{0}` / `{1}` explicit indices (reusable)
//! - Types: `{:?}` `{:#?}` `{:x}` `{:X}` `{:o}` `{:b}` `{:e}` `{:E}`
//! - Alignment and fill: `{:<10}` `{:>10}` `{:^10}` `{:_>10}`
//! - Sign / radix prefix / zero padding: `{:+}` `{:#x}` `{:010}`
//! - Width and precision: `{:.3}` `{:1$}` `{:.1$}` (`n$` takes the width/precision from argument `n`)
//! - `{{` / `}}` escapes
//!
//! Not supported: named arguments `{name}`, pointers `{:p}`, hexadecimal
//! debug `{x?}` / `{X?}`.
#![allow(unused_imports)]

use vstd::prelude::*;

pub mod __private;
pub mod arg;
pub mod builder;
pub mod engine;
pub mod error;
pub mod format;
pub mod int_fmt;
pub mod laws;
pub mod param;
pub mod placeholder;
pub mod prelude;
pub mod sink;
pub mod strings;
pub mod template;

pub use __private::{DebugFallback, DisplayFallback, FmtAbsent, Wrap};
pub use arg::{ArgSlot, FormatArg, FormatType};
pub use builder::{FormatArgRef, FormatBuilder};
pub use error::FormatError;
pub use format::Format;
pub use param::FormatParam;
pub use sink::Sink;
pub use template::Template;
