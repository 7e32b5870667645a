//! Convenience re-exports of the most commonly used items.
pub use crate::{
    ArgSlot, Format, FormatArg, FormatBuilder, FormatError, FormatParam, FormatType, Sink,
    Template, Wrap,
};
