//! The unrecoverable conditions of a migration pass. Every one of them
//! aborts the pass that met it: there is no retry and no partial-result
//! salvage, since recovery is left to version control.

use vstd::prelude::*;

verus! {

/// Why a migration pass had to stop.
#[derive(Clone, Copy, Debug, PartialEq, Eq, Structural)]
pub enum MigrateError {
    /// A compiler message carried no spans, so it has no primary span.
    MissingPrimarySpan,
    /// The primary span of a compiler message carried no text excerpt.
    MissingSpanText,
    /// A default-fill line's diagnostic has no child message to draw the
    /// explicit type from.
    MissingChildMessage,
    /// The first child message holds no angle-bracket pair to capture a
    /// type name from.
    MissingTypeCapture,
}

} // verus!
