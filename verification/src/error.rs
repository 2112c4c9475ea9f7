//! Configuration and conversion errors.
//!
//! Bad configuration is reported synchronously to whoever is parsing it and
//! aborts that parse; nothing in this taxonomy is ever silently defaulted.

use vstd::prelude::*;

verus! {

/// Why a script value could not be converted to the requested shape.
#[derive(Clone, Copy, Debug, PartialEq, Eq, Structural)]
pub enum ConvError {
    /// A table was required.
    ExpectedTable,
    /// A string was required.
    ExpectedString,
    /// A boolean was required.
    ExpectedBool,
    /// An integer was required.
    ExpectedInt,
    /// The integer does not fit the required range.
    IntOutOfRange,
    /// A list of strings was required.
    ExpectedStringList,
    /// A dynamic-value descriptor needs a `callback` function field.
    ExpectedCallback,
    /// An interval descriptor needs a non-negative integer `interval` field,
    /// in milliseconds.
    ExpectedInterval,
    /// A signal descriptor needs a `signal` field holding a signal name or a
    /// list of signal names.
    ExpectedSignalNames,
    /// The dynamic-value descriptor kind is neither `interval` nor `signal`.
    UnknownDynamicKind,
    /// A literal of the requested type or a dynamic-value descriptor was
    /// required.
    ExpectedLiteralOrDynamic,
    /// The keyword is not one of the recognized names for this setting.
    UnknownKeyword,
    /// The widget `type` field names no known widget kind.
    UnknownWidgetType,
    /// A button's `on_click` field needs a function.
    ExpectedFunction,
}

impl ConvError {
    /// The description of each error, fixed per variant.
    pub open spec fn message(&self) -> Seq<char> {
        match self {
            ConvError::ExpectedTable => "expected a table"@,
            ConvError::ExpectedString => "expected a string"@,
            ConvError::ExpectedBool => "expected a boolean"@,
            ConvError::ExpectedInt => "expected an integer"@,
            ConvError::IntOutOfRange => "integer value is out of range"@,
            ConvError::ExpectedStringList => "expected a string or a list of strings"@,
            ConvError::ExpectedCallback => "expected a 'callback' function field"@,
            ConvError::ExpectedInterval => "expected an integer 'interval' field in milliseconds"@,
            ConvError::ExpectedSignalNames => "expected a signal name or a list of signal names"@,
            ConvError::UnknownDynamicKind => "invalid dynamic value type (expected 'signal' or 'interval')"@,
            ConvError::ExpectedLiteralOrDynamic => "expected a literal or a dynamic value descriptor"@,
            ConvError::UnknownKeyword => "unrecognized keyword"@,
            ConvError::UnknownWidgetType => "unknown widget type"@,
            ConvError::ExpectedFunction => "expected a function for on_click"@,
        }
    }

    /// A human-readable description of the error, naming the expected
    /// shape.
    pub fn describe(&self) -> (r: &'static str)
        ensures
            r@ == self.message(),
    {
        match self {
            ConvError::ExpectedTable => "expected a table",
            ConvError::ExpectedString => "expected a string",
            ConvError::ExpectedBool => "expected a boolean",
            ConvError::ExpectedInt => "expected an integer",
            ConvError::IntOutOfRange => "integer value is out of range",
            ConvError::ExpectedStringList => "expected a string or a list of strings",
            ConvError::ExpectedCallback => "expected a 'callback' function field",
            ConvError::ExpectedInterval => "expected an integer 'interval' field in milliseconds",
            ConvError::ExpectedSignalNames => "expected a signal name or a list of signal names",
            ConvError::UnknownDynamicKind => "invalid dynamic value type (expected 'signal' or 'interval')",
            ConvError::ExpectedLiteralOrDynamic => "expected a literal or a dynamic value descriptor",
            ConvError::UnknownKeyword => "unrecognized keyword",
            ConvError::UnknownWidgetType => "unknown widget type",
            ConvError::ExpectedFunction => "expected a function for on_click",
        }
    }
}

} // verus!
