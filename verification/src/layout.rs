//! Window and widget layout settings parsed from the configuration:
//! the layer-shell layer, edge anchors, margins, box orientation, and
//! widget alignment.
//!
//! Keyword settings are matched case-insensitively: `"Top"`, `"TOP"` and
//! `"top"` all name the same layer.

use vstd::prelude::*;
use crate::dynamic::FromData;
use crate::error::ConvError;
use crate::text::{lower, str_eq_ignore_ascii_case};
use crate::value::DataValue;

verus! {

/// `s` and the keyword `kw` are the same word up to ASCII case.
pub open spec fn keyword_matches(s: Seq<char>, kw: Seq<char>) -> bool {
    lower(s) == lower(kw)
}

/// The layer of the desktop a window is placed on, bottom-most first.
#[derive(Clone, Copy, Debug, PartialEq, Eq, Structural)]
pub enum Layer {
    Background,
    Bottom,
    Top,
    Overlay,
}

/// The layer a keyword names.
pub open spec fn layer_of(s: Seq<char>) -> Option<Layer> {
    if keyword_matches(s, "background"@) {
        Some(Layer::Background)
    } else if keyword_matches(s, "bottom"@) {
        Some(Layer::Bottom)
    } else if keyword_matches(s, "top"@) {
        Some(Layer::Top)
    } else if keyword_matches(s, "overlay"@) {
        Some(Layer::Overlay)
    } else {
        None
    }
}

impl FromData for Layer {
    open spec fn parses(v: DataValue, t: Self) -> bool {
        v matches DataValue::Str(s) && layer_of(s@) == Some(t)
    }

    open spec fn parse_ok(v: DataValue) -> bool {
        v matches DataValue::Str(s) && layer_of(s@) is Some
    }

    open spec fn parse_err(v: DataValue) -> ConvError {
        if v is Str {
            ConvError::UnknownKeyword
        } else {
            ConvError::ExpectedString
        }
    }

    fn from_data(v: &DataValue) -> (r: Result<Self, ConvError>) {
        match v {
            DataValue::Str(s) => {
                if str_eq_ignore_ascii_case(s.as_str(), "background") {
                    Ok(Layer::Background)
                } else if str_eq_ignore_ascii_case(s.as_str(), "bottom") {
                    Ok(Layer::Bottom)
                } else if str_eq_ignore_ascii_case(s.as_str(), "top") {
                    Ok(Layer::Top)
                } else if str_eq_ignore_ascii_case(s.as_str(), "overlay") {
                    Ok(Layer::Overlay)
                } else {
                    Err(ConvError::UnknownKeyword)
                }
            }
            _ => Err(ConvError::ExpectedString),
        }
    }
}

/// The orientation of a container box.
#[derive(Clone, Copy, Debug, PartialEq, Eq, Structural)]
pub enum Orientation {
    Horizontal,
    Vertical,
}

/// The orientation a keyword names.
pub open spec fn orientation_of(s: Seq<char>) -> Option<Orientation> {
    if keyword_matches(s, "horizontal"@) {
        Some(Orientation::Horizontal)
    } else if keyword_matches(s, "vertical"@) {
        Some(Orientation::Vertical)
    } else {
        None
    }
}

impl FromData for Orientation {
    open spec fn parses(v: DataValue, t: Self) -> bool {
        v matches DataValue::Str(s) && orientation_of(s@) == Some(t)
    }

    open spec fn parse_ok(v: DataValue) -> bool {
        v matches DataValue::Str(s) && orientation_of(s@) is Some
    }

    open spec fn parse_err(v: DataValue) -> ConvError {
        if v is Str {
            ConvError::UnknownKeyword
        } else {
            ConvError::ExpectedString
        }
    }

    fn from_data(v: &DataValue) -> (r: Result<Self, ConvError>) {
        match v {
            DataValue::Str(s) => {
                if str_eq_ignore_ascii_case(s.as_str(), "horizontal") {
                    Ok(Orientation::Horizontal)
                } else if str_eq_ignore_ascii_case(s.as_str(), "vertical") {
                    Ok(Orientation::Vertical)
                } else {
                    Err(ConvError::UnknownKeyword)
                }
            }
            _ => Err(ConvError::ExpectedString),
        }
    }
}

/// How a widget aligns inside the space given to it.
#[derive(Clone, Copy, Debug, PartialEq, Eq, Structural)]
pub enum Alignment {
    Start,
    Center,
    End,
    Fill,
    Baseline,
}

/// The alignment a keyword names.
pub open spec fn alignment_of(s: Seq<char>) -> Option<Alignment> {
    if keyword_matches(s, "start"@) {
        Some(Alignment::Start)
    } else if keyword_matches(s, "center"@) {
        Some(Alignment::Center)
    } else if keyword_matches(s, "end"@) {
        Some(Alignment::End)
    } else if keyword_matches(s, "fill"@) {
        Some(Alignment::Fill)
    } else if keyword_matches(s, "baseline"@) {
        Some(Alignment::Baseline)
    } else {
        None
    }
}

impl FromData for Alignment {
    open spec fn parses(v: DataValue, t: Self) -> bool {
        v matches DataValue::Str(s) && alignment_of(s@) == Some(t)
    }

    open spec fn parse_ok(v: DataValue) -> bool {
        v matches DataValue::Str(s) && alignment_of(s@) is Some
    }

    open spec fn parse_err(v: DataValue) -> ConvError {
        if v is Str {
            ConvError::UnknownKeyword
        } else {
            ConvError::ExpectedString
        }
    }

    fn from_data(v: &DataValue) -> (r: Result<Self, ConvError>) {
        match v {
            DataValue::Str(s) => {
                if str_eq_ignore_ascii_case(s.as_str(), "start") {
                    Ok(Alignment::Start)
                } else if str_eq_ignore_ascii_case(s.as_str(), "center") {
                    Ok(Alignment::Center)
                } else if str_eq_ignore_ascii_case(s.as_str(), "end") {
                    Ok(Alignment::End)
                } else if str_eq_ignore_ascii_case(s.as_str(), "fill") {
                    Ok(Alignment::Fill)
                } else if str_eq_ignore_ascii_case(s.as_str(), "baseline") {
                    Ok(Alignment::Baseline)
                } else {
                    Err(ConvError::UnknownKeyword)
                }
            }
            _ => Err(ConvError::ExpectedString),
        }
    }
}

/// Which edges of the monitor the window sticks to.  An absent field means
/// the edge is not anchored.
#[derive(Clone, Copy, Debug, PartialEq, Eq, Structural)]
pub struct Anchors {
    pub top: bool,
    pub right: bool,
    pub bottom: bool,
    pub left: bool,
}

/// An optional boolean field: absent means `false`, a boolean is itself,
/// anything else is rejected.
pub open spec fn opt_bool_parses(fv: Option<DataValue>, b: bool) -> bool {
    match fv {
        None => !b,
        Some(DataValue::Nil) => !b,
        Some(DataValue::Bool(x)) => b == x,
        Some(_) => false,
    }
}

/// Whether an optional boolean field has an accepted shape.
pub open spec fn opt_bool_ok(fv: Option<DataValue>) -> bool {
    match fv {
        None => true,
        Some(DataValue::Nil) => true,
        Some(DataValue::Bool(_)) => true,
        Some(_) => false,
    }
}

impl FromData for Anchors {
    open spec fn parses(v: DataValue, t: Self) -> bool {
        &&& v matches DataValue::Table(fields)
        &&& opt_bool_parses(lookup_spec(v, "top"@), t.top)
        &&& opt_bool_parses(lookup_spec(v, "right"@), t.right)
        &&& opt_bool_parses(lookup_spec(v, "bottom"@), t.bottom)
        &&& opt_bool_parses(lookup_spec(v, "left"@), t.left)
    }

    open spec fn parse_ok(v: DataValue) -> bool {
        &&& v is Table
        &&& opt_bool_ok(lookup_spec(v, "top"@))
        &&& opt_bool_ok(lookup_spec(v, "right"@))
        &&& opt_bool_ok(lookup_spec(v, "bottom"@))
        &&& opt_bool_ok(lookup_spec(v, "left"@))
    }

    open spec fn parse_err(v: DataValue) -> ConvError {
        if v is Table {
            ConvError::ExpectedBool
        } else {
            ConvError::ExpectedTable
        }
    }

    fn from_data(v: &DataValue) -> (r: Result<Self, ConvError>) {
        match v {
            DataValue::Table(fields) => {
                let top = match opt_bool_field(fields, "top") {
                    Ok(b) => b,
                    Err(e) => {
                        return Err(e);
                    }
                };
                let right = match opt_bool_field(fields, "right") {
                    Ok(b) => b,
                    Err(e) => {
                        return Err(e);
                    }
                };
                let bottom = match opt_bool_field(fields, "bottom") {
                    Ok(b) => b,
                    Err(e) => {
                        return Err(e);
                    }
                };
                let left = match opt_bool_field(fields, "left") {
                    Ok(b) => b,
                    Err(e) => {
                        return Err(e);
                    }
                };
                Ok(Anchors { top, right, bottom, left })
            }
            _ => Err(ConvError::ExpectedTable),
        }
    }
}

/// The field of a table value, by name.
pub open spec fn lookup_spec(v: DataValue, name: Seq<char>) -> Option<DataValue> {
    match v {
        DataValue::Table(fields) => crate::value::lookup(fields@, name),
        _ => None,
    }
}

/// Reads an optional boolean field, defaulting to `false`.
fn opt_bool_field(fields: &Vec<(String, DataValue)>, name: &str) -> (r: Result<bool, ConvError>)
    ensures
        (match r {
            Ok(b) => opt_bool_parses(crate::value::lookup(fields@, name@), b),
            Err(e) => !opt_bool_ok(crate::value::lookup(fields@, name@))
                && e == ConvError::ExpectedBool,
        }),
{
    match crate::value::table_get(fields, name) {
        None => Ok(false),
        Some(DataValue::Nil) => Ok(false),
        Some(DataValue::Bool(b)) => Ok(*b),
        Some(_) => Err(ConvError::ExpectedBool),
    }
}

/// Pixel margins on each side of the window.  An absent field means no
/// margin on that side.
#[derive(Clone, Copy, Debug, PartialEq, Eq, Structural)]
pub struct Margins {
    pub top: i32,
    pub right: i32,
    pub bottom: i32,
    pub left: i32,
}

/// An optional pixel-count field: absent means `0`, an integer in `i32`
/// range is itself, anything else is rejected.
pub open spec fn opt_i32_parses(fv: Option<DataValue>, m: i32) -> bool {
    match fv {
        None => m == 0,
        Some(DataValue::Nil) => m == 0,
        Some(DataValue::Int(x)) => i32::MIN <= x <= i32::MAX && m as int == x as int,
        Some(_) => false,
    }
}

/// The error an optional pixel-count field produces, if any.
pub open spec fn opt_i32_err(fv: Option<DataValue>) -> Option<ConvError> {
    match fv {
        None => None,
        Some(DataValue::Nil) => None,
        Some(DataValue::Int(x)) => if i32::MIN <= x <= i32::MAX {
            None
        } else {
            Some(ConvError::IntOutOfRange)
        },
        Some(_) => Some(ConvError::ExpectedInt),
    }
}

impl FromData for Margins {
    open spec fn parses(v: DataValue, t: Self) -> bool {
        &&& v is Table
        &&& opt_i32_parses(lookup_spec(v, "top"@), t.top)
        &&& opt_i32_parses(lookup_spec(v, "right"@), t.right)
        &&& opt_i32_parses(lookup_spec(v, "bottom"@), t.bottom)
        &&& opt_i32_parses(lookup_spec(v, "left"@), t.left)
    }

    open spec fn parse_ok(v: DataValue) -> bool {
        &&& v is Table
        &&& opt_i32_err(lookup_spec(v, "top"@)) is None
        &&& opt_i32_err(lookup_spec(v, "right"@)) is None
        &&& opt_i32_err(lookup_spec(v, "bottom"@)) is None
        &&& opt_i32_err(lookup_spec(v, "left"@)) is None
    }

    /// Fields are checked in source order: top, right, bottom, left.
    open spec fn parse_err(v: DataValue) -> ConvError {
        if !(v is Table) {
            ConvError::ExpectedTable
        } else {
            match opt_i32_err(lookup_spec(v, "top"@)) {
                Some(e) => e,
                None => match opt_i32_err(lookup_spec(v, "right"@)) {
                    Some(e) => e,
                    None => match opt_i32_err(lookup_spec(v, "bottom"@)) {
                        Some(e) => e,
                        None => match opt_i32_err(lookup_spec(v, "left"@)) {
                            Some(e) => e,
                            None => ConvError::ExpectedInt,
                        },
                    },
                },
            }
        }
    }

    fn from_data(v: &DataValue) -> (r: Result<Self, ConvError>) {
        match v {
            DataValue::Table(fields) => {
                let top = match opt_i32_field(fields, "top") {
                    Ok(m) => m,
                    Err(e) => {
                        return Err(e);
                    }
                };
                let right = match opt_i32_field(fields, "right") {
                    Ok(m) => m,
                    Err(e) => {
                        return Err(e);
                    }
                };
                let bottom = match opt_i32_field(fields, "bottom") {
                    Ok(m) => m,
                    Err(e) => {
                        return Err(e);
                    }
                };
                let left = match opt_i32_field(fields, "left") {
                    Ok(m) => m,
                    Err(e) => {
                        return Err(e);
                    }
                };
                Ok(Margins { top, right, bottom, left })
            }
            _ => Err(ConvError::ExpectedTable),
        }
    }
}

/// Reads an optional pixel-count field, defaulting to `0`.
pub(crate) fn opt_i32_field(fields: &Vec<(String, DataValue)>, name: &str) -> (r: Result<i32, ConvError>)
    ensures
        (match r {
            Ok(m) => opt_i32_parses(crate::value::lookup(fields@, name@), m),
            Err(e) => Some(e) == opt_i32_err(crate::value::lookup(fields@, name@)),
        }),
{
    match crate::value::table_get(fields, name) {
        None => Ok(0),
        Some(DataValue::Nil) => Ok(0),
        Some(DataValue::Int(x)) => {
            if *x >= i32::MIN as i64 && *x <= i32::MAX as i64 {
                Ok(*x as i32)
            } else {
                Err(ConvError::IntOutOfRange)
            }
        }
        Some(_) => Err(ConvError::ExpectedInt),
    }
}

} // verus!
