//! Dynamic values: a widget property is either a plain constant or a value
//! recomputed by a host callback, on a timer or on named signals.
//!
//! A property value arrives as a [`DataValue`].  A table carrying the
//! `__wayglance_dynamic` discriminator field is a dynamic-value descriptor
//! and is parsed by its `kind` into [`MaybeDynamic::Interval`] or
//! [`MaybeDynamic::Signal`]; any other value is parsed by the target type's
//! own rules into [`MaybeDynamic::Static`].

use vstd::prelude::*;
use crate::error::ConvError;
use crate::text::str_eq;
use crate::value::{DataValue, FuncKey, lookup};
use crate::value::table_get;

verus! {

/// Types that parse themselves out of a configuration value.
///
/// `parses` is the mathematical parsing relation, `parse_ok` says which
/// values parse at all, and `parse_err` names the error reported otherwise;
/// `from_data` is the executable parser, proved to decide exactly that
/// relation.
pub trait FromData: Sized {
    /// `t` is a correct parse of `v`.
    spec fn parses(v: DataValue, t: Self) -> bool;

    /// `v` parses successfully.
    spec fn parse_ok(v: DataValue) -> bool;

    /// The error reported when `v` does not parse.
    spec fn parse_err(v: DataValue) -> ConvError;

    /// Parses `v`, returning exactly the values and errors the parsing
    /// relation prescribes.
    fn from_data(v: &DataValue) -> (r: Result<Self, ConvError>)
        ensures
            r matches Ok(t) ==> Self::parse_ok(*v) && Self::parses(*v, t),
            r matches Err(e) ==> !Self::parse_ok(*v) && e == Self::parse_err(*v),
    ;
}

impl FromData for String {
    open spec fn parses(v: DataValue, t: Self) -> bool {
        v matches DataValue::Str(s) && t@ == s@
    }

    open spec fn parse_ok(v: DataValue) -> bool {
        v is Str
    }

    open spec fn parse_err(v: DataValue) -> ConvError {
        ConvError::ExpectedString
    }

    fn from_data(v: &DataValue) -> (r: Result<Self, ConvError>) {
        match v {
            DataValue::Str(s) => Ok(s.clone()),
            _ => Err(ConvError::ExpectedString),
        }
    }
}

impl FromData for bool {
    open spec fn parses(v: DataValue, t: Self) -> bool {
        v matches DataValue::Bool(b) && t == b
    }

    open spec fn parse_ok(v: DataValue) -> bool {
        v is Bool
    }

    open spec fn parse_err(v: DataValue) -> ConvError {
        ConvError::ExpectedBool
    }

    fn from_data(v: &DataValue) -> (r: Result<Self, ConvError>) {
        match v {
            DataValue::Bool(b) => Ok(*b),
            _ => Err(ConvError::ExpectedBool),
        }
    }
}

impl FromData for i64 {
    open spec fn parses(v: DataValue, t: Self) -> bool {
        v matches DataValue::Int(i) && t == i
    }

    open spec fn parse_ok(v: DataValue) -> bool {
        v is Int
    }

    open spec fn parse_err(v: DataValue) -> ConvError {
        ConvError::ExpectedInt
    }

    fn from_data(v: &DataValue) -> (r: Result<Self, ConvError>) {
        match v {
            DataValue::Int(i) => Ok(*i),
            _ => Err(ConvError::ExpectedInt),
        }
    }
}

impl FromData for i32 {
    open spec fn parses(v: DataValue, t: Self) -> bool {
        v matches DataValue::Int(i) && t as int == i as int
    }

    open spec fn parse_ok(v: DataValue) -> bool {
        v matches DataValue::Int(i) && i32::MIN <= i <= i32::MAX
    }

    open spec fn parse_err(v: DataValue) -> ConvError {
        if v is Int {
            ConvError::IntOutOfRange
        } else {
            ConvError::ExpectedInt
        }
    }

    fn from_data(v: &DataValue) -> (r: Result<Self, ConvError>) {
        match v {
            DataValue::Int(i) => {
                if *i >= i32::MIN as i64 && *i <= i32::MAX as i64 {
                    Ok(*i as i32)
                } else {
                    Err(ConvError::IntOutOfRange)
                }
            }
            _ => Err(ConvError::ExpectedInt),
        }
    }
}

impl FromData for Vec<String> {
    open spec fn parses(v: DataValue, t: Self) -> bool {
        &&& v matches DataValue::List(items)
        &&& t@.len() == items@.len()
        &&& forall|j: int|
            0 <= j < items@.len()
                ==> ((#[trigger] items@[j]) matches DataValue::Str(s) && t@[j]@ == s@)
    }

    open spec fn parse_ok(v: DataValue) -> bool {
        &&& v matches DataValue::List(items)
        &&& forall|j: int| 0 <= j < items@.len() ==> (#[trigger] items@[j]) is Str
    }

    open spec fn parse_err(v: DataValue) -> ConvError {
        ConvError::ExpectedStringList
    }

    #[verifier::loop_isolation(false)]
    fn from_data(v: &DataValue) -> (r: Result<Self, ConvError>) {
        match v {
            DataValue::List(items) => {
                let mut out: Vec<String> = Vec::new();
                let mut i: usize = 0;
                while i < items.len()
                    invariant
                        i <= items@.len(),
                        out@.len() == i,
                        forall|j: int|
                            0 <= j < i
                                ==> ((#[trigger] items@[j]) matches DataValue::Str(s)
                                    && out@[j]@ == s@),
                    decreases items@.len() - i,
                {
                    match &items[i] {
                        DataValue::Str(s) => out.push(s.clone()),
                        _ => {
                            proof {
                                assert(!(items@[i as int] is Str));
                            }
                            return Err(ConvError::ExpectedStringList);
                        }
                    }
                    i = i + 1;
                }
                Ok(out)
            }
            _ => Err(ConvError::ExpectedStringList),
        }
    }
}

impl<T: FromData> FromData for Option<T> {
    /// The absent value parses to `None`; anything else parses by `T`'s own
    /// rules.
    open spec fn parses(v: DataValue, t: Self) -> bool {
        if v is Nil {
            t is None
        } else {
            t matches Some(x) && T::parses(v, x)
        }
    }

    open spec fn parse_ok(v: DataValue) -> bool {
        v is Nil || T::parse_ok(v)
    }

    open spec fn parse_err(v: DataValue) -> ConvError {
        T::parse_err(v)
    }

    fn from_data(v: &DataValue) -> (r: Result<Self, ConvError>) {
        match v {
            DataValue::Nil => Ok(None),
            _ => {
                match T::from_data(v) {
                    Ok(t) => Ok(Some(t)),
                    Err(e) => Err(e),
                }
            }
        }
    }
}

/// A property value: either a plain constant, or a deferred computation
/// driven by a timer or by named signals.
pub enum MaybeDynamic<T> {
    /// A plain value of type `T`.
    Static(T),
    /// A value recomputed by the host callback behind `callback` every
    /// `interval` milliseconds.
    Interval { callback: FuncKey, interval: u64 },
    /// A value recomputed by the host callback behind `callback` whenever
    /// any of the named signals is emitted.
    Signal { callback: FuncKey, signals: Vec<String> },
}

/// The field of `v` called `name`, when `v` is a table.
pub open spec fn field(v: DataValue, name: Seq<char>) -> Option<DataValue> {
    match v {
        DataValue::Table(fields) => lookup(fields@, name),
        _ => None,
    }
}

/// Whether `v` is a dynamic-value descriptor: a table whose discriminator
/// field holds a string or a number.  (The script runtime renders a number
/// as its decimal text, so a number identifies a descriptor but can never
/// name a valid kind.)
pub open spec fn is_descriptor(v: DataValue) -> bool {
    match field(v, "__wayglance_dynamic"@) {
        Some(DataValue::Str(_)) => true,
        Some(DataValue::Int(_)) => true,
        _ => false,
    }
}

/// The descriptor kind named by the discriminator field: the string it
/// holds, or nothing for a number.
pub open spec fn descriptor_kind(v: DataValue) -> Option<Seq<char>>
    recommends
        is_descriptor(v),
{
    match field(v, "__wayglance_dynamic"@) {
        Some(DataValue::Str(s)) => Some(s@),
        _ => None,
    }
}

/// The views of a list of signal names.
pub open spec fn names_of(signals: Seq<String>) -> Seq<Seq<char>> {
    Seq::new(signals.len(), |j: int| signals[j]@)
}

/// The views of a list of name values; only used once every value is
/// known to be a string.
pub open spec fn list_names(items: Seq<DataValue>) -> Seq<Seq<char>> {
    Seq::new(
        items.len(),
        |j: int|
            match items[j] {
                DataValue::Str(s) => s@,
                _ => Seq::empty(),
            },
    )
}

/// `names` with every later repetition of a name removed: each name keeps
/// its first occurrence, in order.
pub open spec fn dedup_names(names: Seq<Seq<char>>) -> Seq<Seq<char>>
    decreases names.len(),
{
    if names.len() == 0 {
        Seq::empty()
    } else {
        let rest = dedup_names(names.drop_last());
        if rest.contains(names.last()) {
            rest
        } else {
            rest.push(names.last())
        }
    }
}

/// `signals` is the normalized form of a descriptor's `signal` field: one
/// name, or a list of names read as a set — duplicates are harmless and
/// are dropped, each name keeping its first position.
pub open spec fn signal_names_parse(fv: Option<DataValue>, signals: Vec<String>) -> bool {
    match fv {
        Some(DataValue::Str(s)) => signals@.len() == 1 && signals@[0]@ == s@,
        Some(DataValue::List(items)) => {
            &&& forall|j: int| 0 <= j < items@.len() ==> (#[trigger] items@[j]) is Str
            &&& names_of(signals@) == dedup_names(list_names(items@))
        },
        _ => false,
    }
}

/// Whether a descriptor's `signal` field has an accepted shape.
pub open spec fn signal_names_ok(fv: Option<DataValue>) -> bool {
    match fv {
        Some(DataValue::Str(_)) => true,
        Some(DataValue::List(items)) => forall|j: int|
            0 <= j < items@.len() ==> (#[trigger] items@[j]) is Str,
        _ => false,
    }
}

impl<T: FromData> FromData for MaybeDynamic<T> {
    /// A descriptor of kind `interval` parses to `Interval`, one of kind
    /// `signal` to `Signal`; every other value parses to `Static` by `T`'s
    /// own rules.
    open spec fn parses(v: DataValue, m: Self) -> bool {
        if is_descriptor(v) {
            if descriptor_kind(v) == Some("interval"@) {
                &&& m matches MaybeDynamic::Interval { callback, interval }
                &&& field(v, "callback"@) == Some(DataValue::Func(callback))
                &&& (field(v, "interval"@) matches Some(DataValue::Int(i)) && i >= 0
                    && interval as int == i as int)
            } else if descriptor_kind(v) == Some("signal"@) {
                &&& m matches MaybeDynamic::Signal { callback, signals }
                &&& field(v, "callback"@) == Some(DataValue::Func(callback))
                &&& signal_names_parse(field(v, "signal"@), signals)
            } else {
                false
            }
        } else {
            m matches MaybeDynamic::Static(t) && T::parses(v, t)
        }
    }

    open spec fn parse_ok(v: DataValue) -> bool {
        if is_descriptor(v) {
            if descriptor_kind(v) == Some("interval"@) {
                &&& field(v, "callback"@) matches Some(DataValue::Func(_))
                &&& field(v, "interval"@) matches Some(DataValue::Int(i)) && i >= 0
            } else if descriptor_kind(v) == Some("signal"@) {
                &&& field(v, "callback"@) matches Some(DataValue::Func(_))
                &&& signal_names_ok(field(v, "signal"@))
            } else {
                false
            }
        } else {
            T::parse_ok(v)
        }
    }

    open spec fn parse_err(v: DataValue) -> ConvError {
        if is_descriptor(v) {
            if descriptor_kind(v) == Some("interval"@) {
                if !(field(v, "callback"@) matches Some(DataValue::Func(_))) {
                    ConvError::ExpectedCallback
                } else {
                    ConvError::ExpectedInterval
                }
            } else if descriptor_kind(v) == Some("signal"@) {
                if !(field(v, "callback"@) matches Some(DataValue::Func(_))) {
                    ConvError::ExpectedCallback
                } else {
                    ConvError::ExpectedSignalNames
                }
            } else {
                ConvError::UnknownDynamicKind
            }
        } else {
            ConvError::ExpectedLiteralOrDynamic
        }
    }

    #[verifier::loop_isolation(false)]
    fn from_data(v: &DataValue) -> (r: Result<Self, ConvError>) {
        if let DataValue::Table(fields) = v {
            let disc = table_get(fields, "__wayglance_dynamic");
            if let Some(DataValue::Int(_)) = disc {
                return Err(ConvError::UnknownDynamicKind);
            }
            if let Some(DataValue::Str(kind)) = disc {
                if str_eq(kind.as_str(), "interval") {
                    let callback = match table_get(fields, "callback") {
                        Some(DataValue::Func(k)) => *k,
                        _ => {
                            return Err(ConvError::ExpectedCallback);
                        }
                    };
                    let interval = match table_get(fields, "interval") {
                        Some(DataValue::Int(i)) => {
                            if *i >= 0 {
                                *i as u64
                            } else {
                                return Err(ConvError::ExpectedInterval);
                            }
                        }
                        _ => {
                            return Err(ConvError::ExpectedInterval);
                        }
                    };
                    return Ok(MaybeDynamic::Interval { callback, interval });
                } else if str_eq(kind.as_str(), "signal") {
                    let callback = match table_get(fields, "callback") {
                        Some(DataValue::Func(k)) => *k,
                        _ => {
                            return Err(ConvError::ExpectedCallback);
                        }
                    };
                    let signals: Vec<String> = match table_get(fields, "signal") {
                        Some(DataValue::Str(s)) => {
                            let mut one: Vec<String> = Vec::new();
                            one.push(s.clone());
                            one
                        }
                        Some(DataValue::List(items)) => {
                            let mut out: Vec<String> = Vec::new();
                            let mut i: usize = 0;
                            proof {
                                assert(list_names(items@.take(0)) =~= Seq::<Seq<char>>::empty());
                                assert(names_of(out@) =~= dedup_names(
                                    list_names(items@.take(0)),
                                ));
                            }
                            while i < items.len()
                                invariant
                                    i <= items@.len(),
                                    forall|j: int| 0 <= j < i ==> (#[trigger] items@[j]) is Str,
                                    names_of(out@) == dedup_names(
                                        list_names(items@.take(i as int)),
                                    ),
                                decreases items@.len() - i,
                            {
                                let ghost prefix = list_names(items@.take(i as int));
                                let ghost next = list_names(items@.take(i + 1 as int));
                                proof {
                                    assert(next.drop_last() =~= prefix);
                                }
                                match &items[i] {
                                    DataValue::Str(s) => {
                                        proof {
                                            assert(next.last() == s@);
                                        }
                                        let mut dup = false;
                                        let mut k: usize = 0;
                                        while k < out.len()
                                            invariant
                                                k <= out@.len(),
                                                dup == exists|j: int|
                                                    0 <= j < k && (#[trigger] out@[j])@ == s@,
                                            decreases out@.len() - k,
                                        {
                                            if str_eq(out[k].as_str(), s.as_str()) {
                                                dup = true;
                                            }
                                            k = k + 1;
                                        }
                                        proof {
                                            if dup {
                                                let j = choose|j: int|
                                                    0 <= j < out@.len() && (#[trigger] out@[j])@
                                                        == s@;
                                                assert(names_of(out@)[j] == s@);
                                                assert(names_of(out@).contains(s@));
                                            } else if names_of(out@).contains(s@) {
                                                let j = choose|j: int|
                                                    0 <= j < names_of(out@).len()
                                                        && names_of(out@)[j] == s@;
                                                assert(out@[j]@ == s@);
                                                assert(false);
                                            }
                                        }
                                        if !dup {
                                            out.push(s.clone());
                                        }
                                        proof {
                                            assert(names_of(out@) =~= dedup_names(next));
                                        }
                                    }
                                    _ => {
                                        proof {
                                            assert(!(items@[i as int] is Str));
                                        }
                                        return Err(ConvError::ExpectedSignalNames);
                                    }
                                }
                                i = i + 1;
                            }
                            proof {
                                assert(items@.take(items@.len() as int) =~= items@);
                            }
                            out
                        }
                        _ => {
                            return Err(ConvError::ExpectedSignalNames);
                        }
                    };
                    return Ok(MaybeDynamic::Signal { callback, signals });
                } else {
                    return Err(ConvError::UnknownDynamicKind);
                }
            }
        }
        match T::from_data(v) {
            Ok(t) => Ok(MaybeDynamic::Static(t)),
            Err(_) => Err(ConvError::ExpectedLiteralOrDynamic),
        }
    }
}


/// Round trip for plain values: a value that is not a dynamic-value
/// descriptor parses to `Static`, and for strings the parsed value
/// re-derives the original scalar exactly.
pub proof fn lemma_static_string_round_trip(v: DataValue, m: MaybeDynamic<String>)
    requires
        !is_descriptor(v),
        <MaybeDynamic<String> as FromData>::parses(v, m),
    ensures
        m matches MaybeDynamic::Static(t) && (v matches DataValue::Str(s) && t@ == s@),
{
}

/// Round trip for interval descriptors: the period written in the
/// descriptor is the period of the parsed value, millisecond for
/// millisecond.
pub proof fn lemma_interval_period_round_trip<T: FromData>(
    v: DataValue,
    m: MaybeDynamic<T>,
    ms: i64,
)
    requires
        is_descriptor(v),
        descriptor_kind(v) == Some("interval"@),
        <MaybeDynamic<T> as FromData>::parses(v, m),
        field(v, "interval"@) == Some(DataValue::Int(ms)),
    ensures
        m matches MaybeDynamic::Interval { interval, .. } && interval as int == ms as int,
{
}

} // verus!
