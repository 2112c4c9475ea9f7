//! The widget tree described by the configuration: buttons, containers and
//! labels, each with a table of common properties that may be static or
//! dynamic.
//!
//! Building the actual GUI objects is the host's job; this module parses
//! the tree and, for the common properties, plans which values are applied
//! immediately and which become interval bindings.

use vstd::prelude::*;
use crate::dynamic::{FromData, MaybeDynamic};
use crate::error::ConvError;
use crate::layout::{Alignment, Orientation};
use crate::value::{DataValue, FuncKey, lookup, table_get};

verus! {

/// Properties shared by every widget kind.  Each one may be a constant or
/// a dynamic value; an absent field falls back to its default constant.
pub struct Properties {
    /// The widget's name, used for CSS matching.
    pub id: MaybeDynamic<Option<String>>,
    /// The widget's CSS classes.
    pub class_list: MaybeDynamic<Vec<String>>,
    /// Horizontal alignment.
    pub halign: MaybeDynamic<Option<Alignment>>,
    /// Vertical alignment.
    pub valign: MaybeDynamic<Option<Alignment>>,
    /// Whether the widget asks for extra horizontal space.
    pub hexpand: MaybeDynamic<bool>,
    /// Whether the widget asks for extra vertical space.
    pub vexpand: MaybeDynamic<bool>,
}

/// The field of a table's field list, with absence read as the nil value.
pub open spec fn field_or_nil(fields: Seq<(String, DataValue)>, name: Seq<char>) -> DataValue {
    match lookup(fields, name) {
        Some(x) => x,
        None => DataValue::Nil,
    }
}

/// One property field parses to `m`: an absent or nil field is the
/// default, anything else follows the dynamic-value rules.
pub open spec fn prop_parses<T: FromData>(
    fields: Seq<(String, DataValue)>,
    name: Seq<char>,
    m: MaybeDynamic<T>,
    is_default: bool,
) -> bool {
    if field_or_nil(fields, name) is Nil {
        is_default
    } else {
        <MaybeDynamic<T> as FromData>::parses(field_or_nil(fields, name), m)
    }
}

/// One property field has an accepted shape.
pub open spec fn prop_ok<T: FromData>(fields: Seq<(String, DataValue)>, name: Seq<char>) -> bool {
    field_or_nil(fields, name) is Nil || <MaybeDynamic<T> as FromData>::parse_ok(
        field_or_nil(fields, name),
    )
}

/// The error one property field produces, if any.
pub open spec fn prop_err<T: FromData>(fields: Seq<(String, DataValue)>, name: Seq<char>) -> Option<
    ConvError,
> {
    if prop_ok::<T>(fields, name) {
        None
    } else {
        Some(<MaybeDynamic<T> as FromData>::parse_err(field_or_nil(fields, name)))
    }
}

impl Properties {
    /// `p` is the parse of the property fields of a widget table.
    pub open spec fn parses(fields: Seq<(String, DataValue)>, p: Properties) -> bool {
        &&& prop_parses(fields, "id"@, p.id, p.id matches MaybeDynamic::Static(d) && d is None)
        &&& prop_parses(
            fields,
            "class_list"@,
            p.class_list,
            p.class_list matches MaybeDynamic::Static(d) && d@.len() == 0,
        )
        &&& prop_parses(
            fields,
            "halign"@,
            p.halign,
            p.halign matches MaybeDynamic::Static(d) && d is None,
        )
        &&& prop_parses(
            fields,
            "valign"@,
            p.valign,
            p.valign matches MaybeDynamic::Static(d) && d is None,
        )
        &&& prop_parses(
            fields,
            "hexpand"@,
            p.hexpand,
            p.hexpand matches MaybeDynamic::Static(d) && d == false,
        )
        &&& prop_parses(
            fields,
            "vexpand"@,
            p.vexpand,
            p.vexpand matches MaybeDynamic::Static(d) && d == false,
        )
    }

    /// All property fields have accepted shapes.
    pub open spec fn parse_ok(fields: Seq<(String, DataValue)>) -> bool {
        &&& prop_ok::<Option<String>>(fields, "id"@)
        &&& prop_ok::<Vec<String>>(fields, "class_list"@)
        &&& prop_ok::<Option<Alignment>>(fields, "halign"@)
        &&& prop_ok::<Option<Alignment>>(fields, "valign"@)
        &&& prop_ok::<bool>(fields, "hexpand"@)
        &&& prop_ok::<bool>(fields, "vexpand"@)
    }

    /// The first property error, in field order: id, class_list, halign,
    /// valign, hexpand, vexpand.
    pub open spec fn parse_err(fields: Seq<(String, DataValue)>) -> ConvError {
        match prop_err::<Option<String>>(fields, "id"@) {
            Some(e) => e,
            None => match prop_err::<Vec<String>>(fields, "class_list"@) {
                Some(e) => e,
                None => match prop_err::<Option<Alignment>>(fields, "halign"@) {
                    Some(e) => e,
                    None => match prop_err::<Option<Alignment>>(fields, "valign"@) {
                        Some(e) => e,
                        None => match prop_err::<bool>(fields, "hexpand"@) {
                            Some(e) => e,
                            None => match prop_err::<bool>(fields, "vexpand"@) {
                                Some(e) => e,
                                None => ConvError::ExpectedTable,
                            },
                        },
                    },
                },
            },
        }
    }

    /// Parses the property fields of a widget table.
    pub fn parse(fields: &Vec<(String, DataValue)>) -> (r: Result<Properties, ConvError>)
        ensures
            (match r {
                Ok(p) => Properties::parse_ok(fields@) && Properties::parses(fields@, p),
                Err(e) => !Properties::parse_ok(fields@) && e == Properties::parse_err(fields@),
            }),
    {
        let id = match prop_field::<Option<String>>(fields, "id") {
            Ok(m) => m,
            Err(e) => {
                return Err(e);
            }
        };
        let id = match id {
            Some(m) => m,
            None => MaybeDynamic::Static(None),
        };
        let class_list = match prop_field::<Vec<String>>(fields, "class_list") {
            Ok(m) => m,
            Err(e) => {
                return Err(e);
            }
        };
        let class_list = match class_list {
            Some(m) => m,
            None => MaybeDynamic::Static(Vec::new()),
        };
        let halign = match prop_field::<Option<Alignment>>(fields, "halign") {
            Ok(m) => m,
            Err(e) => {
                return Err(e);
            }
        };
        let halign = match halign {
            Some(m) => m,
            None => MaybeDynamic::Static(None),
        };
        let valign = match prop_field::<Option<Alignment>>(fields, "valign") {
            Ok(m) => m,
            Err(e) => {
                return Err(e);
            }
        };
        let valign = match valign {
            Some(m) => m,
            None => MaybeDynamic::Static(None),
        };
        let hexpand = match prop_field::<bool>(fields, "hexpand") {
            Ok(m) => m,
            Err(e) => {
                return Err(e);
            }
        };
        let hexpand = match hexpand {
            Some(m) => m,
            None => MaybeDynamic::Static(false),
        };
        let vexpand = match prop_field::<bool>(fields, "vexpand") {
            Ok(m) => m,
            Err(e) => {
                return Err(e);
            }
        };
        let vexpand = match vexpand {
            Some(m) => m,
            None => MaybeDynamic::Static(false),
        };
        Ok(Properties { id, class_list, halign, valign, hexpand, vexpand })
    }
}

/// Reads one property field; `None` means the field is absent or nil and
/// the caller's default applies.
fn prop_field<T: FromData>(fields: &Vec<(String, DataValue)>, name: &str) -> (r: Result<
    Option<MaybeDynamic<T>>,
    ConvError,
>)
    ensures
        (match r {
            Ok(Some(m)) => !(field_or_nil(fields@, name@) is Nil) && prop_ok::<T>(fields@, name@)
                && <MaybeDynamic<T> as FromData>::parses(field_or_nil(fields@, name@), m),
            Ok(None) => field_or_nil(fields@, name@) is Nil,
            Err(e) => Some(e) == prop_err::<T>(fields@, name@),
        }),
{
    let nilv = DataValue::Nil;
    let fv: &DataValue = match table_get(fields, name) {
        Some(x) => x,
        None => &nilv,
    };
    match fv {
        DataValue::Nil => Ok(None),
        _ => {
            match <MaybeDynamic<T> as FromData>::from_data(fv) {
                Ok(m) => Ok(Some(m)),
                Err(e) => Err(e),
            }
        }
    }
}

/// What the host must do for one property when a widget is built: set a
/// constant now, start an interval or signal binding, or nothing.
pub enum PropAction<T> {
    /// Assign this value to the property now.
    Assign(T),
    /// Evaluate the callback and bind it on a timer, as
    /// [`crate::binding::Reactor::bind_interval`] prescribes.
    BindInterval { callback: FuncKey, interval: u64 },
    /// Evaluate the callback once now and on every emission of the named
    /// signals, as [`crate::binding::Reactor::bind_signal`] prescribes.
    BindSignal { callback: FuncKey, signals: Vec<String> },
    /// Leave the property alone.
    Keep,
}

/// The plan [`Properties::apply`] hands the host: one action per property.
pub struct PropertyPlan {
    pub id: PropAction<String>,
    pub class_list: PropAction<Vec<String>>,
    pub halign: PropAction<Alignment>,
    pub valign: PropAction<Alignment>,
    pub hexpand: PropAction<bool>,
    pub vexpand: PropAction<bool>,
}

/// The action for an optional property: a present constant is set, an
/// absent one leaves the property alone, and a dynamic value binds
/// through its timer or its signals.
pub open spec fn opt_action_for<T>(m: MaybeDynamic<Option<T>>, a: PropAction<T>) -> bool {
    match m {
        MaybeDynamic::Static(Some(x)) => a == PropAction::Assign(x),
        MaybeDynamic::Static(None) => a is Keep,
        MaybeDynamic::Interval { callback, interval } => a == (PropAction::<T>::BindInterval {
            callback,
            interval,
        }),
        MaybeDynamic::Signal { callback, signals } => a == (PropAction::<T>::BindSignal {
            callback,
            signals,
        }),
    }
}

/// The action for a required property: its constant is always set, and a
/// dynamic value binds through its timer or its signals.
pub open spec fn action_for<T>(m: MaybeDynamic<T>, a: PropAction<T>) -> bool {
    match m {
        MaybeDynamic::Static(x) => a == PropAction::Assign(x),
        MaybeDynamic::Interval { callback, interval } => a == (PropAction::<T>::BindInterval {
            callback,
            interval,
        }),
        MaybeDynamic::Signal { callback, signals } => a == (PropAction::<T>::BindSignal {
            callback,
            signals,
        }),
    }
}

impl Properties {
    /// Plans the application of these properties to a freshly built
    /// widget: constants are set now, interval values become interval
    /// bindings, signal values become signal bindings, and absent
    /// optional values leave the widget's defaults in place.
    pub fn apply(self) -> (plan: PropertyPlan)
        ensures
            opt_action_for(self.id, plan.id),
            action_for(self.class_list, plan.class_list),
            opt_action_for(self.halign, plan.halign),
            opt_action_for(self.valign, plan.valign),
            action_for(self.hexpand, plan.hexpand),
            action_for(self.vexpand, plan.vexpand),
    {
        let id = match self.id {
            MaybeDynamic::Static(Some(x)) => PropAction::Assign(x),
            MaybeDynamic::Static(None) => PropAction::Keep,
            MaybeDynamic::Interval { callback, interval } => PropAction::BindInterval {
                callback,
                interval,
            },
            MaybeDynamic::Signal { callback, signals } => PropAction::BindSignal {
                callback,
                signals,
            },
        };
        let class_list = match self.class_list {
            MaybeDynamic::Static(x) => PropAction::Assign(x),
            MaybeDynamic::Interval { callback, interval } => PropAction::BindInterval {
                callback,
                interval,
            },
            MaybeDynamic::Signal { callback, signals } => PropAction::BindSignal {
                callback,
                signals,
            },
        };
        let halign = match self.halign {
            MaybeDynamic::Static(Some(x)) => PropAction::Assign(x),
            MaybeDynamic::Static(None) => PropAction::Keep,
            MaybeDynamic::Interval { callback, interval } => PropAction::BindInterval {
                callback,
                interval,
            },
            MaybeDynamic::Signal { callback, signals } => PropAction::BindSignal {
                callback,
                signals,
            },
        };
        let valign = match self.valign {
            MaybeDynamic::Static(Some(x)) => PropAction::Assign(x),
            MaybeDynamic::Static(None) => PropAction::Keep,
            MaybeDynamic::Interval { callback, interval } => PropAction::BindInterval {
                callback,
                interval,
            },
            MaybeDynamic::Signal { callback, signals } => PropAction::BindSignal {
                callback,
                signals,
            },
        };
        let hexpand = match self.hexpand {
            MaybeDynamic::Static(x) => PropAction::Assign(x),
            MaybeDynamic::Interval { callback, interval } => PropAction::BindInterval {
                callback,
                interval,
            },
            MaybeDynamic::Signal { callback, signals } => PropAction::BindSignal {
                callback,
                signals,
            },
        };
        let vexpand = match self.vexpand {
            MaybeDynamic::Static(x) => PropAction::Assign(x),
            MaybeDynamic::Interval { callback, interval } => PropAction::BindInterval {
                callback,
                interval,
            },
            MaybeDynamic::Signal { callback, signals } => PropAction::BindSignal {
                callback,
                signals,
            },
        };
        PropertyPlan { id, class_list, halign, valign, hexpand, vexpand }
    }
}


/// A clickable button: a child widget and a script callback run on click.
pub struct Button {
    pub properties: Properties,
    /// The host callback invoked when the button is clicked.
    pub on_click: FuncKey,
    pub child: Box<Widget>,
}

/// A box laying its children out along one orientation.
pub struct Container {
    pub properties: Properties,
    pub orientation: Orientation,
    /// Pixels between adjacent children.
    pub spacing: i32,
    pub children: Vec<Widget>,
}

/// A piece of text, possibly dynamic.
pub struct Label {
    pub properties: Properties,
    pub text: MaybeDynamic<String>,
}

/// A widget definition: a table whose `type` field names the kind.
pub enum Widget {
    Button(Button),
    Container(Container),
    Label(Label),
}

/// Every value of a widget list parses successfully, from position `k` on.
pub open spec fn children_list_ok(items: Seq<DataValue>, k: int) -> bool
    decreases items, items.len() - k,
{
    if k < 0 || k >= items.len() {
        true
    } else {
        widget_parse_ok(items[k]) && children_list_ok(items, k + 1)
    }
}

/// Whether `v` is a well-formed widget definition.
pub open spec fn widget_parse_ok(v: DataValue) -> bool
    decreases v, 0int,
    via widget_parse_ok_dec
{
    match v {
        DataValue::Table(fields) => match lookup(fields@, "type"@) {
            Some(DataValue::Str(ty)) => if ty@ == "button"@ {
                &&& lookup(fields@, "on_click"@) matches Some(DataValue::Func(_))
                &&& Properties::parse_ok(fields@)
                &&& match lookup(fields@, "child"@) {
                    Some(cv) => widget_parse_ok(cv),
                    None => false,
                }
            } else if ty@ == "container"@ {
                &&& Properties::parse_ok(fields@)
                &&& Orientation::parse_ok(field_or_nil(fields@, "orientation"@))
                &&& crate::layout::opt_i32_err(lookup(fields@, "spacing"@)) is None
                &&& match lookup(fields@, "children"@) {
                    None => true,
                    Some(DataValue::Nil) => true,
                    Some(DataValue::List(items)) => children_list_ok(items@, 0),
                    Some(_) => false,
                }
            } else if ty@ == "label"@ {
                &&& Properties::parse_ok(fields@)
                &&& <MaybeDynamic<String> as FromData>::parse_ok(field_or_nil(fields@, "text"@))
            } else {
                false
            },
            _ => false,
        },
        _ => false,
    }
}

#[via_fn]
proof fn widget_parse_ok_dec(v: DataValue) {
    crate::value::lemma_field_decreases(v, "child"@);
    crate::value::lemma_field_list_decreases(v, "children"@);
}

/// The widgets of `ws` are the parses of the values of `items`, from
/// position `k` on.
pub open spec fn children_parses(items: Seq<DataValue>, ws: Seq<Widget>, k: int) -> bool
    decreases items, items.len() - k,
{
    if k < 0 || k >= items.len() {
        true
    } else {
        widget_parses(items[k], ws[k]) && children_parses(items, ws, k + 1)
    }
}

/// `w` is the parse of the widget definition `v`.
pub open spec fn widget_parses(v: DataValue, w: Widget) -> bool
    decreases v, 0int,
    via widget_parses_dec
{
    match v {
        DataValue::Table(fields) => match lookup(fields@, "type"@) {
            Some(DataValue::Str(ty)) => if ty@ == "button"@ {
                &&& w matches Widget::Button(b)
                &&& (lookup(fields@, "on_click"@) matches Some(DataValue::Func(k))
                    && b.on_click == k)
                &&& Properties::parses(fields@, b.properties)
                &&& match lookup(fields@, "child"@) {
                    Some(cv) => widget_parses(cv, *b.child),
                    None => false,
                }
            } else if ty@ == "container"@ {
                &&& w matches Widget::Container(c)
                &&& Properties::parses(fields@, c.properties)
                &&& Orientation::parses(field_or_nil(fields@, "orientation"@), c.orientation)
                &&& crate::layout::opt_i32_parses(lookup(fields@, "spacing"@), c.spacing)
                &&& match lookup(fields@, "children"@) {
                    None => c.children@.len() == 0,
                    Some(DataValue::Nil) => c.children@.len() == 0,
                    Some(DataValue::List(items)) => c.children@.len() == items@.len()
                        && children_parses(items@, c.children@, 0),
                    Some(_) => false,
                }
            } else if ty@ == "label"@ {
                &&& w matches Widget::Label(l)
                &&& Properties::parses(fields@, l.properties)
                &&& <MaybeDynamic<String> as FromData>::parses(
                    field_or_nil(fields@, "text"@),
                    l.text,
                )
            } else {
                false
            },
            _ => false,
        },
        _ => false,
    }
}

#[via_fn]
proof fn widget_parses_dec(v: DataValue, w: Widget) {
    crate::value::lemma_field_decreases(v, "child"@);
    crate::value::lemma_field_list_decreases(v, "children"@);
}

/// The error of the first failing value of a widget list, from position
/// `k` on.
pub open spec fn children_err(items: Seq<DataValue>, k: int) -> ConvError
    decreases items, items.len() - k,
{
    if k < 0 || k >= items.len() {
        ConvError::ExpectedTable
    } else if !widget_parse_ok(items[k]) {
        widget_parse_err(items[k])
    } else {
        children_err(items, k + 1)
    }
}

/// The error reported for a bad widget definition.  Fields are checked in
/// the order the table is read: the widget kind first, then
/// per kind — a button's click handler, properties, child; a container's
/// properties, orientation, spacing, children; a label's properties, text.
pub open spec fn widget_parse_err(v: DataValue) -> ConvError
    decreases v, 0int,
    via widget_parse_err_dec
{
    match v {
        DataValue::Table(fields) => match lookup(fields@, "type"@) {
            Some(DataValue::Str(ty)) => if ty@ == "button"@ {
                if !(lookup(fields@, "on_click"@) matches Some(DataValue::Func(_))) {
                    ConvError::ExpectedFunction
                } else if !Properties::parse_ok(fields@) {
                    Properties::parse_err(fields@)
                } else {
                    match lookup(fields@, "child"@) {
                        Some(cv) => if !widget_parse_ok(cv) {
                            widget_parse_err(cv)
                        } else {
                            ConvError::ExpectedTable
                        },
                        None => ConvError::ExpectedTable,
                    }
                }
            } else if ty@ == "container"@ {
                if !Properties::parse_ok(fields@) {
                    Properties::parse_err(fields@)
                } else if !Orientation::parse_ok(field_or_nil(fields@, "orientation"@)) {
                    Orientation::parse_err(field_or_nil(fields@, "orientation"@))
                } else if crate::layout::opt_i32_err(lookup(fields@, "spacing"@)) is Some {
                    crate::layout::opt_i32_err(lookup(fields@, "spacing"@))->Some_0
                } else {
                    match lookup(fields@, "children"@) {
                        None => ConvError::ExpectedTable,
                        Some(DataValue::Nil) => ConvError::ExpectedTable,
                        Some(DataValue::List(items)) => children_err(items@, 0),
                        Some(_) => ConvError::ExpectedTable,
                    }
                }
            } else if ty@ == "label"@ {
                if !Properties::parse_ok(fields@) {
                    Properties::parse_err(fields@)
                } else {
                    <MaybeDynamic<String> as FromData>::parse_err(
                        field_or_nil(fields@, "text"@),
                    )
                }
            } else {
                ConvError::UnknownWidgetType
            },
            _ => ConvError::ExpectedString,
        },
        _ => ConvError::ExpectedTable,
    }
}

#[via_fn]
proof fn widget_parse_err_dec(v: DataValue) {
    crate::value::lemma_field_decreases(v, "child"@);
    crate::value::lemma_field_list_decreases(v, "children"@);
}

impl FromData for Widget {
    open spec fn parses(v: DataValue, w: Self) -> bool {
        widget_parses(v, w)
    }

    open spec fn parse_ok(v: DataValue) -> bool {
        widget_parse_ok(v)
    }

    open spec fn parse_err(v: DataValue) -> ConvError {
        widget_parse_err(v)
    }

    fn from_data(v: &DataValue) -> (r: Result<Self, ConvError>) {
        widget_from_data(v)
    }
}

/// All widgets up to `k` parse; so the list's first error, if any, is at
/// or after `k`.
proof fn lemma_children_err_at(items: Seq<DataValue>, k: int)
    requires
        0 <= k < items.len(),
        forall|j: int| 0 <= j < k ==> widget_parse_ok(#[trigger] items[j]),
        !widget_parse_ok(items[k]),
    ensures
        !children_list_ok(items, 0),
        children_err(items, 0) == widget_parse_err(items[k]),
    decreases k,
{
    lemma_children_err_at_from(items, 0, k);
}

/// Helper for [`lemma_children_err_at`], starting from position `i`.
proof fn lemma_children_err_at_from(items: Seq<DataValue>, i: int, k: int)
    requires
        0 <= i <= k < items.len(),
        forall|j: int| i <= j < k ==> widget_parse_ok(#[trigger] items[j]),
        !widget_parse_ok(items[k]),
    ensures
        !children_list_ok(items, i),
        children_err(items, i) == widget_parse_err(items[k]),
    decreases k - i,
{
    if i < k {
        lemma_children_err_at_from(items, i + 1, k);
    }
}

/// A list whose widgets all parse is a successful children list.
proof fn lemma_children_all_ok(items: Seq<DataValue>, ws: Seq<Widget>, i: int)
    requires
        0 <= i <= items.len(),
        forall|j: int| i <= j < items.len() ==> widget_parse_ok(#[trigger] items[j]),
        forall|j: int| i <= j < items.len() ==> widget_parses(#[trigger] items[j], ws[j]),
    ensures
        children_list_ok(items, i),
        children_parses(items, ws, i),
    decreases items.len() - i,
{
    if i < items.len() {
        lemma_children_all_ok(items, ws, i + 1);
    }
}

/// Parses a widget definition.
#[verifier::loop_isolation(false)]
pub fn widget_from_data(v: &DataValue) -> (r: Result<Widget, ConvError>)
    ensures
        (match r {
            Ok(w) => widget_parse_ok(*v) && widget_parses(*v, w),
            Err(e) => !widget_parse_ok(*v) && e == widget_parse_err(*v),
        }),
    decreases v,
{
    let fields = match v {
        DataValue::Table(fields) => fields,
        _ => {
            return Err(ConvError::ExpectedTable);
        }
    };
    let ty = match table_get(fields, "type") {
        Some(DataValue::Str(ty)) => ty,
        _ => {
            return Err(ConvError::ExpectedString);
        }
    };
    if crate::text::str_eq(ty.as_str(), "button") {
        let on_click = match table_get(fields, "on_click") {
            Some(DataValue::Func(k)) => *k,
            _ => {
                return Err(ConvError::ExpectedFunction);
            }
        };
        let properties = match Properties::parse(fields) {
            Ok(p) => p,
            Err(e) => {
                return Err(e);
            }
        };
        let child_v = match table_get(fields, "child") {
            Some(cv) => cv,
            None => {
                return Err(ConvError::ExpectedTable);
            }
        };
        proof {
            crate::value::lemma_field_decreases(*v, "child"@);
        }
        let child = match widget_from_data(child_v) {
            Ok(w) => w,
            Err(e) => {
                return Err(e);
            }
        };
        Ok(Widget::Button(Button { properties, on_click, child: Box::new(child) }))
    } else if crate::text::str_eq(ty.as_str(), "container") {
        let properties = match Properties::parse(fields) {
            Ok(p) => p,
            Err(e) => {
                return Err(e);
            }
        };
        let nilv = DataValue::Nil;
        let ov: &DataValue = match table_get(fields, "orientation") {
            Some(x) => x,
            None => &nilv,
        };
        let orientation = match Orientation::from_data(ov) {
            Ok(o) => o,
            Err(e) => {
                return Err(e);
            }
        };
        let spacing = match crate::layout::opt_i32_field(fields, "spacing") {
            Ok(m) => m,
            Err(e) => {
                return Err(e);
            }
        };
        let children: Vec<Widget> = match table_get(fields, "children") {
            None => Vec::new(),
            Some(DataValue::Nil) => Vec::new(),
            Some(DataValue::List(items)) => {
                let mut out: Vec<Widget> = Vec::new();
                let mut i: usize = 0;
                proof {
                    crate::value::lemma_field_list_decreases(*v, "children"@);
                }
                while i < items.len()
                    invariant
                        i <= items@.len(),
                        out@.len() == i,
                        forall|j: int| 0 <= j < i ==> widget_parse_ok(#[trigger] items@[j]),
                        forall|j: int|
                            0 <= j < i ==> widget_parses(#[trigger] items@[j], out@[j]),
                    decreases items@.len() - i,
                {
                    proof {
                        assert(decreases_to!(items@ => items@[i as int]));
                    }
                    match widget_from_data(&items[i]) {
                        Ok(w) => out.push(w),
                        Err(e) => {
                            proof {
                                lemma_children_err_at(items@, i as int);
                            }
                            return Err(e);
                        }
                    }
                    i = i + 1;
                }
                proof {
                    lemma_children_all_ok(items@, out@, 0);
                }
                out
            }
            Some(_) => {
                return Err(ConvError::ExpectedTable);
            }
        };
        Ok(Widget::Container(Container { properties, orientation, spacing, children }))
    } else if crate::text::str_eq(ty.as_str(), "label") {
        let properties = match Properties::parse(fields) {
            Ok(p) => p,
            Err(e) => {
                return Err(e);
            }
        };
        let nilv = DataValue::Nil;
        let tv: &DataValue = match table_get(fields, "text") {
            Some(x) => x,
            None => &nilv,
        };
        let text = match <MaybeDynamic<String> as FromData>::from_data(tv) {
            Ok(m) => m,
            Err(e) => {
                return Err(e);
            }
        };
        Ok(Widget::Label(Label { properties, text }))
    } else {
        Err(ConvError::UnknownWidgetType)
    }
}

} // verus!
