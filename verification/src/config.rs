//! The top-level configuration: window placement, styling, and the widget
//! tree, parsed from the value the configuration script returns.
//!
//! Loading the script file, running it, and reacting to its result stay in
//! the host; this module parses the returned table and holds the small
//! path decisions the shell makes around it.  Paths are treated as
//! Unix-style strings with `/` as the separator.

use vstd::prelude::*;
use vstd::string::StringExecFns;
use vstd::string::StrSliceExecFns;
use crate::dynamic::FromData;
use crate::error::ConvError;
use crate::layout::{Anchors, Layer, Margins, opt_bool_ok, opt_bool_parses};
use crate::text::str_eq;
use crate::value::{DataValue, lookup, table_get};
use crate::widgets::{Widget, field_or_nil, widget_parse_err, widget_parse_ok, widget_parses};

verus! {

/// The shell's configuration, as the configuration script describes it.
pub struct Config {
    /// The window title; also the base of the application id.
    pub title: String,
    /// An optional stylesheet path, absolute or relative to the
    /// configuration file's directory.
    pub style: Option<String>,
    /// The desktop layer the window is placed on.
    pub layer: Layer,
    /// Whether the window reserves its space on screen.
    pub exclusive_zone: bool,
    /// Which monitor edges the window anchors to.
    pub anchors: Option<Anchors>,
    /// Pixel margins around the window.
    pub margins: Option<Margins>,
    /// Monitor connector names to open on; empty means every monitor.
    pub monitors: Vec<String>,
    /// The widget shown inside the window.
    pub child: Widget,
}

/// The monitors field parses to `ms`: absent means every monitor.
pub open spec fn monitors_parses(fv: Option<DataValue>, ms: Vec<String>) -> bool {
    match fv {
        None => ms@.len() == 0,
        Some(DataValue::Nil) => ms@.len() == 0,
        Some(x) => <Vec<String> as FromData>::parses(x, ms),
    }
}

/// Whether the monitors field has an accepted shape.
pub open spec fn monitors_ok(fv: Option<DataValue>) -> bool {
    match fv {
        None => true,
        Some(DataValue::Nil) => true,
        Some(x) => <Vec<String> as FromData>::parse_ok(x),
    }
}

impl FromData for Config {
    open spec fn parses(v: DataValue, c: Self) -> bool {
        &&& v matches DataValue::Table(fields)
        &&& <String as FromData>::parses(field_or_nil(fields@, "title"@), c.title)
        &&& <Option<String> as FromData>::parses(field_or_nil(fields@, "style"@), c.style)
        &&& <Layer as FromData>::parses(field_or_nil(fields@, "layer"@), c.layer)
        &&& opt_bool_parses(lookup(fields@, "exclusive_zone"@), c.exclusive_zone)
        &&& <Option<Anchors> as FromData>::parses(field_or_nil(fields@, "anchors"@), c.anchors)
        &&& <Option<Margins> as FromData>::parses(field_or_nil(fields@, "margins"@), c.margins)
        &&& monitors_parses(lookup(fields@, "monitors"@), c.monitors)
        &&& widget_parses(field_or_nil(fields@, "child"@), c.child)
    }

    open spec fn parse_ok(v: DataValue) -> bool {
        &&& v matches DataValue::Table(fields)
        &&& <String as FromData>::parse_ok(field_or_nil(fields@, "title"@))
        &&& <Option<String> as FromData>::parse_ok(field_or_nil(fields@, "style"@))
        &&& <Layer as FromData>::parse_ok(field_or_nil(fields@, "layer"@))
        &&& opt_bool_ok(lookup(fields@, "exclusive_zone"@))
        &&& <Option<Anchors> as FromData>::parse_ok(field_or_nil(fields@, "anchors"@))
        &&& <Option<Margins> as FromData>::parse_ok(field_or_nil(fields@, "margins"@))
        &&& monitors_ok(lookup(fields@, "monitors"@))
        &&& widget_parse_ok(field_or_nil(fields@, "child"@))
    }

    /// Fields are checked in the order the configuration table is read:
    /// title, style, layer, exclusive_zone, anchors, margins, monitors,
    /// child.
    open spec fn parse_err(v: DataValue) -> ConvError {
        match v {
            DataValue::Table(fields) => if !<String as FromData>::parse_ok(
                field_or_nil(fields@, "title"@),
            ) {
                <String as FromData>::parse_err(field_or_nil(fields@, "title"@))
            } else if !<Option<String> as FromData>::parse_ok(field_or_nil(fields@, "style"@)) {
                <Option<String> as FromData>::parse_err(field_or_nil(fields@, "style"@))
            } else if !<Layer as FromData>::parse_ok(field_or_nil(fields@, "layer"@)) {
                <Layer as FromData>::parse_err(field_or_nil(fields@, "layer"@))
            } else if !opt_bool_ok(lookup(fields@, "exclusive_zone"@)) {
                ConvError::ExpectedBool
            } else if !<Option<Anchors> as FromData>::parse_ok(field_or_nil(fields@, "anchors"@)) {
                <Option<Anchors> as FromData>::parse_err(field_or_nil(fields@, "anchors"@))
            } else if !<Option<Margins> as FromData>::parse_ok(field_or_nil(fields@, "margins"@)) {
                <Option<Margins> as FromData>::parse_err(field_or_nil(fields@, "margins"@))
            } else if !monitors_ok(lookup(fields@, "monitors"@)) {
                ConvError::ExpectedStringList
            } else {
                widget_parse_err(field_or_nil(fields@, "child"@))
            },
            _ => ConvError::ExpectedTable,
        }
    }

    fn from_data(v: &DataValue) -> (r: Result<Self, ConvError>) {
        let fields = match v {
            DataValue::Table(fields) => fields,
            _ => {
                return Err(ConvError::ExpectedTable);
            }
        };
        let nilv = DataValue::Nil;
        let title = match <String as FromData>::from_data(field_ref(fields, "title", &nilv)) {
            Ok(t) => t,
            Err(e) => {
                return Err(e);
            }
        };
        let style = match <Option<String> as FromData>::from_data(field_ref(fields, "style", &nilv)) {
            Ok(t) => t,
            Err(e) => {
                return Err(e);
            }
        };
        let layer = match <Layer as FromData>::from_data(field_ref(fields, "layer", &nilv)) {
            Ok(t) => t,
            Err(e) => {
                return Err(e);
            }
        };
        let exclusive_zone = match field_ref(fields, "exclusive_zone", &nilv) {
            DataValue::Nil => false,
            DataValue::Bool(b) => *b,
            _ => {
                return Err(ConvError::ExpectedBool);
            }
        };
        let anchors = match <Option<Anchors> as FromData>::from_data(
            field_ref(fields, "anchors", &nilv),
        ) {
            Ok(t) => t,
            Err(e) => {
                return Err(e);
            }
        };
        let margins = match <Option<Margins> as FromData>::from_data(
            field_ref(fields, "margins", &nilv),
        ) {
            Ok(t) => t,
            Err(e) => {
                return Err(e);
            }
        };
        let monitors = match field_ref(fields, "monitors", &nilv) {
            DataValue::Nil => Vec::new(),
            mv => {
                match <Vec<String> as FromData>::from_data(mv) {
                    Ok(t) => t,
                    Err(e) => {
                        return Err(e);
                    }
                }
            }
        };
        let child = match crate::widgets::widget_from_data(field_ref(fields, "child", &nilv)) {
            Ok(t) => t,
            Err(e) => {
                return Err(e);
            }
        };
        Ok(Config { title, style, layer, exclusive_zone, anchors, margins, monitors, child })
    }
}

/// A field of the table, or the given nil value when absent.
fn field_ref<'a>(
    fields: &'a Vec<(String, DataValue)>,
    name: &str,
    nilv: &'a DataValue,
) -> (r: &'a DataValue)
    requires
        *nilv is Nil,
    ensures
        *r == field_or_nil(fields@, name@),
        lookup(fields@, name@) is None ==> *r is Nil,
{
    match table_get(fields, name) {
        Some(x) => x,
        None => nilv,
    }
}

/// The index of the last `/` in `s`, or `-1` if there is none.
pub open spec fn last_slash_idx(s: Seq<char>) -> int
    decreases s.len(),
{
    if s.len() == 0 {
        -1
    } else if s.last() == '/' {
        s.len() - 1
    } else {
        last_slash_idx(s.drop_last())
    }
}

/// The parent directory of a path: the part before the final `/`, the
/// root `/` itself for a file directly under it, the empty path for a
/// bare file name, and nothing for the empty path or the root.
pub open spec fn parent_dir(s: Seq<char>) -> Option<Seq<char>> {
    if s.len() == 0 {
        None
    } else if last_slash_idx(s) == -1 {
        Some(Seq::empty())
    } else if last_slash_idx(s) == 0 {
        if s.len() == 1 {
            None
        } else {
            Some(s.take(1))
        }
    } else {
        Some(s.take(last_slash_idx(s)))
    }
}

/// The directory the configuration file sits in, used to resolve paths in
/// the configuration relative to the file.  `None` when the path has no
/// parent directory (the empty path or the root).
pub fn get_config_dir(config_path: &str) -> (r: Option<String>)
    ensures
        (match r {
            Some(d) => parent_dir(config_path@) == Some(d@),
            None => parent_dir(config_path@) is None,
        }),
{
    let n = config_path.unicode_len();
    let mut last: usize = 0;
    let mut found = false;
    let mut i: usize = 0;
    proof {
        assert(last_slash_of_prefix(config_path@, 0) == -1) by {
            assert(config_path@.take(0) =~= Seq::<char>::empty());
        }
    }
    while i < n
        invariant
            n == config_path@.len(),
            i <= n,
            found ==> last < i && last_slash_of_prefix(config_path@, i as int) == last,
            !found ==> last_slash_of_prefix(config_path@, i as int) == -1,
        decreases n - i,
    {
        let ghost pre = config_path@.take(i as int);
        let ghost nxt = config_path@.take(i + 1 as int);
        proof {
            assert(nxt.drop_last() =~= pre);
            assert(nxt.last() == config_path@[i as int]);
        }
        if config_path.get_char(i) == '/' {
            last = i;
            found = true;
        }
        i = i + 1;
    }
    proof {
        assert(config_path@.take(n as int) =~= config_path@);
    }
    if n == 0 {
        return None;
    }
    if !found {
        let empty = String::new();
        return Some(empty);
    }
    if last == 0 {
        if n == 1 {
            return None;
        }
        let d = config_path.substring_char(0, 1);
        return Some(d.to_owned());
    }
    let d = config_path.substring_char(0, last);
    Some(d.to_owned())
}

/// The last `/` of the first `k` characters, or `-1`: what the scan in
/// [`get_config_dir`] has established after `k` steps.
pub open spec fn last_slash_of_prefix(s: Seq<char>, k: int) -> int {
    last_slash_idx(s.take(k))
}

/// Whether a window is opened on a monitor: either the configuration
/// names no monitors — every monitor is used — or it lists the
/// monitor's connector name.
pub fn monitor_selected(monitors: &Vec<String>, connector: &str) -> (r: bool)
    ensures
        r == (monitors@.len() == 0 || exists|i: int|
            0 <= i < monitors@.len() && #[trigger] monitors@[i]@ == connector@),
{
    if monitors.len() == 0 {
        return true;
    }
    let mut i: usize = 0;
    while i < monitors.len()
        invariant
            i <= monitors@.len(),
            forall|j: int| 0 <= j < i ==> #[trigger] monitors@[j]@ != connector@,
        decreases monitors@.len() - i,
    {
        if str_eq(monitors[i].as_str(), connector) {
            return true;
        }
        i = i + 1;
    }
    false
}

/// Resolves the stylesheet path: an absolute path is kept as it is, a
/// relative one is joined to the configuration file's directory.
pub fn resolve_style_path(style: &str, config_dir: &str) -> (r: String)
    ensures
        style@.len() > 0 && style@[0] == '/' ==> r@ == style@,
        (style@.len() == 0 || style@[0] != '/') && config_dir@.len() == 0 ==> r@ == style@,
        (style@.len() == 0 || style@[0] != '/') && config_dir@.len() > 0 ==> r@ == config_dir@
            + "/"@ + style@,
{
    let n = style.unicode_len();
    if n > 0 && style.get_char(0) == '/' {
        return style.to_owned();
    }
    if config_dir.unicode_len() == 0 {
        return style.to_owned();
    }
    let mut s = config_dir.to_owned();
    s.append("/");
    s.append(style);
    s
}

} // verus!
