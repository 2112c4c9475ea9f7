//! Window-manager events and the dispatch step that feeds them to the bus.
//!
//! A compositor adapter runs a blocking listen loop on a background thread
//! and forwards `(event kind, event)` pairs over a channel.  On the UI
//! thread the dispatcher turns each pair into a namespaced signal name and
//! a payload value, and emits it on the signal bus.  The functions here
//! are that per-event step; the threads, the channel, and the emission loop
//! belong to the host.

use vstd::prelude::*;
use vstd::string::StringExecFns;
use vstd::string::StrSliceExecFns;
use crate::value::DataValue;

verus! {

/// Events reported by the compositor IPC listener.
///
/// Each variant is dispatched under a `hyprland::`-namespaced signal; the
/// event kind suffix is chosen by the adapter when it sends the event.
pub enum HyprlandEvent {
    /// A workspace lifecycle or focus event: switched, created, destroyed,
    /// moved, or renamed.
    Workspace { id: i32, name: String },
    /// The focused window changed.  Both fields are empty when no window
    /// is focused.
    ActiveWindowChanged { title: String, class: String },
    /// The fullscreen state of the active window toggled.
    FullscreenStateChanged(bool),
    /// Keyboard focus moved to another monitor; the workspace is absent
    /// when the compositor does not report one.
    ActiveMonitorChanged { monitor: String, workspace: Option<String> },
}

impl HyprlandEvent {
    /// The payload delivered to listeners for this event: a table of the
    /// event's fields, or a plain boolean for a fullscreen toggle.
    pub fn payload(self) -> (d: DataValue)
        ensures
            (match self {
                HyprlandEvent::Workspace { id, name } => (d matches DataValue::Table(fields)
                    && fields@.len() == 2
                    && fields@[0].0@ == "id"@
                    && fields@[0].1 == DataValue::Int(id as i64)
                    && fields@[1].0@ == "name"@
                    && (fields@[1].1 matches DataValue::Str(s) && s@ == name@)),
                HyprlandEvent::ActiveWindowChanged { title, class } => (d matches DataValue::Table(
                    fields,
                )
                    && fields@.len() == 2
                    && fields@[0].0@ == "title"@
                    && (fields@[0].1 matches DataValue::Str(s) && s@ == title@)
                    && fields@[1].0@ == "class"@
                    && (fields@[1].1 matches DataValue::Str(s) && s@ == class@)),
                HyprlandEvent::FullscreenStateChanged(state) => d == DataValue::Bool(state),
                HyprlandEvent::ActiveMonitorChanged { monitor, workspace } => (d matches DataValue::Table(
                    fields,
                )
                    && fields@[0].0@ == "monitor"@
                    && (fields@[0].1 matches DataValue::Str(s) && s@ == monitor@)
                    && (match workspace {
                        Some(w) => fields@.len() == 2 && fields@[1].0@ == "workspace"@
                            && (fields@[1].1 matches DataValue::Str(s) && s@ == w@),
                        None => fields@.len() == 1,
                    })),
            }),
    {
        match self {
            HyprlandEvent::Workspace { id, name } => {
                let mut fields: Vec<(String, DataValue)> = Vec::new();
                fields.push(("id".to_owned(), DataValue::Int(id as i64)));
                fields.push(("name".to_owned(), DataValue::Str(name)));
                DataValue::Table(fields)
            }
            HyprlandEvent::ActiveWindowChanged { title, class } => {
                let mut fields: Vec<(String, DataValue)> = Vec::new();
                fields.push(("title".to_owned(), DataValue::Str(title)));
                fields.push(("class".to_owned(), DataValue::Str(class)));
                DataValue::Table(fields)
            }
            HyprlandEvent::FullscreenStateChanged(state) => DataValue::Bool(state),
            HyprlandEvent::ActiveMonitorChanged { monitor, workspace } => {
                let mut fields: Vec<(String, DataValue)> = Vec::new();
                fields.push(("monitor".to_owned(), DataValue::Str(monitor)));
                match workspace {
                    Some(w) => {
                        fields.push(("workspace".to_owned(), DataValue::Str(w)));
                    }
                    None => {}
                }
                DataValue::Table(fields)
            }
        }
    }
}

/// A compositor workspace name as the backend reports it: a regular named
/// workspace, or a special workspace that may be anonymous.
pub enum WorkspaceKind {
    Regular(String),
    Special(Option<String>),
}

/// The display name an event carries for a workspace: its own name, or
/// `"special"` for an anonymous special workspace.
pub fn workspace_display_name(kind: WorkspaceKind) -> (r: String)
    ensures
        (match kind {
            WorkspaceKind::Regular(n) => r@ == n@,
            WorkspaceKind::Special(Some(n)) => r@ == n@,
            WorkspaceKind::Special(None) => r@ == "special"@,
        }),
{
    match kind {
        WorkspaceKind::Regular(n) => n,
        WorkspaceKind::Special(Some(n)) => n,
        WorkspaceKind::Special(None) => "special".to_owned(),
    }
}

/// The bus signal name an event is published under:
/// `<backend>::<event kind>`.
pub fn signal_name(backend: &str, event_kind: &str) -> (r: String)
    ensures
        r@ == backend@ + "::"@ + event_kind@,
{
    let mut s = backend.to_owned();
    s.append("::");
    s.append(event_kind);
    s
}

/// The payload actually dispatched: the converted payload when the host's
/// conversion to its runtime form succeeded, and the null payload when it
/// failed — a conversion failure is logged and never stops dispatch.
pub fn payload_or_nil(converted: Option<DataValue>) -> (d: DataValue)
    ensures
        (match converted {
            Some(v) => d == v,
            None => d == DataValue::Nil,
        }),
{
    match converted {
        Some(v) => v,
        None => DataValue::Nil,
    }
}

} // verus!
