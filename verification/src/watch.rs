//! Typed filesystem watch events. The platform watcher that produces
//! them runs outside the core and converts its own notifications into
//! these values.

use vstd::prelude::*;

verus! {

/// What kind of change a watch notification reports.
#[derive(Debug, Clone, PartialEq, Eq, Structural)]
pub enum WatchEventKind {
    Create,
    Modify,
    Remove,
    Rename,
    Other,
}

/// One watch notification: the affected paths and the kind of change.
#[derive(Debug, Clone)]
pub struct WatchEvent {
    /// Paths the notification names.
    pub paths: Vec<String>,
    /// The kind of change.
    pub kind: WatchEventKind,
}

} // verus!
