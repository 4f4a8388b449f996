//! Change notifications as the event loop sees them.

use vstd::prelude::*;

verus! {

/// The kind of file-system change carried by a notification.
///
/// Only `DataModified` — file content was written — is semantically relevant:
/// every other kind is ignored by the event loop.
#[derive(Clone, Copy, PartialEq, Eq, Structural, Debug)]
pub enum ChangeKind {
    DataModified,
    MetadataChanged,
    Renamed,
    Accessed,
    Other,
}

/// One item received by the event loop from the notification channel:
/// either a change notification or a delivery-level error from the watcher.
#[derive(Clone, Copy, PartialEq, Eq, Structural, Debug)]
pub enum LoopItem {
    Change(ChangeKind),
    DeliveryError,
}

/// A qualifying item is a successful notification whose kind is data-modified;
/// only such items trigger a restart cycle.
pub open spec fn is_qualifying(item: LoopItem) -> bool {
    item == LoopItem::Change(ChangeKind::DataModified)
}

impl LoopItem {
    /// Whether this item triggers a restart cycle.
    pub fn qualifies(&self) -> (r: bool)
        ensures
            r == is_qualifying(*self),
    {
        matches!(*self, LoopItem::Change(ChangeKind::DataModified))
    }
}

} // verus!
