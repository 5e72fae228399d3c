//! The event that a patch has been picked from the ring round the boards.

use vstd::prelude::*;
use crate::direction::ShapeDirection;
use crate::interaction::InteractiveInfo;

verus! {

/// A patch has been picked.
#[derive(Clone, Copy, Debug)]
pub struct PatchChoosedEvent {
    /// The index of the patch in the catalog.
    pub patch_idx: usize,
}

/// Takes note of a picked patch: it becomes the chosen one, turned as the
/// catalog draws it.
pub fn observe_patch_choose_event(e: &PatchChoosedEvent, int_r: &mut InteractiveInfo)
    ensures
        final(int_r).choosing_shape == Some(e.patch_idx),
        final(int_r).choosing_shape_dir == ShapeDirection::East,
{
    int_r.choose_patch(e.patch_idx);
}

/// Whether the mark of patch `patch_idx` is shown once `e` has been noted:
/// only the picked patch is marked.
pub fn mark_is_visible(e: &PatchChoosedEvent, patch_idx: usize) -> (visible: bool)
    ensures
        visible == (patch_idx == e.patch_idx),
{
    patch_idx == e.patch_idx
}

} // verus!
