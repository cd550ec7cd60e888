//! The shortcut record: a non-native game entry in the launcher's library.

use vstd::prelude::*;

verus! {

/// A non-native game entry, immutable input to the pipeline:
/// an identifier unique within a user's library, and a display name.
pub struct Shortcut {
    pub app_id: u32,
    pub app_name: String,
}

/// The mathematical content of a [`Shortcut`].
pub struct ShortcutModel {
    pub app_id: u32,
    pub app_name: Seq<char>,
}

impl View for Shortcut {
    type V = ShortcutModel;

    open spec fn view(&self) -> ShortcutModel {
        ShortcutModel { app_id: self.app_id, app_name: self.app_name@ }
    }
}

impl DeepView for Shortcut {
    type V = ShortcutModel;

    open spec fn deep_view(&self) -> ShortcutModel {
        self.view()
    }
}

impl Clone for Shortcut {
    fn clone(&self) -> (r: Self)
        ensures
            r@ == self@,
    {
        Shortcut { app_id: self.app_id, app_name: self.app_name.clone() }
    }
}

} // verus!
