//! The keyboard-focus registry: at most one widget receives keyboard input.
//!
//! All operations are total and idempotent; surrendering focus a widget
//! does not hold is a no-op.

use vstd::prelude::*;

verus! {

/// Focus after `id` surrenders: cleared when `id` held it, else untouched.
pub open spec fn spec_surrender(focus: Option<u64>, id: u64) -> Option<u64> {
    if focus == Some(id) {
        Option::None
    } else {
        focus
    }
}

/// Which widget, if any, holds keyboard focus.
pub struct FocusRegistry {
    /// The identity of the focused widget.
    pub focus: Option<u64>,
}

impl FocusRegistry {
    /// A registry in which nothing is focused.
    pub fn new() -> (r: FocusRegistry)
        ensures
            r.focus == Option::<u64>::None,
    {
        FocusRegistry { focus: None }
    }

    /// Give keyboard focus to `id`, taking it from whoever held it.
    pub fn request_kb_focus(&mut self, id: u64)
        ensures
            final(self).focus == Option::Some(id),
    {
        self.focus = Some(id);
    }

    /// Take keyboard focus away from `id`; a no-op when `id` does not hold it.
    pub fn surrender_kb_focus(&mut self, id: u64)
        ensures
            final(self).focus == spec_surrender(old(self).focus, id),
    {
        let clear = match self.focus {
            Some(f) => f == id,
            None => false,
        };
        if clear {
            self.focus = None;
        }
    }

    /// Whether `id` holds keyboard focus.
    pub fn has_kb_focus(&self, id: u64) -> (r: bool)
        ensures
            r == (self.focus == Option::Some(id)),
    {
        match self.focus {
            Some(f) => f == id,
            None => false,
        }
    }
}

/// Surrendering focus twice is the same as surrendering it once.
pub proof fn lemma_surrender_idempotent(focus: Option<u64>, id: u64)
    ensures
        spec_surrender(spec_surrender(focus, id), id) == spec_surrender(focus, id),
{
}

} // verus!
