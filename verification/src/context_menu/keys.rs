//! What an open context menu does with a key press, and the two facts its
//! rendering reads off the model: the highlighted row and whether entries
//! keep a column for icons.
use vstd::prelude::*;
use crate::context_menu::{
    activate_entry_ix, context_menu_activate_entry_ix, context_menu_shortcut_entry_ix,
    first_selectable, is_enabled_entry, law_activated_entry_is_enabled,
    law_shortcut_activates_first_matching_entry, selectable, shortcut_entry_ix, ContextMenuItem,
    ContextMenuItemView, ContextMenuModel,
};
use crate::text::str_eq;

verus! {

/// The modifier keys held with a key press.
#[derive(Clone, Copy, Debug, PartialEq, Eq, Structural)]
pub struct KeyModifiers {
    pub control: bool,
    pub platform: bool,
    pub alt: bool,
    pub function: bool,
    pub shift: bool,
}

/// The menu's answer to a key press.
#[derive(Clone, Copy, Debug, PartialEq, Eq, Structural)]
pub enum ContextMenuKeyOutcome {
    /// The menu leaves the key to others.
    Ignored,
    /// Close the menu and give focus back.
    Close,
    /// Move the selection to the previous selectable row.
    StepBack,
    /// Move the selection to the next selectable row.
    StepForward,
    /// Put the selection on this row, or on none.
    Select(Option<usize>),
    /// Activate the entry at this row.
    Activate(usize),
}

/// `i` is the last enabled entry of the menu.
pub open spec fn is_last_selectable(items: Seq<ContextMenuItemView>, i: int) -> bool {
    &&& selectable(items, i)
    &&& forall|j: int| i < j < items.len() ==> !is_enabled_entry(#[trigger] items[j])
}

/// The last enabled entry, if any.
pub open spec fn last_selectable(items: Seq<ContextMenuItemView>) -> Option<int> {
    if exists|i: int| #[trigger] is_last_selectable(items, i) {
        Some(choose|i: int| #[trigger] is_last_selectable(items, i))
    } else {
        None
    }
}

proof fn lemma_last_selectable_found(items: Seq<ContextMenuItemView>, i: int)
    requires
        is_last_selectable(items, i),
    ensures
        last_selectable(items) == Some(i),
{
    let k = choose|k: int| #[trigger] is_last_selectable(items, k);
    assert(is_last_selectable(items, k));
    if k < i {
        assert(is_enabled_entry(items[i]));
    } else if i < k {
        assert(is_enabled_entry(items[k]));
    }
}

/// An optional row of the menu, as a position.
pub open spec fn opt_ix(o: Option<int>) -> Option<usize> {
    match o {
        Some(i) => Some(i as usize),
        None => None,
    }
}

/// What a key press does: nothing while Control, the platform key, Alt or
/// Fn is held; Escape closes; Up and Shift+Tab step back, Down and Tab step
/// forward; Home and End select the first and last enabled entries; Enter
/// and Space activate the entry Enter picks; any other key activates the
/// entry whose shortcut it is. A press that finds no entry is left alone.
pub open spec fn key_outcome(
    items: Seq<ContextMenuItemView>,
    selected: Option<usize>,
    key: Seq<char>,
    mods: KeyModifiers,
) -> ContextMenuKeyOutcome {
    if mods.control || mods.platform || mods.alt || mods.function {
        ContextMenuKeyOutcome::Ignored
    } else if key == "escape"@ {
        ContextMenuKeyOutcome::Close
    } else if key == "up"@ {
        ContextMenuKeyOutcome::StepBack
    } else if key == "down"@ {
        ContextMenuKeyOutcome::StepForward
    } else if key == "tab"@ {
        if mods.shift {
            ContextMenuKeyOutcome::StepBack
        } else {
            ContextMenuKeyOutcome::StepForward
        }
    } else if key == "home"@ {
        ContextMenuKeyOutcome::Select(opt_ix(first_selectable(items)))
    } else if key == "end"@ {
        ContextMenuKeyOutcome::Select(opt_ix(last_selectable(items)))
    } else if key == "enter"@ || key == "space"@ {
        match activate_entry_ix(items, selected) {
            Some(i) => ContextMenuKeyOutcome::Activate(i as usize),
            None => ContextMenuKeyOutcome::Ignored,
        }
    } else {
        match shortcut_entry_ix(items, key) {
            Some(i) => ContextMenuKeyOutcome::Activate(i as usize),
            None => ContextMenuKeyOutcome::Ignored,
        }
    }
}

/// The row the menu highlights: the selected row while it is an enabled
/// entry, and none otherwise (a menu opens with nothing highlighted).
pub open spec fn highlighted_row(items: Seq<ContextMenuItemView>, selected: Option<usize>) -> Option<usize> {
    match selected {
        Some(ix) if selectable(items, ix as int) => Some(ix),
        _ => None,
    }
}

/// Some entry carries an icon, so every entry keeps a column for one.
pub open spec fn reserves_icon_column(items: Seq<ContextMenuItemView>) -> bool {
    exists|i: int|
        0 <= i < items.len() && (#[trigger] items[i] matches ContextMenuItemView::Entry { icon, .. } && icon is Some)
}

/// The keyboard only ever lands on enabled entries: a key press that selects
/// or activates a row names an enabled entry of the menu.
pub proof fn law_keys_land_only_on_enabled_entries(
    items: Seq<ContextMenuItemView>,
    selected: Option<usize>,
    key: Seq<char>,
    mods: KeyModifiers,
)
    requires
        items.len() <= usize::MAX,
    ensures
        key_outcome(items, selected, key, mods) matches ContextMenuKeyOutcome::Activate(i) ==> selectable(
            items,
            i as int,
        ),
        key_outcome(items, selected, key, mods) matches ContextMenuKeyOutcome::Select(Some(i))
            ==> selectable(items, i as int),
{
    law_activated_entry_is_enabled(items, selected);
    law_shortcut_activates_first_matching_entry(items, key);
    law_activated_entry_is_enabled(items, None);
    if last_selectable(items) is Some {
        let k = choose|k: int| #[trigger] is_last_selectable(items, k);
        assert(is_last_selectable(items, k));
    }
}


impl ContextMenuModel {
    /// The last enabled entry.
    pub fn last_selectable(&self) -> (res: Option<usize>)
        ensures
            res == opt_ix(last_selectable(self@)),
            res matches Some(ix) ==> is_last_selectable(self@, ix as int),
    {
        let mut i: usize = self.items.len();
        while i > 0
            invariant
                i <= self.items.len(),
                self@.len() == self.items.len(),
                forall|j: int| i <= j < self@.len() ==> !is_enabled_entry(#[trigger] self@[j]),
            decreases i,
        {
            i -= 1;
            if self.is_selectable(i) {
                proof {
                    lemma_last_selectable_found(self@, i as int);
                }
                return Some(i);
            }
        }
        proof {
            if exists|k: int| #[trigger] is_last_selectable(self@, k) {
                let k = choose|k: int| #[trigger] is_last_selectable(self@, k);
                assert(is_enabled_entry(self@[k]));
            }
        }
        None
    }

    /// The row to highlight for `selected`.
    pub fn highlighted_row(&self, selected: Option<usize>) -> (res: Option<usize>)
        ensures
            res == highlighted_row(self@, selected),
    {
        match selected {
            Some(ix) => if self.is_selectable(ix) {
                Some(ix)
            } else {
                None
            },
            None => None,
        }
    }

    /// Whether entries keep a column for icons.
    pub fn reserves_icon_column(&self) -> (res: bool)
        ensures
            res == reserves_icon_column(self@),
    {
        let mut i: usize = 0;
        while i < self.items.len()
            invariant
                i <= self.items.len(),
                self@.len() == self.items.len(),
                forall|j: int|
                    0 <= j < i ==> !(#[trigger] self@[j] matches ContextMenuItemView::Entry { icon, .. }
                        && icon is Some),
            decreases self.items.len() - i,
        {
            let has_icon = match &self.items[i] {
                ContextMenuItem::Entry { icon, .. } => icon.is_some(),
                _ => false,
            };
            assert(self@[i as int] == self.items@[i as int]@);
            if has_icon {
                return true;
            }
            i += 1;
        }
        false
    }

    /// The menu's answer to `key` pressed with `mods` while row `selected`
    /// is selected.
    pub fn key_outcome(&self, selected: Option<usize>, key: &str, mods: KeyModifiers) -> (res:
        ContextMenuKeyOutcome)
        ensures
            res == key_outcome(self@, selected, key@, mods),
    {
        proof {
            assert(self@.len() == self.items.len());
        }
        if mods.control || mods.platform || mods.alt || mods.function {
            ContextMenuKeyOutcome::Ignored
        } else if str_eq(key, "escape") {
            ContextMenuKeyOutcome::Close
        } else if str_eq(key, "up") {
            ContextMenuKeyOutcome::StepBack
        } else if str_eq(key, "down") {
            ContextMenuKeyOutcome::StepForward
        } else if str_eq(key, "tab") {
            if mods.shift {
                ContextMenuKeyOutcome::StepBack
            } else {
                ContextMenuKeyOutcome::StepForward
            }
        } else if str_eq(key, "home") {
            let first = self.first_selectable();
            ContextMenuKeyOutcome::Select(first)
        } else if str_eq(key, "end") {
            ContextMenuKeyOutcome::Select(self.last_selectable())
        } else if str_eq(key, "enter") || str_eq(key, "space") {
            match context_menu_activate_entry_ix(self, selected) {
                Some(ix) => ContextMenuKeyOutcome::Activate(ix),
                None => ContextMenuKeyOutcome::Ignored,
            }
        } else {
            match context_menu_shortcut_entry_ix(self, key) {
                Some(ix) => ContextMenuKeyOutcome::Activate(ix),
                None => ContextMenuKeyOutcome::Ignored,
            }
        }
    }
}

} // verus!
