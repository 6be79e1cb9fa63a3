//! The focus of an edit session: which control of the editor has the cursor,
//! and how navigation moves it.

use vstd::prelude::*;

verus! {

/// The control of the editor that currently has the focus.
#[derive(Copy, Clone, Debug, PartialEq, Eq, Structural)]
pub enum ReplayInfoEditorFocus {
    /// The text of the staged field with this index is being edited.
    LabelData(usize),
    /// The "delete" control of the staged field with this index.
    LabelRemove(usize),
    /// The control that opens the menu of labels that can be added.
    LabelAdd,
    /// The entry with this index in the menu of labels that can be added.
    AddableLabel(usize),
    /// The control that saves the session.
    SaveChanges,
}

impl ReplayInfoEditorFocus {
    /// The focus points at something that exists, in a session with
    /// `max_labels` staged fields and `max_addable_labels` menu entries.
    pub open spec fn in_range(self, max_labels: int, max_addable_labels: int) -> bool {
        match self {
            ReplayInfoEditorFocus::LabelData(n) => n < max_labels,
            ReplayInfoEditorFocus::LabelRemove(n) => n < max_labels,
            ReplayInfoEditorFocus::AddableLabel(n) => n < max_addable_labels,
            ReplayInfoEditorFocus::LabelAdd => true,
            ReplayInfoEditorFocus::SaveChanges => true,
        }
    }

    /// The focus after one step forward. With `for_deletion` the staged field
    /// under a `LabelRemove` focus is about to be deleted, so the field that
    /// follows it will have taken over its index.
    pub open spec fn next(self, max_labels: int, max_addable_labels: int, for_deletion: bool) -> Self {
        match self {
            ReplayInfoEditorFocus::LabelData(n) => ReplayInfoEditorFocus::LabelRemove(n),
            ReplayInfoEditorFocus::LabelRemove(n) => {
                if max_labels == n + 1 {
                    ReplayInfoEditorFocus::LabelAdd
                } else if for_deletion {
                    ReplayInfoEditorFocus::LabelData(n)
                } else {
                    ReplayInfoEditorFocus::LabelData((n + 1) as usize)
                }
            },
            ReplayInfoEditorFocus::AddableLabel(n) => {
                if max_addable_labels == n + 1 {
                    ReplayInfoEditorFocus::AddableLabel(0)
                } else {
                    ReplayInfoEditorFocus::AddableLabel((n + 1) as usize)
                }
            },
            ReplayInfoEditorFocus::LabelAdd => ReplayInfoEditorFocus::SaveChanges,
            ReplayInfoEditorFocus::SaveChanges => ReplayInfoEditorFocus::SaveChanges,
        }
    }

    /// The focus after one step backward.
    pub open spec fn prev(self, max_labels: int, max_addable_labels: int) -> Self {
        match self {
            ReplayInfoEditorFocus::LabelRemove(n) => ReplayInfoEditorFocus::LabelData(n),
            ReplayInfoEditorFocus::LabelData(n) => {
                if n == 0 {
                    ReplayInfoEditorFocus::LabelData(n)
                } else {
                    ReplayInfoEditorFocus::LabelRemove((n - 1) as usize)
                }
            },
            ReplayInfoEditorFocus::AddableLabel(n) => {
                if n == 0 {
                    ReplayInfoEditorFocus::AddableLabel((max_addable_labels - 1) as usize)
                } else {
                    ReplayInfoEditorFocus::AddableLabel((n - 1) as usize)
                }
            },
            ReplayInfoEditorFocus::LabelAdd => {
                if max_labels >= 1 {
                    ReplayInfoEditorFocus::LabelRemove((max_labels - 1) as usize)
                } else {
                    ReplayInfoEditorFocus::LabelAdd
                }
            },
            ReplayInfoEditorFocus::SaveChanges => ReplayInfoEditorFocus::LabelAdd,
        }
    }

    /// The focus after `steps` steps forward with no deletion in between.
    pub open spec fn forward(self, max_labels: int, max_addable_labels: int, steps: nat) -> Self
        decreases steps,
    {
        if steps == 0 {
            self
        } else {
            self.forward(max_labels, max_addable_labels, (steps - 1) as nat).next(
                max_labels,
                max_addable_labels,
                false,
            )
        }
    }

    /// Moves the focus one step forward. The index of a delete control or of
    /// a menu entry must have a successor. A focus that points at something
    /// that exists does so afterwards too, in the session as it will be once a
    /// deletion that is under way has been made.
    #[must_use]
    pub fn next_focus(self, max_labels: usize, max_addable_labels: usize, for_deletion: bool) -> (r: Self)
        requires
            self matches ReplayInfoEditorFocus::LabelRemove(n) ==> n < usize::MAX,
            self matches ReplayInfoEditorFocus::AddableLabel(n) ==> n < usize::MAX,
        ensures
            r == self.next(max_labels as int, max_addable_labels as int, for_deletion),
            self.in_range(max_labels as int, max_addable_labels as int) && for_deletion
                && self is LabelRemove ==> r.in_range(max_labels - 1, max_addable_labels + 1),
            self.in_range(max_labels as int, max_addable_labels as int) && !(for_deletion
                && self is LabelRemove) ==> r.in_range(
                max_labels as int,
                max_addable_labels as int,
            ),
    {
        match self {
            ReplayInfoEditorFocus::LabelData(n) => ReplayInfoEditorFocus::LabelRemove(n),
            ReplayInfoEditorFocus::LabelRemove(n) => {
                if max_labels == n + 1 {
                    ReplayInfoEditorFocus::LabelAdd
                } else if for_deletion {
                    ReplayInfoEditorFocus::LabelData(n)
                } else {
                    ReplayInfoEditorFocus::LabelData(n + 1)
                }
            },
            ReplayInfoEditorFocus::AddableLabel(n) => {
                let mut new_idx: usize = n + 1;
                if max_addable_labels == new_idx {
                    new_idx = 0;
                }
                ReplayInfoEditorFocus::AddableLabel(new_idx)
            },
            ReplayInfoEditorFocus::LabelAdd => ReplayInfoEditorFocus::SaveChanges,
            ReplayInfoEditorFocus::SaveChanges => ReplayInfoEditorFocus::SaveChanges,
        }
    }

    /// Moves the focus one step backward. From the first menu entry the menu
    /// must have an entry to wrap to. A focus that points at something that
    /// exists does so afterwards too.
    #[must_use]
    pub fn prev_focus(self, max_labels: usize, max_addable_labels: usize) -> (r: Self)
        requires
            self == ReplayInfoEditorFocus::AddableLabel(0) ==> max_addable_labels >= 1,
        ensures
            r == self.prev(max_labels as int, max_addable_labels as int),
            self.in_range(max_labels as int, max_addable_labels as int) ==> r.in_range(
                max_labels as int,
                max_addable_labels as int,
            ),
    {
        match self {
            ReplayInfoEditorFocus::LabelRemove(n) => ReplayInfoEditorFocus::LabelData(n),
            ReplayInfoEditorFocus::LabelData(n) => {
                if n == 0 {
                    ReplayInfoEditorFocus::LabelData(n)
                } else {
                    ReplayInfoEditorFocus::LabelRemove(n - 1)
                }
            },
            ReplayInfoEditorFocus::AddableLabel(n) => {
                let new_idx: usize = if n == 0 {
                    max_addable_labels - 1
                } else {
                    n - 1
                };
                ReplayInfoEditorFocus::AddableLabel(new_idx)
            },
            ReplayInfoEditorFocus::LabelAdd => {
                if max_labels >= 1 {
                    ReplayInfoEditorFocus::LabelRemove(max_labels - 1)
                } else {
                    ReplayInfoEditorFocus::LabelAdd
                }
            },
            ReplayInfoEditorFocus::SaveChanges => ReplayInfoEditorFocus::LabelAdd,
        }
    }
}

/// Navigation in the menu is cyclic: from an entry that exists, a step
/// forward leads to the entry with the next index modulo the number of
/// entries, and a step backward to the one with the previous index modulo
/// that number.
pub proof fn lemma_menu_steps_are_cyclic(
    n: usize,
    max_labels: int,
    max_addable_labels: usize,
    for_deletion: bool,
)
    requires
        n < max_addable_labels,
    ensures
        ReplayInfoEditorFocus::AddableLabel(n).next(
            max_labels,
            max_addable_labels as int,
            for_deletion,
        ) == ReplayInfoEditorFocus::AddableLabel(((n + 1) % (max_addable_labels as int)) as usize),
        ReplayInfoEditorFocus::AddableLabel(n).prev(max_labels, max_addable_labels as int)
            == ReplayInfoEditorFocus::AddableLabel(
            ((n - 1 + max_addable_labels) % (max_addable_labels as int)) as usize,
        ),
{
    let count = max_addable_labels as int;
    if n + 1 < count {
        vstd::arithmetic::div_mod::lemma_small_mod((n + 1) as nat, count as nat);
    } else {
        vstd::arithmetic::div_mod::lemma_mod_self_0(count);
    }
    if n == 0 {
        vstd::arithmetic::div_mod::lemma_small_mod((count - 1) as nat, count as nat);
    } else {
        vstd::arithmetic::div_mod::lemma_mod_add_multiples_vanish(n - 1, count);
        vstd::arithmetic::div_mod::lemma_small_mod((n - 1) as nat, count as nat);
    }
}

/// Forward navigation never leaves `SaveChanges`, however often it is applied.
pub proof fn lemma_forward_stays_at_save(max_labels: int, max_addable_labels: int, steps: nat)
    ensures
        ReplayInfoEditorFocus::SaveChanges.forward(max_labels, max_addable_labels, steps)
            == ReplayInfoEditorFocus::SaveChanges,
    decreases steps,
{
    if steps > 0 {
        lemma_forward_stays_at_save(max_labels, max_addable_labels, (steps - 1) as nat);
    }
}

/// Where forward navigation stands on the way through the staged fields: from
/// the first field of `max_labels` fields, `steps` steps lead to the field
/// `steps / 2` where `steps` is even and to its delete control where it is odd.
pub proof fn lemma_forward_through_fields(max_labels: usize, max_addable_labels: int, steps: nat)
    requires
        steps < 2 * max_labels,
    ensures
        ReplayInfoEditorFocus::LabelData(0).forward(max_labels as int, max_addable_labels, steps)
            == (if steps % 2 == 0 {
            ReplayInfoEditorFocus::LabelData((steps / 2) as usize)
        } else {
            ReplayInfoEditorFocus::LabelRemove((steps / 2) as usize)
        }),
    decreases steps,
{
    if steps > 0 {
        lemma_forward_through_fields(max_labels, max_addable_labels, (steps - 1) as nat);
    }
}

/// From the first of `max_labels >= 1` staged fields, forward navigation
/// without deletions reaches `SaveChanges` after exactly `2 * max_labels + 1`
/// steps: it stands on the add control one step earlier, and on a field or a
/// delete control at every step before that.
pub proof fn lemma_forward_reaches_save(max_labels: usize, max_addable_labels: int)
    requires
        max_labels >= 1,
    ensures
        ReplayInfoEditorFocus::LabelData(0).forward(
            max_labels as int,
            max_addable_labels,
            (2 * max_labels + 1) as nat,
        ) == ReplayInfoEditorFocus::SaveChanges,
        forall|steps: nat|
            steps < 2 * max_labels + 1 ==> ReplayInfoEditorFocus::LabelData(0).forward(
                max_labels as int,
                max_addable_labels,
                steps,
            ) != ReplayInfoEditorFocus::SaveChanges,
{
    let first = ReplayInfoEditorFocus::LabelData(0);
    let ml = max_labels as int;
    lemma_forward_through_fields(max_labels, max_addable_labels, (2 * max_labels - 1) as nat);
    assert(first.forward(ml, max_addable_labels, (2 * max_labels - 1) as nat)
        == ReplayInfoEditorFocus::LabelRemove((max_labels - 1) as usize));
    assert(first.forward(ml, max_addable_labels, (2 * max_labels) as nat)
        == ReplayInfoEditorFocus::LabelAdd);
    assert(first.forward(ml, max_addable_labels, (2 * max_labels + 1) as nat)
        == ReplayInfoEditorFocus::SaveChanges);
    assert forall|steps: nat| steps < 2 * max_labels + 1 implies first.forward(
        ml,
        max_addable_labels,
        steps,
    ) != ReplayInfoEditorFocus::SaveChanges by {
        if steps < 2 * max_labels {
            lemma_forward_through_fields(max_labels, max_addable_labels, steps);
        }
    }
}

} // verus!
