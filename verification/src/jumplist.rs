//! The list of places jumped from, to go back and forward between them.
use vstd::prelude::*;

use crate::prelude::Location;

verus! {

/// A place: a view and a location in it.
#[derive(Copy, Clone, Eq, PartialEq, Structural, Debug)]
pub struct JumpEntry {
    pub view_idx: usize,
    pub location: Location,
}

/// The entries recorded, and the one that is current.
pub struct JumpList {
    entries: Vec<JumpEntry>,
    index: usize,
}

/// The start of the first view.
pub open spec fn first_entry() -> JumpEntry {
    JumpEntry { view_idx: 0, location: Location { grapheme_idx: 0, line_idx: 0, preferred_grapheme_idx: 0 } }
}

/// The entries and current index after recording `e`: unless `e` is the
/// current entry, the entries after the current one are dropped and `e`
/// becomes the last and current one.
pub open spec fn recorded(entries: Seq<JumpEntry>, index: nat, e: JumpEntry) -> (Seq<JumpEntry>, nat) {
    if index < entries.len() && entries[index as int] == e {
        (entries, index)
    } else {
        let kept = entries.take(if index + 1 <= entries.len() { index + 1 as int } else { entries.len() as int });
        (kept.push(e), kept.len())
    }
}

impl JumpList {
    pub closed spec fn entries_view(&self) -> Seq<JumpEntry> {
        self.entries@
    }

    pub closed spec fn index_view(&self) -> nat {
        self.index as nat
    }

    /// The current index points at an entry.
    pub open spec fn wf(&self) -> bool {
        self.index_view() < self.entries_view().len()
    }

    /// A list holding the start of the first view.
    pub fn new() -> (r: Self)
        ensures
            r.wf(),
            r.entries_view() == seq![first_entry()],
            r.index_view() == 0,
    {
        let mut entries = Vec::new();
        entries.push(JumpEntry {
            view_idx: 0,
            location: Location { grapheme_idx: 0, line_idx: 0, preferred_grapheme_idx: 0 },
        });
        assert(entries@ =~= seq![first_entry()]);
        JumpList { entries, index: 0 }
    }

    /// Records `entry` as where the caret is now, as `recorded` describes.
    pub fn record(&mut self, entry: JumpEntry)
        requires
            old(self).wf(),
        ensures
            final(self).wf(),
            (final(self).entries_view(), final(self).index_view()) == recorded(
                old(self).entries_view(),
                old(self).index_view(),
                entry,
            ),
    {
        if self.index < self.entries.len() && self.entries[self.index] == entry {
            return;
        }
        let keep = if self.index < self.entries.len() { self.index + 1 } else { self.entries.len() };
        self.entries.truncate(keep);
        self.entries.push(entry);
        self.index = self.entries.len() - 1;
        assert(self.entries@ =~= old(self).entries@.take(keep as int).push(entry));
    }

    /// Goes back from `current` (recorded first if it is not the current
    /// entry): the previous entry, if there is one.
    pub fn back(&mut self, current: JumpEntry) -> (r: Option<JumpEntry>)
        requires
            old(self).wf(),
        ensures
            final(self).wf(),
            ({
                let (es, i) = recorded(old(self).entries_view(), old(self).index_view(), current);
                &&& final(self).entries_view() == es
                &&& if i > 0 {
                    final(self).index_view() == i - 1 && r == Some(es[i - 1])
                } else {
                    final(self).index_view() == i && r is None
                }
            }),
    {
        self.record(current);
        if self.index > 0 {
            self.index = self.index - 1;
            Some(self.entries[self.index])
        } else {
            None
        }
    }

    /// Goes forward: the next entry, if there is one.
    pub fn forward(&mut self) -> (r: Option<JumpEntry>)
        requires
            old(self).wf(),
        ensures
            final(self).wf(),
            final(self).entries_view() == old(self).entries_view(),
            if old(self).index_view() + 1 < old(self).entries_view().len() {
                final(self).index_view() == old(self).index_view() + 1 && r == Some(
                    old(self).entries_view()[old(self).index_view() + 1 as int],
                )
            } else {
                final(self).index_view() == old(self).index_view() && r is None
            },
    {
        if self.index < self.entries.len() - 1 {
            self.index = self.index + 1;
            Some(self.entries[self.index])
        } else {
            None
        }
    }

    /// Forgets all entries but the start of the first view.
    pub fn reset(&mut self)
        ensures
            final(self).wf(),
            final(self).entries_view() == seq![first_entry()],
            final(self).index_view() == 0,
    {
        *self = JumpList::new();
    }
}

/// Going back from a place and then forward again returns to that place.
pub proof fn lemma_back_then_forward(l0: JumpList, l1: JumpList, l2: JumpList, current: JumpEntry, b: Option<
    JumpEntry,
>, f: Option<JumpEntry>)
    requires
        l0.wf(),
        ({
            let (es, i) = recorded(l0.entries_view(), l0.index_view(), current);
            &&& l1.entries_view() == es
            &&& if i > 0 {
                l1.index_view() == i - 1 && b == Some(es[i - 1])
            } else {
                l1.index_view() == i && b is None
            }
        }),
        l1.wf(),
        b is Some,
        l2.entries_view() == l1.entries_view(),
        if l1.index_view() + 1 < l1.entries_view().len() {
            l2.index_view() == l1.index_view() + 1 && f == Some(l1.entries_view()[l1.index_view() + 1 as int])
        } else {
            l2.index_view() == l1.index_view() && f is None
        },
    ensures
        f == Some(current),
{
}

} // verus!
