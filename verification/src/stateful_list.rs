//! An ordered list with at most one selected position.

use vstd::prelude::*;

verus! {

/// What a list with a cursor is: its items in order, and the position the
/// cursor stands on, if it stands anywhere.
pub struct ListView<T> {
    pub items: Seq<T>,
    pub cursor: Option<nat>,
}

/// One change that a list can undergo.
pub enum ListChange<T> {
    /// The cursor moves one item towards the end.
    Advance,
    /// The cursor moves one item towards the start.
    Retreat,
    /// The item at the position leaves.
    Delete(int),
    /// The item comes in at the position.
    Insert(T, int),
    /// The item comes in at the end.
    Push(T),
}

impl<T> ListView<T> {
    /// A fresh list over `items`: the cursor on the first item, if there is one.
    pub open spec fn with_items(items: Seq<T>) -> Self {
        ListView { items, cursor: if items.len() > 0 { Some(0nat) } else { None } }
    }

    /// The selection invariant: the cursor stands on an item of a list that
    /// has items, and nowhere in a list that has none.
    pub open spec fn wf(self) -> bool {
        match self.cursor {
            Some(i) => i < self.items.len(),
            None => self.items.len() == 0,
        }
    }

    /// What a reader is told is selected: nothing in an empty list, else the
    /// cursor.
    pub open spec fn selected(self) -> Option<nat> {
        if self.items.len() == 0 {
            None
        } else {
            self.cursor
        }
    }

    /// The cursor, when it stands on an item.
    pub open spec fn selected_index(self) -> Option<nat> {
        match self.cursor {
            Some(i) if i < self.items.len() => Some(i),
            _ => None,
        }
    }

    /// One step towards the end, stopping at the last item. A list with
    /// items and no cursor gets its cursor on the first item.
    pub open spec fn advance(self) -> Self {
        if self.items.len() == 0 {
            self
        } else {
            let last = (self.items.len() - 1) as nat;
            let cursor = match self.cursor {
                Some(i) => if i + 1 < last { i + 1 } else { last },
                None => 0,
            };
            ListView { items: self.items, cursor: Some(cursor) }
        }
    }

    /// One step towards the start, stopping at the first item. A list with
    /// items and no cursor gets its cursor on the first item.
    pub open spec fn retreat(self) -> Self {
        if self.items.len() == 0 {
            self
        } else {
            let cursor = match self.cursor {
                Some(i) => if i > 0 { (i - 1) as nat } else { 0 },
                None => 0,
            };
            ListView { items: self.items, cursor: Some(cursor) }
        }
    }

    /// The list after `steps` steps towards the end.
    pub open spec fn advance_by(self, steps: nat) -> Self
        decreases steps,
    {
        if steps == 0 {
            self
        } else {
            self.advance().advance_by((steps - 1) as nat)
        }
    }

    /// The list with a cursor that stands behind the last item brought back
    /// onto the last item.
    pub open spec fn within(self) -> Self {
        match self.cursor {
            Some(i) if self.items.len() > 0 && i >= self.items.len() => ListView {
                items: self.items,
                cursor: Some((self.items.len() - 1) as nat),
            },
            _ => self,
        }
    }

    /// The list without the item at `index`. The cursor goes away with the
    /// last item. It steps back once when the item removed was the last in
    /// order, and it never stays behind the end: where it would, it comes to
    /// stand on the last item. Otherwise it keeps its position.
    pub open spec fn delete(self, index: int) -> Self
        recommends
            0 <= index < self.items.len(),
    {
        let rest = ListView { items: self.items.remove(index), cursor: self.cursor };
        if rest.items.len() == 0 {
            ListView { items: rest.items, cursor: None }
        } else if index >= rest.items.len() {
            rest.retreat().within()
        } else {
            rest.within()
        }
    }

    /// The cursor after an item has come into the list: on that item if it
    /// is the first that the list holds, else where it was.
    pub open spec fn cursor_after_entry(self) -> Option<nat> {
        if self.items.len() == 0 {
            Some(0nat)
        } else {
            self.cursor
        }
    }

    /// The list with `item` put in at `index`. The cursor keeps its position,
    /// but for a list without items, whose one item it then selects.
    pub open spec fn insert(self, item: T, index: int) -> Self
        recommends
            0 <= index <= self.items.len(),
    {
        ListView { items: self.items.insert(index, item), cursor: self.cursor_after_entry() }
    }

    /// The list with `item` at its end. The cursor keeps its position, but
    /// for a list without items, whose one item it then selects.
    pub open spec fn push(self, item: T) -> Self {
        ListView { items: self.items.push(item), cursor: self.cursor_after_entry() }
    }

    /// While the selection invariant holds, the selection is a position of
    /// the list if the list has items, and nothing if it has none.
    pub proof fn law_selected_in_range(self)
        requires
            self.wf(),
        ensures
            self.items.len() > 0 ==> self.selected() is Some,
            self.items.len() > 0 ==> self.selected().unwrap() < self.items.len(),
            self.items.len() == 0 ==> self.selected() is None,
            self.selected_index() == self.selected(),
    {
    }

    /// Moving the cursor never changes the items and never takes the cursor
    /// out of the list; moving it forward in a list with items always leaves
    /// it on one of them.
    pub proof fn law_moves_stay_inside(self)
        ensures
            self.advance().items == self.items,
            self.retreat().items == self.items,
            self.wf() ==> self.advance().wf(),
            self.wf() ==> self.retreat().wf(),
            self.items.len() > 0 ==> self.advance().wf(),
    {
    }

    /// Once the cursor is on the last item, moving forward leaves the list
    /// as it is, however often it is done.
    pub proof fn law_advance_stops_at_end(self, steps: nat)
        requires
            self.items.len() > 0,
            self.cursor == Some((self.items.len() - 1) as nat),
        ensures
            self.advance_by(steps) == self,
        decreases steps,
    {
        if steps > 0 {
            self.law_advance_stops_at_end((steps - 1) as nat);
        }
    }

    /// Moving forward at least as often as the list is long ends on the last
    /// item, wherever the cursor was.
    pub proof fn law_advance_reaches_end(self, steps: nat)
        requires
            self.items.len() > 0,
            steps >= self.items.len(),
        ensures
            self.advance_by(steps).items == self.items,
            self.advance_by(steps).cursor == Some((self.items.len() - 1) as nat),
    {
        self.lemma_advance_by(steps);
    }

    /// Deleting the only item leaves an empty list with nothing selected.
    /// Deleting the last item while it is selected selects the item before
    /// it. Deleting an item before the selected one, or the selected one
    /// where it is not the last, leaves the cursor on its position, if that
    /// is still a position of the list.
    pub proof fn law_delete_near_end(self, index: int)
        requires
            0 <= index < self.items.len(),
        ensures
            self.delete(index).items == self.items.remove(index),
            self.items.len() == 1 ==> self.delete(index).items.len() == 0,
            self.items.len() == 1 ==> self.delete(index).selected() is None,
            self.items.len() >= 2 && index == self.items.len() - 1 && self.cursor == Some(index as nat)
                ==> self.delete(index).cursor == Some((index - 1) as nat),
            self.cursor matches Some(i) && index < self.items.len() - 1 && i < self.items.len() - 1
                ==> self.delete(index).cursor == self.cursor,
            self.cursor matches Some(i) && index < self.items.len() - 1 && i >= self.items.len() - 1
                ==> self.delete(index).cursor == Some((self.items.len() - 2) as nat),
    {
    }

    /// Every operation of the list keeps the selection invariant.
    pub proof fn law_operations_keep_selection(self, item: T, index: int)
        requires
            self.wf(),
        ensures
            self.advance().wf(),
            self.retreat().wf(),
            self.push(item).wf(),
            0 <= index <= self.items.len() ==> self.insert(item, index).wf(),
            0 <= index < self.items.len() ==> self.delete(index).wf(),
    {
    }

    /// Whether the list can take `change`: a deletion names an item, an
    /// insertion a position of the list or the one behind its end.
    pub open spec fn admits(self, change: ListChange<T>) -> bool {
        match change {
            ListChange::Delete(index) => 0 <= index < self.items.len(),
            ListChange::Insert(_, index) => 0 <= index <= self.items.len(),
            _ => true,
        }
    }

    /// The list after `change`.
    pub open spec fn changed(self, change: ListChange<T>) -> Self {
        match change {
            ListChange::Advance => self.advance(),
            ListChange::Retreat => self.retreat(),
            ListChange::Delete(index) => self.delete(index),
            ListChange::Insert(item, index) => self.insert(item, index),
            ListChange::Push(item) => self.push(item),
        }
    }

    /// Whether the list can take `changes` one after the other.
    pub open spec fn admits_all(self, changes: Seq<ListChange<T>>) -> bool
        decreases changes.len(),
    {
        changes.len() > 0 ==> self.admits(changes[0]) && self.changed(changes[0]).admits_all(
            changes.drop_first(),
        )
    }

    /// The list after `changes`, one after the other.
    pub open spec fn changed_by(self, changes: Seq<ListChange<T>>) -> Self
        decreases changes.len(),
    {
        if changes.len() == 0 {
            self
        } else {
            self.changed(changes[0]).changed_by(changes.drop_first())
        }
    }

    /// The list made of `items` and then changed by `changes`.
    pub open spec fn built(items: Seq<T>, changes: Seq<ListChange<T>>) -> Self {
        Self::with_items(items).changed_by(changes)
    }

    /// A list made of any items and then changed by any operations that it
    /// could take keeps the selection invariant: where it has items, what is
    /// selected is one of its positions, and where it has none, nothing is.
    pub proof fn law_built_list_selects_in_range(items: Seq<T>, changes: Seq<ListChange<T>>)
        requires
            Self::with_items(items).admits_all(changes),
        ensures
            Self::built(items, changes).wf(),
            Self::built(items, changes).items.len() > 0 ==> Self::built(items, changes).selected()
                is Some,
            Self::built(items, changes).items.len() > 0 ==> Self::built(
                items,
                changes,
            ).selected().unwrap() < Self::built(items, changes).items.len(),
            Self::built(items, changes).items.len() == 0 ==> Self::built(items, changes).selected()
                is None,
    {
        Self::with_items(items).lemma_changes_keep_selection(changes);
    }

    /// Changes that a list keeping the selection invariant could take leave
    /// a list that keeps it.
    proof fn lemma_changes_keep_selection(self, changes: Seq<ListChange<T>>)
        requires
            self.wf(),
            self.admits_all(changes),
        ensures
            self.changed_by(changes).wf(),
        decreases changes.len(),
    {
        if changes.len() > 0 {
            self.changed(changes[0]).lemma_changes_keep_selection(changes.drop_first());
        }
    }

    /// Where `steps` steps forward lead: to the position `steps` further on,
    /// or to the last item if that comes first.
    proof fn lemma_advance_by(self, steps: nat)
        requires
            self.items.len() > 0,
            steps > 0,
        ensures
            self.advance_by(steps).items == self.items,
            self.advance_by(steps).cursor == Some(
                match self.cursor {
                    Some(i) => if i + steps < self.items.len() {
                        i + steps
                    } else {
                        (self.items.len() - 1) as nat
                    },
                    None => if steps - 1 < self.items.len() {
                        (steps - 1) as nat
                    } else {
                        (self.items.len() - 1) as nat
                    },
                },
            ),
        decreases steps,
    {
        if steps > 1 {
            self.advance().lemma_advance_by((steps - 1) as nat);
        } else {
            assert(self.advance().advance_by(0) == self.advance());
        }
    }
}

/// A list of items together with a cursor that marks one of them.
#[derive(Debug)]
pub struct StatefulList<T> {
    pub cursor: Option<usize>,
    pub items: Vec<T>,
}

impl<T> View for StatefulList<T> {
    type V = ListView<T>;

    open spec fn view(&self) -> ListView<T> {
        ListView {
            items: self.items@,
            cursor: match self.cursor {
                Some(i) => Some(i as nat),
                None => None,
            },
        }
    }
}

impl<T> StatefulList<T> {
    /// Makes a list of `items` with the cursor on the first of them.
    pub fn with_items(items: Vec<T>) -> (list: Self)
        ensures
            list@ == ListView::with_items(items@),
            list@.wf(),
    {
        let mut list = Self { cursor: None, items };
        list.next();
        list
    }

    /// Moves the cursor one item forward; it stays on the last item.
    pub fn next(&mut self)
        ensures
            final(self)@ == old(self)@.advance(),
            old(self)@.wf() ==> final(self)@.wf(),
            old(self)@.items.len() > 0 ==> final(self)@.wf(),
    {
        if !self.items.is_empty() {
            let last: usize = self.items.len() - 1;
            let i: usize = match self.cursor {
                Some(i) => if i >= last {
                    last
                } else {
                    i + 1
                },
                None => 0,
            };
            self.cursor = Some(i);
        }
    }

    /// Moves the cursor one item backward; it stays on the first item.
    pub fn previous(&mut self)
        ensures
            final(self)@ == old(self)@.retreat(),
            old(self)@.wf() ==> final(self)@.wf(),
    {
        if !self.items.is_empty() {
            let i: usize = match self.cursor {
                Some(i) => if i == 0 {
                    i
                } else {
                    i - 1
                },
                None => 0,
            };
            self.cursor = Some(i);
        }
    }

    /// Removes the item at `index`. The cursor goes away with the last item,
    /// steps back once when the item removed was the last in order, and is
    /// brought back onto the last item where it would stand behind the end.
    pub fn delete(&mut self, index: usize)
        requires
            index < old(self)@.items.len(),
        ensures
            final(self)@ == old(self)@.delete(index as int),
            old(self)@.items.len() == 1 ==> final(self)@.items.len() == 0,
            old(self)@.items.len() == 1 ==> final(self)@.selected() is None,
            old(self)@.items.len() >= 2 && index + 1 == old(self)@.items.len() && old(self)@.cursor
                == Some(index as nat) ==> final(self)@.cursor == Some((index - 1) as nat),
            old(self)@.wf() ==> final(self)@.wf(),
            old(self)@.cursor is Some ==> final(self)@.wf(),
    {
        self.items.remove(index);
        if self.items.is_empty() {
            self.cursor = None;
        } else {
            let last: usize = self.items.len() - 1;
            if index > last {
                self.previous();
            }
            match self.cursor {
                Some(i) => if i > last {
                    self.cursor = Some(last);
                },
                None => {},
            }
        }
    }

    /// Puts `new_item` in at `index`. The cursor is not moved, but for a
    /// list without items: there it comes to stand on the new item.
    pub fn insert(&mut self, new_item: T, index: usize)
        requires
            index <= old(self)@.items.len(),
        ensures
            final(self)@ == old(self)@.insert(new_item, index as int),
            old(self)@.wf() ==> final(self)@.wf(),
            old(self)@.items.len() == 0 ==> final(self)@.wf(),
    {
        if self.items.is_empty() {
            self.cursor = Some(0);
        }
        self.items.insert(index, new_item)
    }

    /// Puts `new_item` at the end. The cursor is not moved, but for a list
    /// without items: there it comes to stand on the new item.
    pub fn push(&mut self, new_item: T)
        ensures
            final(self)@ == old(self)@.push(new_item),
            old(self)@.wf() ==> final(self)@.wf(),
            old(self)@.items.len() == 0 ==> final(self)@.wf(),
    {
        if self.items.is_empty() {
            self.cursor = Some(0);
        }
        self.items.push(new_item)
    }

    /// The position of the cursor, or `None` when the list is empty.
    pub fn selected(&self) -> (position: Option<usize>)
        ensures
            position matches Some(i) ==> self@.selected() == Some(i as nat),
            position is None ==> self@.selected() is None,
            self@.wf() && self@.items.len() > 0 ==> position is Some,
            self@.wf() && self@.items.len() > 0 ==> position.unwrap() < self@.items.len(),
            self@.items.len() == 0 ==> position is None,
    {
        if self.items.is_empty() {
            return None;
        }
        self.cursor
    }

    /// The position of the cursor when an item stands there, else `None`.
    pub fn selected_index(&self) -> (position: Option<usize>)
        ensures
            position matches Some(i) ==> self@.selected_index() == Some(i as nat),
            position is None ==> self@.selected_index() is None,
            self@.wf() ==> position == self.cursor,
    {
        match self.cursor {
            Some(i) => if i < self.items.len() {
                Some(i)
            } else {
                None
            },
            None => None,
        }
    }
}

} // verus!
