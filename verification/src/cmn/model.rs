use vstd::prelude::*;
use crate::cmn::info::CursorInfo;
use crate::cmn::utils::magnitude;
use crate::traits::{fold_down, fold_up, Extras};

verus! {

/// A cursor as mathematics sees it: the sequence it walks, where it
/// stands, and the checkpoint it keeps.
pub ghost struct CursorView<T, E: Extras<T>> {
    pub items: Seq<T>,
    pub info: CursorInfo<T, E>,
    pub saved: CursorInfo<T, E>,
}

impl<T, E: Extras<T>> CursorView<T, E> {
    /// A state fits the sequence where its index is that of an item, or,
    /// before the first item was met, zero.
    pub open spec fn fits(self, info: CursorInfo<T, E>) -> bool {
        if info.init {
            info.pos < self.items.len()
        } else {
            info.pos == 0
        }
    }

    pub open spec fn wf(self) -> bool {
        &&& self.items.len() <= usize::MAX
        &&& self.fits(self.info)
        &&& self.fits(self.saved)
    }

    /// The view of a cursor just made over `items`.
    pub open spec fn fresh(items: Seq<T>) -> Self {
        CursorView { items, info: CursorInfo::fresh(), saved: CursorInfo::fresh() }
    }

    pub open spec fn with_info(self, info: CursorInfo<T, E>) -> Self {
        CursorView { info, ..self }
    }

    pub open spec fn with_backwards(self, backwards: bool) -> Self {
        self.with_info(CursorInfo { backwards, ..self.info })
    }

    pub open spec fn with_noeffects(self, noeffects: bool) -> Self {
        self.with_info(CursorInfo { noeffects, ..self.info })
    }

    pub open spec fn with_pos(self, pos: usize) -> Self {
        self.with_info(CursorInfo { pos, ..self.info })
    }

    /// The state after the cursor went to stand on index `idx`: the
    /// accumulator meets the item there, unless the cursor stood there
    /// already or the accumulator is switched off.
    pub open spec fn moved(self, idx: int) -> Self {
        let extras = if idx != self.info.pos && !self.info.noeffects {
            self.info.extras.changed(self.items[idx], idx as usize)
        } else {
            self.info.extras
        };
        self.with_info(CursorInfo { init: true, pos: idx as usize, extras, ..self.info })
    }

    /// Whether one step in the direction of travel meets an item.
    pub open spec fn can_step(self) -> bool {
        if !self.info.init {
            self.items.len() > 0
        } else if self.info.backwards {
            self.info.pos > 0
        } else {
            self.info.pos + 1 < self.items.len()
        }
    }

    /// The index that one step leads to. The first step of a cursor leads
    /// to index zero whichever way it travels.
    pub open spec fn step_target(self) -> int {
        if !self.info.init {
            0
        } else if self.info.backwards {
            self.info.pos - 1
        } else {
            self.info.pos + 1
        }
    }

    pub open spec fn after_next(self) -> Self {
        if self.can_step() {
            self.moved(self.step_target())
        } else {
            self
        }
    }

    pub open spec fn next_item(self) -> Option<T> {
        if self.can_step() {
            Some(self.items[self.step_target()])
        } else {
            None
        }
    }

    /// The state after `n` steps; a step that meets no item changes
    /// nothing.
    pub open spec fn stepped(self, n: nat) -> Self
        decreases n,
    {
        if n == 0 {
            self
        } else {
            self.stepped((n - 1) as nat).after_next()
        }
    }

    /// How many more steps meet an item.
    pub open spec fn remaining(self) -> nat {
        if self.items.len() == 0 {
            0
        } else if !self.info.init {
            if self.info.backwards {
                1
            } else {
                self.items.len()
            }
        } else if self.info.backwards {
            self.info.pos as nat
        } else {
            (self.items.len() - 1 - self.info.pos) as nat
        }
    }

    pub open spec fn after_jump(self, idx: usize) -> Self {
        if idx < self.items.len() {
            self.moved(idx as int)
        } else {
            self
        }
    }

    pub open spec fn jump_item(self, idx: usize) -> Option<T> {
        if idx < self.items.len() {
            Some(self.items[idx as int])
        } else {
            None
        }
    }

    /// The item under the cursor, once it has met one.
    pub open spec fn current_item(self) -> Option<T> {
        if self.info.init {
            Some(self.items[self.info.pos as int])
        } else {
            None
        }
    }

    /// The index that a move by `offset` leads to. A move by one from a
    /// cursor that has met nothing is its first step, and leads to zero.
    pub open spec fn offset_target(self, offset: int) -> int {
        if !self.info.init && magnitude(offset) == 1 {
            0
        } else {
            self.info.pos + offset
        }
    }

    /// Whether a move by `offset` meets an item. A move by zero meets
    /// the item under the cursor.
    pub open spec fn offset_ok(self, offset: int) -> bool {
        if offset == 0 {
            self.info.init
        } else {
            0 <= self.offset_target(offset) < self.items.len()
        }
    }

    pub open spec fn after_offset(self, offset: int) -> Self {
        if offset != 0 && self.offset_ok(offset) {
            self.moved(self.offset_target(offset))
        } else {
            self
        }
    }

    pub open spec fn offset_item(self, offset: int) -> Option<T> {
        if self.offset_ok(offset) {
            Some(self.items[self.offset_target(offset)])
        } else {
            None
        }
    }

    /// The state after a move `rhs` items to the right. An `rhs` that is
    /// more than an offset can be moves nothing.
    pub open spec fn after_added(self, rhs: usize) -> Self {
        if rhs <= isize::MAX {
            self.after_offset(rhs as int)
        } else {
            self
        }
    }

    pub open spec fn added_item(self, rhs: usize) -> Option<T> {
        if rhs <= isize::MAX {
            self.offset_item(rhs as int)
        } else {
            None
        }
    }

    /// The state after a move `rhs` items to the left. An `rhs` that is
    /// more than an offset can be moves nothing.
    pub open spec fn after_subed(self, rhs: usize) -> Self {
        if rhs <= isize::MAX {
            self.after_offset(-(rhs as int))
        } else {
            self
        }
    }

    pub open spec fn subed_item(self, rhs: usize) -> Option<T> {
        if rhs <= isize::MAX {
            self.offset_item(-(rhs as int))
        } else {
            None
        }
    }

    /// How many steps a shift by `n` takes: `n`; to the right from a
    /// cursor that has met nothing one more, for the step that meets
    /// the first item, but for `n` one only that step; to the left from
    /// such a cursor none for `n` one.
    pub open spec fn shift_paces(self, n: usize, rightwards: bool) -> nat {
        if self.info.init {
            n as nat
        } else if n == 1 {
            if rightwards {
                1
            } else {
                0
            }
        } else if rightwards {
            (n + 1) as nat
        } else {
            n as nat
        }
    }

    /// The state after a shift by `n`: turned the way asked for and
    /// stepped as often as `shift_paces` says.
    pub open spec fn shifted(self, n: usize, rightwards: bool) -> Self {
        self.with_backwards(!rightwards).stepped(self.shift_paces(n, rightwards))
    }

    /// What a shift by `n` reports: the item its last step meets, or,
    /// where it takes no step, the item under the cursor.
    pub open spec fn shifted_item(self, n: usize, rightwards: bool) -> Option<T> {
        let paces = self.shift_paces(n, rightwards);
        if paces == 0 {
            self.current_item()
        } else {
            self.with_backwards(!rightwards).stepped((paces - 1) as nat).next_item()
        }
    }

    /// The state after the cursor was turned to travel towards `pos`.
    pub open spec fn toward(self, pos: usize) -> Self {
        if self.info.pos > pos {
            self.with_backwards(true)
        } else if self.info.pos < pos {
            self.with_backwards(false)
        } else {
            self
        }
    }

    /// The state after the cursor was turned to travel the way `offset`
    /// points.
    pub open spec fn headed(self, offset: int) -> Self {
        if offset > 0 {
            self.with_backwards(false)
        } else if offset < 0 {
            self.with_backwards(true)
        } else {
            self
        }
    }

    /// How many steps a walk to `pos` takes: the distance, but to the
    /// index under the cursor as many as that index, and never none.
    pub open spec fn hops(self, pos: usize) -> nat {
        let d = if self.info.pos == pos {
            pos as int
        } else {
            magnitude(self.info.pos - pos)
        };
        if d == 0 {
            1
        } else {
            d as nat
        }
    }

    /// The state after a walk to the right onto every index below `hi`.
    /// The first item a cursor meets is not shown to the accumulator.
    pub open spec fn swept_up(self, hi: int) -> Self {
        let first = if self.info.init {
            self.info.pos + 1
        } else {
            1
        };
        let extras = if self.info.noeffects {
            self.info.extras
        } else {
            fold_up(self.info.extras, self.items, first, hi)
        };
        self.with_info(
            CursorInfo {
                init: true,
                backwards: false,
                pos: (hi - 1) as usize,
                extras,
                ..self.info
            },
        )
    }

    /// The state after a walk to the left onto every index from the one
    /// below the cursor down to `lo`.
    pub open spec fn swept_down(self, lo: int) -> Self {
        let extras = if self.info.noeffects {
            self.info.extras
        } else {
            fold_down(self.info.extras, self.items, lo, self.info.pos as int)
        };
        self.with_info(
            CursorInfo { init: true, backwards: true, pos: lo as usize, extras, ..self.info },
        )
    }

    /// The items between the checkpoint and the cursor, both ends
    /// included.
    pub open spec fn span(self) -> Seq<T> {
        let lo = if self.info.pos < self.saved.pos {
            self.info.pos
        } else {
            self.saved.pos
        };
        let hi = if self.info.pos < self.saved.pos {
            self.saved.pos
        } else {
            self.info.pos
        };
        self.items.subrange(lo as int, self.upto(hi + 1))
    }

    /// `i`, but no more than the number of items.
    pub open spec fn upto(self, i: int) -> int {
        if i < self.items.len() {
            i
        } else {
            self.items.len() as int
        }
    }

    pub open spec fn left_side(self) -> Seq<T> {
        self.items.subrange(0, self.info.pos as int)
    }

    pub open spec fn left_side_with_current(self) -> Seq<T> {
        self.items.subrange(0, self.upto(self.info.pos + 1))
    }

    pub open spec fn right_side(self) -> Seq<T> {
        self.items.subrange(self.upto(self.info.pos + 1), self.items.len() as int)
    }

    pub open spec fn right_side_with_current(self) -> Seq<T> {
        self.items.subrange(self.info.pos as int, self.items.len() as int)
    }

    /// The state after one step that turns round at either end instead
    /// of failing.
    pub open spec fn after_next_cycle(self) -> Self {
        if self.can_step() {
            self.after_next()
        } else {
            self.with_backwards(!self.info.backwards)
        }
    }

    pub open spec fn cycled(self, n: nat) -> Self
        decreases n,
    {
        if n == 0 {
            self
        } else {
            self.cycled((n - 1) as nat).after_next_cycle()
        }
    }

    /// The index that `jump_cycle` goes to for a target at or past the
    /// end.
    pub open spec fn cycle_index(self, pos: int) -> int {
        if pos < self.items.len() {
            pos
        } else {
            pos - self.items.len() - 1
        }
    }

    /// The state after `jump_to_offset_cycle`: unchanged where the move
    /// would lead to index zero, else moved as `jump_cycle` moves for a
    /// target at or past the end, and as `jump_to_offset` otherwise.
    pub open spec fn after_offset_cycle(self, offset: int) -> Self {
        let dst = self.info.pos + offset;
        if dst == 0 {
            self
        } else if self.items.len() <= dst {
            self.moved(self.cycle_index(dst))
        } else {
            self.after_offset(offset)
        }
    }

    /// The targets that `jump_cycle` can reach.
    pub open spec fn cycle_ok(self, pos: int) -> bool {
        0 <= pos && pos != self.items.len() && 0 <= self.cycle_index(pos) < self.items.len()
    }
}

impl<T, E: Extras<T>> CursorView<T, E> {
    /// Once a step meets no item, no later step changes anything.
    pub proof fn lemma_stuck(self, i: nat, n: nat)
        requires
            i <= n,
            !self.stepped(i).can_step(),
        ensures
            self.stepped(n) == self.stepped(i),
        decreases n - i,
    {
        if i < n {
            self.lemma_stuck(i, (n - 1) as nat);
        }
    }
}

/// Whether a walk from `v` that asks `f` about every item it meets ends
/// with its `k`th step: `f` said `!verdict` of the items before, and the
/// `k`th step met no item, or one of which `f` said `verdict`.
pub open spec fn walk_ends<T, E: Extras<T>, F: Fn(&T) -> bool>(
    v: CursorView<T, E>,
    f: F,
    k: nat,
    verdict: bool,
) -> bool {
    &&& k >= 1
    &&& forall|j: nat|
        j + 1 < k ==> (#[trigger] v.stepped(j)).can_step() && call_ensures(
            f,
            (&v.stepped(j).items[v.stepped(j).step_target()],),
            !verdict,
        )
    &&& {
        let last = v.stepped((k - 1) as nat);
        !last.can_step() || call_ensures(f, (&last.items[last.step_target()],), verdict)
    }
}

/// As `walk_ends`, for a walk over characters, which `f` is handed by
/// value.
pub open spec fn char_walk_ends<E: Extras<char>, F: Fn(char) -> bool>(
    v: CursorView<char, E>,
    f: F,
    k: nat,
    verdict: bool,
) -> bool {
    &&& k >= 1
    &&& forall|j: nat|
        j + 1 < k ==> (#[trigger] v.stepped(j)).can_step() && call_ensures(
            f,
            (v.stepped(j).items[v.stepped(j).step_target()],),
            !verdict,
        )
    &&& {
        let last = v.stepped((k - 1) as nat);
        !last.can_step() || call_ensures(f, (last.items[last.step_target()],), verdict)
    }
}

/// The number of steps that a walk by `offset` takes: its size, and one
/// where that is zero.
pub open spec fn paces(offset: int) -> nat {
    if offset == 0 {
        1
    } else {
        magnitude(offset) as nat
    }
}

} // verus!
