use vstd::prelude::*;
use crate::cmn::model::CursorView;
use crate::traits::{fold_up, Extras};

verus! {

impl<T, E: Extras<T>> CursorView<T, E> {
    /// After a jump to an index of the sequence the cursor stands on the
    /// item at that index, and the jump has shown it.
    pub proof fn law_jump_reads_index(self, i: usize)
        requires
            self.wf(),
            i < self.items.len(),
        ensures
            self.jump_item(i) == Some(self.items[i as int]),
            self.after_jump(i).current_item() == Some(self.items[i as int]),
            self.after_jump(i).info.pos == i,
            self.after_jump(i).wf(),
    {
    }

    /// A jump to the index under the cursor tells the accumulator
    /// nothing; any other jump tells it once, of the item landed on.
    pub proof fn law_jump_tells_once(self, i: usize)
        requires
            self.wf(),
            i < self.items.len(),
        ensures
            i == self.info.pos || self.info.noeffects ==> self.after_jump(i).info.extras
                == self.info.extras,
            i != self.info.pos && !self.info.noeffects ==> self.after_jump(i).info.extras
                == self.info.extras.changed(self.items[i as int], i),
    {
    }

    /// Turning round twice gives back the state it began with.
    pub proof fn law_turnaround_twice(self)
        ensures
            self.with_backwards(!self.info.backwards).with_backwards(self.info.backwards) == self,
    {
    }

    /// Turning round moves nothing.
    pub proof fn law_turnaround_keeps_place(self)
        ensures
            self.with_backwards(!self.info.backwards).info.pos == self.info.pos,
            self.with_backwards(!self.info.backwards).info.init == self.info.init,
            self.with_backwards(!self.info.backwards).info.extras == self.info.extras,
            self.with_backwards(!self.info.backwards).items == self.items,
    {
    }

    /// A step, a turn and another step lead back: the second step meets
    /// the item that the cursor stood on before the first.
    pub proof fn law_step_back(self)
        requires
            self.wf(),
            self.info.init,
            self.can_step(),
        ensures
            ({
                let there = self.after_next();
                let turned = there.with_backwards(!there.info.backwards);
                &&& turned.can_step()
                &&& turned.next_item() == Some(self.items[self.info.pos as int])
                &&& turned.after_next().info.pos == self.info.pos
            }),
    {
    }

    /// Writing the checkpoint and reading it back at once changes
    /// nothing but the checkpoint.
    pub proof fn law_save_load(self)
        ensures
            ({
                let kept = CursorView { saved: self.info, ..self };
                kept.with_info(kept.saved) == kept && kept.info == self.info && kept.items
                    == self.items
            }),
    {
    }

    /// Steps to the right from a cursor that stands on an item: `n` of
    /// them, none past the end, show the accumulator the `n` items after
    /// it, each once and in order.
    pub proof fn law_steps_right(self, n: nat)
        requires
            self.wf(),
            self.info.init,
            !self.info.backwards,
            self.info.pos + n < self.items.len(),
        ensures
            self.stepped(n) == self.swept_up(self.info.pos + n + 1),
        decreases n,
    {
        if n == 0 {
            assert(self.swept_up(self.info.pos + 1) =~= self);
        } else {
            self.law_steps_right((n - 1) as nat);
            let before = self.stepped((n - 1) as nat);
            assert(before.after_next() =~= self.swept_up(self.info.pos + n + 1));
        }
    }

    /// Steps to the left from a cursor that stands on an item: `n` of
    /// them, none past the start, show the accumulator the `n` items
    /// before it, each once and in falling order.
    pub proof fn law_steps_left(self, n: nat)
        requires
            self.wf(),
            self.info.init,
            self.info.backwards,
            n <= self.info.pos,
        ensures
            self.stepped(n) == self.swept_down(self.info.pos - n),
        decreases n,
    {
        if n == 0 {
            assert(self.swept_down(self.info.pos as int) =~= self);
        } else {
            self.law_steps_left((n - 1) as nat);
            let before = self.stepped((n - 1) as nat);
            assert(before.after_next() =~= self.swept_down(self.info.pos - n));
        }
    }

    /// Steps add up: `a + b` steps are `a` steps and then `b` more.
    pub proof fn law_steps_add(self, a: nat, b: nat)
        ensures
            self.stepped(a + b) == self.stepped(a).stepped(b),
        decreases b,
    {
        if b > 0 {
            self.law_steps_add(a, (b - 1) as nat);
        }
    }

    /// A walk over the whole sequence, from a cursor that has met
    /// nothing: as many steps as there are items. The first step shows
    /// the accumulator nothing; every later one shows it the item it
    /// lands on. In the end the accumulator holds what folding `changed`
    /// over the items after the first gives.
    pub proof fn law_full_walk(self, n: nat)
        requires
            self.wf(),
            !self.info.init,
            !self.info.backwards,
            1 <= n <= self.items.len(),
        ensures
            self.stepped(n) == self.swept_up(n as int),
            self.stepped(n).info.pos == n - 1,
            !self.info.noeffects ==> self.stepped(n).info.extras == fold_up(
                self.info.extras,
                self.items,
                1,
                n as int,
            ),
        decreases n,
    {
        if n == 1 {
            reveal_with_fuel(CursorView::stepped, 2);
            assert(self.stepped(1) =~= self.swept_up(1));
        } else {
            self.law_full_walk((n - 1) as nat);
            let before = self.stepped((n - 1) as nat);
            assert(before.after_next() =~= self.swept_up(n as int));
        }
    }
}

} // verus!
