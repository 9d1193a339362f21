//! The journey state machine: an ordered sequence of steps, a cursor, and
//! the audit trail of chosen indices. The embedding application renders the
//! current step, reads one line, and offers it to the journey; each valid
//! selection advances the cursor by exactly one and yields a `Selection`.

use vstd::prelude::*;
use crate::error::Error;
use crate::input::{interp, interpret_input, trimmed, UserAction};
use crate::step::{render_chars, Selection, Step, StepItem};
use crate::text::{all_digits, digits_val};

verus! {

/// The ordered steps of a wizard run, plus traversal state: the cursor and
/// the history of chosen indices. The cursor only ever moves forward.
#[derive(Debug)]
pub struct Journey<T> where T: Clone {
    current: usize,
    steps: Vec<Step<T>>,
    selected_items: Vec<usize>,
    ended: bool,
}

/// What one offered input line did to the journey.
#[derive(Debug)]
pub enum Advance<T> where T: Clone {
    /// The line selected an item: one `Selection` is produced.
    Produced(Selection<T>),
    /// The line was a recoverable error; the same step asks again.
    Retry,
    /// The line was a quit request; the traversal is over.
    Ended,
}

impl<T: Clone> Journey<T> {
    /// The cursor: how many steps have been completed.
    pub closed spec fn spec_current(&self) -> usize {
        self.current
    }

    /// The steps, in order.
    pub closed spec fn spec_steps(&self) -> Seq<Step<T>> {
        self.steps@
    }

    /// The chosen 0-based item index of each completed step, in order.
    pub closed spec fn spec_selected(&self) -> Seq<usize> {
        self.selected_items@
    }

    /// Whether the traversal was ended early (quit or transport failure).
    pub closed spec fn spec_ended(&self) -> bool {
        self.ended
    }

    /// The traversal invariant: the audit trail is exactly as long as the
    /// number of completed steps, the cursor never passes the end, and
    /// every recorded choice was a valid index into its step's menu.
    pub open spec fn inv(&self) -> bool {
        &&& self.spec_selected().len() == self.spec_current()
        &&& self.spec_current() <= self.spec_steps().len()
        &&& forall|i: int| 0 <= i < self.spec_current()
            ==> (#[trigger] self.spec_selected()[i]) < self.spec_steps()[i].items@.len()
    }

    /// Whether the traversal is over: every step completed, or ended early.
    pub open spec fn spec_done(&self) -> bool {
        self.spec_ended() || self.spec_current() >= self.spec_steps().len()
    }

    /// A fresh journey: no steps, nothing selected, cursor at the start.
    pub fn new() -> (r: Self)
        ensures
            r.inv(),
            r.spec_current() == 0,
            r.spec_steps().len() == 0,
            r.spec_selected().len() == 0,
            !r.spec_ended(),
    {
        Journey { current: 0, steps: Vec::new(), selected_items: Vec::new(), ended: false }
    }

    /// Appends one step, built from a title and a menu of items, with no
    /// error set. Nothing else changes.
    pub fn step<I>(&mut self, title: String, items: Vec<StepItem<T>>)
        requires
            old(self).inv(),
        ensures
            final(self).inv(),
            final(self).spec_steps().len() == old(self).spec_steps().len() + 1,
            final(self).spec_steps().last().title@ == title@,
            final(self).spec_steps().last().items@ == items@,
            final(self).spec_steps().last().error is None,
            final(self).spec_steps().subrange(0, old(self).spec_steps().len() as int)
                == old(self).spec_steps(),
            final(self).spec_current() == old(self).spec_current(),
            final(self).spec_selected() == old(self).spec_selected(),
            final(self).spec_ended() == old(self).spec_ended(),
    {
        self.steps.push(Step { title, items, error: None });
        proof {
            assert(self.steps@.subrange(0, old(self).steps@.len() as int) =~= old(self).steps@);
        }
    }

    /// How many steps the journey holds.
    pub fn steps_len(&self) -> (r: usize)
        ensures
            r == self.spec_steps().len(),
    {
        self.steps.len()
    }

    /// The cursor: how many steps have been completed so far.
    pub fn current(&self) -> (r: usize)
        ensures
            r == self.spec_current(),
    {
        self.current
    }

    /// The chosen 0-based index of each completed step, in order.
    pub fn selected_items(&self) -> (r: &Vec<usize>)
        ensures
            r@ == self.spec_selected(),
    {
        &self.selected_items
    }

    /// Whether the traversal is over and no further selection will come.
    pub fn is_done(&self) -> (r: bool)
        ensures
            r == self.spec_done(),
    {
        self.ended || self.current >= self.steps.len()
    }

    /// Renders the current step's screen.
    pub fn render_current(&self) -> (r: String)
        requires
            self.inv(),
            !self.spec_done(),
        ensures
            ({
                let stp = self.spec_steps()[self.spec_current() as int];
                r@ == render_chars(stp.title@, stp.items@, stp.error)
            }),
    {
        self.steps[self.current].render()
    }

    /// Ends the traversal without completing the current step, as a
    /// transport-level read failure does: the journey looks exhausted from
    /// then on, and nothing else changes.
    pub fn close(&mut self)
        requires
            old(self).inv(),
        ensures
            final(self).inv(),
            final(self).spec_ended(),
            final(self).spec_current() == old(self).spec_current(),
            final(self).spec_selected() == old(self).spec_selected(),
            final(self).spec_steps() == old(self).spec_steps(),
    {
        self.ended = true;
    }

    /// Offers one raw input line to the current step.
    ///
    /// A line selecting item `v` (1-based) clears the step's error, records
    /// index `v - 1`, moves the cursor forward by one, and produces the
    /// `Selection`; a quit request ends the traversal with the step left
    /// as it was; a recoverable error is stored on the step for the next
    /// render and the journey asks again.
    pub fn offer_line(&mut self, line: &str) -> (r: Advance<T>)
        requires
            old(self).inv(),
            !old(self).spec_done(),
        ensures
            final(self).inv(),
            final(self).spec_steps().len() == old(self).spec_steps().len(),
            ({
                let t = trimmed(line@);
                let cur = old(self).spec_current() as int;
                let stp = old(self).spec_steps()[cur];
                let cnt = stp.items@.len();
                if t == "q"@ {
                    &&& r matches Advance::Ended
                    &&& final(self).spec_ended()
                    &&& final(self).spec_current() == old(self).spec_current()
                    &&& final(self).spec_selected() == old(self).spec_selected()
                    &&& final(self).spec_steps() == old(self).spec_steps()
                } else if all_digits(t) && 1 <= digits_val(t) <= cnt {
                    let chosen = stp.items@[digits_val(t) - 1];
                    &&& (r matches Advance::Produced(sel)
                        && sel.step == old(self).spec_current()
                        && sel.selected.title@ == chosen.title@
                        && cloned::<T>(chosen.value, sel.selected.value)
                        && valid_selection_step(
                            *old(self),
                            *final(self),
                            sel,
                            (digits_val(t) - 1) as usize,
                        ))
                    &&& final(self).spec_current() == old(self).spec_current() + 1
                    &&& final(self).spec_selected()
                        == old(self).spec_selected().push((digits_val(t) - 1) as usize)
                    &&& !final(self).spec_ended()
                    &&& final(self).spec_steps()[cur].title@ == stp.title@
                    &&& final(self).spec_steps()[cur].items@ == stp.items@
                    &&& final(self).spec_steps()[cur].error is None
                    &&& forall|j: int| 0 <= j < old(self).spec_steps().len() && j != cur
                        ==> final(self).spec_steps()[j] == old(self).spec_steps()[j]
                } else {
                    &&& r matches Advance::Retry
                    &&& final(self).spec_current() == old(self).spec_current()
                    &&& final(self).spec_selected() == old(self).spec_selected()
                    &&& !final(self).spec_ended()
                    &&& final(self).spec_steps()[cur].title@ == stp.title@
                    &&& final(self).spec_steps()[cur].items@ == stp.items@
                    &&& (final(self).spec_steps()[cur].error matches Some(e)
                        && interp(t, cnt as nat, Err::<UserAction, Error>(e)))
                    &&& forall|j: int| 0 <= j < old(self).spec_steps().len() && j != cur
                        ==> final(self).spec_steps()[j] == old(self).spec_steps()[j]
                }
            }),
    {
        let cur = self.current;
        let cnt = self.steps[cur].item_count();
        match interpret_input(line, cnt) {
            Ok(UserAction::Quit) => {
                self.ended = true;
                Advance::Ended
            },
            Ok(UserAction::Select(idx)) => {
                proof {
                    assert(idx < old(self).spec_steps()[cur as int].items@.len());
                }
                let stp = &mut self.steps[cur];
                stp.error = None;
                let selected = stp.items[idx].clone();
                self.selected_items.push(idx);
                let selection = Selection { step: self.current, selected };
                proof {
                    assert(self.current == old(self).spec_current());
                    assert(old(self).spec_current() < old(self).spec_steps().len());
                    assert(old(self).steps.len() == old(self).spec_steps().len());
                }
                self.current = self.current + 1;
                Advance::Produced(selection)
            },
            Err(e) => {
                let stp = &mut self.steps[cur];
                stp.error = Some(e);
                Advance::Retry
            },
        }
    }
}

/// One completed step of a traversal, as `offer_line` leaves it on a valid
/// selection: `sel` is produced for the step the cursor stood on, the chosen
/// index `idx` is appended to the audit trail, and the cursor moves forward
/// by exactly one.
pub open spec fn valid_selection_step<T: Clone>(
    pre: Journey<T>,
    post: Journey<T>,
    sel: Selection<T>,
    idx: usize,
) -> bool {
    &&& pre.inv()
    &&& !pre.spec_done()
    &&& post.inv()
    &&& sel.step == pre.spec_current()
    &&& post.spec_current() == pre.spec_current() + 1
    &&& post.spec_selected() == pre.spec_selected().push(idx)
    &&& !post.spec_ended()
    &&& post.spec_steps().len() == pre.spec_steps().len()
}

/// At every point of a traversal, the audit trail is exactly as long as the
/// number of completed steps.
pub proof fn lemma_audit_trail_tracks_cursor<T: Clone>(j: Journey<T>)
    requires
        j.inv(),
    ensures
        j.spec_selected().len() == j.spec_current(),
{
}

/// Chaining `k` valid selections moves the cursor forward by exactly `k`,
/// appends exactly the chosen indices to the audit trail, keeps the number
/// of steps, and stamps each selection with the step it completed.
pub proof fn lemma_selection_chain<T: Clone>(
    js: Seq<Journey<T>>,
    sels: Seq<Selection<T>>,
    picks: Seq<usize>,
    k: int,
)
    requires
        0 <= k,
        js.len() == k + 1,
        sels.len() == k,
        picks.len() == k,
        forall|i: int| 0 <= i < k
            ==> #[trigger] valid_selection_step(js[i], js[i + 1], sels[i], picks[i]),
    ensures
        js[k].spec_current() == js[0].spec_current() + k,
        js[k].spec_steps().len() == js[0].spec_steps().len(),
        js[k].spec_selected() == js[0].spec_selected() + picks,
        forall|i: int| 0 <= i < k ==> #[trigger] sels[i].step == js[0].spec_current() + i,
    decreases k,
{
    if k == 0 {
        assert(js[0].spec_selected() =~= js[0].spec_selected() + picks);
    } else {
        lemma_selection_chain(
            js.subrange(0, k),
            sels.subrange(0, k - 1),
            picks.subrange(0, k - 1),
            k - 1,
        );
        let km = k - 1;
        assert(valid_selection_step(js[km], js[km + 1], sels[km], picks[km]));
        assert(js[k].spec_selected() =~= js[0].spec_selected() + picks);
        assert forall|i: int| 0 <= i < k implies #[trigger] sels[i].step
            == js[0].spec_current() + i by {
            if i < k - 1 {
                assert(sels.subrange(0, k - 1)[i].step
                    == js.subrange(0, k)[0].spec_current() + i);
                assert(sels.subrange(0, k - 1)[i] == sels[i]);
            } else {
                assert(js[km].spec_current() == js[0].spec_current() + km);
            }
        }
    }
}

/// A journey built with `k` steps and driven with all-valid inputs yields
/// exactly `k` selections: the `i`-th selection carries step index `i`, the
/// journey ends exhausted, and its audit trail is exactly the sequence of
/// chosen indices.
pub proof fn lemma_all_valid_traversal<T: Clone>(
    js: Seq<Journey<T>>,
    sels: Seq<Selection<T>>,
    picks: Seq<usize>,
    k: int,
)
    requires
        0 <= k,
        js.len() == k + 1,
        sels.len() == k,
        picks.len() == k,
        js[0].inv(),
        js[0].spec_current() == 0,
        js[0].spec_steps().len() == k,
        forall|i: int| 0 <= i < k
            ==> #[trigger] valid_selection_step(js[i], js[i + 1], sels[i], picks[i]),
    ensures
        js[k].spec_current() == k,
        js[k].spec_done(),
        js[k].spec_selected() == picks,
        forall|i: int| 0 <= i < k ==> #[trigger] sels[i].step == i,
{
    lemma_selection_chain(js, sels, picks, k);
    assert(js[0].spec_selected() =~= Seq::<usize>::empty());
    assert(js[k].spec_selected() =~= picks);
}

} // verus!
