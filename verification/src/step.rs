//! The data model of one wizard screen: a titled menu of items, an optional
//! transient error, and the rendering of the screen as plain text.

use vstd::prelude::*;
use vstd::string::StringExecFns;
use crate::error::{error_msg, Error};
use crate::text::{dec_rep, dec_string};

verus! {

/// One selectable menu entry: a display title plus a payload value.
#[derive(Debug)]
pub struct StepItem<T> where T: Clone {
    pub title: String,
    pub value: T,
}

impl<T: Clone> Clone for StepItem<T> {
    /// The clone keeps the title; the payload is a clone of the original's.
    fn clone(&self) -> (r: Self)
        ensures
            r.title@ == self.title@,
            cloned::<T>(self.value, r.value),
    {
        StepItem { title: self.title.clone(), value: self.value.clone() }
    }
}

/// One screen in the wizard: a title, a menu of items, and the error from
/// the last failed input attempt, if any, shown on the next render.
#[derive(Debug)]
pub struct Step<T> where T: Clone {
    pub title: String,
    pub items: Vec<StepItem<T>>,
    pub error: Option<Error>,
}

/// The result of completing one step: which step, and a copy of the chosen item.
#[derive(Debug)]
pub struct Selection<T> where T: Clone {
    pub step: usize,
    pub selected: StepItem<T>,
}

impl<T: Clone> Step<T> {
    /// How many items the step offers.
    pub fn item_count(&self) -> (r: usize)
        ensures
            r == self.items@.len(),
    {
        self.items.len()
    }

    /// Renders the step as the text screen `render_chars` prescribes.
    pub fn render(&self) -> (r: String)
        ensures
            r@ == render_chars(self.title@, self.items@, self.error),
    {
        let ghost head = "\x1B[2J\x1B[1;1H"@ + self.title@
            + "\n------------------------------------- \nenter q to quit\n"@;
        let mut out = String::from_str("\x1B[2J\x1B[1;1H");
        out.append(self.title.as_str());
        out.append("\n------------------------------------- \nenter q to quit\n");
        proof {
            assert(out@ =~= head + items_text(self.items@, 0));
        }
        let mut i: usize = 0;
        while i < self.items.len()
            invariant
                0 <= i <= self.items.len(),
                head == "\x1B[2J\x1B[1;1H"@ + self.title@
                    + "\n------------------------------------- \nenter q to quit\n"@,
                out@ == head + items_text(self.items@, i as int),
            decreases self.items.len() - i,
        {
            out.append("\n");
            let num = dec_string(i + 1);
            out.append(num.as_str());
            out.append(") ");
            out.append(self.items[i].title.as_str());
            proof {
                assert(out@ =~= head + items_text(self.items@, i + 1));
            }
            i = i + 1;
        }
        out.append("\n");
        match &self.error {
            Option::None => {},
            Option::Some(e) => {
                out.append("\nError: ");
                let msg = e.message();
                out.append(msg.as_str());
            },
        }
        proof {
            assert(out@ =~= render_chars(self.title@, self.items@, self.error));
        }
        out
    }
}

/// The numbered listing of the first `n` item titles, one per line, each
/// line `"<position>) <title>"` with 1-based positions.
pub open spec fn items_text<T: Clone>(items: Seq<StepItem<T>>, n: int) -> Seq<char>
    decreases n,
{
    if n <= 0 {
        Seq::<char>::empty()
    } else {
        items_text(items, n - 1) + "\n"@ + dec_rep(n as nat) + ") "@ + items[n - 1].title@
    }
}

/// The trailing error line: empty when no error is set.
pub open spec fn error_line(e: Option<Error>) -> Seq<char> {
    match e {
        Option::None => Seq::<char>::empty(),
        Option::Some(e) => "\nError: "@ + error_msg(e),
    }
}

/// The full text screen for a step: a clear-screen control sequence, the
/// title, a separator, the quit hint, the numbered items, and the error
/// line, if any.
pub open spec fn render_chars<T: Clone>(
    title: Seq<char>,
    items: Seq<StepItem<T>>,
    error: Option<Error>,
) -> Seq<char> {
    "\x1B[2J\x1B[1;1H"@ + title + "\n------------------------------------- \nenter q to quit\n"@
        + items_text(items, items.len() as int) + "\n"@ + error_line(error)
}

/// Rendering is a pure function of the step's state: any two renders of the
/// same step, with no mutation between them, produce identical text.
pub proof fn lemma_render_idempotent<T: Clone>(s: &Step<T>, r1: String, r2: String)
    requires
        call_ensures(Step::<T>::render, (s,), r1),
        call_ensures(Step::<T>::render, (s,), r2),
    ensures
        r1@ == r2@,
{
}

} // verus!
