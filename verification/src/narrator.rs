//! The scripted dialogue overlay that pauses the drop loop at the start of a
//! level until its text has been revealed and acknowledged.

use crate::timer::Timer;
use vstd::prelude::*;
use vstd::string::StrSliceExecFns;

verus! {

/// Total character count of `lines` from index `i` on.
pub open spec fn lens_sum_from(lines: Seq<&'static str>, i: int) -> nat
    decreases lines.len() - i,
{
    if i < 0 || i >= lines.len() {
        0
    } else {
        lines[i]@.len() + lens_sum_from(lines, i + 1)
    }
}

/// Total character count of all of `lines`.
pub open spec fn lens_sum(lines: Seq<&'static str>) -> nat {
    lens_sum_from(lines, 0)
}

/// Total character count of `lines` strictly before index `i`.
pub open spec fn lens_sum_below(lines: Seq<&'static str>, i: int) -> nat
    decreases i,
{
    if i <= 0 {
        0
    } else {
        lens_sum_below(lines, i - 1) + lines[i - 1]@.len()
    }
}

/// The characters before an index and those from it on make up the whole
/// script.
pub proof fn lemma_lens_split(lines: Seq<&'static str>, i: int)
    requires
        0 <= i <= lines.len(),
    ensures
        lens_sum_below(lines, i) + lens_sum_from(lines, i) == lens_sum(lines),
    decreases i,
{
    if i > 0 {
        lemma_lens_split(lines, i - 1);
    }
}

/// A scripted dialogue: its text lines, the delay before it appears, and the
/// scroll counter that reveals one more character per tick once it has.
#[derive(Debug, Clone)]
pub struct Narrator {
    pub lines: Vec<&'static str>,
    pub delay: Timer,
    pub scroll: Timer,
}

impl Narrator {
    /// The scroll counter can reach the end of the text.
    pub open spec fn wf(self) -> bool {
        lens_sum(self.lines@) <= u8::MAX
    }

    /// Whether the start delay has elapsed and the text is showing.
    pub open spec fn spec_started(self) -> bool {
        self.delay.step >= self.delay.delay
    }

    /// Whether the scroll counter has revealed the whole text.
    pub open spec fn spec_done(self) -> bool {
        self.scroll.step >= lens_sum(self.lines@)
    }

    /// The narrator one tick later: the start delay counts until it elapses,
    /// after which the scroll counter counts.
    pub open spec fn spec_ticked(self) -> Narrator {
        if self.spec_started() {
            Narrator { lines: self.lines, delay: self.delay, scroll: self.scroll.spec_ticked() }
        } else {
            Narrator { lines: self.lines, delay: self.delay.spec_ticked(), scroll: self.scroll }
        }
    }

    /// What a button press turns the narrator into: swallowed before the
    /// script starts, a fast-forwarded reveal while it runs, and nothing —
    /// releasing the drop loop — once the reveal is done.
    pub open spec fn spec_button_pressed(self) -> Option<Narrator> {
        if !self.spec_started() {
            Some(self)
        } else if self.spec_done() {
            None
        } else {
            Some(Narrator { lines: self.lines, delay: self.delay, scroll: self.scroll.spec_set_due() })
        }
    }

    /// The level-0 script: five short lines, a short start delay, and a
    /// scroll timer that never fires on its own.
    pub fn level0() -> (n: Narrator)
        ensures
            n.lines@.len() == 5,
            n.lines@[0]@ == "Oh no,"@,
            n.lines@[1]@ == "it's stuck!"@,
            n.lines@[2]@ == " "@,
            n.lines@[3]@ == "Can you help us?"@,
            n.lines@[4]@ == "._."@,
            lens_sum(n.lines@) == 37,
            n.delay == (Timer { delay: 3, step: 0 }),
            n.scroll == (Timer { delay: u8::MAX, step: 0 }),
            n.wf(),
            !n.spec_started(),
    {
        let mut lines: Vec<&'static str> = Vec::new();
        lines.push("Oh no,");
        lines.push("it's stuck!");
        lines.push(" ");
        lines.push("Can you help us?");
        lines.push("._.");
        proof {
            reveal_strlit("Oh no,");
            reveal_strlit("it's stuck!");
            reveal_strlit(" ");
            reveal_strlit("Can you help us?");
            reveal_strlit("._.");
            assert(lens_sum_from(lines@, 5) == 0);
            assert(lens_sum_from(lines@, 4) == 3);
            assert(lens_sum_from(lines@, 3) == 19);
            assert(lens_sum_from(lines@, 2) == 20);
            assert(lens_sum_from(lines@, 1) == 31);
            assert(lens_sum_from(lines@, 0) == 37);
        }
        Narrator { lines, delay: Timer::new(3), scroll: Timer::infinite() }
    }

    /// React to a button press: before the script starts the press is
    /// swallowed; while revealing it fast-forwards the reveal; once done it
    /// releases the narrator by returning nothing.
    pub fn button_pressed(self) -> (r: Option<Narrator>)
        requires
            self.wf(),
        ensures
            r == self.spec_button_pressed(),
    {
        if !self.started() {
            Some(self)
        } else if self.done() {
            None
        } else {
            let mut n = self;
            n.reveal_all();
            Some(n)
        }
    }

    /// Total character count of the script.
    pub fn length(&self) -> (n: usize)
        requires
            self.wf(),
        ensures
            n == lens_sum(self.lines@),
    {
        let mut n: usize = 0;
        let mut i: usize = 0;
        while i < self.lines.len()
            invariant
                self.wf(),
                i <= self.lines@.len(),
                n + lens_sum_from(self.lines@, i as int) == lens_sum(self.lines@),
            decreases self.lines@.len() - i,
        {
            n = n + self.lines[i].unicode_len();
            i = i + 1;
        }
        n
    }

    /// The prefix of line `index` the current scroll reveals: the whole line
    /// once the budget covers it, a partial line while the budget runs out on
    /// it, and nothing at all once an earlier line exhausted the budget.
    pub open spec fn spec_reveal_len(self, index: int) -> Option<int> {
        let budget = self.scroll.step as int;
        let before = lens_sum_below(self.lines@, index) as int;
        if index > 0 && budget <= before {
            None
        } else {
            let rest = budget - before;
            if rest >= self.lines@[index]@.len() {
                Some(self.lines@[index]@.len() as int)
            } else {
                Some(rest)
            }
        }
    }

    /// How many characters of line `index` the reveal scroll shows, or
    /// nothing when the line is not reached at all.
    pub fn reveal_len(&self, index: usize) -> (r: Option<usize>)
        requires
            self.wf(),
            index < self.lines@.len(),
        ensures
            (r is None) == (self.spec_reveal_len(index as int) is None),
            r matches Some(k) ==> self.spec_reveal_len(index as int) == Some(k as int),
    {
        let mut before: usize = 0;
        let mut i: usize = 0;
        while i < index
            invariant
                self.wf(),
                index < self.lines@.len(),
                i <= index,
                before == lens_sum_below(self.lines@, i as int),
            decreases index - i,
        {
            proof {
                lemma_lens_split(self.lines@, i as int + 1);
            }
            before = before + self.lines[i].unicode_len();
            i = i + 1;
        }

        let budget = self.scroll.get() as usize;
        if index > 0 && budget <= before {
            None
        } else {
            let rest = budget - before;
            let len = self.lines[index].unicode_len();
            if rest >= len {
                Some(len)
            } else {
                Some(rest)
            }
        }
    }

    /// Advance the start delay, or the reveal scroll once the script shows.
    pub fn tick(&mut self)
        ensures
            *final(self) == old(self).spec_ticked(),
    {
        if self.started() {
            self.scroll.tick();
        } else {
            self.delay.tick();
        }
    }

    /// Whether the start delay has elapsed and the text is showing.
    pub fn started(&self) -> (s: bool)
        ensures
            s == self.spec_started(),
    {
        self.delay.is_due()
    }

    /// Fast-forward the reveal to the end of the text.
    pub fn reveal_all(&mut self)
        ensures
            final(self).lines == old(self).lines,
            final(self).delay == old(self).delay,
            final(self).scroll == old(self).scroll.spec_set_due(),
    {
        self.scroll.set_due();
    }

    /// Whether the scroll counter has revealed the whole text.
    pub fn done(&self) -> (d: bool)
        requires
            self.wf(),
        ensures
            d == self.spec_done(),
    {
        self.scroll.get() as usize >= self.length()
    }
}

} // verus!
