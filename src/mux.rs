//! The multiplexer: a fixed set of panes, the split orientation, the focused
//! pane, and what each key does.
use vstd::prelude::*;
use crate::layout::{pane_areas, split_of, corners_of, equal_shares, Area, PANE_MARGIN};
use crate::buffer::{last_n, MAX_LINES};
use crate::pane::{is_due, lemma_refresh_window, max_offset, REFRESH_MS, outcome_lines, scrolled, CommandOutcome, Pane};

verus! {

/// How many panes the multiplexer shows.
pub const PANE_COUNT: usize = 2;

/// A key press, as the multiplexer sees it.
#[derive(Clone, Copy, Debug, PartialEq, Eq)]
pub enum Key {
    Char(char),
    Enter,
    Tab,
    Up,
    Down,
    Other,
}

/// Whether the event loop goes on after a key.
#[derive(Clone, Copy, Debug, PartialEq, Eq)]
pub enum Flow {
    Continue,
    Quit,
}

/// Colours of the drawing.
#[derive(Clone, Copy, Debug, PartialEq, Eq)]
pub enum Hue {
    Cyan,
    White,
    Green,
    Yellow,
    Gray,
}

/// The pane that a digit key puts in place: its slot, title and command.
pub open spec fn preset(c: char) -> Option<(int, Seq<char>, Seq<char>)> {
    if c == '1' {
        Some((0, "Disk Usage"@, "df -h"@))
    } else if c == '2' {
        Some((1, "Network Info"@, "ifconfig"@))
    } else if c == '3' {
        Some((0, "Memory Info"@, "free -h"@))
    } else if c == '4' {
        Some((1, "CPU Info"@, "lscpu"@))
    } else {
        None
    }
}

/// `p` is a pane that has just been made with this title and command.
pub open spec fn is_fresh(p: Pane, title: Seq<char>, command: Seq<char>) -> bool {
    &&& p.wf()
    &&& p.title_text() == title
    &&& p.command_text() == command
    &&& p.lines() == Seq::<Seq<char>>::empty()
    &&& p.offset() == 0
    &&& p.last_run() is None
}

/// Equal in all but the scroll offset.
pub open spec fn same_but_offset(p: Pane, q: Pane) -> bool {
    &&& p.title_text() == q.title_text()
    &&& p.command_text() == q.command_text()
    &&& p.lines() == q.lines()
    &&& p.last_run() == q.last_run()
}

/// `q` is pane `p` after `Pane::update` at `now` with the outcome `o`, if a
/// run was made: refreshed when it was due, else left as it was.
pub open spec fn refreshed(p: Pane, q: Pane, o: Option<CommandOutcome>, now: u64) -> bool {
    match o {
        Some(o) => if is_due(p.last_run(), now) {
            &&& q.wf()
            &&& q.lines() == last_n(outcome_lines(o), MAX_LINES as nat)
            &&& q.last_run() == Some(now)
            &&& q.title_text() == p.title_text()
            &&& q.command_text() == p.command_text()
            &&& q.offset() == if p.offset() <= max_offset(q.lines().len()) {
                p.offset()
            } else {
                max_offset(q.lines().len())
            }
        } else {
            q == p
        },
        None => q == p,
    }
}

/// The focus index after `k` switches from `i` among `count` panes.
pub open spec fn focus_after(i: int, count: int, k: nat) -> int
    decreases k,
{
    if k == 0 {
        i
    } else {
        (focus_after(i, count, (k - 1) as nat) + 1) % count
    }
}

pub struct App {
    panes: Vec<Pane>,
    split_horizontal: bool,
    focused_pane: usize,
}

impl App {
    pub closed spec fn pane_seq(&self) -> Seq<Pane> {
        self.panes@
    }

    pub closed spec fn horizontal(&self) -> bool {
        self.split_horizontal
    }

    pub closed spec fn focus(&self) -> int {
        self.focused_pane as int
    }

    pub open spec fn wf(&self) -> bool {
        &&& self.pane_seq().len() == PANE_COUNT
        &&& 0 <= self.focus() < self.pane_seq().len()
        &&& forall|i: int| 0 <= i < self.pane_seq().len() ==> #[trigger] self.pane_seq()[i].wf()
    }

    /// Two panes, system information above the process list, stacked, the
    /// first focused.
    pub fn new() -> (r: App)
        ensures
            r.wf(),
            is_fresh(r.pane_seq()[0], "System Info"@, "date && echo && uname -a && echo && uptime"@),
            is_fresh(r.pane_seq()[1], "Process List"@, "ps aux | head -20"@),
            !r.horizontal(),
            r.focus() == 0,
    {
        let panes = vec![
            Pane::new("System Info", "date && echo && uname -a && echo && uptime"),
            Pane::new("Process List", "ps aux | head -20"),
        ];
        App { panes, split_horizontal: false, focused_pane: 0 }
    }

    pub fn panes(&self) -> (r: &Vec<Pane>)
        ensures
            r@ == self.pane_seq(),
    {
        &self.panes
    }

    pub fn split_horizontal(&self) -> (r: bool)
        ensures
            r == self.horizontal(),
    {
        self.split_horizontal
    }

    pub fn focused_pane(&self) -> (r: usize)
        ensures
            r == self.focus(),
    {
        self.focused_pane
    }

    /// Focus moves to the next pane, from the last back to the first.
    pub fn switch_focus(&mut self)
        requires
            old(self).wf(),
        ensures
            final(self).wf(),
            final(self).focus() == (old(self).focus() + 1) % (old(self).pane_seq().len() as int),
            final(self).pane_seq() == old(self).pane_seq(),
            final(self).horizontal() == old(self).horizontal(),
    {
        self.focused_pane = (self.focused_pane + 1) % self.panes.len();
    }

    /// Which panes are due to run their command at `now`.
    pub fn due_panes(&self, now: u64) -> (r: Vec<bool>)
        requires
            self.wf(),
        ensures
            r@.len() == self.pane_seq().len(),
            forall|i: int| 0 <= i < r@.len() ==> r@[i] == is_due(#[trigger] self.pane_seq()[i].last_run(), now),
    {
        let mut r: Vec<bool> = Vec::new();
        let mut i: usize = 0;
        while i < self.panes.len()
            invariant
                i <= self.pane_seq().len(),
                r@.len() == i,
                forall|j: int| 0 <= j < i ==> r@[j] == is_due(#[trigger] self.pane_seq()[j].last_run(), now),
            decreases self.pane_seq().len() - i,
        {
            r.push(self.panes[i].needs_update(now));
            i = i + 1;
        }
        r
    }

    /// Hands each pane the result of the run made for it at `now`, if one was
    /// made (`outcomes[i]` for pane `i`); see `Pane::update`. When no pane is
    /// due, nothing changes.
    pub fn update(&mut self, now: u64, outcomes: &Vec<Option<CommandOutcome>>)
        requires
            old(self).wf(),
            outcomes@.len() == old(self).pane_seq().len(),
        ensures
            final(self).wf(),
            final(self).focus() == old(self).focus(),
            final(self).horizontal() == old(self).horizontal(),
            forall|i: int| 0 <= i < PANE_COUNT ==> refreshed(
                #[trigger] old(self).pane_seq()[i],
                final(self).pane_seq()[i],
                outcomes@[i],
                now,
            ),
            (forall|i: int| 0 <= i < PANE_COUNT ==> !is_due(#[trigger] old(self).pane_seq()[i].last_run(), now))
                ==> final(self).pane_seq() == old(self).pane_seq(),
    {
        let mut i: usize = 0;
        while i < self.panes.len()
            invariant
                i <= self.pane_seq().len(),
                self.wf(),
                self.focus() == old(self).focus(),
                self.horizontal() == old(self).horizontal(),
                outcomes@.len() == self.pane_seq().len(),
                forall|j: int| i <= j < PANE_COUNT ==> #[trigger] self.pane_seq()[j] == old(self).pane_seq()[j],
                forall|j: int| 0 <= j < i ==> refreshed(
                    #[trigger] old(self).pane_seq()[j],
                    self.pane_seq()[j],
                    outcomes@[j],
                    now,
                ),
            decreases self.pane_seq().len() - i,
        {
            match &outcomes[i] {
                Some(o) => {
                    self.panes[i].update(now, o);
                },
                None => {},
            }
            i = i + 1;
        }
        proof {
            if forall|j: int| 0 <= j < PANE_COUNT ==> !is_due(#[trigger] old(self).pane_seq()[j].last_run(), now) {
                assert forall|j: int| 0 <= j < PANE_COUNT implies #[trigger] self.pane_seq()[j] == old(self).pane_seq()[j] by {
                    assert(refreshed(old(self).pane_seq()[j], self.pane_seq()[j], outcomes@[j], now));
                }
                assert(self.pane_seq() =~= old(self).pane_seq());
            }
        }
    }

    /// The screen regions of the panes, in order, inside `area`.
    pub fn pane_areas(&self, area: Area) -> (r: Vec<Area>)
        requires
            self.wf(),
        ensures
            r@.len() == PANE_COUNT,
            corners_of(r@) == split_of(self.horizontal(), PANE_MARGIN, equal_shares(PANE_COUNT as nat), area.corners()),
    {
        pane_areas(self.split_horizontal, self.panes.len(), area)
    }

    /// Does what `key` asks: `q` quits, `h` and `v` set the split, Tab moves
    /// the focus, the arrows scroll the focused pane, the digits 1 to 4 put a
    /// preset pane in place. Any other key changes nothing.
    pub fn handle_key(&mut self, key: Key) -> (r: Flow)
        requires
            old(self).wf(),
        ensures
            final(self).wf(),
            r == (if key == Key::Char('q') { Flow::Quit } else { Flow::Continue }),
            final(self).horizontal() == match key {
                Key::Char('h') => true,
                Key::Char('v') => false,
                _ => old(self).horizontal(),
            },
            final(self).focus() == if key == Key::Tab {
                (old(self).focus() + 1) % (PANE_COUNT as int)
            } else {
                old(self).focus()
            },
            forall|i: int| 0 <= i < PANE_COUNT ==> {
                let p = #[trigger] old(self).pane_seq()[i];
                let q = final(self).pane_seq()[i];
                match key {
                    Key::Up => if i == old(self).focus() {
                        same_but_offset(q, p) && q.offset() == scrolled(p.offset(), p.lines().len(), true)
                    } else {
                        q == p
                    },
                    Key::Down => if i == old(self).focus() {
                        same_but_offset(q, p) && q.offset() == scrolled(p.offset(), p.lines().len(), false)
                    } else {
                        q == p
                    },
                    Key::Char(c) => match preset(c) {
                        Some((slot, title, command)) => if i == slot {
                            is_fresh(q, title, command)
                        } else {
                            q == p
                        },
                        None => q == p,
                    },
                    _ => q == p,
                }
            },
    {
        match key {
            Key::Char('q') => {
                return Flow::Quit;
            },
            Key::Char('h') => {
                self.split_horizontal = true;
            },
            Key::Char('v') => {
                self.split_horizontal = false;
            },
            Key::Tab => {
                self.switch_focus();
            },
            Key::Up => {
                let f = self.focused_pane;
                self.panes[f].scroll_up();
            },
            Key::Down => {
                let f = self.focused_pane;
                self.panes[f].scroll_down();
            },
            Key::Char('1') => {
                self.panes.set(0, Pane::new("Disk Usage", "df -h"));
            },
            Key::Char('2') => {
                self.panes.set(1, Pane::new("Network Info", "ifconfig"));
            },
            Key::Char('3') => {
                self.panes.set(0, Pane::new("Memory Info", "free -h"));
            },
            Key::Char('4') => {
                self.panes.set(1, Pane::new("CPU Info", "lscpu"));
            },
            _ => {},
        }
        Flow::Continue
    }
}

/// The colour of a pane's border: focused panes stand out.
pub fn border_hue(focused: bool) -> (r: Hue)
    ensures
        r == (if focused { Hue::Cyan } else { Hue::White }),
{
    if focused { Hue::Cyan } else { Hue::White }
}

/// The colour of a pane's text: the first pane has its own.
pub fn text_hue(index: usize) -> (r: Hue)
    ensures
        r == (if index == 0 { Hue::Green } else { Hue::Yellow }),
{
    if index == 0 { Hue::Green } else { Hue::Yellow }
}

/// After an update at `first` that ran the command of every pane, no pane is
/// due at any `second` within the refresh interval: an update there runs
/// nothing, and `App::update` then leaves every pane as it was.
pub proof fn lemma_second_update_runs_nothing(
    before: App,
    after: App,
    outcomes: Seq<Option<CommandOutcome>>,
    first: u64,
    second: u64,
)
    requires
        before.wf(),
        after.wf(),
        outcomes.len() == PANE_COUNT,
        forall|i: int| 0 <= i < PANE_COUNT ==> refreshed(
            #[trigger] before.pane_seq()[i],
            after.pane_seq()[i],
            outcomes[i],
            first,
        ),
        forall|i: int| 0 <= i < PANE_COUNT ==> is_due(#[trigger] before.pane_seq()[i].last_run(), first) && outcomes[i] is Some,
        first <= second,
        second - first <= REFRESH_MS,
    ensures
        forall|i: int| 0 <= i < PANE_COUNT ==> !is_due(#[trigger] after.pane_seq()[i].last_run(), second),
{
    assert forall|i: int| 0 <= i < PANE_COUNT implies !is_due(#[trigger] after.pane_seq()[i].last_run(), second) by {
        assert(refreshed(before.pane_seq()[i], after.pane_seq()[i], outcomes[i], first));
        assert(is_due(before.pane_seq()[i].last_run(), first) && outcomes[i] is Some);
        lemma_refresh_window(first, second);
    }
}

/// Switching the focus as many times as there are panes brings it back to
/// where it started.
pub proof fn lemma_focus_cycle(i: int, count: int)
    requires
        0 < count,
        0 <= i < count,
    ensures
        focus_after(i, count, count as nat) == i,
{
    lemma_focus_after(i, count, count as nat);
    vstd::arithmetic::div_mod::lemma_mod_self_0(count);
    vstd::arithmetic::div_mod::lemma_add_mod_noop(i, count, count);
    vstd::arithmetic::div_mod::lemma_small_mod(i as nat, count as nat);
}

/// After `k` switches from `i` the focus is at `(i + k) % count`.
pub proof fn lemma_focus_after(i: int, count: int, k: nat)
    requires
        0 < count,
        0 <= i < count,
    ensures
        focus_after(i, count, k) == (i + k) % count,
    decreases k,
{
    if k == 0 {
        vstd::arithmetic::div_mod::lemma_small_mod(i as nat, count as nat);
    } else {
        lemma_focus_after(i, count, (k - 1) as nat);
        if count == 1 {
            vstd::arithmetic::div_mod::lemma_mod_self_0(1);
            assert((i + k - 1) % 1 == 0) by {
                vstd::arithmetic::div_mod::lemma_mod_bound(i + k - 1, 1);
            };
            assert((i + k) % 1 == 0) by {
                vstd::arithmetic::div_mod::lemma_mod_bound(i + k, 1);
            };
        } else {
            vstd::arithmetic::div_mod::lemma_small_mod(1, count as nat);
            vstd::arithmetic::div_mod::lemma_add_mod_noop(i + k - 1, 1, count);
            vstd::arithmetic::div_mod::lemma_mod_twice(i + k - 1, count);
            vstd::arithmetic::div_mod::lemma_add_mod_noop((i + k - 1) % count, 1, count);
        }
    }
}

} // verus!
