//! A pane showing the output of a shell command that is run again
//! periodically.
use vstd::prelude::*;
use crate::buffer::{last_n, lemma_keeps_most_recent, OutputBuffer, MAX_LINES};
use crate::lines::{decoded, lossy_text, scan, split_text, texts, text_lines, LineAssembler};

verus! {

/// Milliseconds that must pass between two runs of a pane's command.
pub const REFRESH_MS: u64 = 2000;

/// The line put between a command's standard output and its error output.
pub const STDERR_MARK: &'static str = "--- STDERR ---";

/// What precedes the description of a command that could not be run.
pub const EXEC_ERROR_PREFIX: &'static str = "Error executing command: ";

/// Between a pane's title and its command in the border title.
pub const COMMAND_LABEL: &'static str = " | Command: ";

/// Ends the border title of the focused pane.
pub const FOCUS_MARK: &'static str = "[FOCUSED]";

/// How one run of a pane's command ended.
pub enum CommandOutcome {
    /// The command ran; what it wrote to each stream.
    Finished { stdout: Vec<u8>, stderr: Vec<u8> },
    /// The command could not be started; why.
    Failed { description: String },
}

/// The lines that a pane shows after a run that ended with `o`.
pub open spec fn outcome_lines(o: CommandOutcome) -> Seq<Seq<char>> {
    match o {
        CommandOutcome::Finished { stdout, stderr } => {
            if stderr@.len() == 0 {
                text_lines(stdout@)
            } else {
                let (ls, rest) = scan(seq![], stdout@);
                decoded(ls.push(rest)) + seq![STDERR_MARK@] + text_lines(stderr@)
            }
        },
        CommandOutcome::Failed { description } => seq![EXEC_ERROR_PREFIX@ + description@],
    }
}

/// The largest scroll offset for `n` lines; the count is taken as at most
/// `u16::MAX`.
pub open spec fn max_offset(n: nat) -> int {
    if n == 0 {
        0
    } else if n > 65535 {
        65534
    } else {
        n - 1
    }
}

/// Whether a command last run at `last` (never, if `None`) is due at `now`.
pub open spec fn is_due(last: Option<u64>, now: u64) -> bool {
    match last {
        None => true,
        Some(t) => now - t > REFRESH_MS,
    }
}

/// The offset after one step up (`up`) or down, with `n` lines.
pub open spec fn scrolled(offset: int, n: nat, up: bool) -> int {
    if up {
        if offset > 0 { offset - 1 } else { offset }
    } else {
        if offset < max_offset(n) { offset + 1 } else { offset }
    }
}

pub struct Pane {
    title: String,
    command: String,
    output: OutputBuffer,
    last_update: Option<u64>,
    scroll_offset: u16,
}

impl Pane {
    /// The lines shown, oldest first.
    pub closed spec fn lines(&self) -> Seq<Seq<char>> {
        self.output.view()
    }

    /// The output buffer keeps `MAX_LINES` lines.
    pub closed spec fn buffer_wf(&self) -> bool {
        self.output.wf() && self.output.cap() == MAX_LINES
    }

    pub closed spec fn title_text(&self) -> Seq<char> {
        self.title@
    }

    /// The shell command line that the pane runs.
    pub closed spec fn command_text(&self) -> Seq<char> {
        self.command@
    }

    pub closed spec fn offset(&self) -> int {
        self.scroll_offset as int
    }

    /// When the command last ran, in milliseconds of a monotonic clock.
    pub closed spec fn last_run(&self) -> Option<u64> {
        self.last_update
    }

    pub open spec fn wf(&self) -> bool {
        &&& self.buffer_wf()
        &&& self.lines().len() <= MAX_LINES
        &&& 0 <= self.offset() <= max_offset(self.lines().len())
    }

    /// A pane that has not run its command yet, so that it is due at once.
    pub fn new(title: &str, command: &str) -> (r: Pane)
        ensures
            r.wf(),
            r.title_text() == title@,
            r.command_text() == command@,
            r.lines() == Seq::<Seq<char>>::empty(),
            r.offset() == 0,
            r.last_run() is None,
    {
        let r = Pane {
            title: title.to_string(),
            command: command.to_string(),
            output: OutputBuffer::new(),
            last_update: None,
            scroll_offset: 0,
        };
        r
    }

    pub fn title(&self) -> (r: &String)
        ensures
            r@ == self.title_text(),
    {
        &self.title
    }

    pub fn command(&self) -> (r: &String)
        ensures
            r@ == self.command_text(),
    {
        &self.command
    }

    pub fn line_count(&self) -> (r: usize)
        ensures
            r == self.lines().len(),
    {
        self.output.len()
    }

    pub fn scroll_offset(&self) -> (r: u16)
        ensures
            r == self.offset(),
    {
        self.scroll_offset
    }

    /// The lines of the current output.
    pub fn output_lines(&self) -> (r: &Vec<String>)
        ensures
            texts(r@) == self.lines(),
    {
        self.output.lines()
    }

    /// The lines from the scroll offset on, as they are drawn.
    pub fn visible_lines(&self) -> (r: Vec<String>)
        requires
            self.wf(),
        ensures
            texts(r@) == self.lines().subrange(self.offset(), self.lines().len() as int),
    {
        let all = self.output.lines();
        let mut r: Vec<String> = Vec::new();
        let mut i: usize = self.scroll_offset as usize;
        while i < all.len()
            invariant
                texts(all@) == self.lines(),
                self.offset() <= i <= all@.len(),
                texts(r@) == self.lines().subrange(self.offset(), i as int),
            decreases all@.len() - i,
        {
            let ghost before = r@;
            let line = all[i].clone();
            r.push(line);
            assert(texts(r@) =~= texts(before).push(line@));
            assert(line@ == self.lines()[i as int]);
            assert(texts(r@) =~= self.lines().subrange(self.offset(), i + 1));
            i = i + 1;
        }
        r
    }

    /// The title drawn on the pane's border.
    pub fn block_title(&self, focused: bool) -> (r: String)
        ensures
            r@ == title_line(self.title_text(), self.command_text(), focused),
    {
        let r = self.title.clone().concat(COMMAND_LABEL).concat(self.command.as_str()).concat(" ");
        if focused {
            r.concat(FOCUS_MARK)
        } else {
            r
        }
    }

    /// Whether the command should run again at `now`.
    pub fn needs_update(&self, now: u64) -> (r: bool)
        ensures
            r == is_due(self.last_run(), now),
    {
        match self.last_update {
            None => true,
            Some(t) => now.saturating_sub(t) > REFRESH_MS,
        }
    }

    /// Takes the result of a run made at `now`. Unless the pane was due, it
    /// is left as it was. Otherwise the output is replaced by the newest
    /// `MAX_LINES` lines of the run and the scroll offset is kept within it.
    pub fn update(&mut self, now: u64, outcome: &CommandOutcome)
        requires
            old(self).wf(),
        ensures
            final(self).wf(),
            final(self).title_text() == old(self).title_text(),
            final(self).command_text() == old(self).command_text(),
            is_due(old(self).last_run(), now) ==> {
                &&& final(self).lines() == last_n(outcome_lines(*outcome), MAX_LINES as nat)
                &&& final(self).last_run() == Some(now)
                &&& final(self).offset() == if old(self).offset() <= max_offset(final(self).lines().len()) {
                    old(self).offset()
                } else {
                    max_offset(final(self).lines().len())
                }
            },
            !is_due(old(self).last_run(), now) ==> *final(self) == *old(self),
    {
        if !self.needs_update(now) {
            return;
        }
        let fresh = outcome_text(outcome);
        let ghost fresh_lines = texts(fresh@);
        self.output.clear();
        self.output.push_lines(fresh);
        proof {
            lemma_keeps_most_recent(Seq::<Seq<char>>::empty(), fresh_lines, MAX_LINES as nat);
            assert(Seq::<Seq<char>>::empty() + fresh_lines =~= fresh_lines);
        }
        self.last_update = Some(now);
        let max = max_scroll(self.output.len());
        if self.scroll_offset > max {
            self.scroll_offset = max;
        }
    }

    /// One line up, unless at the top.
    pub fn scroll_up(&mut self)
        requires
            old(self).wf(),
        ensures
            final(self).wf(),
            final(self).offset() == scrolled(old(self).offset(), old(self).lines().len(), true),
            final(self).lines() == old(self).lines(),
            final(self).last_run() == old(self).last_run(),
            final(self).title_text() == old(self).title_text(),
            final(self).command_text() == old(self).command_text(),
    {
        if self.scroll_offset > 0 {
            self.scroll_offset = self.scroll_offset - 1;
        }
    }

    /// One line down, unless the last line is at the top.
    pub fn scroll_down(&mut self)
        requires
            old(self).wf(),
        ensures
            final(self).wf(),
            final(self).offset() == scrolled(old(self).offset(), old(self).lines().len(), false),
            final(self).lines() == old(self).lines(),
            final(self).last_run() == old(self).last_run(),
            final(self).title_text() == old(self).title_text(),
            final(self).command_text() == old(self).command_text(),
    {
        let max = max_scroll(self.output.len());
        if self.scroll_offset < max {
            self.scroll_offset = self.scroll_offset + 1;
        }
    }

    pub fn reset_scroll(&mut self)
        requires
            old(self).wf(),
        ensures
            final(self).wf(),
            final(self).offset() == 0,
            final(self).lines() == old(self).lines(),
            final(self).last_run() == old(self).last_run(),
            final(self).title_text() == old(self).title_text(),
            final(self).command_text() == old(self).command_text(),
    {
        self.scroll_offset = 0;
    }
}

/// The border title of a pane with title `title` and command `command`.
pub open spec fn title_line(title: Seq<char>, command: Seq<char>, focused: bool) -> Seq<char> {
    title + COMMAND_LABEL@ + command + " "@ + if focused { FOCUS_MARK@ } else { Seq::<char>::empty() }
}

/// The offset after each step of `ups` in turn (`true` up, `false` down).
pub open spec fn scrolled_all(offset: int, n: nat, ups: Seq<bool>) -> int
    decreases ups.len(),
{
    if ups.len() == 0 {
        offset
    } else {
        scrolled(scrolled_all(offset, n, ups.drop_last()), n, ups.last())
    }
}

/// Whatever steps up and down are taken, the scroll offset stays between 0
/// and the largest offset for the line count.
pub proof fn lemma_scroll_stays_clamped(offset: int, n: nat, ups: Seq<bool>)
    requires
        0 <= offset <= max_offset(n),
    ensures
        0 <= scrolled_all(offset, n, ups) <= max_offset(n),
    decreases ups.len(),
{
    if ups.len() > 0 {
        lemma_scroll_stays_clamped(offset, n, ups.drop_last());
    }
}

/// A run made at `first` leaves the pane not due at any `second` within the
/// refresh interval after it, so an update there changes nothing and no
/// second run is made.
pub proof fn lemma_refresh_window(first: u64, second: u64)
    requires
        first <= second,
        second - first <= REFRESH_MS,
    ensures
        !is_due(Some(first), second),
{
}

/// `max_offset` of `n`, computed.
fn max_scroll(n: usize) -> (r: u16)
    ensures
        r == max_offset(n as nat),
{
    let count: u16 = if n > 65535 { 65535 } else { n as u16 };
    count.saturating_sub(1)
}

/// The lines that a pane shows after a run that ended with `outcome`.
pub fn outcome_text(outcome: &CommandOutcome) -> (r: Vec<String>)
    ensures
        texts(r@) == outcome_lines(*outcome),
{
    match outcome {
        CommandOutcome::Finished { stdout, stderr } => {
            if stderr.len() == 0 {
                split_text(stdout.as_slice())
            } else {
                let mut assembler = LineAssembler::new();
                let mut out = assembler.feed(stdout.as_slice());
                let ghost (ls, rest) = scan(seq![], stdout@);
                let ghost before = out@;
                let nl: Vec<u8> = vec![crate::lines::NEWLINE];
                let ghost pend = assembler.pending_view();
                assert(pend == rest);
                let mut end = assembler.feed(nl.as_slice());
                proof {
                    assert(nl@.drop_last() =~= Seq::<u8>::empty());
                    assert(scan(rest, nl@.drop_last()) == (Seq::<Seq<u8>>::empty(), rest));
                    assert(scan(rest, nl@).0 =~= seq![rest]);
                    assert(decoded(seq![rest]) =~= seq![lossy_text(crate::lines::strip_cr(rest))]);
                }
                let ghost e = end@;
                out.append(&mut end);
                assert(texts(out@) =~= texts(before) + texts(e));
                let ghost m1 = out@;
                out.push(STDERR_MARK.to_string());
                assert(texts(out@) =~= texts(m1).push(STDERR_MARK@));
                let mut tail = split_text(stderr.as_slice());
                let ghost mid = out@;
                let ghost t = tail@;
                out.append(&mut tail);
                proof {
                    assert(texts(out@) =~= texts(mid) + texts(t));
                    assert(decoded(ls.push(rest)) =~= decoded(ls).push(lossy_text(crate::lines::strip_cr(rest))));
                    assert(texts(out@) =~= decoded(ls.push(rest)) + seq![STDERR_MARK@] + text_lines(stderr@));
                }
                out
            }
        },
        CommandOutcome::Failed { description } => {
            let line = EXEC_ERROR_PREFIX.to_string().concat(description.as_str());
            let r = vec![line];
            assert(texts(r@) =~= seq![EXEC_ERROR_PREFIX@ + description@]);
            r
        },
    }
}

} // verus!
