//! A line buffer that keeps only the most recent lines.
use vstd::prelude::*;
use crate::lines::texts;

verus! {

/// How many lines a pane's output buffer retains.
pub const MAX_LINES: usize = 100;

/// `s` after appending `l` with at most `cap` lines kept: the oldest line goes
/// first when the buffer is full.
pub open spec fn appended(s: Seq<Seq<char>>, l: Seq<char>, cap: nat) -> Seq<Seq<char>> {
    if s.len() < cap {
        s.push(l)
    } else {
        s.drop_first().push(l)
    }
}

/// `s` after appending each of `ls` in order.
pub open spec fn appended_all(s: Seq<Seq<char>>, ls: Seq<Seq<char>>, cap: nat) -> Seq<Seq<char>>
    decreases ls.len(),
{
    if ls.len() == 0 {
        s
    } else {
        appended(appended_all(s, ls.drop_last(), cap), ls.last(), cap)
    }
}

/// The last `cap` elements of `s` (all of them if there are fewer).
pub open spec fn last_n(s: Seq<Seq<char>>, cap: nat) -> Seq<Seq<char>> {
    if s.len() <= cap {
        s
    } else {
        s.subrange(s.len() - cap, s.len() as int)
    }
}

pub struct OutputBuffer {
    lines: Vec<String>,
    cap: usize,
}

impl OutputBuffer {
    pub closed spec fn view(&self) -> Seq<Seq<char>> {
        texts(self.lines@)
    }

    pub closed spec fn cap(&self) -> nat {
        self.cap as nat
    }

    pub open spec fn wf(&self) -> bool {
        0 < self.cap() && self.view().len() <= self.cap()
    }

    /// An empty buffer that keeps `MAX_LINES` lines.
    pub fn new() -> (r: OutputBuffer)
        ensures
            r.wf(),
            r.view() == Seq::<Seq<char>>::empty(),
            r.cap() == MAX_LINES,
    {
        OutputBuffer::with_capacity(MAX_LINES)
    }

    /// An empty buffer that keeps `cap` lines.
    pub fn with_capacity(cap: usize) -> (r: OutputBuffer)
        requires
            cap > 0,
        ensures
            r.wf(),
            r.view() == Seq::<Seq<char>>::empty(),
            r.cap() == cap,
    {
        let r = OutputBuffer { lines: Vec::new(), cap };
        assert(r.view() =~= Seq::<Seq<char>>::empty());
        r
    }

    pub fn len(&self) -> (r: usize)
        ensures
            r == self.view().len(),
    {
        self.lines.len()
    }

    pub fn capacity(&self) -> (r: usize)
        ensures
            r == self.cap(),
    {
        self.cap
    }

    /// The retained lines, oldest first.
    pub fn lines(&self) -> (r: &Vec<String>)
        ensures
            texts(r@) == self.view(),
    {
        &self.lines
    }

    /// Appends a line, evicting the oldest one when the buffer is full.
    pub fn push_line(&mut self, line: String)
        requires
            old(self).wf(),
        ensures
            final(self).wf(),
            final(self).cap() == old(self).cap(),
            final(self).view() == appended(old(self).view(), line@, old(self).cap()),
    {
        if self.lines.len() >= self.cap {
            let ghost before = self.lines@;
            self.lines.remove(0);
            assert(texts(self.lines@) =~= texts(before).drop_first());
        }
        let ghost mid = self.lines@;
        self.lines.push(line);
        assert(texts(self.lines@) =~= texts(mid).push(line@));
    }

    /// Appends the lines in order, each as `push_line` does.
    pub fn push_lines(&mut self, ls: Vec<String>)
        requires
            old(self).wf(),
        ensures
            final(self).wf(),
            final(self).cap() == old(self).cap(),
            final(self).view() == appended_all(old(self).view(), texts(ls@), old(self).cap()),
    {
        let ghost s = self.view();
        let mut i: usize = 0;
        while i < ls.len()
            invariant
                i <= ls@.len(),
                self.wf(),
                self.cap() == old(self).cap(),
                s == old(self).view(),
                self.view() == appended_all(s, texts(ls@).subrange(0, i as int), self.cap()),
            decreases ls@.len() - i,
        {
            let line = ls[i].clone();
            assert(texts(ls@).subrange(0, i + 1).drop_last() =~= texts(ls@).subrange(0, i as int));
            self.push_line(line);
            i = i + 1;
        }
        assert(texts(ls@).subrange(0, ls@.len() as int) =~= texts(ls@));
    }

    /// Drops every line.
    pub fn clear(&mut self)
        requires
            old(self).wf(),
        ensures
            final(self).wf(),
            final(self).cap() == old(self).cap(),
            final(self).view() == Seq::<Seq<char>>::empty(),
    {
        self.lines = Vec::new();
        assert(self.view() =~= Seq::<Seq<char>>::empty());
    }
}

/// Appending lines one by one to a buffer that keeps `cap` lines leaves the
/// last `cap` of all the lines, in order: each append past the cap evicts the
/// oldest line.
pub proof fn lemma_keeps_most_recent(s: Seq<Seq<char>>, ls: Seq<Seq<char>>, cap: nat)
    requires
        0 < cap,
        s.len() <= cap,
    ensures
        appended_all(s, ls, cap) == last_n(s + ls, cap),
    decreases ls.len(),
{
    if ls.len() == 0 {
        assert(s + ls =~= s);
    } else {
        lemma_keeps_most_recent(s, ls.drop_last(), cap);
        let prev = s + ls.drop_last();
        assert(s + ls =~= prev.push(ls.last()));
        let x = last_n(prev, cap);
        if prev.len() < cap {
            assert(appended(x, ls.last(), cap) =~= last_n(s + ls, cap));
        } else {
            assert(appended(x, ls.last(), cap) =~= last_n(s + ls, cap));
        }
    }
}

} // verus!
