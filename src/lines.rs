//! Splitting raw output bytes into text lines.
use vstd::prelude::*;

verus! {

pub const NEWLINE: u8 = 10;

pub const CARRIAGE_RETURN: u8 = 13;

/// The text that lossy UTF-8 decoding gives for a byte sequence.
pub uninterp spec fn lossy_text(b: Seq<u8>) -> Seq<char>;

/// Relies on `String::from_utf8_lossy`: the decoded text depends on the bytes
/// alone, and valid UTF-8 (here: ASCII bytes, each its own character) comes
/// back unchanged.
#[verifier::external_body]
fn decode_lossy(b: &[u8]) -> (r: String)
    ensures
        r@ == lossy_text(b@),
        b@.len() == 0 ==> r@.len() == 0,
        (forall|i: int| 0 <= i < b@.len() ==> #[trigger] b@[i] < 128) ==> r@ == b@.map_values(|x: u8| x as char),
{
    String::from_utf8_lossy(b).into_owned()
}

/// The views of a sequence of strings.
pub open spec fn texts(v: Seq<String>) -> Seq<Seq<char>> {
    v.map_values(|s: String| s@)
}

/// Reading `b` after the unfinished line `start`: the lines completed by a
/// newline (without it), and what is left after the last newline.
pub open spec fn scan(start: Seq<u8>, b: Seq<u8>) -> (Seq<Seq<u8>>, Seq<u8>)
    decreases b.len(),
{
    if b.len() == 0 {
        (seq![], start)
    } else {
        let (ls, cur) = scan(start, b.drop_last());
        if b.last() == NEWLINE {
            (ls.push(cur), seq![])
        } else {
            (ls, cur.push(b.last()))
        }
    }
}

/// A line without the carriage return that ended it, if any.
pub open spec fn strip_cr(l: Seq<u8>) -> Seq<u8> {
    if l.len() > 0 && l.last() == CARRIAGE_RETURN {
        l.drop_last()
    } else {
        l
    }
}

/// Completed lines as text: carriage return dropped, then decoded.
pub open spec fn decoded(ls: Seq<Seq<u8>>) -> Seq<Seq<char>> {
    ls.map_values(|l: Seq<u8>| lossy_text(strip_cr(l)))
}

/// The lines of a whole text: every line ended by a newline, then the
/// unterminated rest if it is not empty.
pub open spec fn text_lines(b: Seq<u8>) -> Seq<Seq<char>> {
    let (ls, rest) = scan(seq![], b);
    if rest.len() > 0 {
        decoded(ls).push(lossy_text(rest))
    } else {
        decoded(ls)
    }
}

/// Collects output that arrives in chunks and hands out only complete lines.
pub struct LineAssembler {
    pending: Vec<u8>,
}

impl LineAssembler {
    /// The bytes of the line not yet ended by a newline.
    pub closed spec fn pending_view(&self) -> Seq<u8> {
        self.pending@
    }

    pub fn new() -> (r: LineAssembler)
        ensures
            r.pending_view() == Seq::<u8>::empty(),
    {
        LineAssembler { pending: Vec::new() }
    }

    /// Whether an unfinished line is held.
    pub fn has_pending(&self) -> (r: bool)
        ensures
            r == (self.pending_view().len() > 0),
    {
        self.pending.len() > 0
    }

    /// Takes a chunk and returns the lines that it completes, in order.
    pub fn feed(&mut self, chunk: &[u8]) -> (r: Vec<String>)
        ensures
            texts(r@) == decoded(scan(old(self).pending_view(), chunk@).0),
            final(self).pending_view() == scan(old(self).pending_view(), chunk@).1,
    {
        let ghost start = self.pending@;
        let mut out: Vec<String> = Vec::new();
        let mut i: usize = 0;
        while i < chunk.len()
            invariant
                i <= chunk@.len(),
                texts(out@) == decoded(scan(start, chunk@.subrange(0, i as int)).0),
                self.pending@ == scan(start, chunk@.subrange(0, i as int)).1,
            decreases chunk@.len() - i,
        {
            let b = chunk[i];
            let ghost prev = scan(start, chunk@.subrange(0, i as int));
            assert(chunk@.subrange(0, i + 1).drop_last() =~= chunk@.subrange(0, i as int));
            if b == NEWLINE {
                let ghost line = self.pending@;
                let n = self.pending.len();
                if n > 0 && self.pending[n - 1] == CARRIAGE_RETURN {
                    self.pending.pop();
                }
                assert(self.pending@ == strip_cr(line));
                let s = decode_lossy(self.pending.as_slice());
                let ghost before = out@;
                out.push(s);
                self.pending = Vec::new();
                assert(texts(out@) =~= texts(before).push(s@));
                assert(decoded(prev.0.push(line)) =~= decoded(prev.0).push(lossy_text(strip_cr(line))));
            } else {
                self.pending.push(b);
            }
            i = i + 1;
        }
        assert(chunk@.subrange(0, chunk@.len() as int) =~= chunk@);
        out
    }

    /// Ends the input: the unfinished line, decoded, if one is held.
    pub fn finish(self) -> (r: Option<String>)
        ensures
            self.pending_view().len() == 0 ==> r is None,
            self.pending_view().len() > 0 ==> r is Some && r->0@ == lossy_text(self.pending_view()),
    {
        if self.pending.len() > 0 {
            Some(decode_lossy(self.pending.as_slice()))
        } else {
            None
        }
    }
}

/// Splits a whole text into its lines, as `text_lines` describes.
pub fn split_text(b: &[u8]) -> (r: Vec<String>)
    ensures
        texts(r@) == text_lines(b@),
{
    let mut assembler = LineAssembler::new();
    let mut out = assembler.feed(b);
    let ghost before = out@;
    match assembler.finish() {
        Some(last) => {
            out.push(last);
            assert(texts(out@) =~= texts(before).push(last@));
        },
        None => {},
    }
    out
}

} // verus!
