//! The frame decoder: buffers raw bytes from a chunked source and yields
//! newline-delimited frames.
//!
//! The wire format is one JSON value per line; chunk boundaries are unrelated
//! to line boundaries, so a line may arrive split across several chunks and a
//! chunk may hold several lines. The decoder reassembles lines, trims ASCII
//! whitespace from each, discards blank lines, and surfaces a non-blank
//! residual buffer exactly once at end of input.
//!
//! The mathematical model is [`frames_of`]: the frames produced by a byte
//! sequence, a function of the concatenated bytes alone. Every method's
//! contract is phrased against it, which is what makes the produced frame
//! sequence independent of how the input was chunked.

use vstd::prelude::*;

use crate::is_ws_byte;
use crate::LINE_FEED;

verus! {

/// What the result of `String::from_utf8_lossy` holds for a given byte
/// sequence. On valid UTF-8 it is the decoded text; on invalid input the
/// replacement of ill-formed sequences is not spelled out here.
pub uninterp spec fn utf8_lossy(b: Seq<u8>) -> Seq<char>;

/// Relies on `String::from_utf8_lossy`: the result is a function of the bytes
/// alone, and valid UTF-8 decodes to exactly its text.
#[verifier::external_body]
fn bytes_to_string(b: &[u8]) -> (s: String)
    ensures
        s@ == utf8_lossy(b@),
        vstd::utf8::valid_utf8(b@) ==> s@ == vstd::utf8::decode_utf8(b@),
{
    String::from_utf8_lossy(b).into_owned()
}

/// The position of the first line feed in `b`, or a negative value when `b`
/// holds none.
pub open spec fn first_nl(b: Seq<u8>) -> int
    decreases b.len(),
{
    if b.len() == 0 {
        -1
    } else if b[0] == LINE_FEED {
        0
    } else if first_nl(b.drop_first()) < 0 {
        -1
    } else {
        1 + first_nl(b.drop_first())
    }
}

pub proof fn lemma_first_nl_props(b: Seq<u8>)
    ensures
        first_nl(b) >= 0 ==> first_nl(b) < b.len() && b[first_nl(b)] == LINE_FEED,
        first_nl(b) >= 0 ==> forall|i: int| 0 <= i < first_nl(b) ==> b[i] != LINE_FEED,
        first_nl(b) < 0 ==> forall|i: int| 0 <= i < b.len() ==> b[i] != LINE_FEED,
    decreases b.len(),
{
    if b.len() == 0 {
    } else if b[0] == LINE_FEED {
    } else {
        lemma_first_nl_props(b.drop_first());
        assert forall|i: int| 0 <= i < b.len() implies (first_nl(b) < 0 || i < first_nl(b))
            ==> b[i] != LINE_FEED by {
            if i > 0 {
                assert(b[i] == b.drop_first()[i - 1]);
            }
        }
    }
}

/// The first line feed of a known scan: if nothing before `p` is a line feed
/// and `b[p]` is one, then `p` is the first.
pub proof fn lemma_first_nl_at(b: Seq<u8>, p: int)
    requires
        0 <= p < b.len(),
        b[p] == LINE_FEED,
        forall|i: int| 0 <= i < p ==> b[i] != LINE_FEED,
    ensures
        first_nl(b) == p,
    decreases p,
{
    if p == 0 {
    } else {
        assert(b.drop_first()[p - 1] == b[p]);
        assert forall|i: int| 0 <= i < p - 1 implies b.drop_first()[i] != LINE_FEED by {
            assert(b.drop_first()[i] == b[i + 1]);
        }
        lemma_first_nl_at(b.drop_first(), p - 1);
    }
}

/// How the first line feed moves under concatenation.
pub proof fn lemma_first_nl_concat(a: Seq<u8>, b: Seq<u8>)
    ensures
        first_nl(a) >= 0 ==> first_nl(a + b) == first_nl(a),
        first_nl(a) < 0 && first_nl(b) < 0 ==> first_nl(a + b) < 0,
        first_nl(a) < 0 && first_nl(b) >= 0 ==> first_nl(a + b) == a.len() + first_nl(b),
{
    lemma_first_nl_props(a);
    lemma_first_nl_props(b);
    lemma_first_nl_props(a + b);
    if first_nl(a) >= 0 {
        assert((a + b)[first_nl(a)] == LINE_FEED);
        assert forall|i: int| 0 <= i < first_nl(a) implies (a + b)[i] != LINE_FEED by {
            assert((a + b)[i] == a[i]);
        }
        lemma_first_nl_at(a + b, first_nl(a));
    } else if first_nl(b) >= 0 {
        assert((a + b)[a.len() + first_nl(b)] == LINE_FEED);
        assert forall|i: int| 0 <= i < a.len() + first_nl(b) implies (a + b)[i] != LINE_FEED by {
            if i < a.len() {
                assert((a + b)[i] == a[i]);
            } else {
                assert((a + b)[i] == b[i - a.len()]);
            }
        }
        lemma_first_nl_at(a + b, a.len() + first_nl(b));
    } else {
        assert forall|i: int| 0 <= i < (a + b).len() implies (a + b)[i] != LINE_FEED by {
            if i < a.len() {
                assert((a + b)[i] == a[i]);
            } else {
                assert((a + b)[i] == b[i - a.len()]);
            }
        }
        if first_nl(a + b) >= 0 {
            assert((a + b)[first_nl(a + b)] == LINE_FEED);
        }
    }
}

/// `b` with its leading ASCII whitespace removed.
pub open spec fn trim_front(b: Seq<u8>) -> Seq<u8>
    decreases b.len(),
{
    if b.len() > 0 && is_ws_byte(b[0]) {
        trim_front(b.drop_first())
    } else {
        b
    }
}

/// `b` with its trailing ASCII whitespace removed.
pub open spec fn trim_back(b: Seq<u8>) -> Seq<u8>
    decreases b.len(),
{
    if b.len() > 0 && is_ws_byte(b.last()) {
        trim_back(b.drop_last())
    } else {
        b
    }
}

/// `b` with ASCII whitespace removed from both ends.
pub open spec fn trim_bytes(b: Seq<u8>) -> Seq<u8> {
    trim_back(trim_front(b))
}

/// A frame is blank when nothing but whitespace remains of it.
pub open spec fn is_blank(b: Seq<u8>) -> bool {
    trim_bytes(b).len() == 0
}

/// The text carried by one frame: its bytes trimmed, then read as UTF-8.
pub open spec fn frame_text(b: Seq<u8>) -> Seq<char> {
    utf8_lossy(trim_bytes(b))
}

proof fn lemma_trim_front_ws_prefix(b: Seq<u8>, lo: int)
    requires
        0 <= lo <= b.len(),
        forall|j: int| 0 <= j < lo ==> is_ws_byte(b[j]),
        lo == b.len() || !is_ws_byte(b[lo]),
    ensures
        trim_front(b) == b.skip(lo),
    decreases lo,
{
    if lo == 0 {
        assert(b.skip(0) =~= b);
    } else {
        assert(is_ws_byte(b[0]));
        assert forall|j: int| 0 <= j < lo - 1 implies is_ws_byte(b.drop_first()[j]) by {
            assert(b.drop_first()[j] == b[j + 1]);
        }
        assert(lo - 1 == b.drop_first().len() || !is_ws_byte(b.drop_first()[lo - 1]));
        lemma_trim_front_ws_prefix(b.drop_first(), lo - 1);
        assert(b.drop_first().skip(lo - 1) =~= b.skip(lo));
    }
}

proof fn lemma_trim_back_ws_suffix(b: Seq<u8>, hi: int)
    requires
        0 <= hi <= b.len(),
        forall|j: int| hi <= j < b.len() ==> is_ws_byte(b[j]),
        hi == 0 || !is_ws_byte(b[hi - 1]),
    ensures
        trim_back(b) == b.take(hi),
    decreases b.len() - hi,
{
    if hi == b.len() {
        assert(b.take(hi) =~= b);
    } else {
        assert(is_ws_byte(b.last()));
        lemma_trim_back_ws_suffix(b.drop_last(), hi);
        assert(b.drop_last().take(hi) =~= b.take(hi));
    }
}

/// Trimming is taking the subrange between the outermost non-whitespace bytes.
proof fn lemma_trim_is_subrange(b: Seq<u8>, lo: int, hi: int)
    requires
        0 <= lo <= hi <= b.len(),
        forall|j: int| 0 <= j < lo ==> is_ws_byte(b[j]),
        forall|j: int| hi <= j < b.len() ==> is_ws_byte(b[j]),
        lo == b.len() || !is_ws_byte(b[lo]),
        lo == hi || (!is_ws_byte(b[lo]) && !is_ws_byte(b[hi - 1])),
    ensures
        trim_bytes(b) == b.subrange(lo, hi),
{
    lemma_trim_front_ws_prefix(b, lo);
    let f = b.skip(lo);
    assert forall|j: int| hi - lo <= j < f.len() implies is_ws_byte(f[j]) by {
        assert(f[j] == b[j + lo]);
    }
    if hi > lo {
        assert(f[hi - lo - 1] == b[hi - 1]);
    }
    lemma_trim_back_ws_suffix(f, hi - lo);
    assert(f.take(hi - lo) =~= b.subrange(lo, hi));
}

/// One frame of the wire: a complete, newline-terminated line, or the tail
/// left in the buffer when the source ends without a final newline.
pub enum Frame {
    Line(String),
    Tail(String),
}

/// The mathematical value of a [`Frame`].
pub enum FrameView {
    Line(Seq<char>),
    Tail(Seq<char>),
}

impl View for Frame {
    type V = FrameView;

    open spec fn view(&self) -> FrameView {
        match self {
            Frame::Line(s) => FrameView::Line(s@),
            Frame::Tail(s) => FrameView::Tail(s@),
        }
    }
}

/// The frames produced by a complete byte sequence: each newline-terminated
/// line that is not blank becomes a `Line` frame carrying its trimmed text,
/// blank lines vanish, and a non-blank remainder after the last newline
/// becomes a single terminal `Tail` frame.
///
/// This is a function of the concatenated bytes alone; nothing about chunk
/// boundaries enters it.
pub open spec fn frames_of(b: Seq<u8>) -> Seq<FrameView>
    decreases b.len(),
        via frames_of_decreases
{
    let p = first_nl(b);
    if p < 0 {
        if is_blank(b) {
            Seq::empty()
        } else {
            seq![FrameView::Tail(frame_text(b))]
        }
    } else {
        let line = b.subrange(0, p);
        let rest = b.subrange(p + 1, b.len() as int);
        if is_blank(line) {
            frames_of(rest)
        } else {
            seq![FrameView::Line(frame_text(line))] + frames_of(rest)
        }
    }
}

#[via_fn]
proof fn frames_of_decreases(b: Seq<u8>) {
    lemma_first_nl_props(b);
}

/// Unfolding [`frames_of`] at a leading complete line, for any continuation of
/// the byte stream: consuming the first line (and the frame it may carry)
/// commutes with appending further bytes.
pub proof fn lemma_frames_of_step(b: Seq<u8>, rest: Seq<u8>)
    requires
        first_nl(b) >= 0,
    ensures
        is_blank(b.subrange(0, first_nl(b))) ==> frames_of(b + rest) == frames_of(
            b.subrange(first_nl(b) + 1, b.len() as int) + rest,
        ),
        !is_blank(b.subrange(0, first_nl(b))) ==> frames_of(b + rest) == seq![
            FrameView::Line(frame_text(b.subrange(0, first_nl(b)))),
        ] + frames_of(b.subrange(first_nl(b) + 1, b.len() as int) + rest),
{
    let p = first_nl(b);
    lemma_first_nl_props(b);
    lemma_first_nl_concat(b, rest);
    let c = b + rest;
    assert(first_nl(c) == p);
    assert(c.subrange(0, p) =~= b.subrange(0, p));
    assert(c.subrange(p + 1, c.len() as int) =~= b.subrange(p + 1, b.len() as int) + rest);
}

/// The incremental line reassembler. `feed` appends a chunk; `take_line`
/// yields the next complete non-blank line; `take_residue` flushes the
/// remainder at end of input.
///
/// Bytes already inspected for a line feed are never rescanned on a later
/// call, so the total scanning work is linear in the input.
pub struct FrameDecoder {
    buf: Vec<u8>,
    scanned: usize,
}

impl FrameDecoder {
    /// The bytes buffered and not yet attributed to a completed line.
    pub closed spec fn view(&self) -> Seq<u8> {
        self.buf@
    }

    /// The scan mark never passes the buffer's end, and everything before it
    /// has been checked to hold no line feed.
    pub closed spec fn wf(&self) -> bool {
        self.scanned <= self.buf.len() && forall|i: int|
            0 <= i < self.scanned ==> self.buf@[i] != LINE_FEED
    }

    pub fn new() -> (d: FrameDecoder)
        ensures
            d.wf(),
            d@ == Seq::<u8>::empty(),
    {
        let d = FrameDecoder { buf: Vec::new(), scanned: 0 };
        proof {
            assert(d.buf@ =~= Seq::<u8>::empty());
        }
        d
    }

    /// Append a chunk of bytes from the source.
    pub fn feed(&mut self, chunk: &[u8])
        requires
            old(self).wf(),
        ensures
            final(self).wf(),
            final(self)@ == old(self)@ + chunk@,
    {
        let mut i: usize = 0;
        while i < chunk.len()
            invariant
                i <= chunk.len(),
                self.buf@ == old(self).buf@ + chunk@.take(i as int),
                self.scanned == old(self).scanned,
                old(self).wf(),
            decreases chunk.len() - i,
        {
            self.buf.push(chunk[i]);
            i = i + 1;
            proof {
                assert(self.buf@ =~= old(self).buf@ + chunk@.take(i as int));
            }
        }
        proof {
            assert(chunk@.take(chunk@.len() as int) =~= chunk@);
            assert(self.wf());
        }
    }

    /// Scan for the first line feed, resuming where the last scan stopped.
    fn find_newline(&mut self) -> (r: Option<usize>)
        requires
            old(self).wf(),
        ensures
            final(self).wf(),
            final(self)@ == old(self)@,
            match r {
                Some(p) => first_nl(final(self)@) == p,
                None => first_nl(final(self)@) < 0,
            },
    {
        while self.scanned < self.buf.len()
            invariant
                self.wf(),
                self.buf == old(self).buf,
            decreases self.buf.len() - self.scanned,
        {
            if self.buf[self.scanned] == LINE_FEED {
                proof {
                    lemma_first_nl_at(self.buf@, self.scanned as int);
                }
                return Some(self.scanned);
            }
            self.scanned = self.scanned + 1;
        }
        proof {
            lemma_first_nl_props(self.buf@);
            if first_nl(self.buf@) >= 0 {
                assert(self.buf@[first_nl(self.buf@)] == LINE_FEED);
            }
        }
        None
    }

    /// Remove the first line (through its newline) from the buffer and return
    /// the line's bytes, newline excluded.
    fn cut_line(&mut self, p: usize) -> (line: Vec<u8>)
        requires
            old(self).wf(),
            first_nl(old(self)@) == p,
        ensures
            final(self).wf(),
            line@ == old(self)@.subrange(0, p as int),
            final(self)@ == old(self)@.subrange(p as int + 1, old(self)@.len() as int),
    {
        proof {
            lemma_first_nl_props(old(self)@);
        }
        let mut line: Vec<u8> = Vec::new();
        let mut i: usize = 0;
        while i < p
            invariant
                i <= p,
                p < self.buf.len(),
                line@ == self.buf@.take(i as int),
                self.buf == old(self).buf,
            decreases p - i,
        {
            line.push(self.buf[i]);
            i = i + 1;
            proof {
                assert(line@ =~= self.buf@.take(i as int));
            }
        }
        let mut rest: Vec<u8> = Vec::new();
        let mut j: usize = p + 1;
        while j < self.buf.len()
            invariant
                p + 1 <= j <= self.buf.len(),
                rest@ == self.buf@.subrange(p as int + 1, j as int),
                self.buf == old(self).buf,
            decreases self.buf.len() - j,
        {
            rest.push(self.buf[j]);
            j = j + 1;
            proof {
                assert(rest@ =~= self.buf@.subrange(p as int + 1, j as int));
            }
        }
        self.buf = rest;
        self.scanned = 0;
        proof {
            assert(line@ =~= old(self)@.subrange(0, p as int));
        }
        line
    }

    /// The next complete non-blank line, trimmed, or nothing when the buffer
    /// holds no further complete non-blank line. Blank lines are consumed
    /// without surfacing. The contract holds for every continuation `rest` of
    /// the byte stream, so extraction commutes with later feeds.
    pub fn take_line(&mut self) -> (r: Option<String>)
        requires
            old(self).wf(),
        ensures
            final(self).wf(),
            final(self)@.len() <= old(self)@.len(),
            match r {
                Some(line) => final(self)@.len() < old(self)@.len() && forall|rest: Seq<u8>|
                    frames_of(old(self)@ + rest) == seq![FrameView::Line(line@)] + frames_of(
                        final(self)@ + rest,
                    ),
                None => first_nl(final(self)@) < 0 && forall|rest: Seq<u8>|
                    frames_of(old(self)@ + rest) == frames_of(final(self)@ + rest),
            },
    {
        loop
            invariant
                self.wf(),
                self@.len() <= old(self)@.len(),
                forall|rest: Seq<u8>| frames_of(old(self)@ + rest) == frames_of(self@ + rest),
            decreases self@.len(),
        {
            let found = self.find_newline();
            match found {
                None => {
                    return None;
                },
                Some(p) => {
                    let ghost before = self@;
                    proof {
                        lemma_first_nl_props(before);
                    }
                    let line = self.cut_line(p);
                    let trimmed = trimmed_copy(&line);
                    proof {
                        assert(self@.len() < before.len());
                        assert forall|rest: Seq<u8>| frames_of(old(self)@ + rest) == (if is_blank(
                            line@,
                        ) {
                            frames_of(self@ + rest)
                        } else {
                            seq![FrameView::Line(frame_text(line@))] + frames_of(self@ + rest)
                        }) by {
                            lemma_frames_of_step(before, rest);
                        }
                    }
                    if trimmed.len() > 0 {
                        let text = bytes_to_string(trimmed.as_slice());
                        return Some(text);
                    }
                },
            }
        }
    }

    /// Flush the residual buffer at end of input: the trimmed remainder if it
    /// is non-blank, surfaced exactly once; nothing if it is blank. Afterwards
    /// the buffer is empty.
    pub fn take_residue(&mut self) -> (r: Option<String>)
        requires
            old(self).wf(),
            first_nl(old(self)@) < 0,
        ensures
            final(self).wf(),
            final(self)@ == Seq::<u8>::empty(),
            match r {
                Some(text) => frames_of(old(self)@) == seq![FrameView::Tail(text@)],
                None => frames_of(old(self)@) == Seq::<FrameView>::empty(),
            },
    {
        let trimmed = trimmed_copy(&self.buf);
        self.buf = Vec::new();
        self.scanned = 0;
        proof {
            assert(self.buf@ =~= Seq::<u8>::empty());
        }
        if trimmed.len() > 0 {
            let text = bytes_to_string(trimmed.as_slice());
            Some(text)
        } else {
            None
        }
    }
}

/// An executable check of [`is_ws_byte`].
fn is_ws(b: u8) -> (r: bool)
    ensures
        r == is_ws_byte(b),
{
    b == 32 || b == 9 || b == 10 || b == 12 || b == 13
}

/// A copy of `v` with ASCII whitespace removed from both ends.
fn trimmed_copy(v: &Vec<u8>) -> (t: Vec<u8>)
    ensures
        t@ == trim_bytes(v@),
        t@.len() == 0 <==> is_blank(v@),
{
    let mut lo: usize = 0;
    while lo < v.len() && is_ws(v[lo])
        invariant
            lo <= v.len(),
            forall|j: int| 0 <= j < lo ==> is_ws_byte(v@[j]),
        decreases v.len() - lo,
    {
        lo = lo + 1;
    }
    let mut hi: usize = v.len();
    while hi > lo && is_ws(v[hi - 1])
        invariant
            lo <= hi <= v.len(),
            forall|j: int| hi <= j < v.len() ==> is_ws_byte(v@[j]),
        decreases hi,
    {
        hi = hi - 1;
    }
    proof {
        lemma_trim_is_subrange(v@, lo as int, hi as int);
    }
    let mut t: Vec<u8> = Vec::new();
    let mut i: usize = lo;
    while i < hi
        invariant
            lo <= i <= hi <= v.len(),
            t@ == v@.subrange(lo as int, i as int),
        decreases hi - i,
    {
        t.push(v[i]);
        i = i + 1;
        proof {
            assert(t@ =~= v@.subrange(lo as int, i as int));
        }
    }
    proof {
        assert(t@ =~= v@.subrange(lo as int, hi as int));
    }
    t
}

} // verus!
