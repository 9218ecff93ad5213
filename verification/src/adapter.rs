//! The stream adapter: a pull-based, lazy, single-traversal sequence of
//! events, driven by a push-based byte source.
//!
//! [`FrameStream`] is the endpoint-agnostic core. Each pull first tries to
//! take a complete line from the decoder — if one is there it is yielded
//! without touching the byte source. Otherwise the caller is asked for input;
//! it reports new bytes, a source fault, or the source's end. A fault is
//! yielded once, terminally, and the residual buffer is dropped with it; a
//! clean end flushes a non-blank residue as exactly one terminal tail frame.
//!
//! [`ChatEventStream`] and [`GenerateEventStream`] put the event parser on
//! top, frame by frame. [`collect_frames`] and the `collect_*_events`
//! functions run the same traversal over a fully known input; their contracts
//! say the result is a function of the concatenated bytes alone, which is the
//! chunk-boundary independence of the whole pipeline.

use vstd::prelude::*;

use crate::chat::ChatStreamEvent;
use crate::chat::ChatStreamEventView;
use crate::decoder::frames_of;
use crate::decoder::frame_text;
use crate::decoder::first_nl;
use crate::decoder::is_blank;
use crate::decoder::Frame;
use crate::decoder::FrameDecoder;
use crate::decoder::FrameView;
use crate::generate::GenerateStreamEvent;
use crate::generate::GenerateStreamEventView;
use crate::parser::classify_chat;
use crate::parser::classify_chat_line;
use crate::parser::classify_generate;
use crate::parser::classify_generate_line;

verus! {

impl DeepView for Frame {
    type V = FrameView;

    open spec fn deep_view(&self) -> FrameView {
        self.view()
    }
}

impl DeepView for ChatStreamEvent {
    type V = ChatStreamEventView;

    open spec fn deep_view(&self) -> ChatStreamEventView {
        self.view()
    }
}

impl DeepView for GenerateStreamEvent {
    type V = GenerateStreamEventView;

    open spec fn deep_view(&self) -> GenerateStreamEventView {
        self.view()
    }
}

/// The chat event one frame carries: a complete line goes through the
/// classifier; the terminal tail becomes a partial event without diagnostic.
pub open spec fn chat_event_of_frame(f: FrameView) -> ChatStreamEventView {
    match f {
        FrameView::Line(text) => classify_chat(text),
        FrameView::Tail(text) => ChatStreamEventView::Partial { partial: text, error: None },
    }
}

/// The generation event one frame carries.
pub open spec fn generate_event_of_frame(f: FrameView) -> GenerateStreamEventView {
    match f {
        FrameView::Line(text) => classify_generate(text),
        FrameView::Tail(text) => GenerateStreamEventView::Partial { partial: text, error: None },
    }
}

/// The chat events produced by a complete byte sequence: a function of the
/// concatenated bytes alone.
pub open spec fn chat_events_of(b: Seq<u8>) -> Seq<ChatStreamEventView> {
    frames_of(b).map_values(|f: FrameView| chat_event_of_frame(f))
}

/// The generation events produced by a complete byte sequence.
pub open spec fn generate_events_of(b: Seq<u8>) -> Seq<GenerateStreamEventView> {
    frames_of(b).map_values(|f: FrameView| generate_event_of_frame(f))
}

/// Classifying frames into chat events commutes with taking one frame off
/// the front.
pub proof fn lemma_chat_events_unfold(ba: Seq<u8>, f: FrameView, bb: Seq<u8>)
    requires
        frames_of(ba) == seq![f] + frames_of(bb),
    ensures
        chat_events_of(ba) == seq![chat_event_of_frame(f)] + chat_events_of(bb),
{
    assert(chat_events_of(ba) =~= seq![chat_event_of_frame(f)] + chat_events_of(bb));
}

/// Classifying frames into generation events commutes with taking one frame
/// off the front.
pub proof fn lemma_generate_events_unfold(ba: Seq<u8>, f: FrameView, bb: Seq<u8>)
    requires
        frames_of(ba) == seq![f] + frames_of(bb),
    ensures
        generate_events_of(ba) == seq![generate_event_of_frame(f)] + generate_events_of(bb),
{
    assert(generate_events_of(ba) =~= seq![generate_event_of_frame(f)] + generate_events_of(bb));
}

/// What the driver of a stream reports when asked for input.
pub enum SourceItem {
    /// The source produced another chunk of bytes.
    Chunk(Vec<u8>),
    /// The source failed; the text describes the transport error.
    Fault(String),
    /// The source ended cleanly.
    Closed,
}

/// What one pull of a frame stream yields.
pub enum PulledFrame {
    /// The next frame, in strict line order.
    Frame(Frame),
    /// No complete line is buffered and the source has not ended: feed more
    /// input before pulling again.
    NeedInput,
    /// The source failed; terminal.
    Fault(String),
    /// The sequence is over; every later pull yields this again.
    Finished,
}

/// The mathematical state of a [`FrameStream`].
pub struct FrameStreamView {
    /// Bytes not yet attributed to a completed line.
    pub buffered: Seq<u8>,
    /// Whether the source has reported its end or a fault.
    pub src_done: bool,
    /// A reported fault not yet surfaced.
    pub fault: Option<Seq<char>>,
    /// Whether the sequence is over.
    pub finished: bool,
}

/// The endpoint-agnostic stream adapter core: a single forward traversal,
/// not restartable, that yields each frame exactly once and terminates
/// exactly when the source does.
pub struct FrameStream {
    dec: FrameDecoder,
    src_done: bool,
    fault: Option<String>,
    finished: bool,
}

impl View for FrameStream {
    type V = FrameStreamView;

    closed spec fn view(&self) -> FrameStreamView {
        FrameStreamView {
            buffered: self.dec@,
            src_done: self.src_done,
            fault: self.fault.deep_view(),
            finished: self.finished,
        }
    }
}

impl FrameStream {
    /// A fault is only ever recorded once the source is done.
    pub closed spec fn wf(&self) -> bool {
        self.dec.wf() && (self.fault is Some ==> self.src_done)
    }

    pub fn new() -> (s: FrameStream)
        ensures
            s.wf(),
            s@ == (FrameStreamView {
                buffered: Seq::<u8>::empty(),
                src_done: false,
                fault: None,
                finished: false,
            }),
    {
        FrameStream { dec: FrameDecoder::new(), src_done: false, fault: None, finished: false }
    }

    /// Whether the source has reported its end or a fault.
    pub fn source_done(&self) -> (b: bool)
        ensures
            b == self@.src_done,
    {
        self.src_done
    }

    /// Report what the source produced when asked for input.
    pub fn on_input(&mut self, item: SourceItem)
        requires
            old(self).wf(),
            !old(self)@.src_done,
        ensures
            final(self).wf(),
            final(self)@.finished == old(self)@.finished,
            match item {
                SourceItem::Chunk(c) => final(self)@ == (FrameStreamView {
                    buffered: old(self)@.buffered + c@,
                    ..old(self)@
                }),
                SourceItem::Fault(e) => final(self)@ == (FrameStreamView {
                    src_done: true,
                    fault: Some(e@),
                    ..old(self)@
                }),
                SourceItem::Closed => final(self)@ == (FrameStreamView {
                    src_done: true,
                    ..old(self)@
                }),
            },
    {
        match item {
            SourceItem::Chunk(c) => {
                self.dec.feed(c.as_slice());
            },
            SourceItem::Fault(e) => {
                self.src_done = true;
                self.fault = Some(e);
            },
            SourceItem::Closed => {
                self.src_done = true;
            },
        }
    }

    /// Pull the next frame. Buffered complete lines are yielded before the
    /// source's fault or end takes effect; a clean end flushes the residue as
    /// one terminal tail frame; a fault ends the sequence at once, dropping
    /// the residual buffer.
    pub fn pull(&mut self) -> (r: PulledFrame)
        requires
            old(self).wf(),
        ensures
            final(self).wf(),
            final(self)@.src_done == old(self)@.src_done,
            match r {
                PulledFrame::Frame(f) => !old(self)@.finished && !final(self)@.finished
                    && final(self)@.fault == old(self)@.fault && (if old(self)@.src_done {
                    frames_of(old(self)@.buffered) == seq![f@] + frames_of(final(self)@.buffered)
                } else {
                    forall|rest: Seq<u8>|
                        frames_of(old(self)@.buffered + rest) == seq![f@] + frames_of(
                            final(self)@.buffered + rest,
                        )
                }),
                PulledFrame::NeedInput => !old(self)@.src_done && !old(self)@.finished
                    && !final(self)@.finished && final(self)@.fault == old(self)@.fault
                    && first_nl(final(self)@.buffered) < 0 && (forall|rest: Seq<u8>|
                    frames_of(old(self)@.buffered + rest) == frames_of(
                        final(self)@.buffered + rest,
                    )),
                PulledFrame::Fault(e) => !old(self)@.finished && old(self)@.fault == Some(e@)
                    && final(self)@.finished,
                PulledFrame::Finished => final(self)@.finished && (old(self)@.finished || (
                old(self)@.src_done && old(self)@.fault is None && frames_of(old(self)@.buffered)
                    == Seq::<FrameView>::empty())),
            },
    {
        if self.finished {
            return PulledFrame::Finished;
        }
        let ghost entry = self@.buffered;
        let line = self.dec.take_line();
        match line {
            Some(text) => {
                proof {
                    assert(entry + Seq::<u8>::empty() =~= entry);
                    assert(self@.buffered + Seq::<u8>::empty() =~= self@.buffered);
                }
                return PulledFrame::Frame(Frame::Line(text));
            },
            None => {},
        }
        proof {
            assert(entry + Seq::<u8>::empty() =~= entry);
            assert(self@.buffered + Seq::<u8>::empty() =~= self@.buffered);
        }
        if !self.src_done {
            return PulledFrame::NeedInput;
        }
        match &self.fault {
            Some(e) => {
                let msg = e.clone();
                self.finished = true;
                return PulledFrame::Fault(msg);
            },
            None => {},
        }
        let residue = self.dec.take_residue();
        match residue {
            Some(text) => {
                PulledFrame::Frame(Frame::Tail(text))
            },
            None => {
                self.finished = true;
                PulledFrame::Finished
            },
        }
    }
}

/// What one pull of an event stream yields.
pub enum Pulled<E> {
    /// The next event, in strict line order.
    Event(E),
    /// No complete line is buffered and the source has not ended: feed more
    /// input before pulling again.
    NeedInput,
    /// The source failed; terminal.
    Fault(String),
    /// The sequence is over; every later pull yields this again.
    Finished,
}

/// The chat event carried by one frame.
fn chat_frame_event(f: Frame) -> (ev: ChatStreamEvent)
    ensures
        ev@ == chat_event_of_frame(f@),
{
    match f {
        Frame::Line(s) => classify_chat_line(s.as_str()),
        Frame::Tail(s) => ChatStreamEvent::Partial { partial: s, error: None },
    }
}

/// The generation event carried by one frame.
fn generate_frame_event(f: Frame) -> (ev: GenerateStreamEvent)
    ensures
        ev@ == generate_event_of_frame(f@),
{
    match f {
        Frame::Line(s) => classify_generate_line(s.as_str()),
        Frame::Tail(s) => GenerateStreamEvent::Partial { partial: s, error: None },
    }
}

/// The stream adapter of the chat endpoint: [`FrameStream`] composed with the
/// chat event parser.
pub struct ChatEventStream {
    inner: FrameStream,
}

impl View for ChatEventStream {
    type V = FrameStreamView;

    closed spec fn view(&self) -> FrameStreamView {
        self.inner@
    }
}

impl ChatEventStream {
    pub closed spec fn wf(&self) -> bool {
        self.inner.wf()
    }

    pub fn new() -> (s: ChatEventStream)
        ensures
            s.wf(),
            s@ == (FrameStreamView {
                buffered: Seq::<u8>::empty(),
                src_done: false,
                fault: None,
                finished: false,
            }),
    {
        ChatEventStream { inner: FrameStream::new() }
    }

    /// Whether the source has reported its end or a fault.
    pub fn source_done(&self) -> (b: bool)
        ensures
            b == self@.src_done,
    {
        self.inner.source_done()
    }

    /// Report what the source produced when asked for input.
    pub fn on_input(&mut self, item: SourceItem)
        requires
            old(self).wf(),
            !old(self)@.src_done,
        ensures
            final(self).wf(),
            final(self)@.finished == old(self)@.finished,
            match item {
                SourceItem::Chunk(c) => final(self)@ == (FrameStreamView {
                    buffered: old(self)@.buffered + c@,
                    ..old(self)@
                }),
                SourceItem::Fault(e) => final(self)@ == (FrameStreamView {
                    src_done: true,
                    fault: Some(e@),
                    ..old(self)@
                }),
                SourceItem::Closed => final(self)@ == (FrameStreamView {
                    src_done: true,
                    ..old(self)@
                }),
            },
    {
        self.inner.on_input(item);
    }

    /// Pull the next chat event; see [`FrameStream::pull`] for the traversal
    /// discipline.
    pub fn pull(&mut self) -> (r: Pulled<ChatStreamEvent>)
        requires
            old(self).wf(),
        ensures
            final(self).wf(),
            final(self)@.src_done == old(self)@.src_done,
            match r {
                Pulled::Event(ev) => !old(self)@.finished && !final(self)@.finished
                    && final(self)@.fault == old(self)@.fault && (if old(self)@.src_done {
                    chat_events_of(old(self)@.buffered) == seq![ev@] + chat_events_of(
                        final(self)@.buffered,
                    )
                } else {
                    forall|rest: Seq<u8>|
                        chat_events_of(old(self)@.buffered + rest) == seq![ev@] + chat_events_of(
                            final(self)@.buffered + rest,
                        )
                }),
                Pulled::NeedInput => !old(self)@.src_done && !old(self)@.finished
                    && !final(self)@.finished && final(self)@.fault == old(self)@.fault && (
                forall|rest: Seq<u8>|
                    chat_events_of(old(self)@.buffered + rest) == chat_events_of(
                        final(self)@.buffered + rest,
                    )),
                Pulled::Fault(e) => !old(self)@.finished && old(self)@.fault == Some(e@)
                    && final(self)@.finished,
                Pulled::Finished => final(self)@.finished && (old(self)@.finished || (
                old(self)@.src_done && old(self)@.fault is None && chat_events_of(
                    old(self)@.buffered,
                ) == Seq::<ChatStreamEventView>::empty())),
            },
    {
        let r = self.inner.pull();
        match r {
            PulledFrame::Frame(f) => {
                let ghost fv = f@;
                let ev = chat_frame_event(f);
                proof {
                    if old(self)@.src_done {
                        lemma_chat_events_unfold(old(self)@.buffered, fv, self@.buffered);
                    } else {
                        assert forall|rest: Seq<u8>|
                            chat_events_of(old(self)@.buffered + rest) == seq![ev@]
                                + chat_events_of(self@.buffered + rest) by {
                            lemma_chat_events_unfold(
                                old(self)@.buffered + rest,
                                fv,
                                self@.buffered + rest,
                            );
                        }
                    }
                }
                Pulled::Event(ev)
            },
            PulledFrame::NeedInput => Pulled::NeedInput,
            PulledFrame::Fault(e) => Pulled::Fault(e),
            PulledFrame::Finished => {
                proof {
                    if !old(self)@.finished {
                        assert(chat_events_of(old(self)@.buffered)
                            =~= Seq::<ChatStreamEventView>::empty());
                    }
                }
                Pulled::Finished
            },
        }
    }
}

/// The stream adapter of the generation endpoint: [`FrameStream`] composed
/// with the generation event parser.
pub struct GenerateEventStream {
    inner: FrameStream,
}

impl View for GenerateEventStream {
    type V = FrameStreamView;

    closed spec fn view(&self) -> FrameStreamView {
        self.inner@
    }
}

impl GenerateEventStream {
    pub closed spec fn wf(&self) -> bool {
        self.inner.wf()
    }

    pub fn new() -> (s: GenerateEventStream)
        ensures
            s.wf(),
            s@ == (FrameStreamView {
                buffered: Seq::<u8>::empty(),
                src_done: false,
                fault: None,
                finished: false,
            }),
    {
        GenerateEventStream { inner: FrameStream::new() }
    }

    /// Whether the source has reported its end or a fault.
    pub fn source_done(&self) -> (b: bool)
        ensures
            b == self@.src_done,
    {
        self.inner.source_done()
    }

    /// Report what the source produced when asked for input.
    pub fn on_input(&mut self, item: SourceItem)
        requires
            old(self).wf(),
            !old(self)@.src_done,
        ensures
            final(self).wf(),
            final(self)@.finished == old(self)@.finished,
            match item {
                SourceItem::Chunk(c) => final(self)@ == (FrameStreamView {
                    buffered: old(self)@.buffered + c@,
                    ..old(self)@
                }),
                SourceItem::Fault(e) => final(self)@ == (FrameStreamView {
                    src_done: true,
                    fault: Some(e@),
                    ..old(self)@
                }),
                SourceItem::Closed => final(self)@ == (FrameStreamView {
                    src_done: true,
                    ..old(self)@
                }),
            },
    {
        self.inner.on_input(item);
    }

    /// Pull the next generation event; see [`FrameStream::pull`] for the
    /// traversal discipline.
    pub fn pull(&mut self) -> (r: Pulled<GenerateStreamEvent>)
        requires
            old(self).wf(),
        ensures
            final(self).wf(),
            final(self)@.src_done == old(self)@.src_done,
            match r {
                Pulled::Event(ev) => !old(self)@.finished && !final(self)@.finished
                    && final(self)@.fault == old(self)@.fault && (if old(self)@.src_done {
                    generate_events_of(old(self)@.buffered) == seq![ev@] + generate_events_of(
                        final(self)@.buffered,
                    )
                } else {
                    forall|rest: Seq<u8>|
                        generate_events_of(old(self)@.buffered + rest) == seq![ev@]
                            + generate_events_of(final(self)@.buffered + rest)
                }),
                Pulled::NeedInput => !old(self)@.src_done && !old(self)@.finished
                    && !final(self)@.finished && final(self)@.fault == old(self)@.fault && (
                forall|rest: Seq<u8>|
                    generate_events_of(old(self)@.buffered + rest) == generate_events_of(
                        final(self)@.buffered + rest,
                    )),
                Pulled::Fault(e) => !old(self)@.finished && old(self)@.fault == Some(e@)
                    && final(self)@.finished,
                Pulled::Finished => final(self)@.finished && (old(self)@.finished || (
                old(self)@.src_done && old(self)@.fault is None && generate_events_of(
                    old(self)@.buffered,
                ) == Seq::<GenerateStreamEventView>::empty())),
            },
    {
        let r = self.inner.pull();
        match r {
            PulledFrame::Frame(f) => {
                let ghost fv = f@;
                let ev = generate_frame_event(f);
                proof {
                    if old(self)@.src_done {
                        lemma_generate_events_unfold(old(self)@.buffered, fv, self@.buffered);
                    } else {
                        assert forall|rest: Seq<u8>|
                            generate_events_of(old(self)@.buffered + rest) == seq![ev@]
                                + generate_events_of(self@.buffered + rest) by {
                            lemma_generate_events_unfold(
                                old(self)@.buffered + rest,
                                fv,
                                self@.buffered + rest,
                            );
                        }
                    }
                }
                Pulled::Event(ev)
            },
            PulledFrame::NeedInput => Pulled::NeedInput,
            PulledFrame::Fault(e) => Pulled::Fault(e),
            PulledFrame::Finished => {
                proof {
                    if !old(self)@.finished {
                        assert(generate_events_of(old(self)@.buffered)
                            =~= Seq::<GenerateStreamEventView>::empty());
                    }
                }
                Pulled::Finished
            },
        }
    }
}

/// Run the whole frame pipeline over a fully known chunked input. The result
/// is a function of the concatenated bytes alone: how the input was split
/// into chunks cannot show in it.
pub fn collect_frames(chunks: &Vec<Vec<u8>>) -> (frames: Vec<Frame>)
    ensures
        frames.deep_view() == frames_of(chunks.deep_view().flatten()),
{
    let ghost total = chunks.deep_view().flatten();
    let mut dec = FrameDecoder::new();
    let mut i: usize = 0;
    proof {
        assert(chunks.deep_view().take(0) =~= Seq::<Seq<u8>>::empty());
        assert(dec@ =~= chunks.deep_view().take(0).flatten());
    }
    while i < chunks.len()
        invariant
            i <= chunks.len(),
            dec.wf(),
            dec@ == chunks.deep_view().take(i as int).flatten(),
        decreases chunks.len() - i,
    {
        dec.feed(chunks[i].as_slice());
        proof {
            Seq::lemma_flatten_push(
                chunks.deep_view().take(i as int),
                chunks.deep_view()[i as int],
            );
            assert(chunks.deep_view().take(i as int).push(chunks.deep_view()[i as int])
                =~= chunks.deep_view().take(i as int + 1));
        }
        i = i + 1;
    }
    proof {
        assert(chunks.deep_view().take(chunks.deep_view().len() as int) =~= chunks.deep_view());
    }
    let mut out: Vec<Frame> = Vec::new();
    proof {
        assert(out.deep_view() =~= Seq::<FrameView>::empty());
        assert(out.deep_view() + frames_of(dec@) =~= frames_of(total));
    }
    loop
        invariant
            dec.wf(),
            out.deep_view() + frames_of(dec@) == frames_of(total),
        ensures
            dec.wf(),
            out.deep_view() + frames_of(dec@) == frames_of(total),
            first_nl(dec@) < 0,
        decreases dec@.len(),
    {
        let ghost out_before = out.deep_view();
        let ghost buf_before = dec@;
        let line = dec.take_line();
        proof {
            assert(buf_before + Seq::<u8>::empty() =~= buf_before);
            assert(dec@ + Seq::<u8>::empty() =~= dec@);
        }
        match line {
            Some(text) => {
                out.push(Frame::Line(text));
                proof {
                    assert(out.deep_view() =~= out_before + seq![FrameView::Line(text@)]);
                    assert(out.deep_view() + frames_of(dec@) =~= frames_of(total));
                }
            },
            None => {
                break;
            },
        }
    }
    let ghost out_before = out.deep_view();
    let residue = dec.take_residue();
    match residue {
        Some(text) => {
            out.push(Frame::Tail(text));
            proof {
                assert(out.deep_view() =~= out_before + seq![FrameView::Tail(text@)]);
                assert(out.deep_view() =~= frames_of(total));
            }
        },
        None => {
            proof {
                assert(frames_of(dec@) =~= Seq::<FrameView>::empty());
                assert(out.deep_view() =~= frames_of(total));
            }
        },
    }
    out
}

/// Run the chat pipeline over a fully known chunked input: decode frames,
/// classify each, and surface the terminal residue as one partial event.
pub fn collect_chat_events(chunks: &Vec<Vec<u8>>) -> (evs: Vec<ChatStreamEvent>)
    ensures
        evs.deep_view() == chat_events_of(chunks.deep_view().flatten()),
{
    let frames = collect_frames(chunks);
    let ghost fvs = frames.deep_view();
    let mut evs: Vec<ChatStreamEvent> = Vec::new();
    let mut i: usize = 0;
    proof {
        assert(evs.deep_view() =~= fvs.take(0).map_values(
            |f: FrameView| chat_event_of_frame(f),
        ));
    }
    while i < frames.len()
        invariant
            i <= frames.len(),
            fvs == frames.deep_view(),
            fvs.len() == frames.len(),
            evs.deep_view() == fvs.take(i as int).map_values(
                |f: FrameView| chat_event_of_frame(f),
            ),
        decreases frames.len() - i,
    {
        let ghost evs_before = evs.deep_view();
        let f = frame_at(&frames, i);
        let ev = chat_frame_event(f);
        evs.push(ev);
        i = i + 1;
        proof {
            assert(evs.deep_view() =~= evs_before + seq![ev@]);
            assert(evs.deep_view() =~= fvs.take(i as int).map_values(
                |f: FrameView| chat_event_of_frame(f),
            ));
        }
    }
    proof {
        assert(fvs.take(fvs.len() as int) =~= fvs);
        assert(evs.deep_view() =~= chat_events_of(chunks.deep_view().flatten()));
    }
    evs
}

/// Run the generation pipeline over a fully known chunked input.
pub fn collect_generate_events(chunks: &Vec<Vec<u8>>) -> (evs: Vec<GenerateStreamEvent>)
    ensures
        evs.deep_view() == generate_events_of(chunks.deep_view().flatten()),
{
    let frames = collect_frames(chunks);
    let ghost fvs = frames.deep_view();
    let mut evs: Vec<GenerateStreamEvent> = Vec::new();
    let mut i: usize = 0;
    proof {
        assert(evs.deep_view() =~= fvs.take(0).map_values(
            |f: FrameView| generate_event_of_frame(f),
        ));
    }
    while i < frames.len()
        invariant
            i <= frames.len(),
            fvs == frames.deep_view(),
            fvs.len() == frames.len(),
            evs.deep_view() == fvs.take(i as int).map_values(
                |f: FrameView| generate_event_of_frame(f),
            ),
        decreases frames.len() - i,
    {
        let ghost evs_before = evs.deep_view();
        let f = frame_at(&frames, i);
        let ev = generate_frame_event(f);
        evs.push(ev);
        i = i + 1;
        proof {
            assert(evs.deep_view() =~= evs_before + seq![ev@]);
            assert(evs.deep_view() =~= fvs.take(i as int).map_values(
                |f: FrameView| generate_event_of_frame(f),
            ));
        }
    }
    proof {
        assert(fvs.take(fvs.len() as int) =~= fvs);
        assert(evs.deep_view() =~= generate_events_of(chunks.deep_view().flatten()));
    }
    evs
}

/// A copy of the frame at one index.
fn frame_at(frames: &Vec<Frame>, i: usize) -> (f: Frame)
    requires
        i < frames.len(),
    ensures
        f@ == frames.deep_view()[i as int],
{
    match &frames[i] {
        Frame::Line(s) => Frame::Line(s.clone()),
        Frame::Tail(s) => Frame::Tail(s.clone()),
    }
}

/// Chunk-boundary independence: two chunkings of the same byte sequence
/// produce the same frames and the same events. The models are functions of
/// the concatenation alone, and the collectors and stream adapters above are
/// proved against those models.
pub proof fn lemma_chunk_boundary_independence(a: Seq<Seq<u8>>, b: Seq<Seq<u8>>)
    requires
        a.flatten() == b.flatten(),
    ensures
        frames_of(a.flatten()) == frames_of(b.flatten()),
        chat_events_of(a.flatten()) == chat_events_of(b.flatten()),
        generate_events_of(a.flatten()) == generate_events_of(b.flatten()),
{
}

/// End of stream: a non-blank residual buffer yields exactly one terminal
/// partial event carrying the residue's trimmed text; a blank residual yields
/// nothing.
pub proof fn lemma_residual_flush(b: Seq<u8>)
    requires
        first_nl(b) < 0,
    ensures
        !is_blank(b) ==> chat_events_of(b) == seq![
            ChatStreamEventView::Partial { partial: frame_text(b), error: None },
        ],
        is_blank(b) ==> chat_events_of(b) == Seq::<ChatStreamEventView>::empty(),
{
    if is_blank(b) {
        assert(chat_events_of(b) =~= Seq::<ChatStreamEventView>::empty());
    } else {
        assert(frames_of(b) == seq![FrameView::Tail(frame_text(b))]);
        assert(chat_events_of(b) =~= seq![
            ChatStreamEventView::Partial { partial: frame_text(b), error: None },
        ]);
    }
}

} // verus!
