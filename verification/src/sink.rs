//! Passing the worker's error stream on to the caller's channel.
//!
//! The caller supplies the sending end of a channel of lines. While a worker
//! runs, one forwarder reads its error stream and publishes each finished
//! line. Publishing is best effort: a channel that nobody reads any more
//! refuses the line, and the line is dropped.
use crate::lines::{after_first_line, complete_lines, first_line, has_line, unfinished, LineBuffer};
use crate::text::{lemma_rest_holds_no_line, next_text, text_lines, NextText, TextLines};
use vstd::prelude::*;
use vstd::utf8::*;

verus! {

/// `Sender` of crossbeam-channel, the sending end of a channel. It is
/// carried and called, and nothing inside it is looked at.
#[verifier::external_type_specification]
#[verifier::external_body]
#[verifier::reject_recursive_types(T)]
pub struct ExSender<T>(crossbeam_channel::Sender<T>);

/// `Sender::send` of crossbeam-channel. Nothing is claimed of its result:
/// whether the line is taken depends on whether a receiver is still there.
/// On a bounded channel that is full the call waits for room.
#[verifier::external_body]
fn channel_send(sender: &crossbeam_channel::Sender<String>, line: String) -> (accepted: bool) {
    sender.send(line).is_ok()
}

/// The caller's channel for the worker's diagnostics, with a record of what
/// was published to it. Whoever holds it mutably is the only one publishing.
pub struct StderrSink {
    sender: crossbeam_channel::Sender<String>,
    offered: Ghost<Seq<Seq<char>>>,
}

impl StderrSink {
    /// The sending end that lines are published to: the one the sink was
    /// made with, for as long as the sink lives.
    pub closed spec fn sender(&self) -> crossbeam_channel::Sender<String> {
        self.sender
    }

    /// Every line that was published through this sink, in order.
    pub closed spec fn offered(&self) -> Seq<Seq<char>> {
        self.offered@
    }

    /// Wraps the sending end of the caller's channel.
    pub fn new(sender: crossbeam_channel::Sender<String>) -> (sink: StderrSink)
        ensures
            sink.sender() == sender,
            sink.offered() == Seq::<Seq<char>>::empty(),
    {
        StderrSink { sender, offered: Ghost(Seq::empty()) }
    }

    /// Publishes one line. Returns whether the channel took it; a refusal is
    /// no failure of the caller's.
    pub fn publish(&mut self, line: String) -> (accepted: bool)
        ensures
            final(self).sender() == old(self).sender(),
            final(self).offered() == old(self).offered().push(line@),
    {
        let ghost text = line@;
        let accepted = channel_send(&self.sender, line);
        proof {
            self.offered@ = self.offered@.push(text);
        }
        accepted
    }
}

/// Reads one worker's error stream: frames it and publishes its lines.
pub struct StderrForwarder {
    buffer: LineBuffer,
}

impl View for StderrForwarder {
    type V = Seq<u8>;

    /// The bytes read that are not part of a finished line yet.
    closed spec fn view(&self) -> Seq<u8> {
        self.buffer@
    }
}

impl StderrForwarder {
    /// A forwarder for a worker that has written nothing yet.
    pub fn new() -> (forwarder: StderrForwarder)
        ensures
            forwarder@ == Seq::<u8>::empty(),
    {
        StderrForwarder { buffer: LineBuffer::new() }
    }

    /// Takes in the next bytes of the error stream and publishes every line
    /// they finish, in order. Returns whether forwarding goes on: it ends
    /// with the first line that is not UTF-8, which is dropped.
    pub fn forward(&mut self, sink: &mut StderrSink, chunk: &[u8]) -> (more: bool)
        ensures
            final(sink).sender() == old(sink).sender(),
            final(sink).offered() == old(sink).offered() + text_lines(old(self)@ + chunk@).lines,
            final(self)@ == text_lines(old(self)@ + chunk@).rest,
            more == text_lines(old(self)@ + chunk@).clean,
    {
        self.buffer.push(chunk);
        let ghost all = text_lines(self.buffer@);
        loop
            invariant
                sink.sender() == old(sink).sender(),
                all == text_lines(old(self)@ + chunk@),
                sink.offered() + text_lines(self.buffer@).lines =~= old(sink).offered()
                    + all.lines,
                text_lines(self.buffer@).rest == all.rest,
                text_lines(self.buffer@).clean == all.clean,
            decreases self.buffer@.len(),
        {
            let ghost before = sink.offered();
            match next_text(&mut self.buffer) {
                NextText::Pending => {
                    assert(sink.offered() + Seq::<Seq<char>>::empty() =~= sink.offered());
                    return true;
                },
                NextText::Undecodable => {
                    assert(sink.offered() + Seq::<Seq<char>>::empty() =~= sink.offered());
                    return false;
                },
                NextText::Line(line) => {
                    let ghost text = line@;
                    sink.publish(line);
                    assert(before.push(text) + text_lines(self.buffer@).lines =~= before + (
                    seq![text] + text_lines(self.buffer@).lines));
                },
            }
        }
    }
}

/// Bytes that arrive later do not change what earlier bytes yielded: the
/// text of `a` followed by `b` is the text of `a`, then the text of what `a`
/// left buffered followed by `b`. Once a line of `a` was not UTF-8, nothing
/// further is decoded.
pub proof fn lemma_text_lines_append(a: Seq<u8>, b: Seq<u8>)
    ensures
        text_lines(a).clean ==> {
            &&& text_lines(a + b).lines == text_lines(a).lines + text_lines(
                text_lines(a).rest + b,
            ).lines
            &&& text_lines(a + b).rest == text_lines(text_lines(a).rest + b).rest
            &&& text_lines(a + b).clean == text_lines(text_lines(a).rest + b).clean
        },
        !text_lines(a).clean ==> {
            &&& text_lines(a + b).lines == text_lines(a).lines
            &&& text_lines(a + b).rest == text_lines(a).rest + b
            &&& !text_lines(a + b).clean
        },
    decreases a.len(),
{
    if has_line(a) {
        crate::lines::lemma_first_line_append(a, b);
        if valid_utf8(first_line(a)) {
            lemma_text_lines_append(after_first_line(a), b);
            let head = seq![decode_utf8(first_line(a))];
            let tail = text_lines(after_first_line(a));
            if tail.clean {
                assert(head + (tail.lines + text_lines(tail.rest + b).lines) =~= (head
                    + tail.lines) + text_lines(tail.rest + b).lines);
            }
        }
    } else {
        assert(text_lines(a).lines + text_lines(a + b).lines =~= text_lines(a + b).lines);
    }
}

/// Where every finished line of `bytes` is UTF-8, the text is every finished
/// line, decoded, in the order of the stream, and the unfinished line stays
/// buffered.
pub proof fn lemma_text_lines_clean(bytes: Seq<u8>)
    requires
        text_lines(bytes).clean,
    ensures
        text_lines(bytes).lines.len() == complete_lines(bytes).len(),
        forall|k: int|
            0 <= k < complete_lines(bytes).len() ==> valid_utf8(#[trigger] complete_lines(bytes)[k])
                && text_lines(bytes).lines[k] == decode_utf8(complete_lines(bytes)[k]),
        text_lines(bytes).rest == unfinished(bytes),
    decreases bytes.len(),
{
    if has_line(bytes) {
        let later = after_first_line(bytes);
        lemma_text_lines_clean(later);
        assert forall|k: int| 0 <= k < complete_lines(bytes).len() implies valid_utf8(
            #[trigger] complete_lines(bytes)[k],
        ) && text_lines(bytes).lines[k] == decode_utf8(complete_lines(bytes)[k]) by {
            if k > 0 {
                assert(complete_lines(bytes)[k] == complete_lines(later)[k - 1]);
                assert(text_lines(bytes).lines[k] == text_lines(later).lines[k - 1]);
            }
        }
    }
}

/// The bytes of a stream that was read in these pieces.
pub open spec fn stream(chunks: Seq<Seq<u8>>) -> Seq<u8>
    decreases chunks.len(),
{
    if chunks.len() == 0 {
        Seq::empty()
    } else {
        chunks[0] + stream(chunks.skip(1))
    }
}

/// What a forwarder that holds `buffer` publishes when it takes in `chunks`
/// one after the other and ends with the first that yields a line that is
/// not UTF-8.
pub open spec fn relayed(buffer: Seq<u8>, chunks: Seq<Seq<u8>>) -> TextLines
    decreases chunks.len(),
{
    if chunks.len() == 0 {
        TextLines { lines: Seq::empty(), rest: buffer, clean: true }
    } else {
        let first = text_lines(buffer + chunks[0]);
        if first.clean {
            let later = relayed(first.rest, chunks.skip(1));
            TextLines { lines: first.lines + later.lines, rest: later.rest, clean: later.clean }
        } else {
            first
        }
    }
}

/// What bytes without a finished line leave buffered is those bytes.
proof fn lemma_text_of_no_line(bytes: Seq<u8>)
    requires
        !has_line(bytes),
    ensures
        text_lines(bytes) == (TextLines { lines: Seq::empty(), rest: bytes, clean: true }),
{
}

/// Nothing of the error stream is lost or reordered on its way to the sink.
/// A forwarder that starts without a finished line in its buffer and takes
/// in a stream piece by piece publishes what the whole stream holds: its
/// finished lines, decoded, in the order of the stream, up to the first one
/// that is not UTF-8.
pub proof fn lemma_whole_stream_is_forwarded(buffer: Seq<u8>, chunks: Seq<Seq<u8>>)
    requires
        !has_line(buffer),
    ensures
        relayed(buffer, chunks).lines == text_lines(buffer + stream(chunks)).lines,
        relayed(buffer, chunks).clean == text_lines(buffer + stream(chunks)).clean,
        relayed(buffer, chunks).clean ==> relayed(buffer, chunks).rest == text_lines(
            buffer + stream(chunks),
        ).rest,
    decreases chunks.len(),
{
    if chunks.len() == 0 {
        assert(buffer + stream(chunks) =~= buffer);
        lemma_text_of_no_line(buffer);
    } else {
        let taken = buffer + chunks[0];
        let later = stream(chunks.skip(1));
        let first = text_lines(taken);
        assert(buffer + stream(chunks) =~= taken + later);
        lemma_text_lines_append(taken, later);
        if first.clean {
            lemma_rest_holds_no_line(taken);
            lemma_whole_stream_is_forwarded(first.rest, chunks.skip(1));
        }
    }
}

} // verus!
