//! Line framing: how a stream of bytes, arriving in arbitrary chunks, is cut
//! into lines of text.
//!
//! A line ends at a line feed. A carriage return directly before that line
//! feed belongs to the terminator. Bytes after the last line feed are an
//! unfinished line: they wait for their line feed and are never handed out
//! without it.
use vstd::prelude::*;

verus! {

/// The byte that ends a line.
pub const LINE_FEED: u8 = 10;

/// The byte that, directly before a line feed, is part of the line's end.
pub const CARRIAGE_RETURN: u8 = 13;

/// The position of the first line feed in `bytes`, or `bytes.len()` where
/// there is none.
pub open spec fn line_end(bytes: Seq<u8>) -> int
    decreases bytes.len(),
{
    if bytes.len() == 0 || bytes[0] == LINE_FEED {
        0
    } else {
        1 + line_end(bytes.skip(1))
    }
}

/// Whether `bytes` holds at least one finished line.
pub open spec fn has_line(bytes: Seq<u8>) -> bool {
    0 <= line_end(bytes) < bytes.len()
}

/// A line's content without the carriage return of its terminator.
pub open spec fn trim_carriage_return(line: Seq<u8>) -> Seq<u8> {
    if line.len() > 0 && line.last() == CARRIAGE_RETURN {
        line.drop_last()
    } else {
        line
    }
}

/// The content of the first finished line of `bytes`.
pub open spec fn first_line(bytes: Seq<u8>) -> Seq<u8>
    recommends
        has_line(bytes),
{
    trim_carriage_return(bytes.take(line_end(bytes)))
}

/// What follows the first finished line of `bytes`.
pub open spec fn after_first_line(bytes: Seq<u8>) -> Seq<u8>
    recommends
        has_line(bytes),
{
    bytes.skip(line_end(bytes) + 1)
}

/// Every finished line of `bytes`, in order.
pub open spec fn complete_lines(bytes: Seq<u8>) -> Seq<Seq<u8>>
    decreases bytes.len(),
{
    if has_line(bytes) {
        seq![first_line(bytes)] + complete_lines(after_first_line(bytes))
    } else {
        Seq::empty()
    }
}

/// The unfinished line at the end of `bytes`: what follows its last line feed.
pub open spec fn unfinished(bytes: Seq<u8>) -> Seq<u8>
    decreases bytes.len(),
{
    if has_line(bytes) {
        unfinished(after_first_line(bytes))
    } else {
        bytes
    }
}

/// `line_end` is the least position that holds a line feed.
pub proof fn lemma_line_end(bytes: Seq<u8>)
    ensures
        0 <= line_end(bytes) <= bytes.len(),
        forall|j: int| 0 <= j < line_end(bytes) ==> bytes[j] != LINE_FEED,
        has_line(bytes) ==> bytes[line_end(bytes)] == LINE_FEED,
    decreases bytes.len(),
{
    if bytes.len() == 0 || bytes[0] == LINE_FEED {
    } else {
        let rest = bytes.skip(1);
        lemma_line_end(rest);
        assert forall|j: int| 0 <= j < line_end(bytes) implies bytes[j] != LINE_FEED by {
            if j > 0 {
                assert(bytes[j] == rest[j - 1]);
            }
        }
        if has_line(bytes) {
            assert(bytes[line_end(bytes)] == rest[line_end(rest)]);
        }
    }
}

/// A position that holds the first line feed, or the length where no byte is
/// one, is `line_end`.
pub proof fn lemma_line_end_is(bytes: Seq<u8>, i: int)
    requires
        0 <= i <= bytes.len(),
        forall|j: int| 0 <= j < i ==> bytes[j] != LINE_FEED,
        i < bytes.len() ==> bytes[i] == LINE_FEED,
    ensures
        line_end(bytes) == i,
{
    lemma_line_end(bytes);
    let e = line_end(bytes);
    if e < i {
        assert(bytes[e] == LINE_FEED);
    } else if i < e {
        assert(bytes[i] != LINE_FEED);
    }
}

/// Bytes that arrive after a finished line leave that line as it is.
pub proof fn lemma_first_line_append(a: Seq<u8>, b: Seq<u8>)
    requires
        has_line(a),
    ensures
        has_line(a + b),
        line_end(a + b) == line_end(a),
        first_line(a + b) == first_line(a),
        after_first_line(a + b) == after_first_line(a) + b,
{
    lemma_line_end(a);
    let e = line_end(a);
    assert forall|j: int| 0 <= j < e implies (a + b)[j] != LINE_FEED by {
        assert((a + b)[j] == a[j]);
    }
    assert((a + b)[e] == a[e]);
    lemma_line_end_is(a + b, e);
    assert((a + b).take(e) =~= a.take(e));
    assert((a + b).skip(e + 1) =~= a.skip(e + 1) + b);
}

/// Framing does not depend on how the stream was cut into chunks: the lines of
/// `a` followed by `b` are the lines of `a`, then the lines of what `a` left
/// unfinished followed by `b`.
pub proof fn lemma_lines_append(a: Seq<u8>, b: Seq<u8>)
    ensures
        complete_lines(a + b) == complete_lines(a) + complete_lines(unfinished(a) + b),
        unfinished(a + b) == unfinished(unfinished(a) + b),
    decreases a.len(),
{
    if has_line(a) {
        lemma_first_line_append(a, b);
        lemma_lines_append(after_first_line(a), b);
        assert(complete_lines(a + b) =~= complete_lines(a) + complete_lines(unfinished(a) + b));
    } else {
        assert(complete_lines(a) + complete_lines(a + b) =~= complete_lines(a + b));
    }
}

/// Bytes without a line feed hold no line: all of them are unfinished.
pub proof fn lemma_no_line_feed_no_line(bytes: Seq<u8>)
    requires
        forall|j: int| 0 <= j < bytes.len() ==> bytes[j] != LINE_FEED,
    ensures
        !has_line(bytes),
        complete_lines(bytes) == Seq::<Seq<u8>>::empty(),
        unfinished(bytes) == bytes,
{
    lemma_line_end_is(bytes, bytes.len() as int);
}

/// What is left unfinished holds no line feed.
pub proof fn lemma_unfinished_has_no_line(bytes: Seq<u8>)
    ensures
        !has_line(unfinished(bytes)),
        forall|j: int| 0 <= j < unfinished(bytes).len() ==> unfinished(bytes)[j] != LINE_FEED,
    decreases bytes.len(),
{
    if has_line(bytes) {
        lemma_unfinished_has_no_line(after_first_line(bytes));
    } else {
        lemma_line_end(bytes);
    }
}

/// No line holds a line feed.
pub proof fn lemma_lines_hold_no_line_feed(bytes: Seq<u8>, k: int)
    requires
        0 <= k < complete_lines(bytes).len(),
    ensures
        forall|j: int|
            0 <= j < complete_lines(bytes)[k].len() ==> complete_lines(bytes)[k][j] != LINE_FEED,
    decreases bytes.len(),
{
    lemma_line_end(bytes);
    if k == 0 {
        let whole = bytes.take(line_end(bytes));
        assert forall|j: int| 0 <= j < first_line(bytes).len() implies first_line(bytes)[j]
            != LINE_FEED by {
            assert(first_line(bytes)[j] == whole[j]);
        }
    } else {
        lemma_lines_hold_no_line_feed(after_first_line(bytes), k - 1);
    }
}

/// A line that holds no line feed and does not end in a carriage return,
/// written with a line feed after it, is read back as exactly that line, with
/// nothing left over.
pub proof fn lemma_written_line_reads_back(line: Seq<u8>)
    requires
        forall|j: int| 0 <= j < line.len() ==> line[j] != LINE_FEED,
        line.len() > 0 ==> line.last() != CARRIAGE_RETURN,
    ensures
        complete_lines(line.push(LINE_FEED)) == seq![line],
        unfinished(line.push(LINE_FEED)) == Seq::<u8>::empty(),
{
    let wire = line.push(LINE_FEED);
    lemma_line_end_is(wire, line.len() as int);
    assert(wire.take(line.len() as int) =~= line);
    let nothing = Seq::<u8>::empty();
    assert(after_first_line(wire) =~= nothing);
    assert(!has_line(nothing));
    assert(complete_lines(nothing) =~= Seq::<Seq<u8>>::empty());
    assert(unfinished(nothing) == nothing);
    assert(complete_lines(wire) =~= seq![line]);
}

/// The bytes of a stream that were read and not yet handed out as lines.
pub struct LineBuffer {
    pending: Vec<u8>,
}

impl View for LineBuffer {
    type V = Seq<u8>;

    closed spec fn view(&self) -> Seq<u8> {
        self.pending@
    }
}

impl LineBuffer {
    /// A buffer that holds nothing.
    pub fn new() -> (buffer: LineBuffer)
        ensures
            buffer@ == Seq::<u8>::empty(),
    {
        LineBuffer { pending: Vec::new() }
    }

    /// Takes in the next bytes of the stream.
    pub fn push(&mut self, chunk: &[u8])
        ensures
            final(self)@ == old(self)@ + chunk@,
    {
        self.pending.extend_from_slice(chunk);
        assert(self.pending@ =~= old(self).pending@ + chunk@);
    }

    /// Forgets everything that is buffered, an unfinished line included.
    pub fn clear(&mut self)
        ensures
            final(self)@ == Seq::<u8>::empty(),
    {
        self.pending.clear();
    }

    /// Takes the first finished line out of the buffer, if there is one. An
    /// unfinished line stays where it is.
    pub fn next_line(&mut self) -> (line: Option<Vec<u8>>)
        ensures
            match line {
                Some(content) => has_line(old(self)@) && content@ == first_line(old(self)@)
                    && final(self)@ == after_first_line(old(self)@),
                None => !has_line(old(self)@) && final(self)@ == old(self)@,
            },
    {
        let end = self.scan();
        if end >= self.pending.len() {
            return None;
        }
        let mut rest = self.pending.split_off(end + 1);
        std::mem::swap(&mut self.pending, &mut rest);
        let mut content = rest;
        content.pop();
        assert(content@ =~= old(self)@.take(end as int));
        if content.len() > 0 && content[content.len() - 1] == CARRIAGE_RETURN {
            content.pop();
            assert(content@ =~= old(self)@.take(end as int).drop_last());
        }
        Some(content)
    }

    /// Finds the first line feed.
    fn scan(&self) -> (end: usize)
        ensures
            end == line_end(self@),
            end <= self@.len(),
    {
        let mut i: usize = 0;
        while i < self.pending.len() && self.pending[i] != LINE_FEED
            invariant
                0 <= i <= self.pending.len(),
                forall|j: int| 0 <= j < i ==> self.pending@[j] != LINE_FEED,
            decreases self.pending.len() - i,
        {
            i += 1;
        }
        proof {
            lemma_line_end_is(self.pending@, i as int);
        }
        i
    }
}

} // verus!
