//! The two ends of a pseudo-terminal as plain data: the output of a process
//! that has not been looked at yet, and the input that it has not been given.
use vstd::prelude::*;
use crate::browser::parse;
use crate::text;
use crate::browser::parse::strip_ansi;
use crate::text::lines;

verus! {

/// A channel to a process behind a pseudo-terminal.
#[derive(Debug)]
pub struct PtyChannel {
    /// The number by which the application knows the process.
    pub id: u64,
    /// The output that has arrived since it was last drained.
    pub raw: Vec<u8>,
    /// Counts the bytes that have arrived, drained or not.
    pub seq: usize,
    /// Whether the process has ended.
    pub exited: bool,
    /// Whether output has arrived since the last look.
    pub dirty: bool,
    /// What is to be written to the process, in order.
    pub outbox: Vec<String>,
}

/// What a channel holds.
#[verifier::ext_equal]
pub struct PtyView {
    pub id: u64,
    pub raw: Seq<u8>,
    pub seq: usize,
    pub exited: bool,
    pub dirty: bool,
    pub outbox: Seq<Seq<char>>,
}

impl View for PtyChannel {
    type V = PtyView;

    open spec fn view(&self) -> PtyView {
        PtyView {
            id: self.id,
            raw: self.raw@,
            seq: self.seq,
            exited: self.exited,
            dirty: self.dirty,
            outbox: text::texts(self.outbox@),
        }
    }
}

/// The last `n` of a run of bytes.
pub open spec fn last_bytes(s: Seq<u8>, n: nat) -> Seq<u8> {
    if s.len() <= n {
        s
    } else {
        s.skip(s.len() - n)
    }
}

/// The lines of raw output, without escape sequences.
pub open spec fn plain_lines(raw: Seq<u8>) -> Seq<Seq<char>> {
    text::lines_of(text::utf8_lossy(parse::stripped(raw)))
}

impl PtyView {
    /// A channel on which nothing has happened.
    pub open spec fn quiet() -> PtyView {
        PtyView {
            id: 0,
            raw: Seq::empty(),
            seq: 0,
            exited: false,
            dirty: false,
            outbox: Seq::empty(),
        }
    }

    /// The channel after output has arrived. The count of bytes starts over
    /// after the largest number.
    pub open spec fn fed(self, bytes: Seq<u8>) -> PtyView {
        PtyView {
            raw: self.raw + bytes,
            seq: self.seq.wrapping_add(bytes.len() as usize),
            dirty: self.dirty || bytes.len() > 0,
            ..self
        }
    }

    /// The channel after `s` was sent.
    pub open spec fn sent(self, s: Seq<char>) -> PtyView {
        PtyView { outbox: self.outbox.push(s), ..self }
    }

    /// The channel after its output was dropped.
    pub open spec fn drained(self) -> PtyView {
        PtyView { raw: Seq::empty(), ..self }
    }

    /// The channel after its output was dropped but for the last `n` bytes.
    pub open spec fn drained_to(self, n: nat) -> PtyView {
        PtyView { raw: last_bytes(self.raw, n), ..self }
    }

    /// The lines of the output at hand.
    pub open spec fn lines(self) -> Seq<Seq<char>> {
        plain_lines(self.raw)
    }

    /// The channel after a look.
    pub open spec fn looked_at(self) -> PtyView {
        PtyView { dirty: false, ..self }
    }
}

impl PtyChannel {
    /// A channel on which nothing has happened.
    pub fn new() -> (r: PtyChannel)
        ensures
            r@ == PtyView::quiet(),
    {
        let r = PtyChannel {
            id: 0,
            raw: Vec::new(),
            seq: 0,
            exited: false,
            dirty: false,
            outbox: Vec::new(),
        };
        assert(r@ =~= PtyView::quiet());
        r
    }

    /// Takes in output of the process.
    pub fn feed(&mut self, bytes: &[u8])
        ensures
            final(self)@ == old(self)@.fed(bytes@),
    {
        let mut i: usize = 0;
        while i < bytes.len()
            invariant
                i <= bytes@.len(),
                self.raw@ == old(self).raw@ + bytes@.take(i as int),
                self.id == old(self).id,
                self.seq == old(self).seq,
                self.exited == old(self).exited,
                self.dirty == old(self).dirty,
                self.outbox == old(self).outbox,
            decreases bytes@.len() - i,
        {
            self.raw.push(bytes[i]);
            i += 1;
            assert(self.raw@ =~= old(self).raw@ + bytes@.take(i as int));
        }
        assert(bytes@.take(i as int) =~= bytes@);
        self.seq = self.seq.wrapping_add(bytes.len());
        if bytes.len() > 0 {
            self.dirty = true;
        }
        assert(self@ =~= old(self)@.fed(bytes@));
    }

    /// Notes that the process has ended.
    pub fn set_exited(&mut self)
        ensures
            final(self)@ == (PtyView { exited: true, ..old(self)@ }),
    {
        self.exited = true;
    }

    /// Whether the process has ended.
    pub fn process_exited(&self) -> (r: bool)
        ensures
            r == self@.exited,
    {
        self.exited
    }

    /// The last `n` bytes of the output at hand.
    pub fn raw_tail(&self, n: usize) -> (r: Vec<u8>)
        ensures
            r@ == last_bytes(self@.raw, n as nat),
    {
        let from: usize = self.raw.len().saturating_sub(n);
        self.bytes_from(from)
    }

    fn bytes_from(&self, from: usize) -> (r: Vec<u8>)
        requires
            from <= self.raw@.len(),
        ensures
            r@ == self.raw@.skip(from as int),
    {
        let mut r: Vec<u8> = Vec::new();
        let mut i: usize = from;
        while i < self.raw.len()
            invariant
                from <= i <= self.raw@.len(),
                r@ == self.raw@.subrange(from as int, i as int),
            decreases self.raw@.len() - i,
        {
            r.push(self.raw[i]);
            i += 1;
            assert(r@ =~= self.raw@.subrange(from as int, i as int));
        }
        assert(r@ =~= self.raw@.skip(from as int));
        r
    }

    /// The number of bytes of output at hand.
    pub fn raw_len(&self) -> (r: usize)
        ensures
            r == self@.raw.len(),
    {
        self.raw.len()
    }

    /// The number of bytes that have arrived.
    pub fn raw_seq(&self) -> (r: usize)
        ensures
            r == self@.seq,
    {
        self.seq
    }

    /// The lines of the output at hand.
    pub fn raw_lines(&self) -> (r: Vec<String>)
        ensures
            text::texts(r@) == self@.lines(),
    {
        let text = strip_ansi(self.raw.as_slice());
        lines(text.as_str())
    }

    /// Drops the output at hand.
    pub fn drain_raw(&mut self)
        ensures
            final(self)@ == old(self)@.drained(),
    {
        self.raw.clear();
        assert(self@ =~= old(self)@.drained());
    }

    /// Drops the output at hand but for its last `n` bytes.
    pub fn drain_raw_keep(&mut self, n: usize)
        ensures
            final(self)@ == old(self)@.drained_to(n as nat),
    {
        let from: usize = self.raw.len().saturating_sub(n);
        let kept = self.bytes_from(from);
        self.raw = kept;
        assert(self@ =~= old(self)@.drained_to(n as nat));
    }

    /// Sends text to the process.
    pub fn send_str(&mut self, s: &str)
        ensures
            final(self)@ == old(self)@.sent(s@),
    {
        self.outbox.push(s.to_owned());
        assert(self@ =~= old(self)@.sent(s@));
    }

    /// Sends one character to the process.
    pub fn send_char(&mut self, c: char)
        ensures
            final(self)@ == old(self)@.sent(seq![c]),
    {
        let mut s = String::new();
        s.push(c);
        assert(s@ =~= seq![c]);
        self.outbox.push(s);
        assert(self@ =~= old(self)@.sent(seq![c]));
    }

    /// Whether output has arrived since the last look.
    pub fn take_dirty(&mut self) -> (r: bool)
        ensures
            r == old(self)@.dirty,
            final(self)@ == old(self)@.looked_at(),
    {
        let r = self.dirty;
        self.dirty = false;
        r
    }

    /// Takes what is to be written to the process.
    pub fn take_outbox(&mut self) -> (r: Vec<String>)
        ensures
            text::texts(r@) == old(self)@.outbox,
            final(self)@ == (PtyView { outbox: Seq::empty(), ..old(self)@ }),
    {
        let mut r: Vec<String> = Vec::new();
        r.append(&mut self.outbox);
        assert(text::texts(r@) =~= old(self)@.outbox);
        assert(self@ =~= (PtyView { outbox: Seq::empty(), ..old(self)@ }));
        r
    }
}

} // verus!
