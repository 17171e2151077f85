//! Turning the output of a running command into log lines: bytes are cut
//! into lines at `'\n'` and `'\r'`, overlong lines are cut after 16384
//! bytes, and each line is decoded and labelled by the stream it came from.
use vstd::prelude::*;

verus! {

broadcast use vstd::string::group_string_axioms;

/// The longest run of bytes kept before it is sent as a line of its own.
pub const MAX_PENDING: usize = 16_384;

/// Whether a byte ends a line.
pub open spec fn is_break(b: u8) -> bool {
    b == 10 || b == 13
}

/// One byte of input: the bytes pending afterwards, and the line it
/// completes, if any.
pub open spec fn split_step(pending: Seq<u8>, b: u8) -> (Seq<u8>, Option<Seq<u8>>) {
    if is_break(b) {
        if pending.len() > 0 {
            (Seq::<u8>::empty(), Some(pending))
        } else {
            (Seq::<u8>::empty(), None)
        }
    } else {
        let p = pending.push(b);
        if p.len() > MAX_PENDING {
            (Seq::<u8>::empty(), Some(p))
        } else {
            (p, None)
        }
    }
}

/// A run of bytes: the bytes pending afterwards and the lines completed,
/// in order.
pub open spec fn split_run(pending: Seq<u8>, bytes: Seq<u8>) -> (Seq<u8>, Seq<Seq<u8>>)
    decreases bytes.len(),
{
    if bytes.len() == 0 {
        (pending, seq![])
    } else {
        let (p, l) = split_run(pending, bytes.drop_last());
        let (q, out) = split_step(p, bytes.last());
        match out {
            Some(line) => (q, l.push(line)),
            None => (q, l),
        }
    }
}

/// The bytes of a run that are not line breaks.
pub open spec fn kept_bytes(bytes: Seq<u8>) -> Seq<u8>
    decreases bytes.len(),
{
    if bytes.len() == 0 {
        seq![]
    } else if is_break(bytes.last()) {
        kept_bytes(bytes.drop_last())
    } else {
        kept_bytes(bytes.drop_last()).push(bytes.last())
    }
}

/// All the lines of a list, one after the other.
pub open spec fn joined(lines: Seq<Seq<u8>>) -> Seq<u8>
    decreases lines.len(),
{
    if lines.len() == 0 {
        seq![]
    } else {
        joined(lines.drop_last()) + lines.last()
    }
}

/// A line as it is sent: not empty, without line breaks, and at most one
/// byte over the limit.
pub open spec fn good_line(line: Seq<u8>) -> bool {
    &&& line.len() > 0
    &&& line.len() <= MAX_PENDING + 1
    &&& forall|i: int| 0 <= i < line.len() ==> !is_break(#[trigger] line[i])
}

/// Bytes waiting to become a line: within the limit and without breaks.
pub open spec fn good_pending(p: Seq<u8>) -> bool {
    &&& p.len() <= MAX_PENDING
    &&& forall|i: int| 0 <= i < p.len() ==> !is_break(#[trigger] p[i])
}

/// Cuts a command's output into lines as it arrives.
pub struct LineSplitter {
    pending: Vec<u8>,
}

impl View for LineSplitter {
    type V = Seq<u8>;

    closed spec fn view(&self) -> Seq<u8> {
        self.pending@
    }
}

impl LineSplitter {
    /// The pending bytes stay within the limit.
    #[verifier::type_invariant]
    closed spec fn within_limit(&self) -> bool {
        self.pending@.len() <= MAX_PENDING
    }

    /// A splitter with nothing pending.
    pub fn new() -> (r: LineSplitter)
        ensures
            r@ == Seq::<u8>::empty(),
    {
        LineSplitter { pending: Vec::new() }
    }

    /// Takes in one byte, and gives the line it completes, if any.
    pub fn push(&mut self, b: u8) -> (r: Option<Vec<u8>>)
        ensures
            final(self)@ == split_step(old(self)@, b).0,
            match r {
                Some(l) => split_step(old(self)@, b).1 == Some(l@),
                None => split_step(old(self)@, b).1 is None,
            },
            final(self)@.len() <= MAX_PENDING,
    {
        proof {
            use_type_invariant(&*self);
        }
        if b == 10 || b == 13 {
            if self.pending.len() > 0 {
                let mut line: Vec<u8> = Vec::new();
                std::mem::swap(&mut line, &mut self.pending);
                Some(line)
            } else {
                None
            }
        } else if self.pending.len() == MAX_PENDING {
            let mut line: Vec<u8> = Vec::new();
            std::mem::swap(&mut line, &mut self.pending);
            line.push(b);
            Some(line)
        } else {
            let mut p: Vec<u8> = Vec::new();
            std::mem::swap(&mut p, &mut self.pending);
            p.push(b);
            self.pending = p;
            None
        }
    }

    /// Takes in a run of bytes, and gives the lines it completes, in order.
    pub fn feed(&mut self, bytes: &[u8]) -> (r: Vec<Vec<u8>>)
        ensures
            (final(self)@, r@.map_values(|l: Vec<u8>| l@)) == split_run(old(self)@, bytes@),
            final(self)@.len() <= MAX_PENDING,
    {
        proof {
            use_type_invariant(&*self);
        }
        let ghost start = self@;
        let mut out: Vec<Vec<u8>> = Vec::new();
        let mut i: usize = 0;
        assert(bytes@.take(0) =~= Seq::<u8>::empty());
        while i < bytes.len()
            invariant
                i <= bytes.len(),
                self@.len() <= MAX_PENDING,
                (self@, out@.map_values(|l: Vec<u8>| l@)) == split_run(start, bytes@.take(i as int)),
            decreases bytes.len() - i,
        {
            let ghost before = out@.map_values(|l: Vec<u8>| l@);
            assert(bytes@.take(i + 1).drop_last() =~= bytes@.take(i as int));
            assert(bytes@.take(i + 1).last() == bytes@[i as int]);
            match self.push(bytes[i]) {
                Some(line) => {
                    let ghost lv = line@;
                    out.push(line);
                    assert(out@.map_values(|l: Vec<u8>| l@) =~= before.push(lv));
                },
                None => {},
            }
            i += 1;
        }
        assert(bytes@.take(bytes.len() as int) =~= bytes@);
        out
    }

    /// The bytes still pending when the output ends, as a last line when
    /// there are any.
    pub fn finish(self) -> (r: Option<Vec<u8>>)
        ensures
            match r {
                Some(l) => l@ == self@ && self@.len() > 0,
                None => self@.len() == 0,
            },
    {
        if self.pending.len() > 0 {
            Some(self.pending)
        } else {
            None
        }
    }
}

/// A step keeps the pending bytes well formed and sends only good lines.
pub proof fn lemma_step_shapes(pending: Seq<u8>, b: u8)
    requires
        good_pending(pending),
    ensures
        good_pending(split_step(pending, b).0),
        split_step(pending, b).1 matches Some(l) ==> good_line(l),
        split_step(pending, b).1 matches Some(l) ==> split_step(pending, b).0.len() == 0,
{
    if !is_break(b) {
        let p = pending.push(b);
        assert forall|i: int| 0 <= i < p.len() implies !is_break(#[trigger] p[i]) by {
            if i < pending.len() {
                assert(p[i] == pending[i]);
            }
        }
    }
}

/// No byte is lost or reordered: the lines sent, one after the other,
/// followed by the bytes still pending, are the bytes that were pending
/// before followed by the new bytes without their line breaks; every line
/// sent is non-empty, free of line breaks and at most one byte over the
/// limit, and the pending bytes stay within it.
pub proof fn law_lines_keep_every_byte(pending: Seq<u8>, bytes: Seq<u8>)
    requires
        good_pending(pending),
    ensures
        joined(split_run(pending, bytes).1) + split_run(pending, bytes).0 == pending + kept_bytes(
            bytes,
        ),
        good_pending(split_run(pending, bytes).0),
        forall|k: int|
            0 <= k < split_run(pending, bytes).1.len() ==> good_line(
                #[trigger] split_run(pending, bytes).1[k],
            ),
    decreases bytes.len(),
{
    if bytes.len() > 0 {
        let rest = bytes.drop_last();
        let b = bytes.last();
        law_lines_keep_every_byte(pending, rest);
        let (p, l) = split_run(pending, rest);
        lemma_step_shapes(p, b);
        let (q, out) = split_step(p, b);
        match out {
            Some(line) => {
                assert(l.push(line).drop_last() =~= l);
                if is_break(b) {
                    assert(joined(l.push(line)) + q =~= joined(l) + p);
                } else {
                    assert(joined(l.push(line)) + q =~= joined(l) + p.push(b));
                    assert(pending + kept_bytes(bytes) =~= (pending + kept_bytes(rest)).push(b));
                }
                assert forall|k: int| 0 <= k < l.push(line).len() implies good_line(
                    #[trigger] l.push(line)[k],
                ) by {
                    if k < l.len() {
                        assert(l.push(line)[k] == l[k]);
                    }
                }
            },
            None => {
                if !is_break(b) {
                    assert(joined(l) + q =~= (joined(l) + p).push(b));
                    assert(pending + kept_bytes(bytes) =~= (pending + kept_bytes(rest)).push(b));
                }
            },
        }
    } else {
        assert(joined(Seq::<Seq<u8>>::empty()) + pending =~= pending + kept_bytes(bytes));
    }
}

/// The text of the bytes, invalid UTF-8 sequences replaced with U+FFFD, as
/// `String::from_utf8_lossy` gives it.
pub uninterp spec fn utf8_lossy(bytes: Seq<u8>) -> Seq<char>;

/// `String::from_utf8_lossy`, as an owned text: the result is `utf8_lossy`
/// of the bytes; the decoding and replacement rules are not written out.
#[verifier::external_body]
fn lossy_text(bytes: &[u8]) -> (r: String)
    ensures
        r@ == utf8_lossy(bytes@),
{
    String::from_utf8_lossy(bytes).to_string()
}

/// The log line of a line of output: its text behind the stream's label
/// (`""` for standard output, `"[stderr] "` for standard error).
pub fn output_line(from_stderr: bool, line: &[u8]) -> (r: String)
    ensures
        r@ == (if from_stderr {
            "[stderr] "@
        } else {
            ""@
        }) + utf8_lossy(line@),
{
    let text = lossy_text(line);
    if from_stderr {
        crate::text::concat2("[stderr] ", text.as_str())
    } else {
        proof {
            reveal_strlit("");
        }
        assert(""@ + text@ =~= text@);
        text
    }
}

/// The size in bytes up to which a command's output is kept for inspection.
pub const CAPTURE_LIMIT: usize = 120_000;

/// Keeps a command's output lines, one per line, as long as less than
/// 120000 bytes (in UTF-8) were kept.
pub fn capture_line(buffer: &mut String, line: &str)
    ensures
        if (vstd::utf8::encode_utf8(old(buffer)@).len() as usize) < CAPTURE_LIMIT {
            final(buffer)@ == old(buffer)@ + line@ + "\n"@
        } else {
            final(buffer)@ == old(buffer)@
        },
{
    if buffer.as_str().len() < CAPTURE_LIMIT {
        buffer.append(line);
        buffer.append("\n");
    }
}

} // verus!
