use vstd::prelude::*;

verus! {

/// The line terminator.
pub const NEWLINE: u8 = 10;

/// The complete lines of `s`, without their terminators.
pub open spec fn lines_of(s: Seq<u8>) -> Seq<Seq<u8>>
    decreases s.len(),
{
    if s.len() == 0 {
        Seq::empty()
    } else if s.last() == NEWLINE {
        lines_of(s.drop_last()).push(pending_of(s.drop_last()))
    } else {
        lines_of(s.drop_last())
    }
}

/// What follows the last terminator of `s`.
pub open spec fn pending_of(s: Seq<u8>) -> Seq<u8>
    decreases s.len(),
{
    if s.len() == 0 {
        Seq::empty()
    } else if s.last() == NEWLINE {
        Seq::empty()
    } else {
        pending_of(s.drop_last()).push(s.last())
    }
}

/// A text without terminator has no complete line and is all pending.
pub proof fn lemma_no_newline(s: Seq<u8>)
    requires
        !s.contains(NEWLINE),
    ensures
        lines_of(s) == Seq::<Seq<u8>>::empty(),
        pending_of(s) == s,
    decreases s.len(),
{
    if s.len() > 0 {
        assert(!s.drop_last().contains(NEWLINE)) by {
            if s.drop_last().contains(NEWLINE) {
                let j = choose|j: int| 0 <= j < s.drop_last().len() && s.drop_last()[j] == NEWLINE;
                assert(s[j] == NEWLINE);
            }
        }
        lemma_no_newline(s.drop_last());
        assert(s.last() != NEWLINE) by {
            assert(s[s.len() - 1] == s.last());
        }
        assert(s.drop_last().push(s.last()) =~= s);
    }
}

/// What follows the last terminator holds no terminator.
pub proof fn lemma_pending_has_no_newline(s: Seq<u8>)
    ensures
        !pending_of(s).contains(NEWLINE),
    decreases s.len(),
{
    if s.len() > 0 {
        lemma_pending_has_no_newline(s.drop_last());
        if s.last() != NEWLINE {
            let p = pending_of(s.drop_last());
            assert forall|j: int| 0 <= j < p.push(s.last()).len() implies p.push(s.last())[j] != NEWLINE by {
                if j < p.len() {
                    assert(!p.contains(NEWLINE));
                    assert(p[j] != NEWLINE) by {
                        if p[j] == NEWLINE {
                            assert(p.contains(p[j]));
                        }
                    }
                }
            }
        }
    }
}

/// Splitting text in two: the lines of `x + y` are those of `x` followed by
/// those of what `x` left pending followed by `y`.
pub proof fn lemma_lines_append(x: Seq<u8>, y: Seq<u8>)
    ensures
        lines_of(x + y) == lines_of(x) + lines_of(pending_of(x) + y),
        pending_of(x + y) == pending_of(pending_of(x) + y),
    decreases y.len(),
{
    let p = pending_of(x);
    if y.len() == 0 {
        assert(x + y =~= x);
        assert(p + y =~= p);
        lemma_pending_has_no_newline(x);
        lemma_no_newline(p);
        assert(lines_of(x) + Seq::<Seq<u8>>::empty() =~= lines_of(x));
    } else {
        let y0 = y.drop_last();
        lemma_lines_append(x, y0);
        assert((x + y).drop_last() =~= x + y0);
        assert((x + y).last() == y.last());
        assert((p + y).drop_last() =~= p + y0);
        assert((p + y).last() == y.last());
        if y.last() == NEWLINE {
            assert(lines_of(x) + lines_of(p + y0).push(pending_of(p + y0))
                =~= (lines_of(x) + lines_of(p + y0)).push(pending_of(p + y0)));
        }
    }
}

/// Line buffering across calls: writing `a` and then `b` hands out the same
/// lines, in the same order, and keeps the same pending bytes as writing
/// `a + b` at once. A line is never cut where a write ended.
pub proof fn lemma_split_writes_match_single_write(pending: Seq<u8>, a: Seq<u8>, b: Seq<u8>)
    ensures
        lines_of(pending + a) + lines_of(pending_of(pending + a) + b) == lines_of(pending + (a + b)),
        pending_of(pending_of(pending + a) + b) == pending_of(pending + (a + b)),
{
    lemma_lines_append(pending + a, b);
    assert(pending + a + b =~= pending + (a + b));
}

/// Splits written bytes into lines for a message-per-call log sink: bytes
/// are held until a terminator arrives, and each complete line is handed
/// out whole, without its terminator.
pub struct ToLogWriter {
    buffer: Vec<u8>,
}

impl View for ToLogWriter {
    type V = Seq<u8>;

    /// The bytes of the line begun and not yet terminated.
    closed spec fn view(&self) -> Seq<u8> {
        self.buffer@
    }
}

impl ToLogWriter {
    pub open spec fn wf(&self) -> bool {
        !self@.contains(NEWLINE)
    }

    pub fn new() -> (r: ToLogWriter)
        ensures
            r.wf(),
            r@ == Seq::<u8>::empty(),
    {
        ToLogWriter { buffer: Vec::new() }
    }

    /// Takes `buf` and returns the lines it completes, oldest first; what
    /// follows the last terminator is kept for the next call.
    pub fn write(&mut self, buf: &[u8]) -> (lines: Vec<Vec<u8>>)
        requires
            old(self).wf(),
        ensures
            final(self).wf(),
            final(self)@ == pending_of(old(self)@ + buf@),
            lines@.len() == lines_of(old(self)@ + buf@).len(),
            forall|i: int| 0 <= i < lines@.len() ==> #[trigger] lines@[i]@ == lines_of(old(self)@ + buf@)[i],
    {
        let ghost start = self@;
        let mut lines: Vec<Vec<u8>> = Vec::new();
        proof {
            lemma_no_newline(start);
            assert(start + buf@.take(0) =~= start);
        }
        let mut i: usize = 0;
        while i < buf.len()
            invariant
                0 <= i <= buf@.len(),
                self@ == pending_of(start + buf@.take(i as int)),
                lines@.len() == lines_of(start + buf@.take(i as int)).len(),
                forall|k: int| 0 <= k < lines@.len() ==> #[trigger] lines@[k]@ == lines_of(start + buf@.take(i as int))[k],
            decreases buf@.len() - i,
        {
            let c = buf[i];
            let ghost s = start + buf@.take(i as int + 1);
            proof {
                assert(s.drop_last() =~= start + buf@.take(i as int));
                assert(s.last() == c);
            }
            if c == NEWLINE {
                let mut line: Vec<u8> = Vec::new();
                std::mem::swap(&mut line, &mut self.buffer);
                lines.push(line);
            } else {
                self.buffer.push(c);
            }
            i = i + 1;
        }
        proof {
            assert(buf@.take(buf@.len() as int) =~= buf@);
            lemma_pending_has_no_newline(start + buf@);
        }
        lines
    }
}

} // verus!
