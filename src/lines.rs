use vstd::prelude::*;

verus! {

/// A line terminator: carriage return or line feed.
pub open spec fn is_terminator(b: u8) -> bool {
    b == 13u8 || b == 10u8
}

/// Splitting `s` from the left: the lines completed so far, and the bytes of
/// the line still open at the end of `s`.
pub open spec fn split_state(s: Seq<u8>) -> (Seq<Seq<u8>>, Seq<u8>)
    decreases s.len(),
{
    if s.len() == 0 {
        (Seq::empty(), Seq::empty())
    } else {
        let (done, cur) = split_state(s.drop_last());
        let b = s.last();
        if is_terminator(b) {
            if cur.len() > 0 {
                (done.push(cur), Seq::empty())
            } else {
                (done, cur)
            }
        } else {
            (done, cur.push(b))
        }
    }
}

/// The lines of `s`: its maximal runs of bytes that are not terminators, in
/// order, with empty runs left out.
pub open spec fn lines_of(s: Seq<u8>) -> Seq<Seq<u8>> {
    let (done, cur) = split_state(s);
    if cur.len() > 0 {
        done.push(cur)
    } else {
        done
    }
}

/// A line as the state machine sees it: not empty and free of terminators.
pub open spec fn is_clean_line(l: Seq<u8>) -> bool {
    l.len() > 0 && forall|k: int| 0 <= k < l.len() ==> !is_terminator(#[trigger] l[k])
}

proof fn lemma_split_state_clean(s: Seq<u8>)
    ensures
        forall|j: int|
            0 <= j < split_state(s).0.len() ==> is_clean_line(#[trigger] split_state(s).0[j]),
        forall|k: int|
            0 <= k < split_state(s).1.len() ==> !is_terminator(#[trigger] split_state(s).1[k]),
    decreases s.len(),
{
    if s.len() > 0 {
        let t = s.drop_last();
        lemma_split_state_clean(t);
        let (done, cur) = split_state(t);
        let b = s.last();
        if !is_terminator(b) {
            assert forall|k: int| 0 <= k < cur.push(b).len() implies !is_terminator(
                #[trigger] cur.push(b)[k],
            ) by {
                if k < cur.len() {
                    assert(cur.push(b)[k] == cur[k]);
                }
            }
        } else if cur.len() > 0 {
            assert forall|j: int| 0 <= j < done.push(cur).len() implies is_clean_line(
                #[trigger] done.push(cur)[j],
            ) by {
                if j < done.len() {
                    assert(done.push(cur)[j] == done[j]);
                }
            }
        }
    }
}

/// Empty lines never reach the state machine: every line that splitting
/// yields, from one chunk or through a line buffer, is non-empty and holds no
/// terminator byte, and the buffer holds none either.
pub proof fn lemma_lines_are_clean(s: Seq<u8>)
    ensures
        forall|j: int| 0 <= j < lines_of(s).len() ==> is_clean_line(#[trigger] lines_of(s)[j]),
        forall|j: int|
            0 <= j < split_state(s).0.len() ==> is_clean_line(#[trigger] split_state(s).0[j]),
        forall|k: int|
            0 <= k < split_state(s).1.len() ==> !is_terminator(#[trigger] split_state(s).1[k]),
{
    lemma_split_state_clean(s);
}

/// A chunk made only of terminators yields no line at all.
pub proof fn lemma_terminators_only_yield_nothing(s: Seq<u8>)
    requires
        forall|k: int| 0 <= k < s.len() ==> is_terminator(#[trigger] s[k]),
    ensures
        lines_of(s).len() == 0,
    decreases s.len(),
{
    if s.len() > 0 {
        let t = s.drop_last();
        assert forall|k: int| 0 <= k < t.len() implies is_terminator(#[trigger] t[k]) by {
            assert(t[k] == s[k]);
        }
        lemma_terminators_only_yield_nothing(t);
        lemma_terminators_leave_nothing_open(t);
    }
}

proof fn lemma_terminators_leave_nothing_open(s: Seq<u8>)
    requires
        forall|k: int| 0 <= k < s.len() ==> is_terminator(#[trigger] s[k]),
    ensures
        split_state(s).0.len() == 0,
        split_state(s).1.len() == 0,
    decreases s.len(),
{
    if s.len() > 0 {
        let t = s.drop_last();
        assert forall|k: int| 0 <= k < t.len() implies is_terminator(#[trigger] t[k]) by {
            assert(t[k] == s[k]);
        }
        lemma_terminators_leave_nothing_open(t);
    }
}

/// Splits a chunk of decrypted bytes into lines on CR and LF, dropping the
/// empty lines between consecutive terminators.
pub fn split_lines(chunk: &[u8]) -> (r: Vec<Vec<u8>>)
    ensures
        r@.map_values(|l: Vec<u8>| l@) == lines_of(chunk@),
{
    let mut done: Vec<Vec<u8>> = Vec::new();
    let mut cur: Vec<u8> = Vec::new();
    let mut i: usize = 0;
    while i < chunk.len()
        invariant
            i <= chunk@.len(),
            (done@.map_values(|l: Vec<u8>| l@), cur@) == split_state(chunk@.subrange(0, i as int)),
        decreases chunk@.len() - i,
    {
        let b = chunk[i];
        proof {
            let p = chunk@.subrange(0, i as int + 1);
            assert(p.drop_last() =~= chunk@.subrange(0, i as int));
            assert(p.last() == b);
        }
        if b == 13u8 || b == 10u8 {
            if cur.len() > 0 {
                let line = cur;
                cur = Vec::new();
                done.push(line);
                proof {
                    assert(done@.map_values(|l: Vec<u8>| l@) =~= split_state(
                        chunk@.subrange(0, i as int + 1),
                    ).0);
                    assert(cur@ =~= Seq::<u8>::empty());
                }
            }
        } else {
            cur.push(b);
        }
        i = i + 1;
    }
    assert(chunk@.subrange(0, chunk@.len() as int) =~= chunk@);
    if cur.len() > 0 {
        done.push(cur);
        assert(done@.map_values(|l: Vec<u8>| l@) =~= lines_of(chunk@));
    }
    done
}

/// Bytes free of terminators split as one open line.
proof fn lemma_split_state_open(c: Seq<u8>)
    requires
        forall|k: int| 0 <= k < c.len() ==> !is_terminator(#[trigger] c[k]),
    ensures
        split_state(c) == (Seq::<Seq<u8>>::empty(), c),
    decreases c.len(),
{
    if c.len() > 0 {
        let t = c.drop_last();
        assert forall|k: int| 0 <= k < t.len() implies !is_terminator(#[trigger] t[k]) by {
            assert(t[k] == c[k]);
        }
        lemma_split_state_open(t);
        assert(t.push(c.last()) =~= c);
    }
}

/// Lines are kept whole across chunk boundaries: splitting `s + t` yields
/// the lines of `s`, then those of what `s` left open followed by `t`, and
/// leaves open what the latter leaves open. So feeding `s` and then `t` to a
/// line buffer hands out what feeding `s + t` at once would.
pub proof fn lemma_split_state_append(s: Seq<u8>, t: Seq<u8>)
    ensures
        split_state(s + t) == (
            split_state(s).0 + split_state(split_state(s).1 + t).0,
            split_state(split_state(s).1 + t).1,
        ),
    decreases t.len(),
{
    let (d, c) = split_state(s);
    if t.len() == 0 {
        assert(s + t =~= s);
        assert(c + t =~= c);
        lemma_split_state_clean(s);
        lemma_split_state_open(c);
        assert(d + Seq::<Seq<u8>>::empty() =~= d);
    } else {
        let t1 = t.drop_last();
        lemma_split_state_append(s, t1);
        assert((s + t).drop_last() =~= s + t1);
        assert((c + t).drop_last() =~= c + t1);
        assert((s + t).last() == t.last());
        assert((c + t).last() == t.last());
        let (x, y) = split_state(c + t1);
        assert((d + x).push(y) =~= d + x.push(y));
    }
}

/// Bytes that arrive in chunks, split into lines across chunk boundaries: it
/// holds the start of a line whose terminator has not arrived yet.
pub struct LineBuffer {
    pending: Vec<u8>,
}

impl View for LineBuffer {
    type V = Seq<u8>;

    closed spec fn view(&self) -> Seq<u8> {
        self.pending@
    }
}

impl LineBuffer {
    /// The held bytes are the open tail of a line: no terminator among them.
    pub open spec fn wf(&self) -> bool {
        forall|k: int| 0 <= k < self@.len() ==> !is_terminator(#[trigger] self@[k])
    }

    /// A buffer that holds nothing.
    pub fn new() -> (r: LineBuffer)
        ensures
            r.wf(),
            r@ == Seq::<u8>::empty(),
    {
        LineBuffer { pending: Vec::new() }
    }

    /// Appends a chunk and hands out the lines that it completes, in order,
    /// empty ones left out; the unterminated rest stays held.
    pub fn feed(&mut self, chunk: &[u8]) -> (r: Vec<Vec<u8>>)
        requires
            old(self).wf(),
        ensures
            final(self).wf(),
            r@.map_values(|l: Vec<u8>| l@) == split_state(old(self)@ + chunk@).0,
            final(self)@ == split_state(old(self)@ + chunk@).1,
    {
        let ghost start = self@;
        let mut done: Vec<Vec<u8>> = Vec::new();
        let mut cur: Vec<u8> = Vec::new();
        std::mem::swap(&mut cur, &mut self.pending);
        proof {
            lemma_split_state_open(start);
            assert(start + chunk@.subrange(0, 0) =~= start);
            assert(done@.map_values(|l: Vec<u8>| l@) =~= Seq::<Seq<u8>>::empty());
        }
        let mut i: usize = 0;
        while i < chunk.len()
            invariant
                i <= chunk@.len(),
                (done@.map_values(|l: Vec<u8>| l@), cur@) == split_state(
                    start + chunk@.subrange(0, i as int),
                ),
            decreases chunk@.len() - i,
        {
            let b = chunk[i];
            proof {
                let p = start + chunk@.subrange(0, i as int + 1);
                assert(p.drop_last() =~= start + chunk@.subrange(0, i as int));
                assert(p.last() == b);
            }
            if b == 13u8 || b == 10u8 {
                if cur.len() > 0 {
                    let line = cur;
                    cur = Vec::new();
                    done.push(line);
                    proof {
                        assert(done@.map_values(|l: Vec<u8>| l@) =~= split_state(
                            start + chunk@.subrange(0, i as int + 1),
                        ).0);
                        assert(cur@ =~= Seq::<u8>::empty());
                    }
                }
            } else {
                cur.push(b);
            }
            i = i + 1;
        }
        proof {
            assert(chunk@.subrange(0, chunk@.len() as int) =~= chunk@);
            lemma_split_state_clean(start + chunk@);
        }
        self.pending = cur;
        assert(self@ == split_state(start + chunk@).1);
        done
    }
}

} // verus!
