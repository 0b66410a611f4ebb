//! Splitting a child's output stream into lines, as the relayers forward it.
//!
//! A relayer owns one output stream and feeds every chunk it reads into a
//! `LineSplitter`. The splitter's contract pins the result down completely:
//! the lines handed out so far, joined with the newline that ended each,
//! followed by the bytes still pending, are exactly the bytes read so far —
//! and no line and no pending tail contains a newline. Since a byte stream
//! decomposes that way in only one manner, every complete line is delivered
//! exactly once and in the order written.

use vstd::prelude::*;
use vstd::utf8::decode_utf8;
use vstd::utf8::valid_utf8;

verus! {

broadcast use vstd::seq_lib::group_seq_properties;

/// True when no byte of `s` is the line feed.
pub open spec fn newline_free(s: Seq<u8>) -> bool {
    forall|i: int| 0 <= i < s.len() ==> s[i] != 10u8
}

/// True when every line of `lines` is newline-free.
pub open spec fn all_newline_free(lines: Seq<Seq<u8>>) -> bool {
    forall|i: int| 0 <= i < lines.len() ==> newline_free(#[trigger] lines[i])
}

/// The lines joined back into a stream, a line feed closing each line.
pub open spec fn join_lines(lines: Seq<Seq<u8>>) -> Seq<u8>
    decreases lines.len(),
{
    if lines.len() == 0 {
        Seq::<u8>::empty()
    } else {
        lines[0] + seq![10u8] + join_lines(lines.skip(1))
    }
}

/// The byte contents of a vector of lines.
pub open spec fn line_views(lines: Seq<Vec<u8>>) -> Seq<Seq<u8>> {
    lines.map_values(|l: Vec<u8>| l@)
}

/// A line with one trailing carriage return removed, as the relayer
/// forwards it.
pub open spec fn chomp_cr(line: Seq<u8>) -> Seq<u8> {
    if line.len() > 0 && line[line.len() - 1] == 13u8 {
        line.drop_last()
    } else {
        line
    }
}

proof fn lemma_join_lines_push(lines: Seq<Seq<u8>>, l: Seq<u8>)
    ensures
        join_lines(lines.push(l)) == join_lines(lines) + l + seq![10u8],
    decreases lines.len(),
{
    let s = lines.push(l);
    assert(s.len() == lines.len() + 1);
    assert(s[0] == if lines.len() == 0 { l } else { lines[0] });
    if lines.len() == 0 {
        assert(s.skip(1) =~= Seq::<Seq<u8>>::empty());
        assert(join_lines(s.skip(1)) == Seq::<u8>::empty());
        assert(join_lines(s) == l + seq![10u8] + join_lines(s.skip(1)));
        assert(join_lines(lines) == Seq::<u8>::empty());
        assert(join_lines(s) =~= join_lines(lines) + l + seq![10u8]);
    } else {
        assert(s.skip(1) =~= lines.skip(1).push(l));
        lemma_join_lines_push(lines.skip(1), l);
        assert(join_lines(s) == s[0] + seq![10u8] + join_lines(s.skip(1)));
        assert(join_lines(s.skip(1)) == join_lines(lines.skip(1)) + l + seq![10u8]);
        assert(join_lines(lines) == lines[0] + seq![10u8] + join_lines(lines.skip(1)));
        assert(join_lines(s) =~= join_lines(lines) + l + seq![10u8]);
    }
}

proof fn lemma_join_head_newline(l: Seq<Seq<u8>>, p: Seq<u8>)
    requires
        l.len() > 0,
    ensures
        (join_lines(l) + p).len() > l[0].len(),
        (join_lines(l) + p)[l[0].len() as int] == 10u8,
        forall|i: int| 0 <= i < l[0].len() ==> (join_lines(l) + p)[i] == l[0][i],
{
    assert(join_lines(l) == l[0] + seq![10u8] + join_lines(l.skip(1)));
}

proof fn lemma_concat_cancel_left(a: Seq<u8>, x: Seq<u8>, y: Seq<u8>)
    requires
        a + x == a + y,
    ensures
        x == y,
{
    assert((a + x).len() == a.len() + x.len());
    assert((a + y).len() == a.len() + y.len());
    assert((a + x).len() == (a + y).len());
    assert(x.len() == y.len());
    assert forall|i: int| 0 <= i < x.len() implies x[i] == y[i] by {
        assert(0 <= a.len() + i < (a + y).len());
        assert((a + x)[a.len() + i] == x[i]);
        assert((a + y)[a.len() + i] == y[i]);
    }
    assert(x =~= y);
}

proof fn lemma_join_lines_append(l1: Seq<Seq<u8>>, l2: Seq<Seq<u8>>)
    ensures
        join_lines(l1 + l2) == join_lines(l1) + join_lines(l2),
    decreases l1.len(),
{
    if l1.len() == 0 {
        assert(l1 + l2 =~= l2);
        assert(join_lines(l1) == Seq::<u8>::empty());
        assert(join_lines(l1) + join_lines(l2) =~= join_lines(l2));
    } else {
        assert((l1 + l2).skip(1) =~= l1.skip(1) + l2);
        lemma_join_lines_append(l1.skip(1), l2);
        assert((l1 + l2)[0] == l1[0]);
        assert(join_lines(l1 + l2) == (l1 + l2)[0] + seq![10u8] + join_lines((l1 + l2).skip(1)));
        assert(join_lines(l1) == l1[0] + seq![10u8] + join_lines(l1.skip(1)));
        assert(join_lines(l1 + l2) =~= join_lines(l1) + join_lines(l2));
    }
}

/// A byte stream decomposes into newline-free lines, each closed by a line
/// feed, followed by a newline-free tail, in exactly one way. The output
/// of the relayer is therefore fully determined by the bytes the child
/// wrote: every complete line is delivered exactly once, and in the order
/// written.
pub proof fn lemma_line_decomposition_unique(
    l1: Seq<Seq<u8>>,
    p1: Seq<u8>,
    l2: Seq<Seq<u8>>,
    p2: Seq<u8>,
)
    requires
        all_newline_free(l1),
        newline_free(p1),
        all_newline_free(l2),
        newline_free(p2),
        join_lines(l1) + p1 == join_lines(l2) + p2,
    ensures
        l1 == l2,
        p1 == p2,
    decreases l1.len(),
{
    let s = join_lines(l1) + p1;
    if l1.len() == 0 && l2.len() == 0 {
        assert(join_lines(l1) == Seq::<u8>::empty());
        assert(join_lines(l2) == Seq::<u8>::empty());
        assert(p1 =~= p2);
        assert(l1 =~= l2);
    } else if l1.len() == 0 {
        lemma_join_head_newline(l2, p2);
        assert(join_lines(l1) == Seq::<u8>::empty());
        assert(s =~= p1);
        assert(s[l2[0].len() as int] == 10u8);
        assert(false);
    } else if l2.len() == 0 {
        lemma_join_head_newline(l1, p1);
        assert(join_lines(l2) == Seq::<u8>::empty());
        assert(s =~= p2);
        assert(s[l1[0].len() as int] == 10u8);
        assert(false);
    } else {
        lemma_join_head_newline(l1, p1);
        lemma_join_head_newline(l2, p2);
        let k1 = l1[0].len() as int;
        let k2 = l2[0].len() as int;
        assert(newline_free(l1[0]));
        assert(newline_free(l2[0]));
        if k1 < k2 {
            assert(s[k1] == 10u8);
            assert(s[k1] == l2[0][k1]);
            assert(false);
        }
        if k2 < k1 {
            assert(s[k2] == 10u8);
            assert(s[k2] == l1[0][k2]);
            assert(false);
        }
        assert(l1[0] =~= l2[0]);
        let a = l1[0] + seq![10u8];
        assert(join_lines(l1) == l1[0] + seq![10u8] + join_lines(l1.skip(1)));
        assert(join_lines(l2) == l2[0] + seq![10u8] + join_lines(l2.skip(1)));
        assert(join_lines(l1) + p1 =~= a + (join_lines(l1.skip(1)) + p1));
        assert(join_lines(l2) + p2 =~= a + (join_lines(l2.skip(1)) + p2));
        lemma_concat_cancel_left(a, join_lines(l1.skip(1)) + p1, join_lines(l2.skip(1)) + p2);
        assert(all_newline_free(l1.skip(1))) by {
            assert forall|i: int| 0 <= i < l1.skip(1).len() implies newline_free(
                #[trigger] l1.skip(1)[i],
            ) by {
                assert(l1.skip(1)[i] == l1[i + 1]);
            }
        }
        assert(all_newline_free(l2.skip(1))) by {
            assert forall|i: int| 0 <= i < l2.skip(1).len() implies newline_free(
                #[trigger] l2.skip(1)[i],
            ) by {
                assert(l2.skip(1)[i] == l2[i + 1]);
            }
        }
        lemma_line_decomposition_unique(l1.skip(1), p1, l2.skip(1), p2);
        assert forall|i: int| 0 <= i < l1.len() implies l1[i] == l2[i] by {
            if i > 0 {
                assert(l1[i] == l1.skip(1)[i - 1]);
                assert(l2[i] == l2.skip(1)[i - 1]);
            }
        }
        assert(l1 =~= l2);
    }
}

/// Feeding a stream to the splitter chunk by chunk delivers the same lines
/// as feeding it whole: the lines of two consecutive pushes, in order,
/// with the final pending tail, decompose the combined bytes, so by the
/// uniqueness of that decomposition they are exactly the lines of the
/// whole stream.
pub proof fn lemma_chunks_compose(
    a1: Seq<Seq<u8>>,
    p1: Seq<u8>,
    a2: Seq<Seq<u8>>,
    p2: Seq<u8>,
    s1: Seq<u8>,
    s2: Seq<u8>,
)
    requires
        join_lines(a1) + p1 == s1,
        join_lines(a2) + p2 == p1 + s2,
    ensures
        join_lines(a1 + a2) + p2 == s1 + s2,
{
    lemma_join_lines_append(a1, a2);
    assert(join_lines(a1 + a2) + p2 =~= join_lines(a1) + (join_lines(a2) + p2));
    assert(join_lines(a1) + (p1 + s2) =~= (join_lines(a1) + p1) + s2);
    assert(join_lines(a1 + a2) + p2 =~= s1 + s2);
}

/// The buffer of one relayer: bytes of an incomplete final line, carried
/// between chunks.
pub struct LineSplitter {
    pending: Vec<u8>,
}

impl LineSplitter {
    /// The bytes read so far that no line feed has closed yet.
    pub closed spec fn pending_bytes(&self) -> Seq<u8> {
        self.pending@
    }

    /// The buffer never holds a line feed.
    pub open spec fn wf(&self) -> bool {
        newline_free(self.pending_bytes())
    }

    /// A fresh splitter holds nothing.
    pub fn new() -> (s: Self)
        ensures
            s.wf(),
            s.pending_bytes() == Seq::<u8>::empty(),
    {
        LineSplitter { pending: Vec::new() }
    }

    /// Feeds one chunk of the stream in and hands out every line that is
    /// now complete: the lines joined by their closing line feeds, followed
    /// by the new pending tail, are exactly the old pending tail followed
    /// by the chunk.
    pub fn push_chunk(&mut self, chunk: &Vec<u8>) -> (lines: Vec<Vec<u8>>)
        requires
            old(self).wf(),
        ensures
            final(self).wf(),
            all_newline_free(line_views(lines@)),
            join_lines(line_views(lines@)) + final(self).pending_bytes() == old(
                self,
            ).pending_bytes() + chunk@,
    {
        let mut lines: Vec<Vec<u8>> = Vec::new();
        let mut i: usize = 0;
        while i < chunk.len()
            invariant
                i <= chunk.len(),
                newline_free(self.pending@),
                all_newline_free(line_views(lines@)),
                join_lines(line_views(lines@)) + self.pending@ == old(self).pending_bytes()
                    + chunk@.take(i as int),
            decreases chunk.len() - i,
        {
            let b = chunk[i];
            if b == 10u8 {
                let ghost pend = self.pending@;
                let mut done: Vec<u8> = Vec::new();
                core::mem::swap(&mut done, &mut self.pending);
                let ghost fin = done@;
                let ghost prev = line_views(lines@);
                lines.push(done);
                proof {
                    assert(fin == pend);
                    assert(self.pending@ == Seq::<u8>::empty());
                    assert(line_views(lines@) =~= prev.push(fin));
                    lemma_join_lines_push(prev, fin);
                    assert(join_lines(line_views(lines@)) == join_lines(prev) + fin + seq![10u8]);
                    assert(chunk@.take(i + 1) =~= chunk@.take(i as int) + seq![10u8]);
                    assert(join_lines(prev) + pend == old(self).pending_bytes() + chunk@.take(
                        i as int,
                    ));
                    assert(join_lines(line_views(lines@)) + self.pending@ =~= join_lines(prev)
                        + pend + seq![10u8]);
                    assert(join_lines(prev) + pend + seq![10u8] =~= (old(self).pending_bytes()
                        + chunk@.take(i as int)) + seq![10u8]);
                    assert((old(self).pending_bytes() + chunk@.take(i as int)) + seq![10u8] =~= old(
                        self,
                    ).pending_bytes() + chunk@.take(i + 1));
                    assert(join_lines(line_views(lines@)) + self.pending@ =~= old(
                        self,
                    ).pending_bytes() + chunk@.take(i + 1));
                }
            } else {
                let ghost pend = self.pending@;
                self.pending.push(b);
                proof {
                    assert(self.pending@ =~= pend + seq![chunk@[i as int]]);
                    assert(chunk@.take(i + 1) =~= chunk@.take(i as int) + seq![chunk@[i as int]]);
                    assert(join_lines(line_views(lines@)) + self.pending@ =~= (join_lines(
                        line_views(lines@),
                    ) + pend) + seq![chunk@[i as int]]);
                    assert((join_lines(line_views(lines@)) + pend) + seq![chunk@[i as int]] =~= old(
                        self,
                    ).pending_bytes() + chunk@.take(i + 1));
                    assert(join_lines(line_views(lines@)) + self.pending@ =~= old(
                        self,
                    ).pending_bytes() + chunk@.take(i + 1));
                }
            }
            i = i + 1;
        }
        proof {
            assert(chunk@.take(chunk.len() as int) =~= chunk@);
        }
        lines
    }

    /// Hands out the final incomplete line when the stream has closed; the
    /// splitter is empty afterwards. The relayer forwards the result too
    /// when it is not empty, as the stream's unterminated last line.
    pub fn take_pending(&mut self) -> (rest: Vec<u8>)
        requires
            old(self).wf(),
        ensures
            final(self).wf(),
            final(self).pending_bytes() == Seq::<u8>::empty(),
            rest@ == old(self).pending_bytes(),
            newline_free(rest@),
    {
        let mut rest: Vec<u8> = Vec::new();
        core::mem::swap(&mut rest, &mut self.pending);
        rest
    }
}

/// Removes one carriage return from the end of a complete line, if the
/// line ends in one.
pub fn strip_trailing_cr(line: Vec<u8>) -> (r: Vec<u8>)
    ensures
        r@ == chomp_cr(line@),
{
    let mut line = line;
    if line.len() > 0 {
        let last = line[line.len() - 1];
        if last == 13u8 {
            line.pop();
        }
    }
    line
}

/// Relies on `String::from_utf8`: by its documentation it succeeds exactly
/// when the bytes are valid UTF-8, and then returns the string those bytes
/// encode; vstd's model of UTF-8 states both.
#[verifier::external_body]
fn bytes_to_string(bytes: Vec<u8>) -> (r: Option<String>)
    ensures
        r is Some <==> valid_utf8(bytes@),
        r matches Some(s) ==> s@ == decode_utf8(bytes@),
{
    String::from_utf8(bytes).ok()
}

/// One complete raw line, made into the text the relayer forwards: the
/// trailing carriage return is removed and the bytes are decoded as UTF-8.
/// A line that is not valid UTF-8 yields nothing and is silently dropped.
pub fn relay_line(raw: Vec<u8>) -> (r: Option<String>)
    ensures
        r is Some <==> valid_utf8(chomp_cr(raw@)),
        r matches Some(s) ==> s@ == decode_utf8(chomp_cr(raw@)),
{
    let stripped = strip_trailing_cr(raw);
    bytes_to_string(stripped)
}

} // verus!
