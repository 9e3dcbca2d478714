//! Reading a stream of server-sent events.
use vstd::prelude::*;
use vstd::slice::slice_subrange;

use crate::text::{text_of, texts, utf8_text};

verus! {

/// Where the first empty line begins at or after `from`: the first of two line
/// feeds in a row. -1 where there is none.
pub open spec fn break_from(b: Seq<u8>, from: int) -> int
    decreases b.len() - from,
{
    if from < 0 || from + 1 >= b.len() {
        -1
    } else if b[from] == 10 && b[from + 1] == 10 {
        from
    } else {
        break_from(b, from + 1)
    }
}

/// Where the first empty line of `buf` begins.
pub fn find_event_break(buf: &[u8]) -> (r: Option<usize>)
    ensures
        match r {
            Some(p) => p == break_from(buf@, 0) && p + 1 < buf@.len(),
            None => break_from(buf@, 0) == -1,
        },
{
    let mut i: usize = 0;
    while i < buf.len() && i + 1 < buf.len()
        invariant
            i <= buf@.len(),
            break_from(buf@, 0) == break_from(buf@, i as int),
        decreases buf.len() - i,
    {
        if buf[i] == 10 && buf[i + 1] == 10 {
            return Some(i);
        }
        i = i + 1;
    }
    None
}

/// A line without the carriage return at its end, if it has one.
pub open spec fn without_cr(line: Seq<u8>) -> Seq<u8> {
    if line.len() > 0 && line.last() == 13 {
        line.drop_last()
    } else {
        line
    }
}

/// A line without the carriage return at its end, if it has one.
pub fn strip_cr(line: &[u8]) -> (r: &[u8])
    ensures
        r@ == without_cr(line@),
{
    if line.len() > 0 && line[line.len() - 1] == 13 {
        let r = slice_subrange(line, 0, line.len() - 1);
        assert(r@ =~= line@.drop_last());
        r
    } else {
        line
    }
}

/// The bytes of `data:`.
pub open spec fn data_mark() -> Seq<u8> {
    seq![0x64u8, 0x61, 0x74, 0x61, 0x3a]
}

/// What a line of an event says: the text after `data:` and one blank, if it
/// starts so and holds a text.
pub open spec fn data_in(line: Seq<u8>) -> Option<Seq<char>> {
    let l = without_cr(line);
    if data_mark().is_prefix_of(l) {
        let rest = l.skip(5);
        text_of(
            if rest.len() > 0 && rest[0] == 0x20 {
                rest.skip(1)
            } else {
                rest
            },
        )
    } else {
        None
    }
}

/// What a line of an event says.
fn data_text(line: &[u8]) -> (r: Option<&str>)
    ensures
        match r {
            Some(s) => data_in(line@) == Some(s@),
            None => data_in(line@) is None,
        },
{
    let l = strip_cr(line);
    if l.len() < 5 || l[0] != 0x64 || l[1] != 0x61 || l[2] != 0x74 || l[3] != 0x61 || l[4] != 0x3a {
        proof {
            if data_mark().is_prefix_of(l@) {
                let m = l@.subrange(0, 5);
                assert(m == data_mark());
                assert(m[0] == 0x64 && m[1] == 0x61 && m[2] == 0x74 && m[3] == 0x61 && m[4] == 0x3a);
            }
        }
        return None;
    }
    assert(l@.subrange(0, 5) =~= data_mark());
    let from: usize = if l.len() > 5 && l[5] == 0x20 {
        6
    } else {
        5
    };
    let rest = slice_subrange(l, from, l.len());
    proof {
        let after = l@.skip(5);
        if from == 6 {
            assert(rest@ =~= after.skip(1));
        } else {
            assert(rest@ =~= after);
        }
    }
    utf8_text(rest)
}

/// The first line feed at or after `from`, or the end.
pub open spec fn line_end(b: Seq<u8>, from: int) -> int
    decreases b.len() - from,
{
    if from < 0 || from >= b.len() || b[from] == 10 {
        from
    } else {
        line_end(b, from + 1)
    }
}

/// What the lines of an event say, from the line that begins at `from`.
pub open spec fn said_from(event: Seq<u8>, from: int) -> Seq<Seq<char>>
    decreases event.len() - from,
    when 0 <= from
    via said_from_ends
{
    let end = line_end(event, from);
    let said = match data_in(event.subrange(from, end)) {
        Some(t) => seq![t],
        None => Seq::empty(),
    };
    if end < event.len() {
        said + said_from(event, end + 1)
    } else {
        said
    }
}

#[via_fn]
proof fn said_from_ends(event: Seq<u8>, from: int) {
    lemma_line_end(event, from);
}

proof fn lemma_line_end(b: Seq<u8>, from: int)
    requires
        0 <= from,
    ensures
        from <= line_end(b, from),
        from <= b.len() ==> line_end(b, from) <= b.len(),
    decreases b.len() - from,
{
    if from < b.len() && b[from] != 10 {
        lemma_line_end(b, from + 1);
    }
}

/// What the lines of an event say.
fn event_lines(event: &[u8]) -> (r: Vec<String>)
    ensures
        texts(r@) == said_from(event@, 0),
{
    let mut r: Vec<String> = Vec::new();
    let mut from: usize = 0;
    assert(texts(r@) =~= Seq::<Seq<char>>::empty());
    assert(texts(r@) + said_from(event@, 0) =~= said_from(event@, 0));
    loop
        invariant
            from <= event@.len(),
            texts(r@) + said_from(event@, from as int) == said_from(event@, 0),
        decreases event@.len() - from,
    {
        let mut end: usize = from;
        while end < event.len() && event[end] != 10
            invariant
                from <= end <= event@.len(),
                line_end(event@, from as int) == line_end(event@, end as int),
            decreases event.len() - end,
        {
            end = end + 1;
        }
        assert(end == line_end(event@, from as int));
        let line = slice_subrange(event, from, end);
        let ghost was = texts(r@);
        if let Some(s) = data_text(line) {
            r.push(s.to_string());
            assert(texts(r@) =~= was.push(s@));
        }
        proof {
            let said = match data_in(line@) {
                Some(t) => seq![t],
                None => Seq::empty(),
            };
            assert(texts(r@) =~= was + said);
            if end < event@.len() {
                assert(texts(r@) + said_from(event@, end + 1) =~= was + said_from(
                    event@,
                    from as int,
                ));
            } else {
                assert(texts(r@) =~= was + said_from(event@, from as int));
            }
        }
        if end >= event.len() {
            return r;
        }
        from = end + 1;
    }
}

/// What the complete events in `b` say. An event is complete with the empty line
/// that ends it.
pub open spec fn said(b: Seq<u8>) -> Seq<Seq<char>>
    decreases b.len(),
    via said_ends
{
    let p = break_from(b, 0);
    if p < 0 {
        Seq::empty()
    } else {
        said_from(b.take(p + 2), 0) + said(b.skip(p + 2))
    }
}

#[via_fn]
proof fn said_ends(b: Seq<u8>) {
    lemma_break(b, 0);
}

/// What follows the complete events in `b`.
pub open spec fn unread(b: Seq<u8>) -> Seq<u8>
    decreases b.len(),
    via unread_ends
{
    let p = break_from(b, 0);
    if p < 0 {
        b
    } else {
        unread(b.skip(p + 2))
    }
}

#[via_fn]
proof fn unread_ends(b: Seq<u8>) {
    lemma_break(b, 0);
}

proof fn lemma_break(b: Seq<u8>, from: int)
    requires
        0 <= from,
    ensures
        break_from(b, from) == -1 || from <= break_from(b, from) < b.len() - 1,
        break_from(b, from) >= 0 ==> b[break_from(b, from)] == 10 && b[break_from(b, from) + 1]
            == 10,
    decreases b.len() - from,
{
    if from + 1 < b.len() && !(b[from] == 10 && b[from + 1] == 10) {
        lemma_break(b, from + 1);
    }
}

/// More bytes at the end leave the first empty line where it is.
proof fn lemma_break_stays(a: Seq<u8>, b: Seq<u8>, from: int)
    requires
        0 <= from,
        break_from(a, from) >= 0,
    ensures
        break_from(a + b, from) == break_from(a, from),
    decreases a.len() - from,
{
    if !(a[from] == 10 && a[from + 1] == 10) {
        lemma_break_stays(a, b, from + 1);
    }
}

/// It makes no difference in which pieces a stream comes in: reading a piece,
/// and then what is left of it with the next one, says the same as reading both
/// at once, and leaves the same.
pub proof fn law_pieces_do_not_matter(a: Seq<u8>, b: Seq<u8>)
    ensures
        said(a) + said(unread(a) + b) == said(a + b),
        unread(unread(a) + b) == unread(a + b),
    decreases a.len(),
{
    let p = break_from(a, 0);
    if p < 0 {
        assert(said(a) + said(a + b) =~= said(a + b));
    } else {
        lemma_break(a, 0);
        lemma_break_stays(a, b, 0);
        let rest = a.skip(p + 2);
        law_pieces_do_not_matter(rest, b);
        assert((a + b).take(p + 2) =~= a.take(p + 2));
        assert((a + b).skip(p + 2) =~= rest + b);
        assert(said(a) + said(unread(a) + b) =~= said_from(a.take(p + 2), 0) + (said(rest) + said(
            unread(rest) + b,
        )));
    }
}

/// A reader of a stream, with what it has not read yet.
pub struct SseReader {
    pub buf: Vec<u8>,
}

impl SseReader {
    /// A reader that has nothing to read.
    pub fn new() -> (r: Self)
        ensures
            r.buf@ == Seq::<u8>::empty(),
    {
        SseReader { buf: Vec::new() }
    }

    /// Reads the next piece: what the events that it completes say.
    pub fn feed(&mut self, chunk: &[u8]) -> (r: Vec<String>)
        ensures
            texts(r@) == said(old(self).buf@ + chunk@),
            final(self).buf@ == unread(old(self).buf@ + chunk@),
    {
        let ghost whole = self.buf@ + chunk@;
        self.buf.extend_from_slice(chunk);
        assert(self.buf@ =~= whole);
        let mut r: Vec<String> = Vec::new();
        assert(texts(r@) =~= Seq::<Seq<char>>::empty());
        assert(texts(r@) + said(self.buf@) =~= said(whole));
        loop
            invariant_except_break
                texts(r@) + said(self.buf@) == said(whole),
                unread(self.buf@) == unread(whole),
            ensures
                texts(r@) == said(whole),
                self.buf@ == unread(whole),
            decreases self.buf@.len(),
        {
            let p = match find_event_break(self.buf.as_slice()) {
                Some(p) => p,
                None => {
                    assert(texts(r@) =~= said(whole));
                    break;
                },
            };
            let ghost before = self.buf@;
            assert(p + 2 <= self.buf.len());
            let rest = self.buf.split_off(p + 2);
            let mut lines = event_lines(self.buf.as_slice());
            proof {
                assert(self.buf@ =~= before.take(p + 2));
                assert(rest@ =~= before.skip(p + 2));
                assert((texts(r@) + texts(lines@)) + said(rest@) =~= texts(r@) + said(before));
            }
            let ghost was = r@;
            r.append(&mut lines);
            assert(texts(r@) =~= texts(was) + said_from(before.take(p + 2), 0));
            self.buf = rest;
        }
        r
    }
}

/// An event ends with the first two line feeds in a row.
pub proof fn law_first_empty_line(b: Seq<u8>, from: int)
    requires
        0 <= from,
    ensures
        ({
            let p = break_from(b, from);
            &&& p >= 0 ==> from <= p && p + 1 < b.len() && b[p] == 10 && b[p + 1] == 10
            &&& p < 0 ==> p == -1
            &&& forall|i: int|
                from <= i && i + 1 < b.len() && (p < 0 || i < p) ==> !(#[trigger] b[i] == 10 && b[i
                    + 1] == 10)
        }),
    decreases b.len() - from,
{
    if from + 1 < b.len() && !(b[from] == 10 && b[from + 1] == 10) {
        law_first_empty_line(b, from + 1);
    }
}

/// What a line says: the text behind `data:`, without one blank and without a carriage
/// return at the end; a line that does not begin so says nothing.
pub proof fn law_line_of_data(said: Seq<u8>, line: Seq<u8>)
    ensures
        said.len() == 0 || said.last() != 13 ==> {
            &&& data_in(seq![0x64u8, 0x61, 0x74, 0x61, 0x3a, 0x20] + said) == text_of(said)
            &&& data_in((seq![0x64u8, 0x61, 0x74, 0x61, 0x3a, 0x20] + said).push(13)) == text_of(
                said,
            )
        },
        said.len() > 0 && said[0] != 0x20 && said.last() != 13 ==> data_in(
            seq![0x64u8, 0x61, 0x74, 0x61, 0x3a] + said,
        ) == text_of(said),
        line.len() < 5 || line.take(5) != seq![0x64u8, 0x61, 0x74, 0x61, 0x3a] ==> data_in(line)
            is None,
{
    let mark = seq![0x64u8, 0x61, 0x74, 0x61, 0x3a];
    assert(data_mark() =~= mark);
    if said.len() == 0 || said.last() != 13 {
        let l = seq![0x64u8, 0x61, 0x74, 0x61, 0x3a, 0x20] + said;
        assert(l.last() != 13);
        assert(l.push(13).drop_last() =~= l);
        assert(without_cr(l) == l);
        assert(without_cr(l.push(13)) == l);
        assert(l.subrange(0, 5) =~= mark);
        assert(mark.is_prefix_of(l));
        assert(l.skip(5)[0] == 0x20);
        assert(l.skip(5).skip(1) =~= said);
    }
    if said.len() > 0 && said[0] != 0x20 && said.last() != 13 {
        let l = mark + said;
        assert(l.last() == said.last());
        assert(without_cr(l) == l);
        assert(l.subrange(0, 5) =~= mark);
        assert(mark.is_prefix_of(l));
        assert(l.skip(5) =~= said);
        assert(l.skip(5)[0] == said[0]);
    }
    if mark.is_prefix_of(without_cr(line)) {
        assert(line.take(5) =~= without_cr(line).subrange(0, 5));
    }
}

/// The lines of an event say what they say one after another.
pub proof fn law_lines_of_an_event(line: Seq<u8>, more: Seq<u8>)
    requires
        !line.contains(10),
    ensures
        said_from(line, 0) == match data_in(line) {
            Some(t) => seq![t],
            None => Seq::empty(),
        },
        said_from(line.push(10) + more, 0) == match data_in(line) {
            Some(t) => seq![t],
            None => Seq::empty(),
        } + said_from(more, 0),
{
    let event = line.push(10) + more;
    assert(line.take(line.len() as int) =~= line);
    assert(event.take(line.len() as int) =~= line);
    lemma_end_of_line(line, line, 0);
    lemma_end_of_line(event, line, 0);
    assert(line.subrange(0, line.len() as int) =~= line);
    assert(event.subrange(0, line.len() as int) =~= line);
    lemma_rest_of_an_event(event, line.len() as int + 1, line.len() as int + 1);
    assert(event.skip(line.len() as int + 1) =~= more);
}

proof fn lemma_end_of_line(b: Seq<u8>, line: Seq<u8>, from: int)
    requires
        0 <= from <= line.len() <= b.len(),
        !line.contains(10),
        b.take(line.len() as int) == line,
        line.len() < b.len() ==> b[line.len() as int] == 10,
    ensures
        line_end(b, from) == line.len(),
    decreases line.len() - from,
{
    if from < line.len() {
        assert(b[from] == b.take(line.len() as int)[from]);
        assert(line.contains(line[from]));
        lemma_end_of_line(b, line, from + 1);
    }
}

/// What an event says from a place on is what the rest of it says.
proof fn lemma_rest_of_an_event(event: Seq<u8>, k: int, from: int)
    requires
        0 <= k <= from <= event.len(),
    ensures
        said_from(event, from) == said_from(event.skip(k), from - k),
    decreases event.len() - from,
{
    let rest = event.skip(k);
    lemma_end_of_rest(event, k, from);
    lemma_line_end(event, from);
    let end = line_end(event, from);
    assert(event.subrange(from, end) =~= rest.subrange(from - k, end - k));
    if end < event.len() {
        lemma_rest_of_an_event(event, k, end + 1);
    }
}

proof fn lemma_end_of_rest(event: Seq<u8>, k: int, from: int)
    requires
        0 <= k <= from <= event.len(),
    ensures
        line_end(event.skip(k), from - k) == line_end(event, from) - k,
    decreases event.len() - from,
{
    if from < event.len() && event[from] != 10 {
        lemma_end_of_rest(event, k, from + 1);
    }
}

/// Every text that is sent as an event of one line comes out as that line, and what
/// follows it is read as if it came alone; what is not complete says nothing yet.
pub proof fn law_sent_lines_come_out(text: Seq<char>, bytes: Seq<u8>, more: Seq<u8>)
    requires
        text_of(bytes) == Some(text),
        !bytes.contains(10),
        bytes.len() > 0 ==> bytes.last() != 13,
    ensures
        ({
            let line = seq![0x64u8, 0x61, 0x74, 0x61, 0x3a, 0x20] + bytes;
            &&& said(line.push(10).push(10) + more) == seq![text] + said(more)
            &&& unread(line.push(10).push(10) + more) == unread(more)
            &&& said(line.push(10)) == Seq::<Seq<char>>::empty()
            &&& unread(line.push(10)) == line.push(10)
        }),
{
    let line = seq![0x64u8, 0x61, 0x74, 0x61, 0x3a, 0x20] + bytes;
    let n = line.len() as int;
    let event = line.push(10).push(10);
    let all = event + more;
    assert(!line.contains(10)) by {
        if line.contains(10) {
            let i = choose|i: int| 0 <= i < line.len() && line[i] == 10;
            if i >= 6 {
                assert(bytes[i - 6] == 10);
            }
        }
    }
    assert forall|i: int| 0 <= i < n implies all[i] != 10 && line.push(10)[i] != 10 by {
        assert(all[i] == line[i] && line.push(10)[i] == line[i]);
        assert(line.contains(line[i]));
    }
    law_first_empty_line(all, 0);
    law_first_empty_line(line.push(10), 0);
    assert(all[n] == 10 && all[n + 1] == 10);
    let p = break_from(all, 0);
    assert(p == n) by {
        if p < 0 || n < p {
            assert(!(all[n] == 10 && all[n + 1] == 10));
        }
    }
    assert(all.take(n + 2) =~= event);
    assert(all.skip(n + 2) =~= more);
    law_line_of_data(bytes, line);
    let tail = seq![10u8];
    assert(event =~= line.push(10) + tail);
    law_lines_of_an_event(line, tail);
    let nothing = Seq::<u8>::empty();
    assert(tail =~= nothing.push(10) + nothing);
    law_lines_of_an_event(nothing, nothing);
    law_line_of_data(nothing, nothing);
    assert(said_from(tail, 0) =~= Seq::<Seq<char>>::empty());
    assert(said_from(event, 0) =~= seq![text]);
}

} // verus!
