//! The line codec of the child's output: newline-delimited JSON.
//!
//! [`LineCodec`] splits a byte stream into lines, whatever the chunks it comes
//! in. A line is handed out only once its newline has arrived, so a character
//! that straddles two chunks is whole by then. A line that is not JSON is
//! skipped, and the stream goes on.

use vstd::prelude::*;
use vstd::string::*;
use vstd::utf8::*;

use crate::json::{json_parse, json_text, jsons, reads_back, Json, JsonSpec};

verus! {

/// The position of the first newline; the length if there is none.
pub open spec fn newline_at(s: Seq<u8>) -> int
    decreases s.len(),
{
    if s.len() == 0 {
        0
    } else if s[0] == 10 {
        0
    } else {
        1 + newline_at(s.drop_first())
    }
}

/// A line without the carriage return at its end.
pub open spec fn strip_cr(line: Seq<u8>) -> Seq<u8> {
    if line.len() > 0 && line.last() == 13 {
        line.drop_last()
    } else {
        line
    }
}

/// The complete lines of a stream.
pub open spec fn complete(s: Seq<u8>) -> Seq<Seq<u8>>
    decreases s.len(),
{
    let i = newline_at(s);
    if 0 <= i < s.len() {
        seq![strip_cr(s.take(i))] + complete(s.skip(i + 1))
    } else {
        Seq::empty()
    }
}

/// What stands behind the last newline of a stream.
pub open spec fn partial(s: Seq<u8>) -> Seq<u8>
    decreases s.len(),
{
    let i = newline_at(s);
    if 0 <= i < s.len() {
        partial(s.skip(i + 1))
    } else {
        s
    }
}

/// All the lines of a stream that has ended.
pub open spec fn all_lines(s: Seq<u8>) -> Seq<Seq<u8>> {
    complete(s) + last_line(partial(s))
}

/// What an unfinished line is at the end of the stream.
pub open spec fn last_line(rest: Seq<u8>) -> Seq<Seq<u8>> {
    if rest.len() == 0 {
        Seq::empty()
    } else {
        seq![strip_cr(rest)]
    }
}

/// The bytes of the lines of a list.
pub open spec fn byte_lines(v: Seq<Vec<u8>>) -> Seq<Seq<u8>> {
    Seq::new(v.len(), |i: int| v[i]@)
}

/// The values of the lines that are JSON, in order.
pub open spec fn parsed(lines: Seq<Seq<u8>>) -> Seq<JsonSpec>
    decreases lines.len(),
{
    if lines.len() == 0 {
        Seq::empty()
    } else {
        match json_parse(lines.last()) {
            Some(j) => parsed(lines.drop_last()).push(j),
            None => parsed(lines.drop_last()),
        }
    }
}

/// The first newline of a byte string is the one with none before it.
pub proof fn lemma_newline_at(s: Seq<u8>, i: int)
    requires
        0 <= i <= s.len(),
        forall|j: int| 0 <= j < i ==> s[j] != 10,
        i < s.len() ==> s[i] == 10,
    ensures
        newline_at(s) == i,
    decreases s.len(),
{
    if s.len() > 0 && i > 0 {
        lemma_newline_at(s.drop_first(), i - 1);
    }
}

proof fn lemma_newline_at_bounds(s: Seq<u8>)
    ensures
        0 <= newline_at(s) <= s.len(),
        newline_at(s) < s.len() ==> s[newline_at(s)] == 10,
        forall|j: int| 0 <= j < newline_at(s) ==> s[j] != 10,
    decreases s.len(),
{
    if s.len() > 0 && s[0] != 10 {
        let t = s.drop_first();
        lemma_newline_at_bounds(t);
        let i = newline_at(t);
        assert(i < t.len() ==> t[i] == s[i + 1]);
        assert forall|j: int| 0 <= j < i + 1 implies s[j] != 10 by {
            if j > 0 {
                assert(t[j - 1] == s[j]);
            }
        }
    }
}

/// Reading a stream in two chunks gives the lines of the whole: those of the
/// first chunk, then those of what was left of it and the second.
pub proof fn law_chunks_do_not_matter(s: Seq<u8>, t: Seq<u8>)
    ensures
        complete(s + t) == complete(s) + complete(partial(s) + t),
        partial(s + t) == partial(partial(s) + t),
    decreases s.len(),
{
    lemma_newline_at_bounds(s);
    let i = newline_at(s);
    if i < s.len() {
        lemma_newline_at(s + t, i);
        assert((s + t).take(i) =~= s.take(i));
        assert((s + t).skip(i + 1) =~= s.skip(i + 1) + t);
        law_chunks_do_not_matter(s.skip(i + 1), t);
        assert(complete(s + t) =~= complete(s) + complete(partial(s) + t));
    } else {
        assert(complete(s + t) =~= complete(s) + complete(partial(s) + t));
    }
}

/// What a codec has put out of these chunks, and what it keeps of them.
pub open spec fn fed(chunks: Seq<Seq<u8>>) -> (Seq<Seq<u8>>, Seq<u8>)
    decreases chunks.len(),
{
    if chunks.len() == 0 {
        (Seq::empty(), Seq::empty())
    } else {
        let (lines, kept) = fed(chunks.drop_last());
        (lines + complete(kept + chunks.last()), partial(kept + chunks.last()))
    }
}

/// The stream that these chunks are cut from.
pub open spec fn stream_of(chunks: Seq<Seq<u8>>) -> Seq<u8>
    decreases chunks.len(),
{
    if chunks.len() == 0 {
        Seq::empty()
    } else {
        stream_of(chunks.drop_last()) + chunks.last()
    }
}

/// However a stream is cut into chunks, a codec that is fed all of them and then
/// told of the end has put out the lines of the stream.
pub proof fn law_stream_gives_its_lines(chunks: Seq<Seq<u8>>)
    ensures
        fed(chunks).0 == complete(stream_of(chunks)),
        fed(chunks).1 == partial(stream_of(chunks)),
        fed(chunks).0 + last_line(fed(chunks).1) == all_lines(stream_of(chunks)),
    decreases chunks.len(),
{
    if chunks.len() > 0 {
        law_stream_gives_its_lines(chunks.drop_last());
        law_chunks_do_not_matter(stream_of(chunks.drop_last()), chunks.last());
    } else {
        assert(newline_at(Seq::<u8>::empty()) == 0);
    }
}

/// What is left unfinished holds no newline.
pub proof fn law_partial_has_no_newline(s: Seq<u8>)
    ensures
        !partial(s).contains(10),
    decreases s.len(),
{
    lemma_newline_at_bounds(s);
    let i = newline_at(s);
    if i < s.len() {
        law_partial_has_no_newline(s.skip(i + 1));
    }
}

/// A line written with its newline is read back as it was, before whatever
/// follows it.
pub proof fn law_line_is_read_back(line: Seq<u8>, rest: Seq<u8>)
    requires
        !line.contains(10),
        line.len() > 0 ==> line.last() != 13,
    ensures
        complete(line + seq![10u8] + rest) == seq![line] + complete(rest),
        partial(line + seq![10u8] + rest) == partial(rest),
{
    let s = line + seq![10u8] + rest;
    assert forall|j: int| 0 <= j < line.len() implies s[j] != 10 by {
        assert(s[j] == line[j]);
        assert(line.contains(line[j]));
    }
    lemma_newline_at(s, line.len() as int);
    assert(s.take(line.len() as int) =~= line);
    assert(s.skip(line.len() as int + 1) =~= rest);
}

proof fn lemma_push_byte(s: Seq<u8>, b: u8)
    ensures
        b == 10 ==> complete(s.push(b)) == complete(s).push(strip_cr(partial(s))) && partial(
            s.push(b),
        ) == Seq::<u8>::empty(),
        b != 10 ==> complete(s.push(b)) == complete(s) && partial(s.push(b)) == partial(s).push(b),
{
    law_chunks_do_not_matter(s, seq![b]);
    law_partial_has_no_newline(s);
    let p = partial(s);
    let q = p + seq![b];
    assert(s + seq![b] =~= s.push(b));
    assert(q =~= p.push(b));
    assert forall|j: int| 0 <= j < p.len() implies q[j] != 10 by {
        assert(p.contains(p[j]));
    }
    if b == 10 {
        lemma_newline_at(q, p.len() as int);
        assert(q.take(p.len() as int) =~= p);
        assert(q.skip(p.len() as int + 1) =~= Seq::<u8>::empty());
        let nothing = Seq::<u8>::empty();
        assert(complete(nothing) == Seq::<Seq<u8>>::empty());
        assert(partial(nothing) == nothing);
        assert(complete(q) =~= seq![strip_cr(p)]);
        assert(complete(s.push(b)) =~= complete(s).push(strip_cr(p)));
    } else {
        lemma_newline_at(q, q.len() as int);
        assert(complete(s.push(b)) =~= complete(s));
    }
}

/// Splits a byte stream into lines.
pub struct LineCodec {
    pending: Vec<u8>,
}

impl LineCodec {
    /// The bytes of the line that is not finished yet.
    pub closed spec fn view(&self) -> Seq<u8> {
        self.pending@
    }

    #[verifier::type_invariant]
    spec fn inv(self) -> bool {
        !self.pending@.contains(10)
    }

    /// A codec that has read nothing.
    pub fn new() -> (r: LineCodec)
        ensures
            r@ == Seq::<u8>::empty(),
    {
        LineCodec { pending: Vec::new() }
    }

    /// Whether no unfinished line is kept.
    pub fn is_empty(&self) -> (r: bool)
        ensures
            r == (self@.len() == 0),
    {
        self.pending.len() == 0
    }

    /// Reads a chunk: the lines that it completes go to the end of `out`, what
    /// is left unfinished is kept.
    pub fn push(&mut self, bytes: &[u8], out: &mut Vec<Vec<u8>>)
        ensures
            byte_lines(final(out)@) == byte_lines(old(out)@) + complete(old(self)@ + bytes@),
            final(self)@ == partial(old(self)@ + bytes@),
    {
        proof {
            use_type_invariant(&*self);
        }
        let mut line: Vec<u8> = Vec::new();
        std::mem::swap(&mut line, &mut self.pending);
        let ghost before = line@;
        proof {
            assert forall|j: int| 0 <= j < before.len() implies before[j] != 10 by {
                assert(before.contains(before[j]));
            }
            lemma_newline_at(before, before.len() as int);
            assert(before + bytes@.take(0) =~= before);
            assert(byte_lines(out@) =~= byte_lines(out@) + complete(before));
        }
        let mut i: usize = 0;
        while i < bytes.len()
            invariant
                i <= bytes@.len(),
                byte_lines(out@) == byte_lines(old(out)@) + complete(
                    before + bytes@.take(i as int),
                ),
                line@ == partial(before + bytes@.take(i as int)),
            decreases bytes@.len() - i,
        {
            proof {
                assert(before + bytes@.take(i + 1) =~= (before + bytes@.take(i as int)).push(
                    bytes@[i as int],
                ));
            }
            proof {
                lemma_push_byte(before + bytes@.take(i as int), bytes@[i as int]);
            }
            let ghost lines_before = byte_lines(out@);
            let ghost line_before = line@;
            if bytes[i] == 10 {
                let mut done: Vec<u8> = Vec::new();
                std::mem::swap(&mut done, &mut line);
                if done.len() > 0 && done[done.len() - 1] == 13 {
                    done.pop();
                }
                proof {
                    assert(done@ =~= strip_cr(line_before));
                }
                out.push(done);
                proof {
                    assert(byte_lines(out@) =~= lines_before.push(strip_cr(line_before)));
                    assert(byte_lines(out@) =~= byte_lines(old(out)@) + complete(
                        before + bytes@.take(i + 1),
                    ));
                }
            } else {
                line.push(bytes[i]);
            }
            i += 1;
        }
        proof {
            assert(bytes@.take(i as int) =~= bytes@);
            law_partial_has_no_newline(before + bytes@);
        }
        self.pending = line;
    }

    /// The stream has ended: an unfinished line goes to the end of `out`.
    pub fn finish(&mut self, out: &mut Vec<Vec<u8>>)
        ensures
            byte_lines(final(out)@) == byte_lines(old(out)@) + last_line(old(self)@),
            final(self)@ == Seq::<u8>::empty(),
    {
        if self.pending.len() == 0 {
            proof {
                assert(self@ =~= Seq::<u8>::empty());
            }
            return ;
        }
        let mut line: Vec<u8> = Vec::new();
        std::mem::swap(&mut line, &mut self.pending);
        let ghost kept = line@;
        if line[line.len() - 1] == 13 {
            line.pop();
        }
        proof {
            assert(line@ =~= strip_cr(kept));
        }
        out.push(line);
        proof {
            assert(byte_lines(out@) =~= byte_lines(old(out)@) + last_line(old(self)@));
        }
    }
}

impl Default for LineCodec {
    fn default() -> (r: LineCodec)
        ensures
            r@ == Seq::<u8>::empty(),
    {
        LineCodec::new()
    }
}

/// Reads one line. A line that is not JSON gives nothing.
pub fn parse_line(line: &[u8]) -> (r: Option<Json>)
    ensures
        r matches Some(j) ==> json_parse(line@) == Some(j@),
        r is None ==> json_parse(line@) is None,
{
    Json::parse(line)
}

/// The values of the lines that are JSON, in order. Other lines are skipped.
pub fn parse_lines(lines: &Vec<Vec<u8>>) -> (r: Vec<Json>)
    ensures
        jsons(r@) == parsed(byte_lines(lines@)),
{
    let mut r: Vec<Json> = Vec::new();
    let mut i: usize = 0;
    while i < lines.len()
        invariant
            i <= lines@.len(),
            jsons(r@) == parsed(byte_lines(lines@).take(i as int)),
        decreases lines@.len() - i,
    {
        let ghost before = jsons(r@);
        proof {
            let all = byte_lines(lines@);
            assert(all.take(i + 1).drop_last() =~= all.take(i as int));
            assert(all.take(i + 1).last() == lines@[i as int]@);
        }
        if let Some(j) = parse_line(lines[i].as_slice()) {
            r.push(j);
            proof {
                assert(jsons(r@) =~= before.push(j@));
            }
        }
        i += 1;
    }
    proof {
        assert(byte_lines(lines@).take(i as int) =~= byte_lines(lines@));
    }
    r
}

/// A frame as it goes over the wire: its text and a newline.
pub open spec fn framed(j: JsonSpec) -> Seq<u8> {
    encode_utf8(json_text(j)).push(10)
}

/// The bytes of a frame on the wire.
pub fn encode_frame(frame: &Json) -> (r: Vec<u8>)
    ensures
        r@ == framed(frame@),
        reads_back(frame@, 127) ==> forall|rest: Seq<u8>|
            #![trigger complete(r@ + rest)]
            parsed(complete(r@ + rest)) == seq![frame@] + parsed(complete(rest)) && partial(
                r@ + rest,
            ) == partial(rest),
{
    let text = frame.to_text();
    let mut r = text.as_str().as_bytes_vec();
    let ghost line = r@;
    r.push(10);
    proof {
        lemma_no_control_byte(text@, '\n');
        lemma_no_control_byte(text@, '\r');
        if reads_back(frame@, 127) {
            assert forall|rest: Seq<u8>|
                #![trigger complete(r@ + rest)]
                parsed(complete(r@ + rest)) == seq![frame@] + parsed(complete(rest)) && partial(
                    r@ + rest,
                ) == partial(rest) by {
                if line.len() > 0 && line.last() == 13 {
                    assert(line.contains(13));
                }
                law_line_is_read_back(line, rest);
                assert(r@ + rest =~= line + seq![10u8] + rest);
                lemma_parsed_append(seq![line], complete(rest));
                assert(seq![line].drop_last() =~= Seq::<Seq<u8>>::empty());
                assert(parsed(seq![line].drop_last()) =~= Seq::<JsonSpec>::empty());
                assert(seq![line].last() == line);
                assert(parsed(seq![line]) =~= seq![frame@]);
            }
        }
    }
    r
}

proof fn lemma_parsed_append(a: Seq<Seq<u8>>, b: Seq<Seq<u8>>)
    ensures
        parsed(a + b) == parsed(a) + parsed(b),
    decreases b.len(),
{
    if b.len() == 0 {
        assert(a + b =~= a);
        assert(parsed(a) + parsed(b) =~= parsed(a));
    } else {
        lemma_parsed_append(a, b.drop_last());
        assert((a + b).drop_last() =~= a + b.drop_last());
        assert((a + b).last() == b.last());
        match json_parse(b.last()) {
            Some(j) => {
                assert((parsed(a) + parsed(b.drop_last())).push(j) =~= parsed(a) + parsed(
                    b.drop_last(),
                ).push(j));
            },
            None => {},
        }
    }
}

/// A text without a given ASCII character has no such byte in its encoding.
proof fn lemma_no_control_byte(s: Seq<char>, c: char)
    requires
        !s.contains(c),
        (c as u32) < 128,
    ensures
        !encode_utf8(s).contains(c as u8),
    decreases s.len(),
{
    if s.len() > 0 {
        let first = s[0];
        let rest = s.drop_first();
        assert(s.contains(first));
        assert forall|i: int| 0 <= i < rest.len() implies rest[i] != c by {
            assert(s[i + 1] == rest[i]);
            assert(s.contains(s[i + 1]));
        }
        assert(!rest.contains(c));
        lemma_no_control_byte(rest, c);
        lemma_scalar_bytes(first, c);
        assert(encode_utf8(s) == encode_scalar(first as u32) + encode_utf8(rest));
        assert forall|i: int| 0 <= i < encode_utf8(s).len() implies encode_utf8(s)[i] != c as u8 by {
            let head = encode_scalar(first as u32);
            if i < head.len() {
                assert(encode_utf8(s)[i] == head[i]);
                assert(head.contains(head[i]));
            } else {
                assert(encode_utf8(s)[i] == encode_utf8(rest)[i - head.len()]);
                assert(encode_utf8(rest).contains(encode_utf8(rest)[i - head.len()]));
            }
        }
    }
}

proof fn lemma_scalar_bytes(first: char, c: char)
    requires
        first != c,
        (c as u32) < 128,
    ensures
        !encode_scalar(first as u32).contains(c as u8),
{
    let v = first as u32;
    let b = c as u8;
    char_is_scalar(first);
    let cv = c as u32;
    assert(v <= 0x7F ==> (v & 0x7F) as u8 == v as u8) by (bit_vector);
    assert(v <= 0x7F && cv <= 0x7F && v != cv ==> v as u8 != cv as u8) by (bit_vector);
    assert(0xC0u8 | ((v >> 6) & 0x1F) as u8 >= 128) by (bit_vector);
    assert(0xE0u8 | ((v >> 12) & 0x0F) as u8 >= 128) by (bit_vector);
    assert(0xF0u8 | ((v >> 18) & 0x7) as u8 >= 128) by (bit_vector);
    assert(0x80u8 | (v & 0x3F) as u8 >= 128) by (bit_vector);
    assert(0x80u8 | ((v >> 6) & 0x3F) as u8 >= 128) by (bit_vector);
    assert(0x80u8 | ((v >> 12) & 0x3F) as u8 >= 128) by (bit_vector);
}

/// Why the reader of the stream stopped.
#[derive(Debug)]
pub enum CodecError {
    /// The stream could not be read.
    Read(String),
}

impl CodecError {
    /// What went wrong, in words.
    pub fn describe(&self) -> (r: String)
        ensures
            r@ == "failed to read child stdout: "@ + self->Read_0@,
    {
        match self {
            CodecError::Read(e) => {
                let mut r = "failed to read child stdout: ".to_owned();
                r.append(e.as_str());
                r
            },
        }
    }
}

} // verus!
