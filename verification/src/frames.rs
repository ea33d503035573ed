//! The frames that a recording holds.

use vstd::prelude::*;
use vstd::string::*;
use vstd::utf8::encode_utf8;

use crate::json::{empty_object, json_parse, json_text, reads_back, Json, JsonSpec};
use crate::strs::{index_of_char, lemma_index_of_char, text_lines, without_cr};

verus! {

/// Which way a frame went.
#[derive(Debug, Clone, Copy, PartialEq, Eq, Structural)]
pub enum Direction {
    /// From the client to the agent.
    Send,
    /// From the agent to the client.
    Recv,
}

impl Direction {
    /// How the direction is written.
    pub open spec fn spelled(self) -> Seq<char> {
        match self {
            Direction::Send => "send"@,
            Direction::Recv => "recv"@,
        }
    }

    /// How the direction is written.
    pub fn as_str(self) -> (r: &'static str)
        ensures
            r@ == self.spelled(),
    {
        match self {
            Direction::Send => "send",
            Direction::Recv => "recv",
        }
    }
}

/// A frame and which way it went.
pub struct Frame {
    pub direction: Direction,
    pub json: Json,
}

/// A frame and which way it went.
#[verifier::ext_equal]
pub struct FrameSpec {
    pub direction: Direction,
    pub json: JsonSpec,
}

impl Frame {
    /// What the frame holds.
    pub open spec fn view(&self) -> FrameSpec {
        FrameSpec { direction: self.direction, json: self.json@ }
    }

    /// A frame that the client sent.
    pub fn send(json: Json) -> (r: Frame)
        ensures
            r@ == (FrameSpec { direction: Direction::Send, json: json@ }),
    {
        Frame { direction: Direction::Send, json }
    }

    /// A frame that the client received.
    pub fn recv(json: Json) -> (r: Frame)
        ensures
            r@ == (FrameSpec { direction: Direction::Recv, json: json@ }),
    {
        Frame { direction: Direction::Recv, json }
    }
}

/// What the frames of a list hold.
pub open spec fn frames(v: Seq<Frame>) -> Seq<FrameSpec> {
    Seq::new(v.len(), |i: int| v[i]@)
}

/// A frame as one line of a recording.
pub struct FrameLine {
    pub direction: Direction,
    pub frame: Json,
}

/// A frame as one line of a recording.
pub open spec fn line_json(f: FrameSpec) -> JsonSpec {
    empty_object().with("direction"@, JsonSpec::Str(f.direction.spelled())).with("frame"@, f.json)
}

impl FrameLine {
    /// The line of a frame.
    pub fn from(frame: &Frame) -> (r: FrameLine)
        ensures
            r.direction == frame.direction,
            r.frame@ == frame.json@,
    {
        FrameLine { direction: frame.direction, frame: frame.json.copy() }
    }

    /// The line as a JSON value.
    pub fn to_json(&self) -> (r: Json)
        ensures
            r@ == line_json((FrameSpec { direction: self.direction, json: self.frame@ })),
    {
        Json::object().with("direction", Json::text(self.direction.as_str())).with(
            "frame",
            self.frame.copy(),
        )
    }
}

/// The line that a frame is printed on.
pub open spec fn frame_text(f: FrameSpec) -> Seq<char> {
    json_text(line_json(f))
}

/// A recording: one line for each frame, in order.
pub open spec fn rendered(fs: Seq<FrameSpec>) -> Seq<char>
    decreases fs.len(),
{
    if fs.len() == 0 {
        Seq::empty()
    } else {
        rendered(fs.drop_last()) + frame_text(fs.last()).push('\n')
    }
}

/// A text that can stand on a line of its own.
spec fn one_line(t: Seq<char>) -> bool {
    !t.contains('\n') && !t.contains('\r')
}

/// A text of lines that each end with a newline.
spec fn whole_lines(s: Seq<char>) -> bool {
    s.len() == 0 || s.last() == '\n'
}

proof fn lemma_add_line(s: Seq<char>, t: Seq<char>)
    requires
        whole_lines(s),
        one_line(t),
    ensures
        text_lines(s + t.push('\n')) == text_lines(s).push(t),
    decreases s.len(),
{
    let all = s + t.push('\n');
    if s.len() == 0 {
        assert(all =~= t.push('\n'));
        assert forall|j: int| 0 <= j < t.len() implies all[j] != '\n' by {
            assert(t.contains(t[j]));
        }
        lemma_index_of_char(all, '\n', t.len() as int);
        assert(all.take(t.len() as int) =~= t);
        if t.len() > 0 {
            assert(t.contains(t.last()));
        }
        assert(all.skip((t.len() + 1) as int) =~= Seq::empty());
        assert(text_lines(Seq::<char>::empty()) =~= Seq::empty());
        assert(without_cr(t) == t);
        assert(text_lines(all) =~= text_lines(s).push(t));
    } else {
        let i = index_of_char(s, '\n');
        lemma_first_newline(s, t.push('\n'));
        let rest = s.skip(i + 1);
        assert(all.take(i) =~= s.take(i));
        assert(all.skip(i + 1) =~= rest + t.push('\n'));
        if rest.len() > 0 {
            assert(rest.last() == s.last());
        }
        lemma_add_line(rest, t);
        assert(text_lines(all) =~= text_lines(s).push(t));
    }
}

proof fn lemma_first_newline(s: Seq<char>, more: Seq<char>)
    requires
        s.len() > 0,
        s.last() == '\n',
    ensures
        0 <= index_of_char(s, '\n') < s.len(),
        index_of_char(s + more, '\n') == index_of_char(s, '\n'),
    decreases s.len(),
{
    if s[0] == '\n' {
        assert((s + more)[0] == '\n');
    } else {
        assert(s.len() > 1);
        let t = s.drop_first();
        lemma_first_newline(t, more);
        assert((s + more).drop_first() =~= t + more);
    }
}

/// Prints a recording. Its lines are those of the frames, in order; a frame that
/// holds no float, and is not nested too deep, is read back from its line.
pub fn render_frames(frames_in: &Vec<Frame>) -> (r: String)
    ensures
        r@ == rendered(frames(frames_in@)),
        text_lines(r@) == frames(frames_in@).map_values(|f: FrameSpec| frame_text(f)),
        forall|i: int|
            #![trigger frames_in@[i]]
            0 <= i < frames_in@.len() && reads_back(line_json(frames_in@[i]@), 127) ==> json_parse(
                encode_utf8(text_lines(r@)[i]),
            ) == Some(line_json(frames_in@[i]@)),
{
    let ghost all = frames(frames_in@);
    let mut out = String::new();
    let mut i: usize = 0;
    proof {
        assert(all.take(0).map_values(|f: FrameSpec| frame_text(f)) =~= text_lines(out@));
    }
    while i < frames_in.len()
        invariant
            i <= frames_in@.len(),
            all == frames(frames_in@),
            whole_lines(out@),
            out@ == rendered(all.take(i as int)),
            text_lines(out@) == all.take(i as int).map_values(|f: FrameSpec| frame_text(f)),
            forall|k: int|
                #![trigger frames_in@[k]]
                0 <= k < i && reads_back(line_json(frames_in@[k]@), 127) ==> json_parse(
                    encode_utf8(frame_text(frames_in@[k]@)),
                ) == Some(line_json(frames_in@[k]@)),
        decreases frames_in@.len() - i,
    {
        let ghost before = out@;
        let line = FrameLine::from(&frames_in[i]);
        let text = line.to_json().to_text();
        proof {
            assert(text@ == frame_text(frames_in@[i as int]@));
            lemma_add_line(before, text@);
            assert(all.take(i + 1).drop_last() =~= all.take(i as int));
            assert(all.take(i + 1).last() == frames_in@[i as int]@);
        }
        out.append(text.as_str());
        out.append("\n");
        proof {
            reveal_strlit("\n");
            assert(out@ =~= before + text@.push('\n'));
            assert(all.take(i + 1).map_values(|f: FrameSpec| frame_text(f)) =~= text_lines(
                before,
            ).push(text@));
        }
        i += 1;
    }
    proof {
        assert(all.take(i as int) =~= all);
    }
    out
}

/// The three arguments of the recorder: the agent's command, the script and the
/// file that the recording goes to.
pub fn parse_args(args: &Vec<String>) -> (r: Option<(&str, &str, &str)>)
    ensures
        match r {
            Some(t) => args@.len() == 3 && t.0@ == args@[0]@ && t.1@ == args@[1]@ && t.2@
                == args@[2]@,
            None => args@.len() != 3,
        },
{
    if args.len() != 3 {
        return None;
    }
    Some((args[0].as_str(), args[1].as_str(), args[2].as_str()))
}

} // verus!
