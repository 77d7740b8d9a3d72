//! Line-delimited JSON: one record per line, each line ending in a single
//! newline.

use vstd::prelude::*;
use vstd::string::*;
use crate::text::{join2, texts};

verus! {

/// The line that carries `json`: the text itself, then a newline.
pub open spec fn framed(json: Seq<char>) -> Seq<char> {
    json.push('\n')
}

/// The lines that carry each of `records`, in order.
pub open spec fn framed_all(records: Seq<Seq<char>>) -> Seq<Seq<char>> {
    records.map_values(|r: Seq<char>| framed(r))
}

/// The line that carries the record encoded as `json`.
pub fn frame_line(json: &str) -> (line: String)
    ensures
        line@ == framed(json@),
{
    proof {
        reveal_strlit("\n");
        assert(json@ + "\n"@ =~= framed(json@));
    }
    join2(json, "\n")
}

/// Frames encoded records as lines and holds them until they are taken for
/// writing. Its view is the list of lines held, oldest first.
pub struct NdjsonWriter {
    lines: Vec<String>,
}

impl View for NdjsonWriter {
    type V = Seq<Seq<char>>;

    closed spec fn view(&self) -> Seq<Seq<char>> {
        texts(self.lines@)
    }
}

impl NdjsonWriter {
    /// A writer that holds no line.
    pub fn new() -> (w: Self)
        ensures
            w@ == Seq::<Seq<char>>::empty(),
    {
        let w = NdjsonWriter { lines: Vec::new() };
        assert(w@ =~= Seq::<Seq<char>>::empty());
        w
    }

    /// Adds the line that carries the record encoded as `json`.
    pub fn write(&mut self, json: &str)
        ensures
            final(self)@ == old(self)@.push(framed(json@)),
    {
        let line = frame_line(json);
        self.lines.push(line);
        assert(self@ =~= old(self)@.push(framed(json@)));
    }

    /// How many lines are held.
    pub fn len(&self) -> (n: usize)
        ensures
            n == self@.len(),
    {
        self.lines.len()
    }

    /// Hands out the lines held, oldest first, and holds none afterwards.
    pub fn take_lines(&mut self) -> (out: Vec<String>)
        ensures
            texts(out@) == old(self)@,
            final(self)@ == Seq::<Seq<char>>::empty(),
    {
        let mut out: Vec<String> = Vec::new();
        std::mem::swap(&mut out, &mut self.lines);
        assert(self@ =~= Seq::<Seq<char>>::empty());
        out
    }
}

impl Default for NdjsonWriter {
    fn default() -> (w: Self)
        ensures
            w@ == Seq::<Seq<char>>::empty(),
    {
        NdjsonWriter::new()
    }
}

/// Framing loses nothing: a line gives back the text it carries, it holds
/// its newline at the end, and two texts with the same line are the same.
pub proof fn lemma_framing_is_lossless(a: Seq<char>, b: Seq<char>)
    ensures
        framed(a).drop_last() == a,
        framed(a).last() == '\n',
        framed(a).len() == a.len() + 1,
        framed(a) == framed(b) ==> a == b,
{
    assert(framed(a).drop_last() =~= a);
    if framed(a) == framed(b) {
        assert(framed(b).drop_last() =~= b);
    }
}

} // verus!
