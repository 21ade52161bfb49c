//! The scrollback: received bytes cut into lines at line feeds, sent commands echoed as lines,
//! and at most a configured number of lines kept.
use vstd::prelude::*;

use crate::text::{decode_lossy, decoded};

verus! {

/// How a line ended.
#[derive(Clone, Copy, Debug, PartialEq, Eq, Structural)]
pub enum LineEnding {
    /// No line ending (a sent command as it was echoed).
    NoEnding,
    /// A line feed.
    Lf,
    /// A carriage return and a line feed.
    CrLf,
}

/// The marker shown after a line when line endings are displayed.
pub open spec fn ending_label(e: LineEnding) -> Seq<char> {
    match e {
        LineEnding::NoEnding => ""@,
        LineEnding::Lf => "\\n"@,
        LineEnding::CrLf => "\\r\\n"@,
    }
}

impl LineEnding {
    /// The marker shown after a line when line endings are displayed.
    pub fn display(&self) -> (s: &'static str)
        ensures
            s@ == ending_label(*self),
    {
        match self {
            LineEnding::NoEnding => "",
            LineEnding::Lf => "\\n",
            LineEnding::CrLf => "\\r\\n",
        }
    }
}

/// One line of the scrollback.
#[derive(Debug)]
pub struct LineEntry {
    /// The line decoded as UTF-8 (invalid sequences replaced), without its ending.
    pub text: String,
    /// The bytes received for the line, its ending included.
    pub raw_bytes: Vec<u8>,
    pub line_ending: LineEnding,
    /// Whether this is a command that was sent rather than received.
    pub is_sent: bool,
    /// When the line was completed, in milliseconds.
    pub timestamp_ms: u64,
}

/// Abstract value of a line: its text, its bytes without the ending, the ending, whether it
/// was sent, and when it was completed.
pub ghost struct LineView {
    pub text: Seq<char>,
    pub content: Seq<u8>,
    pub ending: LineEnding,
    pub sent: bool,
    pub time: u64,
}

/// The bytes that end a line.
pub open spec fn ending_bytes(e: LineEnding) -> Seq<u8> {
    match e {
        LineEnding::NoEnding => Seq::empty(),
        LineEnding::Lf => seq![10u8],
        LineEnding::CrLf => seq![13u8, 10u8],
    }
}

impl LineEntry {
    pub open spec fn line(&self) -> LineView {
        LineView {
            text: self.text@,
            content: if self.raw_bytes@.len() >= ending_bytes(self.line_ending).len() {
                self.raw_bytes@.take(self.raw_bytes@.len() - ending_bytes(self.line_ending).len())
            } else {
                Seq::empty()
            },
            ending: self.line_ending,
            sent: self.is_sent,
            time: self.timestamp_ms,
        }
    }

    /// The raw bytes are the content and its ending, and a received line's text is its content
    /// decoded; a sent line keeps its text as is.
    pub open spec fn wf(&self) -> bool {
        &&& self.raw_bytes@ == self.line().content + ending_bytes(self.line_ending)
        &&& !self.is_sent ==> self.text@ == decoded(self.line().content)
    }
}

/// Abstract value of the scrollback.
pub ghost struct BufferView {
    pub lines: Seq<LineView>,
    /// Bytes received since the last line feed.
    pub partial: Seq<u8>,
    pub max_lines: nat,
}

/// `lines` with the oldest dropped until at most `max` remain.
pub open spec fn keep_last(lines: Seq<LineView>, max: nat) -> Seq<LineView> {
    if lines.len() > max {
        lines.skip(lines.len() - max)
    } else {
        lines
    }
}

/// The scrollback after one more received byte at time `now`: a line feed completes the
/// pending line (a carriage return just before it belongs to the ending), any other byte is
/// added to it.
pub open spec fn feed(v: BufferView, b: u8, now: u64) -> BufferView {
    if b == 10 {
        let crlf = v.partial.len() > 0 && v.partial.last() == 13;
        let content = if crlf { v.partial.drop_last() } else { v.partial };
        let line = LineView {
            text: decoded(content),
            content,
            ending: if crlf { LineEnding::CrLf } else { LineEnding::Lf },
            sent: false,
            time: now,
        };
        BufferView { lines: keep_last(v.lines.push(line), v.max_lines), partial: Seq::empty(), ..v }
    } else {
        BufferView { partial: v.partial.push(b), ..v }
    }
}

/// The scrollback after receiving `data` at time `now`.
pub open spec fn feed_all(v: BufferView, data: Seq<u8>, now: u64) -> BufferView
    decreases data.len(),
{
    if data.len() == 0 {
        v
    } else {
        feed(feed_all(v, data.drop_last(), now), data.last(), now)
    }
}

/// Received lines and echoed commands, oldest first.
pub struct ScrollbackBuffer {
    entries: Vec<LineEntry>,
    partial: Vec<u8>,
    max_lines: usize,
}

impl View for ScrollbackBuffer {
    type V = BufferView;

    closed spec fn view(&self) -> BufferView {
        BufferView {
            lines: self.entries@.map_values(|e: LineEntry| e.line()),
            partial: self.partial@,
            max_lines: self.max_lines as nat,
        }
    }
}

impl ScrollbackBuffer {
    /// At most `max_lines` lines, and every entry consistent.
    pub closed spec fn wf(&self) -> bool {
        &&& self.entries@.len() <= self.max_lines
        &&& forall|i: int| 0 <= i < self.entries@.len() ==> (#[trigger] self.entries@[i]).wf()
    }

    /// An empty scrollback keeping at most `max_lines` lines.
    pub fn new(max_lines: usize) -> (b: Self)
        ensures
            b.wf(),
            b@ == (BufferView { lines: Seq::empty(), partial: Seq::empty(), max_lines: max_lines as nat }),
    {
        let b = ScrollbackBuffer { entries: Vec::new(), partial: Vec::new(), max_lines };
        assert(b@.lines =~= Seq::<LineView>::empty());
        b
    }

    /// The most lines kept.
    pub fn max_lines(&self) -> (n: usize)
        ensures
            n == self@.max_lines,
    {
        self.max_lines
    }

    /// Number of complete lines.
    pub fn len(&self) -> (n: usize)
        ensures
            n == self@.lines.len(),
    {
        self.entries.len()
    }

    /// Lines to show: the complete ones and, when bytes are pending, the partial one.
    pub fn display_len(&self) -> (n: usize)
        requires
            self@.lines.len() < usize::MAX,
        ensures
            n == self@.lines.len() + if self@.partial.len() > 0 {
                1int
            } else {
                0
            },
    {
        if self.partial.len() > 0 {
            self.entries.len() + 1
        } else {
            self.entries.len()
        }
    }

    /// Line `i`, oldest first.
    pub fn get(&self, i: usize) -> (r: Option<&LineEntry>)
        requires
            self.wf(),
        ensures
            i < self@.lines.len() ==> (r matches Some(e) && e.line() == self@.lines[i as int] && e.wf()),
            i >= self@.lines.len() ==> r is None,
    {
        if i < self.entries.len() {
            Some(&self.entries[i])
        } else {
            None
        }
    }

    /// All lines, oldest first.
    pub fn entries(&self) -> (v: &Vec<LineEntry>)
        ensures
            v@.map_values(|e: LineEntry| e.line()) == self@.lines,
    {
        &self.entries
    }

    /// The text of each line, oldest first.
    pub open spec fn text_lines(&self) -> Seq<Seq<char>> {
        self@.lines.map_values(|l: LineView| l.text)
    }

    /// A received line's text is the decoding of its content.
    pub proof fn lemma_received_text(&self, i: int)
        requires
            self.wf(),
            0 <= i < self@.lines.len(),
            !self@.lines[i].sent,
        ensures
            self.text_lines()[i] == decoded(self@.lines[i].content),
    {
        assert(self.entries@[i].wf());
    }

    /// The text of every line, oldest first (what a search looks through).
    pub fn texts(&self) -> (v: Vec<String>)
        ensures
            v@.map_values(|s: String| s@) == self.text_lines(),
            v@.len() == self@.lines.len(),
    {
        let mut v: Vec<String> = Vec::new();
        for i in 0..self.entries.len()
            invariant
                v@.len() == i,
                forall|j: int| 0 <= j < i ==> #[trigger] v@[j] == self.entries@[j].text,
        {
            v.push(self.entries[i].text.clone());
        }
        assert(v@.map_values(|s: String| s@) =~= self.text_lines()) by {
            assert(self@.lines == self.entries@.map_values(|e: LineEntry| e.line()));
        }
        v
    }

    /// The pending bytes decoded, when there are any.
    pub fn partial_line(&self) -> (r: Option<String>)
        ensures
            self@.partial.len() == 0 ==> r is None,
            self@.partial.len() > 0 ==> (r matches Some(s) && s@ == decoded(self@.partial)),
    {
        if self.partial.len() == 0 {
            None
        } else {
            Some(decode_lossy(self.partial.as_slice()))
        }
    }

    /// Removes every line and the pending bytes.
    pub fn clear(&mut self)
        requires
            old(self).wf(),
        ensures
            final(self).wf(),
            final(self)@ == (BufferView { lines: Seq::empty(), partial: Seq::empty(), ..old(self)@ }),
    {
        self.entries = Vec::new();
        self.partial = Vec::new();
        assert(self@.lines =~= Seq::<LineView>::empty());
    }

    /// Adds a line, dropping the oldest when over the limit.
    fn add_line(&mut self, entry: LineEntry)
        requires
            old(self).wf(),
            entry.wf(),
        ensures
            final(self).wf(),
            final(self)@ == (BufferView {
                lines: keep_last(old(self)@.lines.push(entry.line()), old(self)@.max_lines),
                ..old(self)@
            }),
    {
        let ghost before = self@.lines;
        self.entries.push(entry);
        assert(self.entries@.map_values(|e: LineEntry| e.line()) =~= before.push(entry.line()));
        if self.entries.len() > self.max_lines {
            let ghost pushed = self.entries@;
            self.entries.remove(0);
            assert(self.entries@ =~= pushed.skip(1));
            assert(self.entries@.map_values(|e: LineEntry| e.line()) =~= before.push(entry.line()).skip(1));
        }
    }

    /// Echoes a sent command as a line of its own, with `text` as the line's text.
    pub fn push_sent_line(&mut self, text: String, now_ms: u64)
        requires
            old(self).wf(),
        ensures
            final(self).wf(),
            final(self)@ == (BufferView {
                lines: keep_last(
                    old(self)@.lines.push(
                        LineView { text: text@, content: Seq::empty(), ending: LineEnding::NoEnding, sent: true, time: now_ms },
                    ),
                    old(self)@.max_lines,
                ),
                ..old(self)@
            }),
    {
        let entry = LineEntry {
            text,
            raw_bytes: Vec::new(),
            line_ending: LineEnding::NoEnding,
            is_sent: true,
            timestamp_ms: now_ms,
        };
        assert(entry.raw_bytes@.take(0) =~= Seq::<u8>::empty());
        assert(entry.raw_bytes@ =~= entry.line().content + ending_bytes(entry.line_ending));
        self.add_line(entry);
    }

    /// Takes in received bytes at time `now`: each line feed completes a line.
    pub fn push_bytes(&mut self, data: &[u8], now_ms: u64)
        requires
            old(self).wf(),
        ensures
            final(self).wf(),
            final(self)@ == feed_all(old(self)@, data@, now_ms),
    {
        let mut i: usize = 0;
        assert(data@.take(0) =~= Seq::<u8>::empty());
        while i < data.len()
            invariant
                i <= data@.len(),
                self.wf(),
                self@ == feed_all(old(self)@, data@.take(i as int), now_ms),
            decreases data.len() - i,
        {
            let b = data[i];
            proof {
                assert(data@.take(i + 1).drop_last() =~= data@.take(i as int));
            }
            let ghost v0 = self@;
            if b == 10 {
                let n = self.partial.len();
                let crlf = n > 0 && self.partial[n - 1] == 13;
                let mut content: Vec<u8> = Vec::new();
                let keep = if crlf {
                    n - 1
                } else {
                    n
                };
                let mut j: usize = 0;
                while j < keep
                    invariant
                        keep <= self.partial@.len(),
                        j <= keep,
                        content@ == self.partial@.take(j as int),
                    decreases keep - j,
                {
                    content.push(self.partial[j]);
                    assert(self.partial@.take(j + 1) =~= self.partial@.take(j as int).push(self.partial@[j as int]));
                    j = j + 1;
                }
                let text = decode_lossy(content.as_slice());
                let mut raw = content.clone();
                assert(raw@ == content@);
                if crlf {
                    raw.push(13);
                }
                raw.push(10);
                let entry = LineEntry {
                    text,
                    raw_bytes: raw,
                    line_ending: if crlf {
                        LineEnding::CrLf
                    } else {
                        LineEnding::Lf
                    },
                    is_sent: false,
                    timestamp_ms: now_ms,
                };
                proof {
                    let eb = ending_bytes(entry.line_ending);
                    assert(entry.raw_bytes@ =~= content@ + eb);
                    assert(entry.raw_bytes@.take(entry.raw_bytes@.len() - eb.len()) =~= content@);
                    if crlf {
                        assert(content@ =~= v0.partial.drop_last());
                    } else {
                        assert(content@ =~= v0.partial);
                    }
                }
                self.partial = Vec::new();
                self.add_line(entry);
                assert(self@.partial =~= Seq::<u8>::empty());
            } else {
                self.partial.push(b);
            }
            i = i + 1;
        }
        assert(data@.take(data@.len() as int) =~= data@);
    }
}

/// The bytes the lines stand for: each line's content and ending, in order.
pub open spec fn stream(lines: Seq<LineView>) -> Seq<u8>
    decreases lines.len(),
{
    if lines.len() == 0 {
        Seq::empty()
    } else {
        stream(lines.drop_last()) + lines.last().content + ending_bytes(lines.last().ending)
    }
}

/// Receiving data, when the limit drops no line, keeps every byte: the received lines and the
/// pending bytes make up what was pending before followed by the data.
pub proof fn law_received_bytes_kept(v: BufferView, data: Seq<u8>, now: u64)
    requires
        v.lines.len() + data.len() <= v.max_lines,
    ensures
        stream(feed_all(v, data, now).lines) + feed_all(v, data, now).partial == stream(v.lines) + v.partial
            + data,
        feed_all(v, data, now).lines.len() >= v.lines.len(),
        feed_all(v, data, now).lines.len() <= v.lines.len() + data.len(),
        feed_all(v, data, now).lines.take(v.lines.len() as int) == v.lines,
        feed_all(v, data, now).max_lines == v.max_lines,
    decreases data.len(),
{
    if data.len() > 0 {
        let d = data.drop_last();
        law_received_bytes_kept(v, d, now);
        let w = feed_all(v, d, now);
        let b = data.last();
        assert(data =~= d.push(b));
        if b == 10 {
            let crlf = w.partial.len() > 0 && w.partial.last() == 13;
            let content = if crlf { w.partial.drop_last() } else { w.partial };
            let line = LineView {
                text: decoded(content),
                content,
                ending: if crlf { LineEnding::CrLf } else { LineEnding::Lf },
                sent: false,
                time: now,
            };
            assert(w.lines.push(line).len() <= v.max_lines);
            assert(keep_last(w.lines.push(line), v.max_lines) == w.lines.push(line));
            assert(w.lines.push(line).drop_last() =~= w.lines);
            if crlf {
                assert(w.partial =~= w.partial.drop_last().push(13u8));
            }
            assert(line.content + ending_bytes(line.ending) =~= w.partial.push(10u8));
            assert(stream(w.lines.push(line)) =~= stream(w.lines) + w.partial.push(10u8));
            assert(w.lines.push(line).take(v.lines.len() as int) =~= w.lines.take(v.lines.len() as int));
            assert(feed_all(v, data, now) == feed(w, b, now));
            assert(feed(w, b, now).lines == w.lines.push(line));
            assert(stream(w.lines.push(line)) + Seq::<u8>::empty() =~= stream(w.lines) + w.partial + seq![b]);
        } else {
            assert(feed_all(v, data, now) == feed(w, b, now));
            assert(stream(w.lines) + w.partial.push(b) =~= stream(w.lines) + w.partial + seq![b]);
        }
        assert(stream(v.lines) + v.partial + data =~= stream(v.lines) + v.partial + d + seq![b]);
    }
}

} // verus!
