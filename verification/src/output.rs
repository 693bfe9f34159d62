//! The output sink: the one place through which every line for the terminal goes.
//!
//! A write adds one whole line behind the lines written before it. Lines are never
//! merged or split, and they leave in the order in which they were written.

use vstd::prelude::*;

verus! {

/// What kind of line this is, for the terminal to show it accordingly.
#[derive(Clone, Copy, Debug, PartialEq, Eq, Structural)]
pub enum Tone {
    /// The state of the connection.
    Status,
    /// A message from the peer, as it came.
    Inbound,
    /// The answer to a local command.
    Feedback,
    /// A plain notice.
    Notice,
    /// Something went wrong.
    Error,
}

/// One line for the terminal.
#[derive(Clone, Debug, PartialEq, Eq)]
pub struct OutputLine {
    pub tone: Tone,
    pub text: String,
}

/// What an `OutputLine` stands for.
pub struct LineView {
    pub tone: Tone,
    pub text: Seq<char>,
}

impl View for OutputLine {
    type V = LineView;

    open spec fn view(&self) -> LineView {
        LineView { tone: self.tone, text: self.text@ }
    }
}

impl DeepView for OutputLine {
    type V = LineView;

    open spec fn deep_view(&self) -> LineView {
        self@
    }
}

/// The lines written and not yet taken, oldest first.
#[derive(Debug)]
pub struct OutputSink {
    lines: Vec<OutputLine>,
}

impl View for OutputSink {
    type V = Seq<LineView>;

    closed spec fn view(&self) -> Seq<LineView> {
        self.lines.deep_view()
    }
}

impl OutputSink {
    /// A sink that holds no line.
    pub fn new() -> (sink: OutputSink)
        ensures
            sink@ == Seq::<LineView>::empty(),
    {
        let lines: Vec<OutputLine> = Vec::new();
        proof {
            assert(lines.deep_view() =~= Seq::<LineView>::empty());
        }
        OutputSink { lines }
    }

    /// The number of lines that wait.
    pub fn len(&self) -> (n: usize)
        ensures
            n == self@.len(),
    {
        self.lines.len()
    }

    /// Writes one line behind the lines that wait.
    pub fn write(&mut self, tone: Tone, text: String)
        ensures
            final(self)@ == old(self)@.push(LineView { tone, text: text@ }),
    {
        self.lines.push(OutputLine { tone, text });
        proof {
            assert(self.lines.deep_view() =~= old(self).lines.deep_view().push(
                LineView { tone, text: text@ },
            ));
        }
    }

    /// Takes the lines that wait, oldest first, and leaves the sink empty.
    pub fn take(&mut self) -> (lines: Vec<OutputLine>)
        ensures
            lines.deep_view() == old(self)@,
            final(self)@ == Seq::<LineView>::empty(),
    {
        let mut lines: Vec<OutputLine> = Vec::new();
        proof {
            assert(lines.deep_view() =~= Seq::<LineView>::empty());
        }
        std::mem::swap(&mut lines, &mut self.lines);
        lines
    }
}

} // verus!
