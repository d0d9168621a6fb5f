//! Lines that a child process writes, and what its readers do with a read.

use vstd::prelude::*;

verus! {

/// What a reader of a child process passes on.
pub enum ChildLine {
    StdOut(String),
    StdErr(String),
    Term,
    Kill,
}

/// A message of a child process as plain values.
pub enum ChildLineView {
    StdOut(Seq<char>),
    StdErr(Seq<char>),
    Term,
    Kill,
}

impl View for ChildLine {
    type V = ChildLineView;

    open spec fn view(&self) -> ChildLineView {
        match self {
            ChildLine::StdOut(line) => ChildLineView::StdOut(line@),
            ChildLine::StdErr(line) => ChildLineView::StdErr(line@),
            ChildLine::Term => ChildLineView::Term,
            ChildLine::Kill => ChildLineView::Kill,
        }
    }
}

/// The stream of the child that a reader listens to.
#[derive(Clone, Copy, Debug, PartialEq, Eq, Structural)]
pub enum ChildStream {
    StdOut,
    StdErr,
}

/// What reading one line gave: the number of bytes read with the line, or a
/// failure.
pub enum LineRead {
    Read { len: usize, line: String },
    Failed,
}

/// What a reader does after one read.
pub struct ReaderStep {
    /// The message to pass on, if any.
    pub message: Option<ChildLine>,
    /// Whether the reader goes on reading, provided the message was taken.
    pub proceed: bool,
}

/// The message that a read on `stream` gives rise to. A line goes out under
/// the name of its stream. The end of the stream gives nothing. A failure
/// gives `Term` on the output stream and nothing on the error stream.
pub open spec fn message_for(stream: ChildStream, len: Option<usize>, line: Seq<char>) -> Option<
    ChildLineView,
> {
    match len {
        Some(n) => if n == 0 {
            None
        } else {
            match stream {
                ChildStream::StdOut => Some(ChildLineView::StdOut(line)),
                ChildStream::StdErr => Some(ChildLineView::StdErr(line)),
            }
        },
        None => match stream {
            ChildStream::StdOut => Some(ChildLineView::Term),
            ChildStream::StdErr => None,
        },
    }
}

/// Decides what a reader does with the outcome of one read: it passes a line
/// on and reads again, and it stops at the end of the stream and on a
/// failure.
pub fn reader_step(stream: ChildStream, read: LineRead) -> (step: ReaderStep)
    ensures
        match read {
            LineRead::Read { len, line } => {
                &&& step.proceed == (len != 0)
                &&& match step.message {
                    Some(message) => Some(message@) == message_for(stream, Some(len), line@),
                    None => message_for(stream, Some(len), line@) is None,
                }
            },
            LineRead::Failed => {
                &&& !step.proceed
                &&& match step.message {
                    Some(message) => Some(message@) == message_for(stream, None, Seq::empty()),
                    None => message_for(stream, None, Seq::empty()) is None,
                }
            },
        },
{
    match read {
        LineRead::Read { len, line } => {
            if len == 0 {
                ReaderStep { message: None, proceed: false }
            } else {
                match stream {
                    ChildStream::StdOut => ReaderStep { message: Some(ChildLine::StdOut(line)), proceed: true },
                    ChildStream::StdErr => ReaderStep { message: Some(ChildLine::StdErr(line)), proceed: true },
                }
            }
        },
        LineRead::Failed => {
            match stream {
                ChildStream::StdOut => ReaderStep { message: Some(ChildLine::Term), proceed: false },
                ChildStream::StdErr => ReaderStep { message: None, proceed: false },
            }
        },
    }
}

} // verus!
