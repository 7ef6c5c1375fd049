//! Container log frames cut into lines: frames do not follow line ends, so text is
//! buffered per stream until a newline arrives, and the timestamp Docker prepends is
//! split off each line.

use vstd::prelude::*;
use vstd::string::*;
use crate::text::{
    push_char, push_str, split_once, split_once_spec, strip_trail_char, to_owned_str,
    trim_end_char,
};

verus! {

/// The output stream a log line came from.
#[derive(Debug, Clone, Copy, PartialEq, Eq, Structural)]
pub enum LogStreamKind {
    Stdout,
    Stderr,
}

impl LogStreamKind {
    pub fn as_str(self) -> (r: &'static str)
        ensures
            r@ == match self {
                LogStreamKind::Stdout => "stdout"@,
                LogStreamKind::Stderr => "stderr"@,
            },
    {
        match self {
            LogStreamKind::Stdout => "stdout",
            LogStreamKind::Stderr => "stderr",
        }
    }
}

/// The kinds of frame Docker sends.
#[derive(Debug, Clone, Copy, PartialEq, Eq, Structural)]
pub enum LogFrameKind {
    StdOut,
    StdErr,
    /// Output of a container with a TTY, where standard output and error are one.
    Console,
    StdIn,
}

/// The stream a frame belongs to: standard error, or else standard output (a TTY's
/// output cannot be told apart, and standard input never actually arrives).
pub open spec fn stream_of_spec(k: LogFrameKind) -> LogStreamKind {
    match k {
        LogFrameKind::StdErr => LogStreamKind::Stderr,
        _ => LogStreamKind::Stdout,
    }
}

pub fn stream_of(k: LogFrameKind) -> (r: LogStreamKind)
    ensures
        r == stream_of_spec(k),
{
    match k {
        LogFrameKind::StdErr => LogStreamKind::Stderr,
        _ => LogStreamKind::Stdout,
    }
}

/// One line of a container's log.
#[derive(Debug, Clone, PartialEq, Eq)]
pub struct LogLine {
    pub stream: LogStreamKind,
    /// When Docker recorded the line; `None` when the line does not start with a time.
    pub timestamp: Option<String>,
    pub message: String,
}

pub open spec fn log_line_view(l: LogLine) -> (LogStreamKind, Option<Seq<char>>, Seq<char>) {
    (
        l.stream,
        match l.timestamp {
            Some(t) => Some(t@),
            None => None,
        },
        l.message@,
    )
}

/// Whether `chrono::DateTime::parse_from_rfc3339` accepts the text.
pub uninterp spec fn rfc3339_parses(s: Seq<char>) -> bool;

/// `chrono::DateTime::parse_from_rfc3339(s).is_ok()`: whether the text is an RFC 3339
/// date and time. What the grammar accepts is left to the name; it depends on the text only.
#[verifier::external_body]
fn is_rfc3339(s: &str) -> (r: bool)
    ensures
        r == rfc3339_parses(s@),
{
    chrono::DateTime::parse_from_rfc3339(s).is_ok()
}

/// The bytes as text, each invalid UTF-8 sequence replaced by U+FFFD.
pub uninterp spec fn utf8_lossy(bytes: Seq<u8>) -> Seq<char>;

/// `String::from_utf8_lossy`: the text the bytes encode, with U+FFFD for each invalid
/// sequence. Stated here: it depends on the bytes only, and ASCII bytes are their own
/// characters.
#[verifier::external_body]
fn from_utf8_lossy(bytes: &[u8]) -> (r: String)
    ensures
        r@ == utf8_lossy(bytes@),
        (forall|i: int| 0 <= i < bytes@.len() ==> bytes@[i] < 128) ==> r@.len() == bytes@.len()
            && forall|i: int| 0 <= i < bytes@.len() ==> (r@[i] as u32) == (bytes@[i] as u32),
{
    String::from_utf8_lossy(bytes).to_string()
}

/// A line split into the timestamp Docker prepends and the message, given whether the
/// word before the first space reads as an RFC 3339 time. A line whose first word is no
/// time is all message: nothing is dropped.
pub open spec fn split_timestamp_with(raw: Seq<char>, head_is_time: bool) -> (Option<Seq<char>>, Seq<char>) {
    match split_once_spec(raw, ' ') {
        Some((head, rest)) => if head_is_time {
            (Some(head), rest)
        } else {
            (None, raw)
        },
        None => (None, raw),
    }
}

pub open spec fn first_word(raw: Seq<char>) -> Seq<char> {
    match split_once_spec(raw, ' ') {
        Some((head, _)) => head,
        None => raw,
    }
}

pub open spec fn split_timestamp_spec(raw: Seq<char>) -> (Option<Seq<char>>, Seq<char>) {
    split_timestamp_with(raw, rfc3339_parses(first_word(raw)))
}

/// The split of a line once it is known whether its first word is a time.
pub fn split_at_timestamp(raw: &str, head_is_time: bool) -> (r: (Option<String>, String))
    ensures
        (
            match r.0 {
                Some(t) => Some(t@),
                None => None,
            },
            r.1@,
        ) == split_timestamp_with(raw@, head_is_time),
{
    match split_once(raw, ' ') {
        Some((head, rest)) => {
            if head_is_time {
                (Some(head), rest)
            } else {
                (None, to_owned_str(raw))
            }
        },
        None => (None, to_owned_str(raw)),
    }
}

/// Splits off the timestamp of a line read with timestamps on.
pub fn split_timestamp(raw: &str) -> (r: (Option<String>, String))
    ensures
        (
            match r.0 {
                Some(t) => Some(t@),
                None => None,
            },
            r.1@,
        ) == split_timestamp_spec(raw@),
{
    let head_is_time = match split_once(raw, ' ') {
        Some((head, _)) => is_rfc3339(head.as_str()),
        None => false,
    };
    split_at_timestamp(raw, head_is_time)
}

/// A raw line without its trailing newlines and carriage returns, split into time
/// and message.
pub open spec fn build_line_spec(raw: Seq<char>, kind: LogStreamKind) -> (LogStreamKind, Option<Seq<char>>, Seq<char>) {
    let (ts, msg) = split_timestamp_spec(strip_trail_char(strip_trail_char(raw, '\n'), '\r'));
    (kind, ts, msg)
}

pub fn build_line(raw: &str, kind: LogStreamKind) -> (r: LogLine)
    ensures
        log_line_view(r) == build_line_spec(raw@, kind),
{
    let a = trim_end_char(raw, '\n');
    let trimmed = trim_end_char(a.as_str(), '\r');
    let (timestamp, message) = split_timestamp(trimmed.as_str());
    LogLine { stream: kind, timestamp, message }
}

/// The complete lines of `s` (each with its `\n`) and the unfinished rest.
pub open spec fn pieces(s: Seq<char>) -> (Seq<Seq<char>>, Seq<char>)
    decreases s.len(),
{
    if s.len() == 0 {
        (seq![], seq![])
    } else {
        let (done, cur) = pieces(s.drop_last());
        if s.last() == '\n' {
            (done.push(cur.push('\n')), seq![])
        } else {
            (done, cur.push(s.last()))
        }
    }
}

pub open spec fn flatten(ls: Seq<Seq<char>>) -> Seq<char>
    decreases ls.len(),
{
    if ls.len() == 0 {
        seq![]
    } else {
        flatten(ls.drop_last()) + ls.last()
    }
}

/// Cutting text into lines loses nothing: the lines and the rest put back together
/// are the text, and the rest holds no newline.
pub proof fn lemma_pieces_lose_nothing(s: Seq<char>)
    ensures
        flatten(pieces(s).0) + pieces(s).1 == s,
        !pieces(s).1.contains('\n'),
    decreases s.len(),
{
    if s.len() > 0 {
        lemma_pieces_lose_nothing(s.drop_last());
        let (done, cur) = pieces(s.drop_last());
        assert(s =~= s.drop_last().push(s.last()));
        assert(flatten(done) + cur == s.drop_last());
        if s.last() == '\n' {
            let p = cur.push('\n');
            assert(done.push(p).drop_last() =~= done);
            assert(flatten(done.push(p)) == flatten(done) + p);
            assert(flatten(done) + p =~= (flatten(done) + cur).push('\n'));
            assert(flatten(done.push(p)) + Seq::<char>::empty() =~= s);
        } else {
            assert(flatten(done) + cur.push(s.last()) =~= (flatten(done) + cur).push(s.last()));
            assert(flatten(done) + cur.push(s.last()) =~= s);
            assert(!cur.push(s.last()).contains('\n')) by {
                if cur.push(s.last()).contains('\n') {
                    let k = choose|k: int| 0 <= k < cur.push(s.last()).len() && cur.push(s.last())[k] == '\n';
                    if k < cur.len() {
                        assert(cur.contains('\n'));
                    }
                }
            }
        }
    } else {
        assert(flatten(pieces(s).0) + pieces(s).1 =~= s);
    }
}

pub open spec fn lines_of(ls: Seq<Seq<char>>, kind: LogStreamKind) -> Seq<(LogStreamKind, Option<Seq<char>>, Seq<char>)> {
    ls.map_values(|l: Seq<char>| build_line_spec(l, kind))
}

pub open spec fn log_lines_view(v: Seq<LogLine>) -> Seq<(LogStreamKind, Option<Seq<char>>, Seq<char>)> {
    v.map_values(|l: LogLine| log_line_view(l))
}

/// Takes the complete lines out of a buffer; what follows the last newline stays.
pub fn take_complete_lines(buffer: &mut String, kind: LogStreamKind) -> (r: Vec<LogLine>)
    ensures
        final(buffer)@ == pieces(old(buffer)@).1,
        log_lines_view(r@) == lines_of(pieces(old(buffer)@).0, kind),
{
    let ghost s = buffer@;
    let n = buffer.as_str().unicode_len();
    let mut lines: Vec<LogLine> = Vec::new();
    let mut cur = String::new();
    let mut i: usize = 0;
    while i < n
        invariant
            s == old(buffer)@,
            buffer@ == s,
            n == s.len(),
            i <= n,
            cur@ == pieces(s.take(i as int)).1,
            log_lines_view(lines@) == lines_of(pieces(s.take(i as int)).0, kind),
        decreases n - i,
    {
        assert(s.take(i + 1).drop_last() =~= s.take(i as int));
        let c = buffer.as_str().get_char(i);
        push_char(&mut cur, c);
        if c == '\n' {
            let line = build_line(cur.as_str(), kind);
            let ghost before = lines@;
            lines.push(line);
            assert(log_lines_view(lines@) =~= log_lines_view(before).push(log_line_view(line)));
            let ghost done = pieces(s.take(i as int)).0;
            let ghost piece = pieces(s.take(i as int)).1.push('\n');
            assert(lines_of(done.push(piece), kind) =~= lines_of(done, kind).push(build_line_spec(piece, kind)));
            cur = String::new();
            assert(cur@ =~= Seq::<char>::empty());
        }
        i = i + 1;
    }
    assert(s.take(n as int) =~= s);
    *buffer = cur;
    lines
}

/// Text received per stream and not yet a complete line.
#[derive(Debug, Default)]
pub struct LineBuffers {
    pub stdout: String,
    pub stderr: String,
}

pub open spec fn buffer_of(b: LineBuffers, kind: LogStreamKind) -> Seq<char> {
    match kind {
        LogStreamKind::Stdout => b.stdout@,
        LogStreamKind::Stderr => b.stderr@,
    }
}

impl LineBuffers {
    pub fn new() -> (r: LineBuffers)
        ensures
            r.stdout@.len() == 0,
            r.stderr@.len() == 0,
    {
        LineBuffers { stdout: String::new(), stderr: String::new() }
    }

    /// Adds a frame to the buffer of its stream and takes out the lines it completes.
    /// The other stream's buffer is not touched, so lines of the two never mix.
    pub fn push(&mut self, frame: LogFrameKind, bytes: &[u8]) -> (r: Vec<LogLine>)
        ensures
            ({
                let kind = stream_of_spec(frame);
                let text = buffer_of(*old(self), kind) + utf8_lossy(bytes@);
                &&& buffer_of(*final(self), kind) == pieces(text).1
                &&& log_lines_view(r@) == lines_of(pieces(text).0, kind)
                &&& kind == LogStreamKind::Stdout ==> final(self).stderr == old(self).stderr
                &&& kind == LogStreamKind::Stderr ==> final(self).stdout == old(self).stdout
            }),
    {
        let kind = stream_of(frame);
        let text = from_utf8_lossy(bytes);
        match kind {
            LogStreamKind::Stdout => {
                push_str(&mut self.stdout, text.as_str());
                take_complete_lines(&mut self.stdout, kind)
            },
            LogStreamKind::Stderr => {
                push_str(&mut self.stderr, text.as_str());
                take_complete_lines(&mut self.stderr, kind)
            },
        }
    }

    /// Takes out what is left in the buffers as last lines, standard output first, and
    /// empties them: the last line before a crash often has no newline.
    pub fn flush(&mut self) -> (r: Vec<LogLine>)
        ensures
            final(self).stdout@.len() == 0,
            final(self).stderr@.len() == 0,
            log_lines_view(r@) == (if old(self).stdout@.len() > 0 {
                seq![build_line_spec(old(self).stdout@, LogStreamKind::Stdout)]
            } else {
                seq![]
            }) + (if old(self).stderr@.len() > 0 {
                seq![build_line_spec(old(self).stderr@, LogStreamKind::Stderr)]
            } else {
                seq![]
            }),
    {
        let mut lines: Vec<LogLine> = Vec::new();
        if self.stdout.as_str().unicode_len() > 0 {
            lines.push(build_line(self.stdout.as_str(), LogStreamKind::Stdout));
            self.stdout = String::new();
        }
        let ghost mid = lines@;
        if self.stderr.as_str().unicode_len() > 0 {
            lines.push(build_line(self.stderr.as_str(), LogStreamKind::Stderr));
            self.stderr = String::new();
        }
        assert(log_lines_view(lines@) =~= (if old(self).stdout@.len() > 0 {
            seq![build_line_spec(old(self).stdout@, LogStreamKind::Stdout)]
        } else {
            seq![]
        }) + (if old(self).stderr@.len() > 0 {
            seq![build_line_spec(old(self).stderr@, LogStreamKind::Stderr)]
        } else {
            seq![]
        }));
        lines
    }
}

} // verus!
