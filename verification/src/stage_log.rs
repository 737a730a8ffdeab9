//! Shared stage logging: the `BKLOG1` diagnostic line format.
//!
//! A structured line is `BKLOG1\t<level>\t<session_id>\t<message>`. The
//! session id is ambient: [`set_session`] records it when a session starts,
//! [`clear_session`] forgets it when the session ends, and every line built
//! in between carries it. Embedded newlines in a message are flattened to
//! spaces so one diagnostic stays one line.
//!
//! This module builds the lines; writing them to stderr is the caller's job.
use vstd::prelude::*;

verus! {

/// Sentinel and version prefix every structured line begins with.
pub const LINE_PREFIX: &'static str = "BKLOG1\t";

/// `String::push` appends one character at the end of the string.
pub assume_specification[ String::push ](s: &mut String, ch: char)
    ensures
        final(s)@ == old(s)@.push(ch),
;

/// The ambient session that log lines are stamped with.
pub struct LogSession {
    current: Option<String>,
}

impl View for LogSession {
    type V = Option<Seq<char>>;

    closed spec fn view(&self) -> Option<Seq<char>> {
        match self.current {
            Some(s) => Some(s@),
            None => None,
        }
    }
}

impl LogSession {
    /// No ambient session.
    pub fn new() -> (res: LogSession)
        ensures
            res@ is None,
    {
        LogSession { current: None }
    }
}

/// A newline or carriage return becomes a space; every other character stays.
pub open spec fn flatten_char(c: char) -> char {
    if c == '\n' || c == '\r' {
        ' '
    } else {
        c
    }
}

/// The message with every embedded line break replaced by a space.
pub open spec fn flatten_newlines(s: Seq<char>) -> Seq<char> {
    s.map_values(|c: char| flatten_char(c))
}

/// The session field of a line: the ambient session, or empty when none.
pub open spec fn session_field(session: Option<Seq<char>>) -> Seq<char> {
    match session {
        Some(s) => s,
        None => Seq::empty(),
    }
}

/// The full structured line, without the trailing newline.
pub open spec fn spec_log_line(
    session: Option<Seq<char>>,
    level: Seq<char>,
    message: Seq<char>,
) -> Seq<char> {
    LINE_PREFIX@ + level + seq!['\t'] + session_field(session) + seq!['\t'] + flatten_newlines(
        message,
    )
}

/// Set the ambient session id (on `audio_start`).
pub fn set_session(log: &mut LogSession, session_id: &str)
    ensures
        final(log)@ == Some(session_id@),
{
    log.current = Some(String::from_str(session_id));
}

/// Clear the ambient session id (at session end).
pub fn clear_session(log: &mut LogSession)
    ensures
        final(log)@ is None,
{
    log.current = None;
}

/// `message` with `\n` and `\r` replaced by spaces.
pub fn flatten_message(message: &str) -> (res: String)
    ensures
        res@ == flatten_newlines(message@),
        res@.len() == message@.len(),
        forall|i: int|
            0 <= i < message@.len() ==> (#[trigger] res@[i] == if message@[i] == '\n'
                || message@[i] == '\r' {
                ' '
            } else {
                message@[i]
            }),
{
    proof {
        lemma_flatten_replaces_only_line_breaks(message@);
    }
    let mut out = String::new();
    for c in it: message.chars()
        invariant
            out@ == flatten_newlines(it.seq().take(it.index() as int)),
    {
        let d = if c == '\n' || c == '\r' {
            ' '
        } else {
            c
        };
        out.push(d);
    }
    out
}

/// One structured diagnostic line at `level`, stamped with the ambient
/// session. The message is the last, unbounded field: it may hold tabs.
pub fn log_line(log: &LogSession, level: &str, message: &str) -> (res: String)
    ensures
        res@ == spec_log_line(log@, level@, message@),
        log@ matches Some(s) ==> res@ == LINE_PREFIX@ + level@ + seq!['\t'] + s + seq!['\t']
            + flatten_newlines(message@),
        log@ is None ==> res@ == LINE_PREFIX@ + level@ + seq!['\t', '\t'] + flatten_newlines(
            message@,
        ),
{
    proof {
        lemma_line_carries_the_whole_session(log@, level@, message@);
    }
    let mut out = String::from_str(LINE_PREFIX);
    out.append(level);
    out.push('\t');
    match &log.current {
        Some(s) => out.append(s.as_str()),
        None => {},
    }
    out.push('\t');
    let flat = flatten_message(message);
    out.append(flat.as_str());
    proof {
        assert(session_field(log@) == match log.current {
            Some(s) => s@,
            None => Seq::<char>::empty(),
        });
    }
    out
}

/// A `trace` line.
pub fn trace(log: &LogSession, message: &str) -> (res: String)
    ensures
        res@ == spec_log_line(log@, "trace"@, message@),
{
    log_line(log, "trace", message)
}

/// A `debug` line.
pub fn debug(log: &LogSession, message: &str) -> (res: String)
    ensures
        res@ == spec_log_line(log@, "debug"@, message@),
{
    log_line(log, "debug", message)
}

/// An `info` line.
pub fn info(log: &LogSession, message: &str) -> (res: String)
    ensures
        res@ == spec_log_line(log@, "info"@, message@),
{
    log_line(log, "info", message)
}

/// A `warn` line.
pub fn warn(log: &LogSession, message: &str) -> (res: String)
    ensures
        res@ == spec_log_line(log@, "warn"@, message@),
{
    log_line(log, "warn", message)
}

/// An `error` line.
pub fn error(log: &LogSession, message: &str) -> (res: String)
    ensures
        res@ == spec_log_line(log@, "error"@, message@),
{
    log_line(log, "error", message)
}

} // verus!

verus! {

/// No line break in the text.
pub open spec fn is_single_line(s: Seq<char>) -> bool {
    !s.contains('\n') && !s.contains('\r')
}

/// One logical diagnostic stays one line: whatever the message holds, the
/// line built for it has no line break, provided the level and the ambient
/// session have none.
pub proof fn lemma_log_line_is_one_line(
    session: Option<Seq<char>>,
    level: Seq<char>,
    message: Seq<char>,
)
    requires
        is_single_line(level),
        is_single_line(session_field(session)),
    ensures
        is_single_line(spec_log_line(session, level, message)),
{
    reveal_strlit("BKLOG1\t");
    let line = spec_log_line(session, level, message);
    let flat = flatten_newlines(message);
    let head = LINE_PREFIX@ + level + seq!['\t'] + session_field(session) + seq!['\t'];
    assert(line == head + flat);
    assert forall|i: int| 0 <= i < line.len() implies line[i] != '\n' && line[i] != '\r' by {
        if i >= head.len() {
            assert(line[i] == flat[i - head.len()]);
        } else {
            let a = LINE_PREFIX@ + level;
            let b = a + seq!['\t'];
            let c = b + session_field(session);
            if i < LINE_PREFIX@.len() {
            } else if i < a.len() {
                assert(line[i] == level[i - LINE_PREFIX@.len()]);
                assert(level.contains(level[i - LINE_PREFIX@.len()]));
            } else if i < b.len() {
            } else if i < c.len() {
                assert(line[i] == session_field(session)[i - b.len()]);
                assert(session_field(session).contains(session_field(session)[i - b.len()]));
            }
        }
    }
}

} // verus!

verus! {

/// Flattening keeps the message's length and every character but `\n` and
/// `\r`, each of which becomes a space in its place.
pub proof fn lemma_flatten_replaces_only_line_breaks(m: Seq<char>)
    ensures
        flatten_newlines(m).len() == m.len(),
        forall|i: int|
            0 <= i < m.len() ==> (#[trigger] flatten_newlines(m)[i] == if m[i] == '\n' || m[i]
                == '\r' {
                ' '
            } else {
                m[i]
            }),
{
}

/// A line carries the whole ambient session id, whatever its length, between
/// the level and the message; with no session the field is empty.
pub proof fn lemma_line_carries_the_whole_session(
    session: Option<Seq<char>>,
    level: Seq<char>,
    message: Seq<char>,
)
    ensures
        session matches Some(s) ==> spec_log_line(session, level, message) == LINE_PREFIX@ + level
            + seq!['\t'] + s + seq!['\t'] + flatten_newlines(message),
        session is None ==> spec_log_line(session, level, message) == LINE_PREFIX@ + level + seq![
            '\t',
            '\t',
        ] + flatten_newlines(message),
{
    if session is None {
        assert(LINE_PREFIX@ + level + seq!['\t'] + Seq::<char>::empty() + seq!['\t'] =~= LINE_PREFIX@
            + level + seq!['\t', '\t']);
    }
}

} // verus!
