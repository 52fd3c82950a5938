use vstd::prelude::*;
use crate::prompt::Prompt;

verus! {

#[verifier::external_type_specification]
#[verifier::external_body]
pub struct ExIoError(std::io::Error);

/// How many reads one drain may make at most. No session comes near it: it
/// only gives the read loop a bound.
pub const MAX_READS: u64 = 18446744073709551615;

/// The idle timeout, in seconds, of each read of a drain.
pub const READ_TIMEOUT_SECS: u64 = 1;

/// What one read with a timeout brought.
pub enum ReadEvent {
    /// Bytes the device sent.
    Data(Vec<u8>),
    /// Nothing arrived within the timeout.
    TimedOut,
    /// The peer closed the stream.
    Closed,
    /// The read failed with an error other than a timeout.
    Failed,
    /// Transport-level traffic that carries no output (e.g. a negotiation).
    Control,
}

/// Why a drain of device output ended.
#[derive(Debug, Clone, Copy, PartialEq, Eq, Structural)]
pub enum ReadEnd {
    /// A chunk of output matched the prompt pattern.
    Prompt,
    /// A read timed out: the device has no more to say.
    TimedOut,
    /// The peer closed the stream.
    Closed,
    /// A read failed.
    Failed,
    /// The read bound was reached.
    Exhausted,
}

/// A line-oriented byte stream to a device (Telnet, an SSH shell channel, ...).
pub trait Connection {
    /// Writes `text`, UTF-8 encoded.
    fn write(&mut self, text: &str) -> Result<(), std::io::Error>;

    /// Waits at most `secs` seconds for the next event of the stream.
    fn read_timeout(&mut self, secs: u64) -> ReadEvent;
}

/// The command/response protocol over one exclusively owned connection.
///
/// `sent` is the text of the writes that succeeded, in order; `attempts` every
/// write handed to the connection, in order, with whether it succeeded; and
/// `received` the events read, in order.
pub struct Session<C: Connection> {
    conn: C,
    sent: Ghost<Seq<char>>,
    attempts: Ghost<Seq<(Seq<char>, bool)>>,
    received: Ghost<Seq<ReadEvent>>,
}

impl<C: Connection> Session<C> {
    /// The text of the writes that succeeded so far.
    pub closed spec fn sent(&self) -> Seq<char> {
        self.sent@
    }

    /// Every write so far, with whether it succeeded.
    pub closed spec fn attempts(&self) -> Seq<(Seq<char>, bool)> {
        self.attempts@
    }

    /// The events read so far.
    pub closed spec fn received(&self) -> Seq<ReadEvent> {
        self.received@
    }

    /// The connection.
    pub closed spec fn conn(&self) -> C {
        self.conn
    }

    /// Starts the protocol on an open connection.
    pub fn new(conn: C) -> (r: Session<C>)
        ensures
            r.conn() == conn,
            r.sent() == Seq::<char>::empty(),
            r.attempts() == Seq::<(Seq<char>, bool)>::empty(),
            r.received() == Seq::<ReadEvent>::empty(),
    {
        Session {
            conn,
            sent: Ghost(Seq::empty()),
            attempts: Ghost(Seq::empty()),
            received: Ghost(Seq::empty()),
        }
    }

    /// The connection.
    pub fn connection(&self) -> (r: &C)
        ensures
            *r == self.conn(),
    {
        &self.conn
    }

    /// Ends the protocol and hands back the connection.
    pub fn into_connection(self) -> (r: C)
        ensures
            r == self.conn(),
    {
        self.conn
    }

    /// Writes `text` on the connection, once.
    pub fn write(&mut self, text: &str) -> (r: Result<(), std::io::Error>)
        ensures
            final(self).received() == old(self).received(),
            final(self).attempts() == old(self).attempts().push((text@, r is Ok)),
            r is Ok ==> final(self).sent() == old(self).sent() + text@,
            r is Err ==> final(self).sent() == old(self).sent(),
    {
        let r = self.conn.write(text);
        self.attempts = Ghost(self.attempts@.push((text@, r is Ok)));
        if r.is_ok() {
            self.sent = Ghost(self.sent@ + text@);
        }
        r
    }

    /// Reads the next event, waiting at most `secs` seconds.
    pub fn read_timeout(&mut self, secs: u64) -> (r: ReadEvent)
        ensures
            final(self).sent() == old(self).sent(),
            final(self).attempts() == old(self).attempts(),
            final(self).received() == old(self).received().push(r),
    {
        let event = self.conn.read_timeout(secs);
        self.received = Ghost(self.received@.push(event));
        event
    }
}

/// A command as it goes on the wire: its text and one newline.
pub open spec fn line(command: Seq<char>) -> Seq<char> {
    command + seq!['\n']
}

/// The text of `commands` sent in order, each as a line.
pub open spec fn lines(commands: Seq<Seq<char>>) -> Seq<char>
    decreases commands.len(),
{
    if commands.len() == 0 {
        Seq::empty()
    } else {
        lines(commands.drop_last()) + line(commands.last())
    }
}

/// `after` is `before` followed by what a run of `commands` sent when the
/// write of command `k` failed: the lines of the commands before it, then
/// nothing of command `k` or its text without the newline.
pub open spec fn stopped_at(
    before: Seq<char>,
    after: Seq<char>,
    commands: Seq<Seq<char>>,
    k: int,
) -> bool {
    ||| after == before + lines(commands.take(k))
    ||| after == before + lines(commands.take(k)) + commands[k]
}

/// `after` is `before` followed by what a run of `commands` sent when one of
/// its writes failed; no command after the failing one was sent.
pub open spec fn failed_run(before: Seq<char>, after: Seq<char>, commands: Seq<Seq<char>>) -> bool {
    exists|k: int| 0 <= k < commands.len() && #[trigger] stopped_at(before, after, commands, k)
}

/// The lines of the first `k + 1` commands are those of the first `k`, then
/// the line of command `k`.
pub proof fn lemma_lines_step(commands: Seq<Seq<char>>, k: int)
    requires
        0 <= k < commands.len(),
    ensures
        lines(commands.take(k + 1)) == lines(commands.take(k)) + line(commands[k]),
{
    assert(commands.take(k + 1).drop_last() =~= commands.take(k));
}

/// No command sent: the lines of none of them are empty.
pub proof fn lemma_lines_none(commands: Seq<Seq<char>>)
    ensures
        lines(commands.take(0)) == Seq::<char>::empty(),
{
    assert(commands.take(0) =~= Seq::<Seq<char>>::empty());
}

/// A run whose write of command `k` failed after the earlier ones went through.
pub proof fn lemma_failed_at(before: Seq<char>, after: Seq<char>, commands: Seq<Seq<char>>, k: int)
    requires
        0 <= k < commands.len(),
        stopped_at(before, after, commands, k),
    ensures
        failed_run(before, after, commands),
{
}

/// The writes of a command sent whole as a line: its text, then the newline,
/// both succeeding.
pub open spec fn ok_line(command: Seq<char>) -> Seq<(Seq<char>, bool)> {
    seq![(command, true), (seq!['\n'], true)]
}

/// `after` is `before` followed by the writes of sending `command` as a line,
/// which succeeded exactly when `ok`: the command is written once, and the
/// newline once only if the command went through; when not `ok`, the last of
/// these writes failed.
pub open spec fn sent_line(
    before: Seq<(Seq<char>, bool)>,
    after: Seq<(Seq<char>, bool)>,
    command: Seq<char>,
    ok: bool,
) -> bool {
    if ok {
        after == before + ok_line(command)
    } else {
        ||| after == before + seq![(command, false)]
        ||| after == before + seq![(command, true), (seq!['\n'], false)]
    }
}

/// The writes of `commands` all sent whole, in order.
pub open spec fn ok_lines(commands: Seq<Seq<char>>) -> Seq<(Seq<char>, bool)>
    decreases commands.len(),
{
    if commands.len() == 0 {
        Seq::empty()
    } else {
        ok_lines(commands.drop_last()) + ok_line(commands.last())
    }
}

/// `after` is `before` followed by the writes of a run of `commands` whose
/// command `k` failed: the commands before it sent whole, then the failed
/// sending of command `k`, and nothing after it.
pub open spec fn cut_at(
    before: Seq<(Seq<char>, bool)>,
    after: Seq<(Seq<char>, bool)>,
    commands: Seq<Seq<char>>,
    k: int,
) -> bool {
    sent_line(before + ok_lines(commands.take(k)), after, commands[k], false)
}

/// `after` is `before` followed by the writes of a run of `commands` that
/// stops at its first failed write and succeeded exactly when `ok`: each
/// command is written once, in order, and none after a failure.
pub open spec fn ran(
    before: Seq<(Seq<char>, bool)>,
    after: Seq<(Seq<char>, bool)>,
    commands: Seq<Seq<char>>,
    ok: bool,
) -> bool {
    if ok {
        after == before + ok_lines(commands)
    } else {
        exists|k: int| 0 <= k < commands.len() && #[trigger] cut_at(before, after, commands, k)
    }
}

/// The writes of the first `k + 1` commands are those of the first `k`, then
/// those of command `k`.
pub proof fn lemma_ok_lines_step(commands: Seq<Seq<char>>, k: int)
    requires
        0 <= k < commands.len(),
    ensures
        ok_lines(commands.take(k + 1)) == ok_lines(commands.take(k)) + ok_line(commands[k]),
{
    assert(commands.take(k + 1).drop_last() =~= commands.take(k));
}

/// No command sent: no writes.
pub proof fn lemma_ok_lines_none(commands: Seq<Seq<char>>)
    ensures
        ok_lines(commands.take(0)) == Seq::<(Seq<char>, bool)>::empty(),
{
    assert(commands.take(0) =~= Seq::<Seq<char>>::empty());
}

/// A run whose command `k` failed after the earlier ones went through.
pub proof fn lemma_cut_at(
    before: Seq<(Seq<char>, bool)>,
    after: Seq<(Seq<char>, bool)>,
    commands: Seq<Seq<char>>,
    k: int,
)
    requires
        0 <= k < commands.len(),
        cut_at(before, after, commands, k),
    ensures
        ran(before, after, commands, false),
{
}

/// A run of `commands` starts with no writes.
pub proof fn lemma_ran_start(before: Seq<(Seq<char>, bool)>, commands: Seq<Seq<char>>)
    ensures
        before == before + ok_lines(commands.take(0)),
{
    lemma_ok_lines_none(commands);
    assert(before =~= before + ok_lines(commands.take(0)));
}

/// One more command of a run sent: either the run goes on with that command
/// sent whole, or it has failed at it.
pub proof fn lemma_ran_step(
    before: Seq<(Seq<char>, bool)>,
    mid: Seq<(Seq<char>, bool)>,
    after: Seq<(Seq<char>, bool)>,
    commands: Seq<Seq<char>>,
    k: int,
    ok: bool,
)
    requires
        0 <= k < commands.len(),
        mid == before + ok_lines(commands.take(k)),
        sent_line(mid, after, commands[k], ok),
    ensures
        ok ==> after == before + ok_lines(commands.take(k + 1)),
        !ok ==> ran(before, after, commands, false),
{
    lemma_ok_lines_step(commands, k);
    if ok {
        assert(after =~= before + ok_lines(commands.take(k + 1)));
    } else {
        assert(cut_at(before, after, commands, k));
    }
}

/// A run all of whose commands went through.
pub proof fn lemma_ran_done(
    before: Seq<(Seq<char>, bool)>,
    after: Seq<(Seq<char>, bool)>,
    commands: Seq<Seq<char>>,
)
    requires
        after == before + ok_lines(commands.take(commands.len() as int)),
    ensures
        ran(before, after, commands, true),
{
    assert(commands.take(commands.len() as int) =~= commands);
}

/// Whether `event` ends a drain against the prompt `pattern`.
pub open spec fn stops(event: ReadEvent, pattern: Seq<char>) -> bool {
    match event {
        ReadEvent::Data(bytes) => crate::prompt::shows_prompt(pattern, bytes@),
        ReadEvent::Control => false,
        _ => true,
    }
}

/// The reason a drain reports when it stops on `event`.
pub open spec fn end_of(event: ReadEvent) -> ReadEnd {
    match event {
        ReadEvent::Data(_) => ReadEnd::Prompt,
        ReadEvent::TimedOut => ReadEnd::TimedOut,
        ReadEvent::Closed => ReadEnd::Closed,
        ReadEvent::Failed => ReadEnd::Failed,
        ReadEvent::Control => ReadEnd::Exhausted,
    }
}

/// `after` is `before` followed by the events of one drain against `pattern`
/// that ended for `end`: every read but the last went on, and the last one
/// stopped the drain, unless the read bound was reached.
pub open spec fn drained(
    before: Seq<ReadEvent>,
    after: Seq<ReadEvent>,
    pattern: Seq<char>,
    end: ReadEnd,
) -> bool {
    &&& before.len() < after.len()
    &&& after.take(before.len() as int) == before
    &&& forall|i: int| before.len() <= i < after.len() - 1 ==> !stops(#[trigger] after[i], pattern)
    &&& if end is Exhausted {
        after.len() == before.len() + MAX_READS && !stops(after.last(), pattern)
    } else {
        stops(after.last(), pattern) && end == end_of(after.last())
    }
}

/// Reads and discards device output until a chunk matches the prompt, a read
/// times out, the stream closes or fails.
pub fn read_ignore<C: Connection>(conn: &mut Session<C>, prompt: &Prompt) -> (r: ReadEnd)
    ensures
        final(conn).sent() == old(conn).sent(),
        final(conn).attempts() == old(conn).attempts(),
        drained(old(conn).received(), final(conn).received(), prompt.pattern(), r),
{
    let ghost start = conn.received();
    let ghost pattern = prompt.pattern();
    let mut n: u64 = 0;
    loop
        invariant
            conn.sent() == old(conn).sent(),
            conn.attempts() == old(conn).attempts(),
            start == old(conn).received(),
            pattern == prompt.pattern(),
            n < MAX_READS,
            conn.received().len() == start.len() + n,
            conn.received().take(start.len() as int) == start,
            forall|i: int|
                start.len() <= i < conn.received().len() ==> !stops(
                    #[trigger] conn.received()[i],
                    pattern,
                ),
        decreases MAX_READS - n,
    {
        let ghost before = conn.received();
        let event = conn.read_timeout(READ_TIMEOUT_SECS);
        n = n + 1;
        proof {
            assert(conn.received().take(start.len() as int) =~= before.take(start.len() as int));
        }
        let end = match event {
            ReadEvent::Data(bytes) => {
                if prompt.matches_chunk(bytes.as_slice()) {
                    Some(ReadEnd::Prompt)
                } else {
                    None
                }
            },
            ReadEvent::TimedOut => Some(ReadEnd::TimedOut),
            ReadEvent::Closed => Some(ReadEnd::Closed),
            ReadEvent::Failed => Some(ReadEnd::Failed),
            ReadEvent::Control => None,
        };
        match end {
            Some(e) => {
                return e;
            },
            None => {
                if n == MAX_READS {
                    return ReadEnd::Exhausted;
                }
            },
        }
    }
}

/// Sends `command` and a newline, then drains the output up to the prompt.
///
/// Each is written once; the newline and the drain only follow a successful
/// write. A failed write is the one error; whatever the device printed is
/// discarded.
pub fn execute_raw<C: Connection>(conn: &mut Session<C>, command: &str, prompt: &Prompt) -> (r: Result<
    (),
    std::io::Error,
>)
    ensures
        sent_line(old(conn).attempts(), final(conn).attempts(), command@, r is Ok),
        r is Ok ==> final(conn).sent() == old(conn).sent() + line(command@),
        r is Ok ==> exists|end: ReadEnd|
            drained(old(conn).received(), final(conn).received(), prompt.pattern(), end),
        r is Err ==> final(conn).received() == old(conn).received(),
        r is Err ==> final(conn).sent() == old(conn).sent() || final(conn).sent() == old(
            conn,
        ).sent() + command@,
{
    let ghost a0 = conn.attempts();
    proof {
        reveal_strlit("\n");
        assert("\n"@ =~= seq!['\n']);
    }
    match conn.write(command) {
        Ok(()) => {},
        Err(e) => {
            assert(conn.attempts() =~= a0 + seq![(command@, false)]);
            return Err(e);
        },
    }
    match conn.write("\n") {
        Ok(()) => {},
        Err(e) => {
            assert(conn.attempts() =~= a0 + seq![(command@, true), (seq!['\n'], false)]);
            return Err(e);
        },
    }
    let _ = read_ignore(conn, prompt);
    assert(conn.attempts() =~= a0 + ok_line(command@));
    assert(conn.sent() =~= old(conn).sent() + line(command@));
    Ok(())
}

} // verus!
