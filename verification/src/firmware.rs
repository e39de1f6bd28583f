//! What the firmware decides around the client: the console prompt, the WiFi
//! link, and the lines that it reports.

use vstd::prelude::*;

use crate::estimator::Quality;
use crate::rig::push_mac;
use crate::text::{push_dec, push_dec_signed};

verus! {

/// `String::pop` removes the last character and returns it, or `None` if the
/// string is empty.
pub assume_specification[ String::pop ](s: &mut String) -> (r: Option<char>)
    ensures
        old(s)@.len() == 0 ==> r is None && final(s)@ == old(s)@,
        old(s)@.len() > 0 ==> r == Some(old(s)@.last()) && final(s)@ == old(s)@.drop_last(),
;

/// UDP port of the heartbeats.
pub const HEARTBEAT_PORT: u16 = 51235;

/// Pause after the link was lost.
pub const RELINK_PAUSE_MS: u64 = 2_000;

/// Pause after a failed attempt to connect.
pub const CONNECT_RETRY_MS: u64 = 3_000;

/// What the console does after a byte.
#[derive(Clone, Copy, Debug, PartialEq, Eq, Structural)]
pub enum ConsoleAction {
    /// The line is complete: print a newline.
    Done,
    /// Print this character.
    Echo(char),
    /// Print nothing.
    Quiet,
}

/// Whether a byte erases the last character: backspace or delete.
pub open spec fn erases(b: u8) -> bool {
    b == 0x08 || b == 0x7f
}

/// The line after a byte. Carriage returns are passed over.
pub open spec fn line_after(line: Seq<char>, b: u8) -> Seq<char> {
    if b == 0x0a || b == 0x0d {
        line
    } else if erases(b) {
        if line.len() == 0 {
            line
        } else {
            line.drop_last()
        }
    } else {
        line.push(b as char)
    }
}

/// What the console does after a byte. Bytes that are no character on their
/// own are not echoed.
pub open spec fn console_action(b: u8) -> ConsoleAction {
    if b == 0x0a {
        ConsoleAction::Done
    } else if b == 0x0d || erases(b) || b >= 0x80 {
        ConsoleAction::Quiet
    } else {
        ConsoleAction::Echo(b as char)
    }
}

/// A line that is being typed.
#[derive(Debug)]
pub struct LineReader {
    line: String,
}

impl View for LineReader {
    type V = Seq<char>;

    closed spec fn view(&self) -> Seq<char> {
        self.line@
    }
}

impl LineReader {
    /// An empty line.
    pub fn new() -> (r: Self)
        ensures
            r@ == Seq::<char>::empty(),
    {
        let line: String = String::new();
        assert(line@ =~= Seq::<char>::empty());
        LineReader { line }
    }

    /// Takes in a byte.
    pub fn read_line(&mut self, b: u8) -> (action: ConsoleAction)
        ensures
            final(self)@ == line_after(old(self)@, b),
            action == console_action(b),
    {
        if b == 0x0a {
            return ConsoleAction::Done;
        }
        if b == 0x0d {
            return ConsoleAction::Quiet;
        }
        if b == 0x08 || b == 0x7f {
            let _erased = self.line.pop();
            return ConsoleAction::Quiet;
        }
        self.line.push(b as char);
        if b < 0x80 {
            ConsoleAction::Echo(b as char)
        } else {
            ConsoleAction::Quiet
        }
    }

    /// The line as it stands.
    pub fn into_line(self) -> (line: String)
        ensures
            line@ == self@,
    {
        self.line
    }
}

/// A step of the task that keeps the WiFi link up.
#[derive(Clone, Copy, Debug, PartialEq, Eq, Structural)]
pub enum LinkStep {
    /// Ask whether the station is connected.
    AskConnected,
    /// Wait until the station is disconnected.
    AwaitDisconnect,
    /// Pause after the link was lost.
    PauseAfterLoss,
    /// Ask whether the controller is started.
    AskStarted,
    /// Configure and start the controller.
    Start,
    /// Connect.
    Connect,
    /// Pause after a failed attempt.
    PauseAfterFailure,
}

/// The step after `step`, given the answer to its question or whether it
/// succeeded.
pub open spec fn next_step(step: LinkStep, yes: bool) -> LinkStep {
    match step {
        LinkStep::AskConnected => if yes {
            LinkStep::AwaitDisconnect
        } else {
            LinkStep::AskStarted
        },
        LinkStep::AwaitDisconnect => LinkStep::PauseAfterLoss,
        LinkStep::PauseAfterLoss => LinkStep::AskStarted,
        LinkStep::AskStarted => if yes {
            LinkStep::Connect
        } else {
            LinkStep::Start
        },
        LinkStep::Start => LinkStep::Connect,
        LinkStep::Connect => if yes {
            LinkStep::AskConnected
        } else {
            LinkStep::PauseAfterFailure
        },
        LinkStep::PauseAfterFailure => LinkStep::AskConnected,
    }
}

/// The step after `step`.
pub fn connection(step: LinkStep, yes: bool) -> (next: LinkStep)
    ensures
        next == next_step(step, yes),
{
    match step {
        LinkStep::AskConnected => if yes {
            LinkStep::AwaitDisconnect
        } else {
            LinkStep::AskStarted
        },
        LinkStep::AwaitDisconnect => LinkStep::PauseAfterLoss,
        LinkStep::PauseAfterLoss => LinkStep::AskStarted,
        LinkStep::AskStarted => if yes {
            LinkStep::Connect
        } else {
            LinkStep::Start
        },
        LinkStep::Start => LinkStep::Connect,
        LinkStep::Connect => if yes {
            LinkStep::AskConnected
        } else {
            LinkStep::PauseAfterFailure
        },
        LinkStep::PauseAfterFailure => LinkStep::AskConnected,
    }
}

/// How long a step lasts, if it is a pause.
pub fn pause_ms(step: LinkStep) -> (ms: Option<u64>)
    ensures
        ms == (match step {
            LinkStep::PauseAfterLoss => Some(RELINK_PAUSE_MS),
            LinkStep::PauseAfterFailure => Some(CONNECT_RETRY_MS),
            _ => None,
        }),
{
    match step {
        LinkStep::PauseAfterLoss => Some(RELINK_PAUSE_MS),
        LinkStep::PauseAfterFailure => Some(CONNECT_RETRY_MS),
        _ => None,
    }
}

/// A client's counters.
#[derive(Clone, Copy, Debug, PartialEq, Eq, Structural)]
pub struct Counters {
    pub seen: u64,
    pub matched: u64,
    pub dropped: u64,
}

/// The heartbeat line.
pub open spec fn heartbeat_text(
    mac: (u8, u8, u8),
    synced_ns: Option<u128>,
    q: Quality,
    c: Counters,
) -> Seq<char> {
    match synced_ns {
        Some(ns) => "hb mac="@ + crate::rig::mac_text(mac) + " synced_ns="@ + crate::text::dec(
            ns as nat,
        ) + " samples="@ + crate::text::dec(q.n_samples as nat) + " drift_ppb="@
            + crate::text::dec_signed(q.drift_ppb as int) + " p95_us="@ + crate::text::dec(
            q.residual_us_p95 as nat,
        ) + " dropped="@ + crate::text::dec(c.dropped as nat) + "\n"@,
        None => "hb mac="@ + crate::rig::mac_text(mac) + " synced=NONE samples="@
            + crate::text::dec(q.n_samples as nat) + " seen="@ + crate::text::dec(c.seen as nat)
            + " matched="@ + crate::text::dec(c.matched as nat) + "\n"@,
    }
}

/// What the estimator and the counters say, behind a prefix.
pub open spec fn health_text(prefix: Seq<char>, q: Quality, c: Counters) -> Seq<char> {
    prefix + " samples="@ + crate::text::dec(q.n_samples as nat) + " drift_ppb="@
        + crate::text::dec_signed(q.drift_ppb as int) + " p95_us="@ + crate::text::dec(
        q.residual_us_p95 as nat,
    ) + " seen="@ + crate::text::dec(c.seen as nat) + " matched="@ + crate::text::dec(
        c.matched as nat,
    )
}

/// The heartbeat line, sent every second.
pub fn heartbeat_line(mac: (u8, u8, u8), synced_ns: Option<u128>, q: Quality, c: Counters) -> (out:
    String)
    ensures
        out@ == heartbeat_text(mac, synced_ns, q, c),
{
    let mut out: String = String::new();
    out.append("hb mac=");
    assert(out@ =~= "hb mac="@);
    push_mac(&mut out, mac);
    match synced_ns {
        Some(ns) => {
            out.append(" synced_ns=");
            push_dec(&mut out, ns);
            out.append(" samples=");
            push_dec(&mut out, q.n_samples as u128);
            out.append(" drift_ppb=");
            push_dec_signed(&mut out, q.drift_ppb as i64);
            out.append(" p95_us=");
            push_dec(&mut out, q.residual_us_p95 as u128);
            out.append(" dropped=");
            push_dec(&mut out, c.dropped as u128);
        },
        None => {
            out.append(" synced=NONE samples=");
            push_dec(&mut out, q.n_samples as u128);
            out.append(" seen=");
            push_dec(&mut out, c.seen as u128);
            out.append(" matched=");
            push_dec(&mut out, c.matched as u128);
        },
    }
    out.append("\n");
    out
}

/// Writes what the estimator and the counters say, behind a prefix.
fn health_line(prefix: &str, q: Quality, c: Counters) -> (out: String)
    ensures
        out@ == health_text(prefix@, q, c),
{
    let mut out: String = String::new();
    out.append(prefix);
    assert(out@ =~= prefix@);
    out.append(" samples=");
    push_dec(&mut out, q.n_samples as u128);
    out.append(" drift_ppb=");
    push_dec_signed(&mut out, q.drift_ppb as i64);
    out.append(" p95_us=");
    push_dec(&mut out, q.residual_us_p95 as u128);
    out.append(" seen=");
    push_dec(&mut out, c.seen as u128);
    out.append(" matched=");
    push_dec(&mut out, c.matched as u128);
    out
}

/// The line printed every two seconds when there is no server to report to.
pub fn sync_only_line(q: Quality, c: Counters) -> (out: String)
    ensures
        out@ == health_text("no server IP — sync-only:"@, q, c),
{
    health_line("no server IP — sync-only:", q, c)
}

/// The line that the pulse rig prints every ten seconds.
pub fn rig_stats_line(q: Quality, c: Counters) -> (out: String)
    ensures
        out@ == health_text("stats:"@, q, c) + " dropped="@ + crate::text::dec(c.dropped as nat),
{
    let mut out: String = health_line("stats:", q, c);
    out.append(" dropped=");
    push_dec(&mut out, c.dropped as u128);
    out
}

/// The line after a run of bytes.
pub open spec fn line_after_all(line: Seq<char>, bytes: Seq<u8>) -> Seq<char>
    decreases bytes.len(),
{
    if bytes.len() == 0 {
        line
    } else {
        line_after(line_after_all(line, bytes.drop_last()), bytes.last())
    }
}

/// Whether a byte stands for itself in a line.
pub open spec fn typed(b: u8) -> bool {
    b != 0x0a && b != 0x0d && !erases(b)
}

/// Backspace and delete take back what was typed last.
pub proof fn law_erasing_undoes_typing(line: Seq<char>, b: u8, eraser: u8)
    requires
        typed(b),
        erases(eraser),
    ensures
        line_after(line_after(line, b), eraser) == line,
{
    assert(line.push(b as char).drop_last() =~= line);
}

/// Without erasing, the line is what was typed, byte by byte.
pub proof fn law_line_is_what_was_typed(bytes: Seq<u8>)
    requires
        forall|i: int| 0 <= i < bytes.len() ==> typed(#[trigger] bytes[i]),
    ensures
        line_after_all(Seq::empty(), bytes) == Seq::new(bytes.len(), |i: int| bytes[i] as char),
    decreases bytes.len(),
{
    if bytes.len() > 0 {
        let front = bytes.drop_last();
        assert forall|i: int| 0 <= i < front.len() implies typed(#[trigger] front[i]) by {
            assert(front[i] == bytes[i]);
        }
        law_line_is_what_was_typed(front);
        assert(typed(bytes[bytes.len() - 1]));
    }
    assert(line_after_all(Seq::empty(), bytes) =~= Seq::new(
        bytes.len(),
        |i: int| bytes[i] as char,
    ));
}

/// The link task connects only with a controller that said it was started or
/// that it has just started.
pub proof fn law_connects_only_when_started(step: LinkStep, yes: bool)
    requires
        next_step(step, yes) == LinkStep::Connect,
    ensures
        step == LinkStep::Start || (step == LinkStep::AskStarted && yes),
{
}

/// Byte by byte: a line feed ends the line and a carriage return is passed over;
/// backspace and delete take the last character away, if there is one; any
/// other byte is appended as the character of its number. Of those only the
/// ones below 128 are echoed.
pub proof fn law_bytes_edit_the_line(line: Seq<char>, b: u8)
    ensures
        b == 10 || b == 13 ==> line_after(line, b) == line,
        (b == 8 || b == 127) && line.len() > 0 ==> line_after(line, b) == line.take(
            line.len() - 1,
        ),
        (b == 8 || b == 127) && line.len() == 0 ==> line_after(line, b).len() == 0,
        b != 10 && b != 13 && b != 8 && b != 127 ==> {
            &&& line_after(line, b).drop_last() == line
            &&& line_after(line, b).len() == line.len() + 1
            &&& line_after(line, b).last() as u32 == b
        },
        console_action(b) == ConsoleAction::Done <==> b == 10,
        console_action(b) == ConsoleAction::Quiet <==> b == 13 || b == 8 || b == 127 || b >= 128,
        console_action(b) matches ConsoleAction::Echo(c) ==> c as u32 == b,
{
    if b != 10 && b != 13 && b != 8 && b != 127 {
        assert(line_after(line, b).drop_last() =~= line);
    } else if (b == 8 || b == 127) && line.len() > 0 {
        assert(line.drop_last() =~= line.take(line.len() - 1));
    }
}

/// The link task, step by step: a connected station is left alone until it is
/// lost and for a pause after that; a controller that is not started is
/// started; then the station connects, and begins again, after a pause if that
/// failed.
pub proof fn law_link_steps(yes: bool)
    ensures
        next_step(LinkStep::AskConnected, true) == LinkStep::AwaitDisconnect,
        next_step(LinkStep::AskConnected, false) == LinkStep::AskStarted,
        next_step(next_step(LinkStep::AwaitDisconnect, yes), yes) == LinkStep::AskStarted,
        next_step(LinkStep::AwaitDisconnect, yes) == LinkStep::PauseAfterLoss,
        next_step(LinkStep::AskStarted, true) == LinkStep::Connect,
        next_step(LinkStep::AskStarted, false) == LinkStep::Start,
        next_step(LinkStep::Start, yes) == LinkStep::Connect,
        next_step(LinkStep::Connect, true) == LinkStep::AskConnected,
        next_step(LinkStep::Connect, false) == LinkStep::PauseAfterFailure,
        next_step(LinkStep::PauseAfterFailure, yes) == LinkStep::AskConnected,
{
}

} // verus!
