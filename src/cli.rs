use vstd::prelude::*;
use vstd::string::StringSliceAdditionalSpecFns;
use embassy_sync::blocking_mutex::raw::NoopRawMutex;
use embassy_sync::signal::Signal;
use crate::command::{command_of, parse_command_bytes, Command};
use crate::storage::{inserted, Storage, StorageError};

verus! {

/// State that the application derives and mirrors in memory.
#[derive(Debug, Clone, Copy, PartialEq, Eq, Structural)]
pub struct AppState {
    pub counter: u32,
    pub mode: u8,
}

/// Key under which the counter is persisted.
pub const KEY_COUNTER: &'static str = "app/run_count";

/// Key under which the mode is persisted.
pub const KEY_MODE: &'static str = "app/mode";

/// A change notification with a single pending slot: raising it again before
/// anyone takes it changes nothing.
#[verifier::external_body]
pub struct ChangeSignal {
    inner: Signal<NoopRawMutex, ()>,
}

/// Whether a raise is pending.
pub uninterp spec fn raised(s: ChangeSignal) -> bool;

/// Relies on embassy_sync's `Signal::new`: a new signal has nothing pending.
#[verifier::external_body]
fn signal_new() -> (r: ChangeSignal)
    ensures
        !raised(r),
{
    ChangeSignal { inner: Signal::new() }
}

/// Relies on embassy_sync's `Signal::signal`: afterwards a raise is pending,
/// in place of any earlier one.
#[verifier::external_body]
fn signal_raise(s: &mut ChangeSignal)
    ensures
        raised(*final(s)),
{
    s.inner.signal(())
}

/// Relies on embassy_sync's `Signal::try_take`: tells whether a raise was
/// pending, and leaves none pending.
#[verifier::external_body]
fn signal_take(s: &mut ChangeSignal) -> (r: bool)
    ensures
        r == raised(*old(s)),
        !raised(*final(s)),
{
    s.inner.try_take().is_some()
}

/// The in-memory copy of the application state, with the signal that
/// announces each change of it.
pub struct StateMirror {
    state: AppState,
    changed: ChangeSignal,
}

impl View for StateMirror {
    type V = (AppState, bool);

    /// The state held, and whether a change is pending.
    closed spec fn view(&self) -> (AppState, bool) {
        (self.state, raised(self.changed))
    }
}

/// The mirror after `write` stores `s`.
pub open spec fn after_write(v: (AppState, bool), s: AppState) -> (AppState, bool) {
    (s, true)
}

/// The mirror after a consumer takes the signal, and whether it woke.
pub open spec fn after_take(v: (AppState, bool)) -> ((AppState, bool), bool) {
    ((v.0, false), v.1)
}

/// Creates the mirror holding `initial_state`, with no change pending.
pub fn init(initial_state: AppState) -> (r: StateMirror)
    ensures
        r@ == (initial_state, false),
{
    StateMirror { state: initial_state, changed: signal_new() }
}

/// A copy of the state held.
pub fn get_state(mirror: &StateMirror) -> (r: AppState)
    ensures
        r == mirror@.0,
{
    mirror.state
}

/// Stores `state`, then raises the change signal.
pub fn update_state(mirror: &mut StateMirror, state: AppState)
    ensures
        final(mirror)@ == after_write(old(mirror)@, state),
{
    mirror.state = state;
    signal_raise(&mut mirror.changed);
}

/// Takes the change signal: whether a change was pending since the last
/// take. The state is left as it is.
pub fn take_change(mirror: &mut StateMirror) -> (r: bool)
    ensures
        (final(mirror)@, r) == after_take(old(mirror)@),
{
    signal_take(&mut mirror.changed)
}

/// Two writes before any consumer looks give one wake-up, after which the
/// state read is the second write's; a second look finds nothing pending.
pub proof fn lemma_signal_coalesces(v0: (AppState, bool), s1: AppState, s2: AppState)
    ensures
        ({
            let v2 = after_write(after_write(v0, s1), s2);
            let (v3, woke) = after_take(v2);
            &&& woke
            &&& v3.0 == s2
            &&& !after_take(v3).1
        }),
{
}

/// Longest command line kept; further characters are dropped.
pub const LINE_CAPACITY: usize = 64;

/// The text of the `help` command.
pub const HELP_TEXT: &'static str = "Available commands:\r\nget - Display current counter value and mode\r\nset <value> - Set counter to <value>\r\nmode <value> - Set mode to <value>\r\nhelp - Show this help text\r\n";

/// What a session writes when it starts.
pub const WELCOME_TEXT: &'static str = "\r\n===== STM32L071 CLI =====\r\nType 'help' for available commands\r\n> ";

/// Help text for the command line.
pub fn get_help_text() -> (r: &'static str)
    ensures
        r == HELP_TEXT,
{
    HELP_TEXT
}

/// `n` in decimal digits.
pub open spec fn decimal(n: nat) -> Seq<u8>
    decreases n,
{
    if n < 10 {
        seq![(48 + n) as u8]
    } else {
        decimal(n / 10).push((48 + n % 10) as u8)
    }
}

fn decimal_bytes(n: u32) -> (r: Vec<u8>)
    ensures
        r@ == decimal(n as nat),
    decreases n,
{
    if n < 10 {
        let mut v: Vec<u8> = Vec::new();
        v.push((48 + n) as u8);
        v
    } else {
        let mut v = decimal_bytes(n / 10);
        v.push((48 + n % 10) as u8);
        v
    }
}

fn push_bytes(out: &mut Vec<u8>, b: &[u8])
    ensures
        final(out)@ == old(out)@ + b@,
{
    let mut i: usize = 0;
    while i < b.len()
        invariant
            i <= b@.len(),
            out@ == old(out)@ + b@.subrange(0, i as int),
        decreases b@.len() - i,
    {
        out.push(b[i]);
        i = i + 1;
        assert(out@ =~= old(out)@ + b@.subrange(0, i as int));
    }
    assert(b@.subrange(0, b@.len() as int) =~= b@);
}

fn push_str(out: &mut Vec<u8>, s: &str)
    ensures
        final(out)@ == old(out)@ + s.spec_bytes(),
{
    push_bytes(out, s.as_bytes());
}

/// The prompt that ends each reply.
pub open spec fn prompt() -> Seq<u8> {
    "> ".spec_bytes()
}

/// The reply to a line, before the prompt: `saved` tells whether the value
/// of a `set` or `mode` command was persisted.
pub open spec fn reply(cmd: Command, state: AppState, saved: bool) -> Seq<u8> {
    match cmd {
        Command::Get => "Counter: ".spec_bytes() + decimal(state.counter as nat) + ", Mode: ".spec_bytes()
            + decimal(state.mode as nat) + "\r\n".spec_bytes(),
        Command::SetCounter { counter } => if saved {
            "Counter set to ".spec_bytes() + decimal(counter as nat) + "\r\n".spec_bytes()
        } else {
            "Failed to save counter\r\n".spec_bytes()
        },
        Command::SetMode { mode } => if saved {
            "Mode set to ".spec_bytes() + decimal(mode as nat) + "\r\n".spec_bytes()
        } else {
            "Failed to save mode\r\n".spec_bytes()
        },
        Command::Help => HELP_TEXT.spec_bytes(),
        Command::Unknown => "Unknown command. Type 'help' for available commands\r\n".spec_bytes(),
    }
}

/// Runs one command line: a `set` or `mode` command persists the value
/// first and, only once that succeeded, updates the mirror and raises its
/// signal. Gives the reply followed by the prompt (nothing for an empty
/// line), and the result of the store for a `set` or `mode` command.
pub fn execute_line(line: &[u8], storage: &mut Storage, mirror: &mut StateMirror) -> (r: (
    Vec<u8>,
    Option<Result<(), StorageError>>,
))
    requires
        old(storage).wf(),
    ensures
        final(storage).wf(),
        final(storage).spec_region() == old(storage).spec_region(),
        line@.len() == 0 ==> r.0@.len() == 0 && r.1 is None && final(storage)@ == old(storage)@
            && final(mirror)@ == old(mirror)@,
        line@.len() > 0 && !(command_of(line@) is SetCounter) && !(command_of(line@) is SetMode)
            ==> r.1 is None && r.0@ == reply(command_of(line@), old(mirror)@.0, false) + prompt()
            && final(storage)@ == old(storage)@ && final(mirror)@ == old(mirror)@,
        line@.len() > 0 && command_of(line@) is SetCounter ==> (r.1 matches Some(res) && inserted(
            old(storage)@,
            KEY_COUNTER,
            command_of(line@)->counter,
            res,
            final(storage)@,
        ) && r.0@ == reply(command_of(line@), old(mirror)@.0, res is Ok) + prompt() && (res is Ok
            ==> final(mirror)@ == after_write(
            old(mirror)@,
            AppState { counter: command_of(line@)->counter, mode: old(mirror)@.0.mode },
        )) && (res is Err ==> final(mirror)@ == old(mirror)@)),
        line@.len() > 0 && command_of(line@) is SetMode ==> (r.1 matches Some(res) && inserted(
            old(storage)@,
            KEY_MODE,
            command_of(line@)->mode,
            res,
            final(storage)@,
        ) && r.0@ == reply(command_of(line@), old(mirror)@.0, res is Ok) + prompt() && (res is Ok
            ==> final(mirror)@ == after_write(
            old(mirror)@,
            AppState { counter: old(mirror)@.0.counter, mode: command_of(line@)->mode },
        )) && (res is Err ==> final(mirror)@ == old(mirror)@)),
{
    let mut out: Vec<u8> = Vec::new();
    if line.len() == 0 {
        return (out, None);
    }
    let mut stored: Option<Result<(), StorageError>> = None;
    let cmd = parse_command_bytes(line);
    match cmd {
        Command::Get => {
            let state = get_state(mirror);
            push_str(&mut out, "Counter: ");
            let d = decimal_bytes(state.counter as u32);
            push_bytes(&mut out, d.as_slice());
            push_str(&mut out, ", Mode: ");
            let d = decimal_bytes(state.mode as u32);
            push_bytes(&mut out, d.as_slice());
            push_str(&mut out, "\r\n");
        },
        Command::SetCounter { counter } => {
            let mut state = get_state(mirror);
            state.counter = counter;
            let res = storage.insert(KEY_COUNTER, &counter);
            stored = Some(res);
            match res {
                Ok(()) => {
                    push_str(&mut out, "Counter set to ");
                    let d = decimal_bytes(counter);
                    push_bytes(&mut out, d.as_slice());
                    push_str(&mut out, "\r\n");
                    update_state(mirror, state);
                },
                Err(_) => {
                    push_str(&mut out, "Failed to save counter\r\n");
                },
            }
        },
        Command::SetMode { mode } => {
            let mut state = get_state(mirror);
            state.mode = mode;
            let res = storage.insert(KEY_MODE, &mode);
            stored = Some(res);
            match res {
                Ok(()) => {
                    push_str(&mut out, "Mode set to ");
                    let d = decimal_bytes(mode as u32);
                    push_bytes(&mut out, d.as_slice());
                    push_str(&mut out, "\r\n");
                    update_state(mirror, state);
                },
                Err(_) => {
                    push_str(&mut out, "Failed to save mode\r\n");
                },
            }
        },
        Command::Help => {
            push_str(&mut out, get_help_text());
        },
        Command::Unknown => {
            push_str(&mut out, "Unknown command. Type 'help' for available commands\r\n");
        },
    }
    push_str(&mut out, "> ");
    (out, stored)
}

/// One byte of line editing, other than a line end: the line after it and
/// what is written besides the echo. Backspace and delete remove the last
/// character; printable ASCII is appended while the line has room; anything
/// else is ignored.
pub open spec fn edit(line: Seq<u8>, c: u8) -> (Seq<u8>, Seq<u8>) {
    if c == 8 || c == 127 {
        if line.len() > 0 {
            (line.drop_last(), seq![8u8, 32u8, 8u8])
        } else {
            (line, Seq::empty())
        }
    } else if 32 <= c && c <= 126 && line.len() < LINE_CAPACITY {
        (line.push(c), Seq::empty())
    } else {
        (line, Seq::empty())
    }
}

/// Feeding a chunk read from the stream to a line: the line after it, what
/// is written back, and whether a line end was reached. Each byte is echoed;
/// a carriage return or line feed ends the line, is followed by CR LF, and
/// the bytes after it in the chunk are dropped.
pub open spec fn feed_spec(line: Seq<u8>, chunk: Seq<u8>) -> (Seq<u8>, Seq<u8>, bool)
    decreases chunk.len(),
{
    if chunk.len() == 0 {
        (line, Seq::empty(), false)
    } else {
        let c = chunk[0];
        if c == 13 || c == 10 {
            (line, seq![c, 13u8, 10u8], true)
        } else {
            let (l1, o1) = edit(line, c);
            let (l2, o2, done) = feed_spec(l1, chunk.drop_first());
            (l2, seq![c] + o1 + o2, done)
        }
    }
}

/// The characters of a command line, in a string of fixed capacity.
#[verifier::external_body]
pub struct LineBuffer {
    text: heapless::String<64>,
}

/// The bytes that the line buffer holds.
pub uninterp spec fn line_bytes(b: LineBuffer) -> Seq<u8>;

/// Relies on heapless' `String::new`: a new string is empty.
#[verifier::external_body]
fn line_new() -> (r: LineBuffer)
    ensures
        line_bytes(r) == Seq::<u8>::empty(),
{
    LineBuffer { text: heapless::String::new() }
}

/// Relies on heapless' `String::push`: an ASCII character takes one byte,
/// and is appended when the string has room for it among its 64 bytes;
/// otherwise the string is left as it was.
#[verifier::external_body]
fn line_push(b: &mut LineBuffer, c: u8) -> (r: bool)
    requires
        c < 128,
    ensures
        r == (line_bytes(*old(b)).len() < 64),
        r ==> line_bytes(*final(b)) == line_bytes(*old(b)).push(c),
        !r ==> line_bytes(*final(b)) == line_bytes(*old(b)),
{
    b.text.push(c as char).is_ok()
}

/// Relies on heapless' `String::pop`: it removes the last character, which
/// in an ASCII string is the last byte; an empty string stays empty.
#[verifier::external_body]
fn line_pop(b: &mut LineBuffer)
    requires
        forall|i: int| 0 <= i < line_bytes(*old(b)).len() ==> line_bytes(*old(b))[i] < 128,
    ensures
        line_bytes(*old(b)).len() > 0 ==> line_bytes(*final(b)) == line_bytes(*old(b)).drop_last(),
        line_bytes(*old(b)).len() == 0 ==> line_bytes(*final(b)) == line_bytes(*old(b)),
{
    b.text.pop();
}

/// Relies on heapless' `String::as_str`: the bytes held.
#[verifier::external_body]
fn line_to_vec(b: &LineBuffer) -> (r: Vec<u8>)
    ensures
        r@ == line_bytes(*b),
{
    b.text.as_str().as_bytes().to_vec()
}

/// The line being typed in a command-line session.
pub struct Session {
    line: LineBuffer,
}

impl View for Session {
    type V = Seq<u8>;

    closed spec fn view(&self) -> Seq<u8> {
        line_bytes(self.line)
    }
}

proof fn lemma_feed_step(line: Seq<u8>, chunk: Seq<u8>, i: int)
    requires
        0 <= i < chunk.len(),
        chunk[i] != 13 && chunk[i] != 10,
    ensures
        ({
            let (l1, o1) = edit(line, chunk[i]);
            let (l2, o2, d2) = feed_spec(l1, chunk.subrange(i + 1, chunk.len() as int));
            feed_spec(line, chunk.subrange(i, chunk.len() as int)) == (l2, seq![chunk[i]] + o1
                + o2, d2)
        }),
{
    let t = chunk.subrange(i, chunk.len() as int);
    assert(t.drop_first() =~= chunk.subrange(i + 1, chunk.len() as int));
}

impl Session {
    /// The line holds printable ASCII within the capacity.
    pub closed spec fn wf(&self) -> bool {
        &&& self@.len() <= LINE_CAPACITY
        &&& forall|i: int| 0 <= i < self@.len() ==> 32 <= #[trigger] self@[i] && self@[i] <= 126
    }

    /// A session with an empty line.
    pub fn new() -> (r: Session)
        ensures
            r.wf(),
            r@.len() == 0,
    {
        Session { line: line_new() }
    }

    /// What the session writes when it starts.
    pub fn welcome() -> (r: &'static str)
        ensures
            r == WELCOME_TEXT,
    {
        WELCOME_TEXT
    }

    /// Takes one chunk read from the stream, and gives what to write back
    /// and whether the line is complete.
    pub fn feed(&mut self, chunk: &[u8]) -> (r: (Vec<u8>, bool))
        requires
            old(self).wf(),
        ensures
            final(self).wf(),
            (final(self)@, r.0@, r.1) == feed_spec(old(self)@, chunk@),
    {
        let mut out: Vec<u8> = Vec::new();
        let mut i: usize = 0;
        proof {
            assert(chunk@.subrange(0, chunk@.len() as int) =~= chunk@);
            assert(forall|o: Seq<u8>| out@ + o =~= o);
        }
        while i < chunk.len()
            invariant
                i <= chunk@.len(),
                self.wf(),
                ({
                    let (l, o, d) = feed_spec(line_bytes(self.line), chunk@.subrange(i as int, chunk@.len() as int));
                    feed_spec(old(self)@, chunk@) == (l, out@ + o, d)
                }),
            decreases chunk@.len() - i,
        {
            let c = chunk[i];
            if c == 13 || c == 10 {
                proof {
                    let t = chunk@.subrange(i as int, chunk@.len() as int);
                    assert(t[0] == c);
                }
                out.push(c);
                out.push(13);
                out.push(10);
                return (out, true);
            }
            proof {
                lemma_feed_step(line_bytes(self.line), chunk@, i as int);
            }
            out.push(c);
            if c == 8 || c == 127 {
                let had = line_to_vec(&self.line);
                if had.len() > 0 {
                    line_pop(&mut self.line);
                    out.push(8);
                    out.push(32);
                    out.push(8);
                }
            } else if 32 <= c && c <= 126 {
                line_push(&mut self.line, c);
            }
            i = i + 1;
        }
        proof {
            assert(chunk@.subrange(chunk@.len() as int, chunk@.len() as int) =~= Seq::<u8>::empty());
            assert(out@ + Seq::<u8>::empty() =~= out@);
        }
        (out, false)
    }

    /// Takes the line typed so far out of the session, leaving it empty.
    pub fn take_line(&mut self) -> (r: Vec<u8>)
        ensures
            final(self).wf(),
            r@ == old(self)@,
            final(self)@.len() == 0,
    {
        let line = line_to_vec(&self.line);
        self.line = line_new();
        line
    }
}

} // verus!
