//! Display-wide pointer readings and the client that acquires them: what the
//! client binds, which output it captures, when it asks for the capture
//! session, and when its loop ends.

use vstd::prelude::*;
use wayland_client::protocol::wl_output::WlOutput;
use wayland_client::protocol::wl_seat::{Capability, WlSeat};
use wayland_client::Proxy;
use crate::decimal::{all_digits, digit, digits_value};
use crate::text::chars_of;

verus! {

/// One display-wide pointer reading, in device pixels of the captured output.
#[derive(Clone, Copy, Debug, PartialEq, Eq, Structural)]
pub struct Sample {
    pub x: i32,
    pub y: i32,
}

/// What the capture session reports.
#[derive(Clone, Copy, Debug, PartialEq, Eq, Structural)]
pub enum Update {
    /// The pointer is at this position.
    Position(Sample),
    /// The pointer left the captured output.
    Left,
}

/// Why the client could not run.
#[derive(Clone, Copy, Debug, PartialEq, Eq, Structural)]
pub enum WatcherError {
    /// The descriptor of the privileged socket is not a number.
    InvalidDescriptor,
    /// The connection to the display server was lost.
    Disconnected,
}

/// Whether the bridge to the client is set up.
#[derive(Debug)]
pub enum Bridge {
    /// No client runs and no update ever comes.
    Idle,
    /// One client runs on a thread of its own, on this socket descriptor.
    Watch { privileged_fd: String },
}

/// An object that the display server advertises.
#[derive(Debug)]
pub struct Global {
    pub name: u32,
    pub interface: String,
    pub version: u32,
}

/// An object to bind, and the version to bind it at.
#[derive(Clone, Copy, Debug, PartialEq, Eq, Structural)]
pub enum Binding {
    Output { global_name: u32, version: u32 },
    Seat { global_name: u32, version: u32 },
}

/// An output that was bound, with its name once the server has told it.
#[derive(Debug)]
pub struct OutputInfo {
    pub global_name: u32,
    pub name: Option<String>,
}

/// An event of an output.
#[derive(Debug)]
pub enum OutputEvent {
    /// The output's name.
    Name(String),
    /// Anything else.
    Other,
}

/// Where the client's loop stands.
#[derive(Clone, Copy, Debug, PartialEq, Eq, Structural)]
pub enum LoopEvent {
    /// Whether the consumer has closed the channel for updates.
    Channel { closed: bool },
    /// Whether a blocking dispatch of events went through.
    Dispatched { ok: bool },
}

/// What the client's loop does next.
#[derive(Clone, Copy, Debug, PartialEq, Eq, Structural)]
pub enum LoopAction {
    /// Look whether the channel for updates is closed.
    CheckChannel,
    /// Dispatch events, blocking until there are some.
    Dispatch,
    /// End the loop: the consumer is gone.
    Finish,
    /// End the loop: the connection is lost.
    Fail(WatcherError),
}

/// One turn of the client's loop: what to do next and, where the capture
/// session is to be asked for now, the global name of the output to capture.
#[derive(Clone, Copy, Debug, PartialEq, Eq, Structural)]
pub struct Turn {
    pub action: LoopAction,
    pub session: Option<u32>,
}

/// The state of the client.
#[derive(Debug)]
pub struct CursorWatcher {
    /// Whether the capture protocol's state is set up.
    pub screencopy: bool,
    /// The output to prefer, by name.
    pub desired_output_name: Option<String>,
    /// The outputs that were bound, in the order of their discovery.
    pub outputs: Vec<OutputInfo>,
    /// The global name of the seat that was bound.
    pub seat: Option<u32>,
    /// Whether the seat's pointer was acquired.
    pub pointer: bool,
    /// Whether the capture session runs.
    pub cursor_session: bool,
    /// Whether the capture session was asked for, with or without success.
    pub cursor_session_attempted: bool,
}

/// The number that a socket descriptor's text writes: an optional sign and
/// at least one digit, within the range of a descriptor.
pub open spec fn spec_descriptor(s: Seq<char>) -> Option<int> {
    let signed = s.len() > 0 && (s[0] == '+' || s[0] == '-');
    let negative = s.len() > 0 && s[0] == '-';
    let digits = if signed {
        s.skip(1)
    } else {
        s
    };
    let value = if negative {
        -digits_value(digits)
    } else {
        digits_value(digits)
    };
    if digits.len() > 0 && all_digits(digits) && i32::MIN <= value <= i32::MAX {
        Some(value)
    } else {
        None
    }
}

/// Whether `g` is an output.
pub open spec fn is_output(g: Global) -> bool {
    g.interface@ == "wl_output"@
}

/// Whether `g` is a seat.
pub open spec fn is_seat(g: Global) -> bool {
    g.interface@ == "wl_seat"@
}

/// The lesser of two versions.
pub open spec fn lesser(a: u32, b: u32) -> u32 {
    if a <= b {
        a
    } else {
        b
    }
}

/// The seat that is bound once `globals` were gone through in order: the
/// one bound before, else the first seat among them.
pub open spec fn seat_after(globals: Seq<Global>, seat: Option<u32>) -> Option<u32>
    decreases globals.len(),
{
    if globals.len() == 0 {
        seat
    } else {
        let before = seat_after(globals.drop_last(), seat);
        if before is None && !is_output(globals.last()) && is_seat(globals.last()) {
            Some(globals.last().name)
        } else {
            before
        }
    }
}

/// The outputs that `globals` hold, in order, each without a name yet.
pub open spec fn outputs_of(globals: Seq<Global>) -> Seq<OutputInfo>
    decreases globals.len(),
{
    if globals.len() == 0 {
        Seq::empty()
    } else if is_output(globals.last()) {
        outputs_of(globals.drop_last()).push(
            OutputInfo { global_name: globals.last().name, name: None },
        )
    } else {
        outputs_of(globals.drop_last())
    }
}

/// What is bound when `globals` are gone through in order, with `seat`
/// bound before: every output, at its advertised version up to 4, and, with
/// no seat bound yet, the first seat, at its advertised version up to 5.
pub open spec fn bindings_of(globals: Seq<Global>, seat: Option<u32>) -> Seq<Binding>
    decreases globals.len(),
{
    if globals.len() == 0 {
        Seq::empty()
    } else {
        let g = globals.last();
        let before = bindings_of(globals.drop_last(), seat);
        if is_output(g) {
            before.push(Binding::Output { global_name: g.name, version: lesser(g.version, 4) })
        } else if is_seat(g) && seat_after(globals.drop_last(), seat) is None {
            before.push(Binding::Seat { global_name: g.name, version: lesser(g.version, 5) })
        } else {
            before
        }
    }
}

/// Whether `output` is known under the name `desired`.
pub open spec fn named(output: OutputInfo, desired: Seq<char>) -> bool {
    match output.name {
        Some(name) => name@ == desired,
        None => false,
    }
}

/// Whether one of `outputs` is known under the name `desired`.
pub open spec fn has_named(outputs: Seq<OutputInfo>, desired: Option<String>) -> bool {
    match desired {
        Some(d) => exists|j: int| 0 <= j < outputs.len() && named(#[trigger] outputs[j], d@),
        None => false,
    }
}

/// Whether `i` is the output to capture: the first that is known under the
/// desired name, where a name is desired and an output is known under it;
/// else the first output.
pub open spec fn is_best(outputs: Seq<OutputInfo>, desired: Option<String>, i: int) -> bool {
    &&& 0 <= i < outputs.len()
    &&& if has_named(outputs, desired) {
        &&& named(outputs[i], desired->0@)
        &&& forall|j: int| 0 <= j < i ==> !named(#[trigger] outputs[j], desired->0@)
    } else {
        i == 0
    }
}

/// Whether `i` is the first of `outputs` that was bound from the global
/// `global_name`.
pub open spec fn is_first_from(outputs: Seq<OutputInfo>, global_name: u32, i: int) -> bool {
    &&& 0 <= i < outputs.len()
    &&& outputs[i].global_name == global_name
    &&& forall|k: int| 0 <= k < i ==> (#[trigger] outputs[k]).global_name != global_name
}

/// Whether the client is ready to ask for the capture session, and has not
/// asked before.
pub open spec fn session_due(w: CursorWatcher) -> bool {
    &&& !w.cursor_session_attempted
    &&& !w.cursor_session
    &&& w.pointer
    &&& w.outputs@.len() > 0
    &&& w.screencopy
}

/// How asking for the capture session takes the client from `pre` to `post`
/// with the answer `r`. Where the session is due, `r` is the global name of
/// the output to capture and the session counts as asked for; else `r` is
/// `None` and nothing changes.
pub open spec fn asks_session(pre: CursorWatcher, post: CursorWatcher, r: Option<u32>) -> bool {
    if session_due(pre) {
        &&& r is Some
        &&& exists|i: int|
            is_best(pre.outputs@, pre.desired_output_name, i) && r->0 == (
            #[trigger] pre.outputs@[i]).global_name
        &&& post.cursor_session_attempted
        &&& post.screencopy == pre.screencopy
        &&& post.desired_output_name == pre.desired_output_name
        &&& post.outputs == pre.outputs
        &&& post.seat == pre.seat
        &&& post.pointer == pre.pointer
        &&& post.cursor_session == pre.cursor_session
    } else {
        r is None && post == pre
    }
}

/// What the client's loop does after `event`: with the channel closed it
/// ends, with the channel open it dispatches; after a dispatch that went
/// through it looks at the channel again, and after one that failed it ends
/// with an error.
pub open spec fn action_after(event: LoopEvent) -> LoopAction {
    match event {
        LoopEvent::Channel { closed } => if closed {
            LoopAction::Finish
        } else {
            LoopAction::Dispatch
        },
        LoopEvent::Dispatched { ok } => if ok {
            LoopAction::CheckChannel
        } else {
            LoopAction::Fail(WatcherError::Disconnected)
        },
    }
}

/// A closed channel ends the loop within one dispatch: nothing is dispatched
/// without a look at the channel just before, and no look at a closed
/// channel is followed by a dispatch.
pub proof fn lemma_closed_channel_ends_loop(event: LoopEvent)
    ensures
        action_after(event) == LoopAction::Dispatch <==> event == (LoopEvent::Channel {
            closed: false,
        }),
        action_after(LoopEvent::Channel { closed: true }) == LoopAction::Finish,
{
}

/// The capture session is asked for at most once: a request that is made
/// leaves the session counted as asked for, and from a state in which it
/// counts as asked for no request is made and nothing changes.
pub proof fn lemma_session_asked_once(
    pre: CursorWatcher,
    post: CursorWatcher,
    r: Option<u32>,
    later: CursorWatcher,
    after: CursorWatcher,
    again: Option<u32>,
)
    requires
        asks_session(pre, post, r),
        asks_session(later, after, again),
    ensures
        r is Some ==> post.cursor_session_attempted,
        later.cursor_session_attempted ==> again is None && after == later,
{
}

/// Whether a seat with these capabilities has a pointer.
pub open spec fn spec_has_pointer(capabilities: u32) -> bool {
    capabilities & 1 == 1
}

/// `WlOutput::interface().version` of wayland-client: the highest version of
/// the output interface that the client library speaks, which is 4.
#[verifier::external_body]
fn output_interface_version() -> (v: u32)
    ensures
        v == 4,
{
    WlOutput::interface().version
}

/// `WlSeat::interface().version` of wayland-client: the highest version of
/// the seat interface that the client library speaks, which is 11.
#[verifier::external_body]
fn seat_interface_version() -> (v: u32)
    ensures
        v == 11,
{
    WlSeat::interface().version
}

/// `Capability::contains` of wayland-client's seat, asked for the pointer:
/// whether the pointer's bit, the lowest, is set in `capabilities`.
#[verifier::external_body]
fn has_pointer(capabilities: u32) -> (b: bool)
    ensures
        b == spec_has_pointer(capabilities),
{
    Capability::from_bits_retain(capabilities).contains(Capability::Pointer)
}

/// The lesser of two versions.
pub fn min_version(a: u32, b: u32) -> (v: u32)
    ensures
        v == lesser(a, b),
{
    if a <= b {
        a
    } else {
        b
    }
}

/// Whether to run a client, and on which socket: none where the feature is
/// switched off or no privileged socket was handed down.
pub fn subscription(disabled: bool, privileged_fd: Option<String>) -> (bridge: Bridge)
    ensures
        match bridge {
            Bridge::Idle => disabled || privileged_fd is None,
            Bridge::Watch { privileged_fd: fd } => !disabled && privileged_fd == Some(fd),
        },
{
    if disabled {
        return Bridge::Idle;
    }
    match privileged_fd {
        Some(fd) => Bridge::Watch { privileged_fd: fd },
        None => Bridge::Idle,
    }
}

/// The socket descriptor that `text` writes.
pub fn parse_descriptor(text: &str) -> (r: Result<i32, WatcherError>)
    ensures
        match r {
            Ok(fd) => spec_descriptor(text@) == Some(fd as int),
            Err(e) => e == WatcherError::InvalidDescriptor && spec_descriptor(text@) is None,
        },
{
    let v: Vec<char> = chars_of(text);
    let mut start: usize = 0;
    let mut negative: bool = false;
    if v.len() > 0 && (v[0] == '+' || v[0] == '-') {
        negative = v[0] == '-';
        start = 1;
    }
    let ghost digits = v@.subrange(start as int, v.len() as int);
    assert(digits =~= if v@.len() > 0 && (v@[0] == '+' || v@[0] == '-') {
        v@.skip(1)
    } else {
        v@
    });
    if start == v.len() {
        return Err(WatcherError::InvalidDescriptor);
    }
    let mut i: usize = start;
    let mut value: i64 = 0;
    let mut over: bool = false;
    while i < v.len()
        invariant
            start <= i <= v.len(),
            v@ == text@,
            digits == v@.subrange(start as int, v.len() as int),
            digits == if v@.len() > 0 && (v@[0] == '+' || v@[0] == '-') {
                v@.skip(1)
            } else {
                v@
            },
            all_digits(v@.subrange(start as int, i as int)),
            !over ==> value == digits_value(v@.subrange(start as int, i as int)) && 0 <= value
                <= 2_147_483_648,
            over ==> digits_value(v@.subrange(start as int, i as int)) > 2_147_483_648,
        decreases v.len() - i,
    {
        if !digit(v[i]) {
            assert(digits[i - start] == v@[i as int]);
            return Err(WatcherError::InvalidDescriptor);
        }
        let d: i64 = (v[i] as i64) - 48;
        assert(v@.subrange(start as int, i + 1).drop_last() == v@.subrange(
            start as int,
            i as int,
        ));
        if !over {
            let next: i64 = value * 10 + d;
            if next > 2_147_483_648 {
                over = true;
            } else {
                value = next;
            }
        }
        i += 1;
    }
    if over {
        return Err(WatcherError::InvalidDescriptor);
    }
    if negative {
        Ok((-value) as i32)
    } else if value > 2_147_483_647 {
        Err(WatcherError::InvalidDescriptor)
    } else {
        Ok(value as i32)
    }
}

impl CursorWatcher {
    /// A client that has bound nothing yet.
    pub fn new(desired_output_name: Option<String>) -> (w: CursorWatcher)
        ensures
            !w.screencopy,
            w.desired_output_name == desired_output_name,
            w.outputs@.len() == 0,
            w.seat is None,
            !w.pointer,
            !w.cursor_session,
            !w.cursor_session_attempted,
    {
        CursorWatcher {
            screencopy: false,
            desired_output_name,
            outputs: Vec::new(),
            seat: None,
            pointer: false,
            cursor_session: false,
            cursor_session_attempted: false,
        }
    }

    /// Goes through the objects that the server advertises and says what to
    /// bind: every output and the first seat. The outputs are kept, without
    /// a name yet, and the capture protocol's state counts as set up.
    pub fn bind_initial_globals(&mut self, globals: &Vec<Global>) -> (plan: Vec<Binding>)
        ensures
            plan@ == bindings_of(globals@, old(self).seat),
            final(self).outputs@ == old(self).outputs@ + outputs_of(globals@),
            final(self).seat == seat_after(globals@, old(self).seat),
            final(self).screencopy,
            final(self).desired_output_name == old(self).desired_output_name,
            final(self).pointer == old(self).pointer,
            final(self).cursor_session == old(self).cursor_session,
            final(self).cursor_session_attempted == old(self).cursor_session_attempted,
    {
        self.screencopy = true;
        let mut plan: Vec<Binding> = Vec::new();
        let output_name = String::from_str("wl_output");
        let seat_name = String::from_str("wl_seat");
        let mut i: usize = 0;
        while i < globals.len()
            invariant
                i <= globals.len(),
                output_name@ == "wl_output"@,
                seat_name@ == "wl_seat"@,
                plan@ == bindings_of(globals@.take(i as int), old(self).seat),
                self.outputs@ == old(self).outputs@ + outputs_of(globals@.take(i as int)),
                self.seat == seat_after(globals@.take(i as int), old(self).seat),
                self.screencopy,
                self.desired_output_name == old(self).desired_output_name,
                self.pointer == old(self).pointer,
                self.cursor_session == old(self).cursor_session,
                self.cursor_session_attempted == old(self).cursor_session_attempted,
            decreases globals.len() - i,
        {
            let g = &globals[i];
            assert(globals@.take(i + 1).drop_last() == globals@.take(i as int));
            if g.interface == output_name {
                let version: u32 = min_version(min_version(g.version, output_interface_version()), 4);
                plan.push(Binding::Output { global_name: g.name, version });
                self.outputs.push(OutputInfo { global_name: g.name, name: None });
            } else if g.interface == seat_name {
                if self.seat.is_none() {
                    let version: u32 = min_version(
                        min_version(g.version, seat_interface_version()),
                        5,
                    );
                    plan.push(Binding::Seat { global_name: g.name, version });
                    self.seat = Some(g.name);
                }
            }
            i += 1;
        }
        assert(globals@.take(globals.len() as int) == globals@);
        plan
    }

    /// The output to capture, by its place among the outputs.
    pub fn best_output(&self) -> (r: Option<usize>)
        ensures
            match r {
                Some(i) => is_best(self.outputs@, self.desired_output_name, i as int),
                None => self.outputs@.len() == 0,
            },
    {
        if let Some(desired) = &self.desired_output_name {
            let mut i: usize = 0;
            while i < self.outputs.len()
                invariant
                    i <= self.outputs.len(),
                    self.desired_output_name == Some(*desired),
                    forall|j: int| 0 <= j < i ==> !named(#[trigger] self.outputs@[j], desired@),
                decreases self.outputs.len() - i,
            {
                let found: bool = match &self.outputs[i].name {
                    Some(name) => *name == *desired,
                    None => false,
                };
                if found {
                    return Some(i);
                }
                i += 1;
            }
        }
        if self.outputs.len() > 0 {
            Some(0)
        } else {
            None
        }
    }

    /// Asks for the capture session once everything that it needs is there:
    /// gives the global name of the output to capture, and counts the
    /// session as asked for. `None`, and no change, where it was asked for
    /// before or something is still missing.
    pub fn ensure_cursor_session(&mut self) -> (r: Option<u32>)
        ensures
            asks_session(*old(self), *final(self), r),
    {
        if self.cursor_session_attempted {
            return None;
        }
        if self.cursor_session {
            return None;
        }
        if !self.pointer {
            return None;
        }
        let chosen: usize = match self.best_output() {
            Some(i) => i,
            None => {
                return None;
            },
        };
        if !self.screencopy {
            return None;
        }
        self.cursor_session_attempted = true;
        Some(self.outputs[chosen].global_name)
    }

    /// Takes the answer to the request for the capture session: the session
    /// runs where the request went through.
    pub fn session_result(&mut self, started: bool)
        ensures
            final(self).cursor_session == (old(self).cursor_session || started),
            final(self).cursor_session_attempted,
            final(self).screencopy == old(self).screencopy,
            final(self).desired_output_name == old(self).desired_output_name,
            final(self).outputs == old(self).outputs,
            final(self).seat == old(self).seat,
            final(self).pointer == old(self).pointer,
    {
        if started {
            self.cursor_session = true;
        }
        self.cursor_session_attempted = true;
    }

    /// The update for a pointer position that the capture session reports.
    pub fn cursor_position(&self, x: i32, y: i32) -> (u: Update)
        ensures
            u == Update::Position(Sample { x, y }),
    {
        Update::Position(Sample { x, y })
    }

    /// The update for the pointer leaving the captured output.
    pub fn cursor_leave(&self) -> (u: Update)
        ensures
            u == Update::Left,
    {
        Update::Left
    }

    /// Takes an event of the output that was bound from the global
    /// `global_name`: a name is kept with the first such output, and nothing
    /// else changes anything.
    pub fn output_event(&mut self, global_name: u32, event: OutputEvent)
        ensures
            final(self).screencopy == old(self).screencopy,
            final(self).desired_output_name == old(self).desired_output_name,
            final(self).seat == old(self).seat,
            final(self).pointer == old(self).pointer,
            final(self).cursor_session == old(self).cursor_session,
            final(self).cursor_session_attempted == old(self).cursor_session_attempted,
            match event {
                OutputEvent::Name(name) => {
                    &&& forall|i: int|
                        is_first_from(old(self).outputs@, global_name, i) ==> final(self).outputs@
                            == old(self).outputs@.update(
                            i,
                            (OutputInfo { global_name, name: Some(name) }),
                        )
                    &&& (forall|i: int| !is_first_from(old(self).outputs@, global_name, i))
                        ==> final(self).outputs@ == old(self).outputs@
                },
                OutputEvent::Other => final(self).outputs@ == old(self).outputs@,
            },
    {
        let name: String = match event {
            OutputEvent::Name(name) => name,
            OutputEvent::Other => {
                return ;
            },
        };
        let mut i: usize = 0;
        while i < self.outputs.len()
            invariant
                i <= self.outputs.len(),
                *self == *old(self),
                event == OutputEvent::Name(name),
                forall|k: int|
                    0 <= k < i ==> (#[trigger] old(self).outputs@[k]).global_name != global_name,
            decreases self.outputs.len() - i,
        {
            if self.outputs[i].global_name == global_name {
                assert(is_first_from(old(self).outputs@, global_name, i as int));
                self.outputs.set(i, OutputInfo { global_name, name: Some(name) });
                return ;
            }
            i += 1;
        }
    }

    /// Takes the capabilities of the seat, `None` where they are not
    /// understood, and says whether to acquire the seat's pointer now: where
    /// none was acquired yet and the seat has one. The pointer then counts as
    /// acquired.
    pub fn seat_capabilities(&mut self, capabilities: Option<u32>) -> (acquire: bool)
        ensures
            acquire == (!old(self).pointer && capabilities is Some && spec_has_pointer(
                capabilities->0,
            )),
            final(self).pointer == (old(self).pointer || acquire),
            final(self).screencopy == old(self).screencopy,
            final(self).desired_output_name == old(self).desired_output_name,
            final(self).outputs == old(self).outputs,
            final(self).seat == old(self).seat,
            final(self).cursor_session == old(self).cursor_session,
            final(self).cursor_session_attempted == old(self).cursor_session_attempted,
    {
        if self.pointer {
            return false;
        }
        match capabilities {
            Some(bits) => {
                if has_pointer(bits) {
                    self.pointer = true;
                    true
                } else {
                    false
                }
            },
            None => false,
        }
    }

    /// The first turn of the client's loop, once the globals are bound and
    /// the first round trip is over: asks for the capture session where it is
    /// due, and goes on to look at the channel.
    pub fn start(&mut self) -> (turn: Turn)
        ensures
            turn.action == LoopAction::CheckChannel,
            asks_session(*old(self), *final(self), turn.session),
    {
        let session: Option<u32> = self.ensure_cursor_session();
        Turn { action: LoopAction::CheckChannel, session }
    }

    /// One turn of the client's loop. With the channel closed the loop ends;
    /// with it open, events are dispatched. A dispatch that failed ends the
    /// loop with an error; after one that went through, the capture session
    /// is asked for where it is due, and the channel is looked at again.
    pub fn run_step(&mut self, event: LoopEvent) -> (turn: Turn)
        ensures
            turn.action == action_after(event),
            if event == (LoopEvent::Dispatched { ok: true }) {
                asks_session(*old(self), *final(self), turn.session)
            } else {
                turn.session is None && *final(self) == *old(self)
            },
    {
        match event {
            LoopEvent::Channel { closed } => {
                if closed {
                    Turn { action: LoopAction::Finish, session: None }
                } else {
                    Turn { action: LoopAction::Dispatch, session: None }
                }
            },
            LoopEvent::Dispatched { ok } => {
                if ok {
                    let session: Option<u32> = self.ensure_cursor_session();
                    Turn { action: LoopAction::CheckChannel, session }
                } else {
                    Turn { action: LoopAction::Fail(WatcherError::Disconnected), session: None }
                }
            },
        }
    }
}

} // verus!
