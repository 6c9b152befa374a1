//! The serial-console session between a guest UART and a WebSocket client,
//! as a state machine.  The session alternates between reading the UART and
//! sending what it read to the client, and between receiving binary
//! messages from the client and writing them to the UART.  The caller runs
//! the I/O and reports each completion as an event.

use vstd::prelude::*;

verus! {

/// Size of the buffer that UART output is read into.
pub const SERIAL_OUTPUT_LEN: usize = 1024;

/// What the client sent over the WebSocket.
#[derive(Debug)]
pub enum WsInput {
    /// A binary message.
    Binary(Vec<u8>),
    /// A close message.
    Close,
    /// The stream ended.
    End,
    /// Any other message, or a receive error.
    Other,
}

/// The completion of one of the session's pending operations.
#[derive(Debug)]
pub enum SerialEvent {
    /// The client asked to detach the console.
    Detached,
    /// Writing to the UART finished, with the number of bytes written.
    UartWritten(Option<usize>),
    /// Sending UART output to the client finished, successfully or not.
    WsSent(bool),
    /// Reading the UART finished, with the number of bytes read.
    UartRead(Option<usize>),
    /// A message arrived from the client.
    WsReceived(WsInput),
}

/// What the caller does after an event.
#[derive(Debug, PartialEq, Eq, Structural, Clone, Copy)]
pub enum SerialAction {
    /// Keep the session going.
    Continue,
    /// Send the client a close frame ("serial console was detached", policy
    /// code) and end the session.
    SendCloseAndStop,
    /// End the session.
    Stop,
    /// End the session with the send error.
    Fail,
}

/// The state of a session: the UART output read but not yet sent (its
/// length), and the client input not yet written to the UART (the message
/// and how many of its bytes were written).
pub struct SerialView {
    pub output: Option<nat>,
    pub input: Option<(Seq<u8>, nat)>,
}

/// The serial-console session.
pub struct SerialSession {
    cur_output: Option<usize>,
    cur_input: Option<(Vec<u8>, usize)>,
}

impl View for SerialSession {
    type V = SerialView;

    closed spec fn view(&self) -> SerialView {
        SerialView {
            output: match self.cur_output {
                Some(n) => Some(n as nat),
                None => None,
            },
            input: match &self.cur_input {
                Some((d, c)) => Some((d@, *c as nat)),
                None => None,
            },
        }
    }
}

/// The session's invariant: pending output fits the read buffer, and no
/// more of a message was written than it holds.
pub open spec fn serial_wf(v: SerialView) -> bool {
    &&& v.output matches Some(n) ==> n <= SERIAL_OUTPUT_LEN
    &&& v.input matches Some((d, c)) ==> c <= d.len()
}

/// The events that can happen in a state: a detach request always; a UART
/// read when no output is pending, a send when some is; a receive when no
/// input is pending, a UART write when some is.  A read or write reports no
/// more bytes than it was given room for.
pub open spec fn event_possible(v: SerialView, e: SerialEvent) -> bool {
    match e {
        SerialEvent::Detached => true,
        SerialEvent::UartWritten(r) => v.input matches Some((d, c)) && (r matches Some(n) ==> n
            <= d.len() - c),
        SerialEvent::WsSent(_) => v.output is Some,
        SerialEvent::UartRead(r) => v.output is None && (r matches Some(n) ==> n
            <= SERIAL_OUTPUT_LEN),
        SerialEvent::WsReceived(_) => v.input is None,
    }
}

/// The state after an event and the action that follows it.
pub open spec fn serial_step(v: SerialView, e: SerialEvent) -> (SerialView, SerialAction) {
    match e {
        SerialEvent::Detached => (v, SerialAction::SendCloseAndStop),
        SerialEvent::UartWritten(r) => match r {
            Some(n) => if n == 0 {
                (v, SerialAction::Stop)
            } else {
                let (d, c) = v.input->0;
                let c2 = (c + n) as nat;
                (
                    SerialView {
                        input: if c2 == d.len() {
                            None
                        } else {
                            Some((d, c2))
                        },
                        ..v
                    },
                    SerialAction::Continue,
                )
            },
            None => (v, SerialAction::Stop),
        },
        SerialEvent::WsSent(ok) => if ok {
            (SerialView { output: None, ..v }, SerialAction::Continue)
        } else {
            (v, SerialAction::Fail)
        },
        SerialEvent::UartRead(r) => match r {
            Some(n) => if n == 0 {
                (v, SerialAction::Stop)
            } else {
                (SerialView { output: Some(n as nat), ..v }, SerialAction::Continue)
            },
            None => (v, SerialAction::Stop),
        },
        SerialEvent::WsReceived(m) => match m {
            WsInput::Binary(data) => (
                SerialView { input: Some((data@, 0)), ..v },
                SerialAction::Continue,
            ),
            WsInput::Close => (v, SerialAction::Stop),
            WsInput::End => (v, SerialAction::Stop),
            WsInput::Other => (v, SerialAction::Continue),
        },
    }
}

/// A run of a session: from a new session, each event possible in its
/// state, each step keeping the session going.
pub open spec fn serial_run(vs: Seq<SerialView>, es: Seq<SerialEvent>) -> bool {
    &&& vs.len() == es.len() + 1
    &&& vs[0] == (SerialView { output: None, input: None })
    &&& forall|i: int|
        0 <= i < es.len() ==> event_possible(#[trigger] vs[i], es[i]) && serial_step(vs[i], es[i])
            == (vs[i + 1], SerialAction::Continue)
}

/// What one event adds to the lengths of the UART reads.
pub open spec fn read_step(prev: Seq<nat>, e: SerialEvent) -> Seq<nat> {
    match e {
        SerialEvent::UartRead(Some(n)) => prev.push(n as nat),
        _ => prev,
    }
}

/// What one event in state `v` adds to the lengths sent to the client.
pub open spec fn send_step(prev: Seq<nat>, v: SerialView, e: SerialEvent) -> Seq<nat> {
    match e {
        SerialEvent::WsSent(true) => prev.push(v.output->0),
        _ => prev,
    }
}

/// What one event adds to the client's bytes received.
pub open spec fn receive_step(prev: Seq<u8>, e: SerialEvent) -> Seq<u8> {
    match e {
        SerialEvent::WsReceived(WsInput::Binary(d)) => prev + d@,
        _ => prev,
    }
}

/// What one event in state `v` adds to the bytes written to the UART.
pub open spec fn write_step(prev: Seq<u8>, v: SerialView, e: SerialEvent) -> Seq<u8> {
    match e {
        SerialEvent::UartWritten(Some(n)) => {
            let (d, c) = v.input->0;
            prev + d.subrange(c as int, c + n)
        },
        _ => prev,
    }
}

/// The lengths of the UART reads among the first `k` events.
pub open spec fn reads_upto(es: Seq<SerialEvent>, k: int) -> Seq<nat>
    decreases k,
{
    if k <= 0 {
        Seq::empty()
    } else {
        read_step(reads_upto(es, k - 1), es[k - 1])
    }
}

/// The lengths of what was sent to the client among the first `k` events.
pub open spec fn sends_upto(vs: Seq<SerialView>, es: Seq<SerialEvent>, k: int) -> Seq<nat>
    decreases k,
{
    if k <= 0 {
        Seq::empty()
    } else {
        send_step(sends_upto(vs, es, k - 1), vs[k - 1], es[k - 1])
    }
}

/// The bytes of the client's binary messages among the first `k` events,
/// one after another.
pub open spec fn received_upto(es: Seq<SerialEvent>, k: int) -> Seq<u8>
    decreases k,
{
    if k <= 0 {
        Seq::empty()
    } else {
        receive_step(received_upto(es, k - 1), es[k - 1])
    }
}

/// The bytes written to the UART among the first `k` events, one write
/// after another.
pub open spec fn written_upto(vs: Seq<SerialView>, es: Seq<SerialEvent>, k: int) -> Seq<u8>
    decreases k,
{
    if k <= 0 {
        Seq::empty()
    } else {
        write_step(written_upto(vs, es, k - 1), vs[k - 1], es[k - 1])
    }
}

/// The client bytes not yet written.
pub open spec fn pending_bytes(v: SerialView) -> Seq<u8> {
    match v.input {
        Some((d, c)) => d.skip(c as int),
        None => Seq::empty(),
    }
}

/// The read not yet sent, as a list of at most one length.
pub open spec fn pending_reads(v: SerialView) -> Seq<nat> {
    match v.output {
        Some(n) => seq![n],
        None => Seq::empty(),
    }
}

proof fn lemma_serial_step(
    v: SerialView,
    e: SerialEvent,
    w: SerialView,
    r0: Seq<nat>,
    s0: Seq<nat>,
    rc0: Seq<u8>,
    w0: Seq<u8>,
)
    requires
        serial_wf(v),
        event_possible(v, e),
        serial_step(v, e) == (w, SerialAction::Continue),
        r0 == s0 + pending_reads(v),
        rc0 == w0 + pending_bytes(v),
    ensures
        serial_wf(w),
        read_step(r0, e) == send_step(s0, v, e) + pending_reads(w),
        receive_step(rc0, e) == write_step(w0, v, e) + pending_bytes(w),
{
    match e {
        SerialEvent::UartWritten(Some(n)) => {
            let (d, c) = v.input->0;
            assert(d.skip(c as int) =~= d.subrange(c as int, c + n) + d.skip(c + n));
            if c + n == d.len() {
                assert(d.skip(c + n) =~= Seq::<u8>::empty());
            }
            assert(receive_step(rc0, e) =~= write_step(w0, v, e) + pending_bytes(w));
        },
        SerialEvent::WsReceived(WsInput::Binary(d)) => {
            assert(d@.skip(0) =~= d@);
            assert(receive_step(rc0, e) =~= write_step(w0, v, e) + pending_bytes(w));
        },
        SerialEvent::UartRead(Some(n)) => {
            assert(read_step(r0, e) =~= send_step(s0, v, e) + pending_reads(w));
        },
        SerialEvent::WsSent(true) => {
            assert(read_step(r0, e) =~= send_step(s0, v, e) + pending_reads(w));
        },
        _ => {},
    }
}

/// Over any run of a session, what the UART gave is sent to the client in
/// order, each read once and before the next read; and the client's binary
/// messages are written to the UART in order, each byte once, a message
/// wholly before the next is taken.
pub proof fn lemma_serial_run(vs: Seq<SerialView>, es: Seq<SerialEvent>, k: int)
    requires
        serial_run(vs, es),
        0 <= k <= es.len(),
    ensures
        reads_upto(es, k) == sends_upto(vs, es, k) + pending_reads(vs[k]),
        received_upto(es, k) == written_upto(vs, es, k) + pending_bytes(vs[k]),
        serial_wf(vs[k]),
    decreases k,
{
    if k == 0 {
        assert(reads_upto(es, 0) =~= sends_upto(vs, es, 0) + pending_reads(vs[0]));
        assert(received_upto(es, 0) =~= written_upto(vs, es, 0) + pending_bytes(vs[0]));
    } else {
        lemma_serial_run(vs, es, k - 1);
        assert(event_possible(vs[k - 1], es[k - 1]) && serial_step(vs[k - 1], es[k - 1]) == (
        vs[k], SerialAction::Continue));
        lemma_serial_step(
            vs[k - 1],
            es[k - 1],
            vs[k],
            reads_upto(es, k - 1),
            sends_upto(vs, es, k - 1),
            received_upto(es, k - 1),
            written_upto(vs, es, k - 1),
        );
    }
}

impl SerialSession {
    pub fn new() -> (s: SerialSession)
        ensures
            s@ == (SerialView { output: None, input: None }),
            serial_wf(s@),
    {
        SerialSession { cur_output: None, cur_input: None }
    }

    /// The number of UART bytes waiting to be sent to the client, if any;
    /// when there are none, the UART is to be read.
    pub fn pending_output(&self) -> (r: Option<usize>)
        ensures
            match r {
                Some(n) => self@.output == Some(n as nat),
                None => self@.output is None,
            },
    {
        self.cur_output
    }

    /// The client bytes waiting to be written to the UART, if any; when
    /// there are none, the next client message is to be received.
    pub fn pending_input(&self) -> (r: Option<&[u8]>)
        requires
            serial_wf(self@),
        ensures
            match r {
                Some(s) => self@.input matches Some((d, c)) && s@ == d.skip(c as int),
                None => self@.input is None,
            },
    {
        match &self.cur_input {
            Some((data, consumed)) => Some(
                vstd::slice::slice_subrange(data.as_slice(), *consumed, data.len()),
            ),
            None => None,
        }
    }

    /// Takes an event and gives the action that follows (see [`serial_step`]).
    pub fn on_event(&mut self, e: SerialEvent) -> (a: SerialAction)
        requires
            serial_wf(old(self)@),
            event_possible(old(self)@, e),
        ensures
            serial_wf(final(self)@),
            (final(self)@, a) == serial_step(old(self)@, e),
    {
        match e {
            SerialEvent::Detached => SerialAction::SendCloseAndStop,
            SerialEvent::UartWritten(written) => match written {
                Some(n) => {
                    if n == 0 {
                        return SerialAction::Stop;
                    }
                    let ghost before = self@;
                    let (data, consumed) = self.cur_input.take().unwrap();
                    assert(before.input == Some((data@, consumed as nat)));
                    let len = data.len();
                    assert(n <= len - consumed);
                    let consumed = consumed + n;
                    if consumed != len {
                        self.cur_input = Some((data, consumed));
                    }
                    SerialAction::Continue
                },
                None => SerialAction::Stop,
            },
            SerialEvent::WsSent(ok) => {
                if !ok {
                    return SerialAction::Fail;
                }
                self.cur_output = None;
                SerialAction::Continue
            },
            SerialEvent::UartRead(nread) => match nread {
                Some(n) => {
                    if n == 0 {
                        return SerialAction::Stop;
                    }
                    self.cur_output = Some(n);
                    SerialAction::Continue
                },
                None => SerialAction::Stop,
            },
            SerialEvent::WsReceived(msg) => match msg {
                WsInput::Binary(input) => {
                    self.cur_input = Some((input, 0));
                    SerialAction::Continue
                },
                WsInput::Close => SerialAction::Stop,
                WsInput::End => SerialAction::Stop,
                WsInput::Other => SerialAction::Continue,
            },
        }
    }
}

} // verus!
