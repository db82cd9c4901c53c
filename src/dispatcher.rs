use vstd::prelude::*;

verus! {

/// What is known of the outbound body's size before it is sent.
#[derive(Clone, Copy, Debug, PartialEq, Eq, Structural)]
pub enum BodySize {
    /// No body at all.
    Absent,
    /// A stream of unknown length.
    Stream,
    /// A body of exactly this many bytes.
    Sized(u64),
}

/// A body that is definitionally empty: absent or of length zero.
pub open spec fn body_is_empty(b: BodySize) -> bool {
    b == BodySize::Absent || b == BodySize::Sized(0)
}

/// What the dispatcher reads and rewrites of a request before its head is
/// encoded.
pub struct RequestHead {
    /// The method is HEAD.
    pub is_head: bool,
    /// The target is reached over TLS.
    pub tls: bool,
    /// Host of the request target, if it names one.
    pub host: Option<Vec<u8>>,
    /// Port of the request target, if it names one.
    pub port: Option<u16>,
    /// Value of the host header, if the request carries one.
    pub host_header: Option<Vec<u8>>,
    /// The request carries an expect header.
    pub expect: bool,
    /// Size of the outbound body.
    pub body: BodySize,
}

/// The port that a host header leaves implicit.
pub open spec fn default_port(tls: bool) -> u16 {
    if tls {
        443
    } else {
        80
    }
}

/// Decimal ASCII digits of `n`, without leading zeros.
pub open spec fn decimal(n: nat) -> Seq<u8>
    decreases n,
{
    if n < 10 {
        seq![(48 + n) as u8]
    } else {
        decimal(n / 10).push((48 + n % 10) as u8)
    }
}

/// Host header value synthesised from the target: the host, then `:` and
/// the port unless the port is absent or the scheme's default.
pub open spec fn host_value(host: Seq<u8>, port: Option<u16>, tls: bool) -> Seq<u8> {
    match port {
        Some(p) => if p == default_port(tls) {
            host
        } else {
            host + seq![58u8] + decimal(p as nat)
        },
        None => host,
    }
}

pub(crate) fn push_decimal(out: &mut Vec<u8>, n: u64)
    ensures
        final(out)@ == old(out)@ + decimal(n as nat),
    decreases n,
{
    if n >= 10 {
        push_decimal(out, n / 10);
    }
    out.push(48 + (n % 10) as u8);
    assert(out@ =~= old(out)@ + decimal(n as nat));
}

pub(crate) fn push_all(out: &mut Vec<u8>, src: &[u8])
    ensures
        final(out)@ == old(out)@ + src@,
{
    let ghost start = out@;
    let mut i: usize = 0;
    while i < src.len()
        invariant
            i <= src.len(),
            out@ == start + src@.subrange(0, i as int),
        decreases src.len() - i,
    {
        out.push(src[i]);
        i = i + 1;
        assert(out@ =~= start + src@.subrange(0, i as int));
    }
    assert(src@.subrange(0, src.len() as int) =~= src@);
}

/// Builds the host header value for a target's host and port.
pub fn host_header_value(host: &Vec<u8>, port: Option<u16>, tls: bool) -> (r: Vec<u8>)
    ensures
        r@ == host_value(host@, port, tls),
{
    let mut r: Vec<u8> = Vec::new();
    push_all(&mut r, host.as_slice());
    assert(r@ =~= host@);
    match port {
        Some(p) => {
            if p != (if tls { 443u16 } else { 80u16 }) {
                r.push(58u8);
                push_decimal(&mut r, p as u64);
                assert(r@ =~= host@ + seq![58u8] + decimal(p as nat));
            }
        },
        None => {},
    }
    r
}

impl RequestHead {
    /// Prepares the request for encoding: a missing host header is
    /// synthesised from the target, and an expect header is dropped when the
    /// body is empty. Returns whether the request still expects a
    /// `100 Continue` before its body is sent.
    pub fn normalize(&mut self) -> (is_expect: bool)
        ensures
            final(self).is_head == old(self).is_head,
            final(self).tls == old(self).tls,
            final(self).host == old(self).host,
            final(self).port == old(self).port,
            final(self).body == old(self).body,
            old(self).host_header is Some ==> final(self).host_header == old(self).host_header,
            (old(self).host_header is None && old(self).host is None) ==> final(self).host_header is None,
            (old(self).host_header is None && old(self).host is Some) ==> (final(self).host_header is Some
                && final(self).host_header->0@ == host_value(
                old(self).host->0@,
                old(self).port,
                old(self).tls,
            )),
            final(self).expect == (old(self).expect && !body_is_empty(old(self).body)),
            is_expect == final(self).expect,
    {
        if self.host_header.is_none() {
            match &self.host {
                Some(h) => {
                    let v = host_header_value(h, self.port, self.tls);
                    self.host_header = Some(v);
                },
                None => {},
            }
        }
        if self.expect {
            match self.body {
                BodySize::Absent => {
                    self.expect = false;
                },
                BodySize::Sized(n) => {
                    if n == 0 {
                        self.expect = false;
                    }
                },
                BodySize::Stream => {},
            }
        }
        self.expect
    }
}

/// Why an exchange failed.
#[derive(Clone, Copy, Debug, PartialEq, Eq, Structural)]
pub enum DispatchError {
    /// The transport accepted no byte of a non-empty write.
    WriteZero,
    /// The peer closed the stream before a whole response head came.
    UnexpectedEof,
}

/// Drops the first `n` bytes of the write buffer once the transport took
/// them. A write that took nothing means the pipe is broken.
pub fn consume_written(buf: &mut Vec<u8>, n: usize) -> (r: Result<(), DispatchError>)
    requires
        n <= old(buf)@.len(),
    ensures
        final(buf)@ == old(buf)@.subrange(n as int, old(buf)@.len() as int),
        r is Err <==> n == 0,
        r is Err ==> r == Err::<(), DispatchError>(DispatchError::WriteZero),
{
    let rest = buf.split_off(n);
    *buf = rest;
    if n == 0 {
        return Err(DispatchError::WriteZero);
    }
    Ok(())
}

/// Appends what one read brought to the read buffer. A read of nothing
/// before the head is complete means the peer hung up.
pub fn absorb_read(buf: &mut Vec<u8>, filled: &[u8]) -> (r: Result<(), DispatchError>)
    ensures
        r is Err <==> filled@.len() == 0,
        r is Err ==> (r == Err::<(), DispatchError>(DispatchError::UnexpectedEof) && final(buf)@
            == old(buf)@),
        r is Ok ==> final(buf)@ == old(buf)@ + filled@,
{
    if filled.len() == 0 {
        return Err(DispatchError::UnexpectedEof);
    }
    push_all(buf, filled);
    Ok(())
}

/// Where an exchange stands.
#[derive(Clone, Copy, Debug, PartialEq, Eq, Structural)]
pub enum Phase {
    /// The request head is being written.
    SendHead,
    /// Waiting for `100 Continue` or an early final response.
    AwaitContinue,
    /// The request body is being sent.
    SendBody,
    /// Reading the response head.
    ReadHead,
    /// The final response head has been handed out.
    Finished,
}

/// What the driver of an exchange reports.
#[derive(Clone, Copy, Debug, PartialEq, Eq, Structural)]
pub enum Event {
    /// The whole request head was written.
    HeadSent,
    /// A response head was decoded; `close` is whether the codec saw a
    /// connection-close signal in it.
    HeadDecoded { status: u16, close: bool },
    /// The request body was sent in full and flushed.
    BodySent,
    /// Sending the request body failed.
    BodyFailed,
}

/// What the driver of an exchange does next.
#[derive(Clone, Copy, Debug, PartialEq, Eq, Structural)]
pub enum Action {
    /// Flush the transport, then read and decode until a head comes.
    FlushAndAwait,
    /// Send the request body, if its coding says there is one.
    SendBody,
    /// Read and decode until a head comes; first clear the write buffer when
    /// `clear_buffer` is set.
    ReadResponse { clear_buffer: bool },
    /// Hand the decoded head to the caller. `close` says the transport must
    /// not be reused; `no_body` says the response body is to be treated as
    /// absent whatever its head declares.
    Finish { close: bool, no_body: bool },
    /// The event does not belong to the current phase; nothing changed.
    OutOfOrder,
}

/// The decisions of one HTTP/1 request/response exchange.
#[derive(Clone, Copy, Debug, PartialEq, Eq, Structural)]
pub struct Exchange {
    pub phase: Phase,
    /// The request waits for `100 Continue` before its body.
    pub is_expect: bool,
    /// The request method is HEAD.
    pub is_head: bool,
    /// Sending the body failed, so the transport must be closed.
    pub force_close: bool,
}

/// The status of an interim `100 Continue` response.
pub const CONTINUE: u16 = 100;

/// The step of an exchange on one event: the next state and the action.
pub open spec fn transition(x: Exchange, ev: Event) -> (Exchange, Action) {
    match (x.phase, ev) {
        (Phase::SendHead, Event::HeadSent) => if x.is_expect {
            (Exchange { phase: Phase::AwaitContinue, ..x }, Action::FlushAndAwait)
        } else {
            (Exchange { phase: Phase::SendBody, ..x }, Action::SendBody)
        },
        (Phase::AwaitContinue, Event::HeadDecoded { status, close }) => if status == CONTINUE {
            (Exchange { phase: Phase::SendBody, ..x }, Action::SendBody)
        } else {
            (
                Exchange { phase: Phase::Finished, ..x },
                Action::Finish { close: close || x.force_close, no_body: x.is_head },
            )
        },
        (Phase::SendBody, Event::BodySent) => (
            Exchange { phase: Phase::ReadHead, ..x },
            Action::ReadResponse { clear_buffer: false },
        ),
        (Phase::SendBody, Event::BodyFailed) => (
            Exchange { phase: Phase::ReadHead, force_close: true, ..x },
            Action::ReadResponse { clear_buffer: true },
        ),
        (Phase::ReadHead, Event::HeadDecoded { status: _, close }) => (
            Exchange { phase: Phase::Finished, ..x },
            Action::Finish { close: close || x.force_close, no_body: x.is_head },
        ),
        _ => (x, Action::OutOfOrder),
    }
}

impl Exchange {
    /// A fresh exchange for a normalised request, about to write its head.
    pub fn new(is_expect: bool, is_head: bool) -> (r: Exchange)
        ensures
            r == (Exchange { phase: Phase::SendHead, is_expect, is_head, force_close: false }),
    {
        Exchange { phase: Phase::SendHead, is_expect, is_head, force_close: false }
    }

    /// Advances the exchange on an event and says what to do next.
    pub fn step(&mut self, ev: Event) -> (r: Action)
        ensures
            (*final(self), r) == transition(*old(self), ev),
    {
        let x = *self;
        match (x.phase, ev) {
            (Phase::SendHead, Event::HeadSent) => {
                if x.is_expect {
                    self.phase = Phase::AwaitContinue;
                    Action::FlushAndAwait
                } else {
                    self.phase = Phase::SendBody;
                    Action::SendBody
                }
            },
            (Phase::AwaitContinue, Event::HeadDecoded { status, close }) => {
                if status == CONTINUE {
                    self.phase = Phase::SendBody;
                    Action::SendBody
                } else {
                    self.phase = Phase::Finished;
                    Action::Finish { close: close || x.force_close, no_body: x.is_head }
                }
            },
            (Phase::SendBody, Event::BodySent) => {
                self.phase = Phase::ReadHead;
                Action::ReadResponse { clear_buffer: false }
            },
            (Phase::SendBody, Event::BodyFailed) => {
                self.phase = Phase::ReadHead;
                self.force_close = true;
                Action::ReadResponse { clear_buffer: true }
            },
            (Phase::ReadHead, Event::HeadDecoded { status: _, close }) => {
                self.phase = Phase::Finished;
                Action::Finish { close: close || x.force_close, no_body: x.is_head }
            },
            _ => Action::OutOfOrder,
        }
    }
}

/// An interim `100 Continue` met while waiting to send the body is never
/// handed out as the response: the body is sent next, and the head decoded
/// after it is the one handed out.
pub proof fn lemma_continue_is_interim(x: Exchange, close1: bool, body: Event, status: u16, close2: bool)
    requires
        x.phase == Phase::AwaitContinue,
        body == Event::BodySent || body == Event::BodyFailed,
    ensures
        ({
            let (x1, a1) = transition(x, Event::HeadDecoded { status: CONTINUE, close: close1 });
            let (x2, a2) = transition(x1, body);
            let (x3, a3) = transition(x2, Event::HeadDecoded { status, close: close2 });
            &&& a1 == Action::SendBody
            &&& a2 is ReadResponse
            &&& a3 is Finish
            &&& x3.phase == Phase::Finished
        }),
{
}

/// Every finished HEAD request reports a response without a body, whatever
/// its head declares; the method of an exchange never changes.
pub proof fn lemma_head_has_no_body(x: Exchange, ev: Event)
    ensures
        transition(x, ev).0.is_head == x.is_head,
        transition(x, ev).1 is Finish ==> transition(x, ev).1->no_body == x.is_head,
{
}

/// A failed body send clears the write buffer, forces the transport closed,
/// and still reads a response; the finished exchange then reports close
/// whatever the response says.
pub proof fn lemma_body_failure_forces_close(x: Exchange, status: u16, close: bool)
    requires
        x.phase == Phase::SendBody,
    ensures
        ({
            let (x1, a1) = transition(x, Event::BodyFailed);
            let (x2, a2) = transition(x1, Event::HeadDecoded { status, close });
            &&& a1 == Action::ReadResponse { clear_buffer: true }
            &&& x1.force_close
            &&& x1.phase == Phase::ReadHead
            &&& a2 == Action::Finish { close: true, no_body: x.is_head }
        }),
{
}

/// Once forced, closing is never undone.
pub proof fn lemma_force_close_sticks(x: Exchange, ev: Event)
    requires
        x.force_close,
    ensures
        transition(x, ev).0.force_close,
        transition(x, ev).1 is Finish ==> transition(x, ev).1->close,
{
}

} // verus!
