use vstd::prelude::*;
use crate::frame::{
    connect_reply, handshake_progress, handshake_reply, host_text, parse_connect_request,
    parse_handshake, request_progress, Progress, ProtocolError, RequestView,
    STATUS_SUCCEEDED, VERSION, ATYP_IPV4,
};
use crate::text::decimal;

verus! {

/// The states of one client session, in the order they are passed through.
#[derive(Debug, Clone, Copy, PartialEq, Eq, Structural)]
pub enum Phase {
    AwaitHandshake,
    AwaitRequest,
    Connecting,
    Relaying,
    Closed,
}

/// Why a session ended early.
#[derive(Debug, Clone, Copy, PartialEq, Eq, Structural)]
pub enum SessionError {
    /// A read or write on a connection failed, or the client closed it too early.
    Io,
    /// The client broke the protocol.
    Protocol(ProtocolError),
    /// The destination could not be reached.
    Connect,
}

/// What the session asks its driver to do next.
#[derive(Debug)]
pub enum Action {
    /// Read exactly this many bytes from the client and hand them to `on_bytes`.
    Read(usize),
    /// Write these bytes to the client, then read exactly that many bytes.
    Reply(Vec<u8>, usize),
    /// Open a connection to this `host:port`, then report with `on_connected` or
    /// `on_connect_failed`.
    Connect(String),
    /// Write these bytes to the client, then relay bytes both ways until either side ends.
    ReplyAndRelay(Vec<u8>),
    /// Close the client connection; nothing more is sent.
    Close(SessionError),
}

pub enum ActionView {
    Read(nat),
    Reply(Seq<u8>, nat),
    Connect(Seq<char>),
    ReplyAndRelay(Seq<u8>),
    Close(SessionError),
}

impl View for Action {
    type V = ActionView;

    open spec fn view(&self) -> ActionView {
        match self {
            Action::Read(n) => ActionView::Read(*n as nat),
            Action::Reply(b, n) => ActionView::Reply(b@, *n as nat),
            Action::Connect(d) => ActionView::Connect(d@),
            Action::ReplyAndRelay(b) => ActionView::ReplyAndRelay(b@),
            Action::Close(e) => ActionView::Close(*e),
        }
    }
}

/// One client session: its phase and the bytes of the frame read so far.
pub struct Session {
    phase: Phase,
    buf: Vec<u8>,
}

pub struct SessionView {
    pub phase: Phase,
    pub buffered: Seq<u8>,
}

impl View for Session {
    type V = SessionView;

    closed spec fn view(&self) -> SessionView {
        SessionView { phase: self.phase, buffered: self.buf@ }
    }
}

/// The total length a frame still waits for, or 0.
pub open spec fn needed<T>(p: Progress<T>) -> int {
    match p {
        Progress::Incomplete(k) => k as int,
        _ => 0,
    }
}

/// The text `host:port` of a request's destination.
pub open spec fn destination_text(r: RequestView) -> Seq<char> {
    host_text(r.address) + seq![':'] + decimal(r.port as nat)
}

/// The bytes of the success reply to a CONNECT request.
pub open spec fn success_reply() -> Seq<u8> {
    seq![VERSION, STATUS_SUCCEEDED, 0u8, ATYP_IPV4, 0u8, 0u8, 0u8, 0u8, 0u8, 0u8]
}

impl SessionView {
    /// While a frame is awaited, the bytes buffered are a proper beginning of it.
    pub open spec fn wf(self) -> bool {
        match self.phase {
            Phase::AwaitHandshake => handshake_progress(self.buffered) is Incomplete
                && self.buffered.len() < needed(handshake_progress(self.buffered)),
            Phase::AwaitRequest => request_progress(self.buffered) is Incomplete
                && self.buffered.len() < needed(request_progress(self.buffered)),
            _ => true,
        }
    }

    /// How many bytes the session waits for from the client.
    pub open spec fn pending(self) -> int {
        match self.phase {
            Phase::AwaitHandshake => needed(handshake_progress(self.buffered))
                - self.buffered.len(),
            Phase::AwaitRequest => needed(request_progress(self.buffered))
                - self.buffered.len(),
            _ => 0,
        }
    }

    pub open spec fn awaits_bytes(self) -> bool {
        self.phase == Phase::AwaitHandshake || self.phase == Phase::AwaitRequest
    }
}

/// The next state and action after the client sent `data` in state `v`.
pub open spec fn step_bytes(v: SessionView, data: Seq<u8>) -> (SessionView, ActionView) {
    let s = v.buffered + data;
    if v.phase == Phase::AwaitHandshake {
        match handshake_progress(s) {
            Progress::Incomplete(k) => (
                SessionView { phase: Phase::AwaitHandshake, buffered: s },
                ActionView::Read((k - s.len()) as nat),
            ),
            Progress::Rejected(e) => (
                SessionView { phase: Phase::Closed, buffered: s },
                ActionView::Close(SessionError::Protocol(e)),
            ),
            Progress::Complete(_, _) => (
                SessionView { phase: Phase::AwaitRequest, buffered: seq![] },
                ActionView::Reply(seq![VERSION, 0u8], 1),
            ),
        }
    } else {
        match request_progress(s) {
            Progress::Incomplete(k) => (
                SessionView { phase: Phase::AwaitRequest, buffered: s },
                ActionView::Read((k - s.len()) as nat),
            ),
            Progress::Rejected(e) => (
                SessionView { phase: Phase::Closed, buffered: s },
                ActionView::Close(SessionError::Protocol(e)),
            ),
            Progress::Complete(r, _) => (
                SessionView { phase: Phase::Connecting, buffered: seq![] },
                ActionView::Connect(destination_text(r)),
            ),
        }
    }
}

/// Reading exactly what a handshake asked for either completes it with nothing left
/// over, or leaves it waiting or rejected.
proof fn lemma_handshake_ends_at_need(b: Seq<u8>, s: Seq<u8>)
    requires
        handshake_progress(b) is Incomplete,
        b.len() < needed(handshake_progress(b)),
        s.len() == needed(handshake_progress(b)),
        s.subrange(0, b.len() as int) == b,
    ensures
        handshake_progress(s) is Complete ==> needed(handshake_progress(b)) == s.len()
            && handshake_progress(s)->Complete_1 == s.len(),
{
    if b.len() >= 1 {
        assert(s[0] == b[0]);
    }
    if b.len() >= 2 {
        assert(s[1] == b[1]);
    }
}

/// A complete request names a well-formed address.
proof fn lemma_request_address_wf(s: Seq<u8>)
    requires
        request_progress(s) is Complete,
    ensures
        request_progress(s)->Complete_0.address.wf(),
{
}

fn append(v: &mut Vec<u8>, d: &[u8])
    ensures
        final(v)@ == old(v)@ + d@,
{
    let mut i: usize = 0;
    while i < d.len()
        invariant
            i <= d@.len(),
            v@ == old(v)@ + d@.subrange(0, i as int),
        decreases d@.len() - i,
    {
        v.push(d[i]);
        assert(v@ =~= old(v)@ + d@.subrange(0, i + 1));
        i = i + 1;
    }
    assert(d@.subrange(0, d@.len() as int) =~= d@);
}

impl Session {
    /// A session that waits for the client's handshake.
    pub fn new() -> (r: Session)
        ensures
            r@.phase == Phase::AwaitHandshake,
            r@.buffered == Seq::<u8>::empty(),
            r@.wf(),
    {
        Session { phase: Phase::AwaitHandshake, buf: Vec::new() }
    }

    /// The phase the session is in.
    pub fn phase(&self) -> (r: Phase)
        ensures
            r == self@.phase,
    {
        self.phase
    }

    /// The first action of a new session: read the version byte of the handshake.
    pub fn start(&self) -> (a: Action)
        requires
            self@.phase == Phase::AwaitHandshake,
            self@.wf(),
        ensures
            a@ == ActionView::Read(self@.pending() as nat),
            self@.pending() > 0,
    {
        match parse_handshake(self.buf.as_slice()) {
            Progress::Incomplete(k) => Action::Read(k - self.buf.len()),
            _ => Action::Close(SessionError::Io),
        }
    }

    /// The client sent the bytes that the last action asked for.
    pub fn on_bytes(&mut self, data: &[u8]) -> (a: Action)
        requires
            old(self)@.wf(),
            old(self)@.awaits_bytes(),
            data@.len() == old(self)@.pending(),
        ensures
            (final(self)@, a@) == step_bytes(old(self)@, data@),
            final(self)@.wf(),
            final(self)@.awaits_bytes() ==> final(self)@.pending() > 0,
    {
        let ghost b = self.buf@;
        append(&mut self.buf, data);
        assert(self.buf@.subrange(0, b.len() as int) =~= b);
        if self.phase == Phase::AwaitHandshake {
            proof {
                lemma_handshake_ends_at_need(b, self.buf@);
            }
            match parse_handshake(self.buf.as_slice()) {
                Progress::Incomplete(k) => Action::Read(k - self.buf.len()),
                Progress::Rejected(e) => {
                    self.phase = Phase::Closed;
                    Action::Close(SessionError::Protocol(e))
                },
                Progress::Complete(_, _) => {
                    self.phase = Phase::AwaitRequest;
                    self.buf = Vec::new();
                    Action::Reply(handshake_reply(), 1)
                },
            }
        } else {
            match parse_connect_request(self.buf.as_slice()) {
                Progress::Incomplete(k) => Action::Read(k - self.buf.len()),
                Progress::Rejected(e) => {
                    self.phase = Phase::Closed;
                    Action::Close(SessionError::Protocol(e))
                },
                Progress::Complete(req, _) => {
                    proof {
                        lemma_request_address_wf(self.buf@);
                    }
                    self.phase = Phase::Connecting;
                    self.buf = Vec::new();
                    Action::Connect(req.destination())
                },
            }
        }
    }

    /// A read from or a write to the client failed, or the client closed too early.
    pub fn on_io_error(&mut self) -> (a: Action)
        ensures
            final(self)@.phase == Phase::Closed,
            final(self)@.buffered == old(self)@.buffered,
            a@ == ActionView::Close(SessionError::Io),
    {
        self.phase = Phase::Closed;
        Action::Close(SessionError::Io)
    }

    /// The connection to the destination is open: reply with success and relay.
    pub fn on_connected(&mut self) -> (a: Action)
        requires
            old(self)@.phase == Phase::Connecting,
        ensures
            final(self)@.phase == Phase::Relaying,
            final(self)@.buffered == old(self)@.buffered,
            a@ == ActionView::ReplyAndRelay(success_reply()),
    {
        self.phase = Phase::Relaying;
        Action::ReplyAndRelay(connect_reply(STATUS_SUCCEEDED))
    }

    /// The destination could not be reached: close without any reply.
    pub fn on_connect_failed(&mut self) -> (a: Action)
        requires
            old(self)@.phase == Phase::Connecting,
        ensures
            final(self)@.phase == Phase::Closed,
            final(self)@.buffered == old(self)@.buffered,
            a@ == ActionView::Close(SessionError::Connect),
    {
        self.phase = Phase::Closed;
        Action::Close(SessionError::Connect)
    }
}

} // verus!
