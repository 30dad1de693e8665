//! The framed request/response loop of one client connection, as a state
//! machine: the transport performs each read it asks for and hands back what
//! came; each complete request frame is handed out exactly once for dispatch.

use vstd::prelude::*;

use crate::wire::{be_u32, parse_string, ssh_string, u32_bytes, write_string, Reader};

verus! {

/// A frame: the body's length as a big-endian `u32`, then the body.
pub open spec fn frame(body: Seq<u8>) -> Seq<u8> {
    ssh_string(body)
}

/// Reads one frame from the head of `s`; gives its body and what follows.
pub open spec fn parse_frame(s: Seq<u8>) -> Option<(Seq<u8>, Seq<u8>)> {
    parse_string(s)
}

/// Frames a response body.
pub fn encode_frame(body: &[u8]) -> (r: Vec<u8>)
    requires
        body@.len() <= u32::MAX,
    ensures
        r@ == frame(body@),
{
    let mut out: Vec<u8> = Vec::new();
    write_string(&mut out, body);
    assert(out@ =~= frame(body@));
    out
}

/// The request in a Pageant shared-memory region: the one frame at its
/// start. Whatever follows it in the region is not read.
pub fn region_request(region: &[u8]) -> (r: Option<Vec<u8>>)
    ensures
        match parse_frame(region@) {
            Some((body, _)) => r matches Some(b) && b@ == body,
            None => r is None,
        },
{
    let mut rd = Reader::new(region);
    match rd.read_string() {
        Ok(b) => Some(b),
        Err(_) => None,
    }
}

/// What to write back at the start of a Pageant region of `region_len`
/// bytes: the response frame, when it fits; else nothing, since the region
/// cannot grow.
pub fn region_reply(body: &[u8], region_len: usize) -> (r: Option<Vec<u8>>)
    ensures
        body@.len() <= u32::MAX && body@.len() + 4 <= region_len ==> (r matches Some(f) && f@
            == frame(body@)),
        !(body@.len() <= u32::MAX && body@.len() + 4 <= region_len) ==> r is None,
{
    if body.len() <= u32::MAX as usize && body.len() <= region_len && region_len - body.len() >= 4 {
        Some(encode_frame(body))
    } else {
        None
    }
}

/// What a read of the requested number of bytes gave.
pub enum ReadResult {
    /// Exactly the bytes asked for.
    Data(Vec<u8>),
    /// The peer closed the connection (or the pipe broke) before they came.
    Eof,
    /// Any other transport error.
    Failed,
}

/// What the transport is to do next.
pub enum ConnAction {
    /// Read exactly this many bytes and hand them to `step`.
    Read(usize),
    /// Dispatch this request body, write the framed response, then call
    /// `resume`.
    Dispatch(Vec<u8>),
    /// Close the connection; `true` when it ended cleanly, `false` on an error.
    Close(bool),
}

/// Where a connection stands.
#[derive(Clone, Copy, Debug, PartialEq, Eq, Structural)]
pub enum ConnState {
    /// Waiting for the four bytes of a frame length.
    AwaitLength,
    /// Waiting for a frame body of this length.
    AwaitBody(u32),
    /// The connection is over.
    Closed,
}

/// The state and action that follow `state` when a read gave `read`.
pub open spec fn conn_next(state: ConnState, read: ReadResult) -> (ConnState, ConnAction) {
    match (state, read) {
        (ConnState::AwaitLength, ReadResult::Data(b)) => if b@.len() != 4 {
            (ConnState::Closed, ConnAction::Close(false))
        } else {
            (ConnState::AwaitBody(be_u32(b@) as u32), ConnAction::Read(be_u32(b@) as usize))
        },
        (ConnState::AwaitLength, ReadResult::Eof) => (ConnState::Closed, ConnAction::Close(true)),
        (ConnState::AwaitBody(n), ReadResult::Data(b)) => if b@.len() == n {
            (ConnState::AwaitLength, ConnAction::Dispatch(b))
        } else {
            (ConnState::Closed, ConnAction::Close(false))
        },
        (ConnState::Closed, _) => (ConnState::Closed, ConnAction::Close(true)),
        _ => (ConnState::Closed, ConnAction::Close(false)),
    }
}

/// One client connection.
pub struct Connection {
    pub state: ConnState,
}

impl Connection {
    pub fn new() -> (r: Connection)
        ensures
            r.state == ConnState::AwaitLength,
    {
        Connection { state: ConnState::AwaitLength }
    }

    /// The first action: read a frame length.
    pub fn start(&self) -> (r: ConnAction)
        ensures
            r matches ConnAction::Read(n) && n == 4,
    {
        ConnAction::Read(4)
    }

    /// After a response was written: read the next frame length.
    pub fn resume(&mut self) -> (r: ConnAction)
        ensures
            final(self).state == (if old(self).state == ConnState::Closed {
                ConnState::Closed
            } else {
                ConnState::AwaitLength
            }),
            old(self).state != ConnState::Closed ==> (r matches ConnAction::Read(n) && n == 4),
            old(self).state == ConnState::Closed ==> (r matches ConnAction::Close(c) && c),
    {
        if self.state == ConnState::Closed {
            ConnAction::Close(true)
        } else {
            self.state = ConnState::AwaitLength;
            ConnAction::Read(4)
        }
    }

    /// Takes what a read gave and says what to do next. Every complete frame,
    /// an empty one too, is handed out for dispatch. The peer closing between
    /// frames ends the connection cleanly; a body cut short or a transport
    /// error ends it with an error.
    pub fn step(&mut self, read: ReadResult) -> (r: ConnAction)
        ensures
            (final(self).state, r) == conn_next(old(self).state, read),
    {
        match self.state {
            ConnState::AwaitLength => match read {
                ReadResult::Data(b) => {
                    if b.len() != 4 {
                        self.state = ConnState::Closed;
                        return ConnAction::Close(false);
                    }
                    let n: u32 = (b[0] as u32) * 0x1000000 + (b[1] as u32) * 0x10000 + (b[2] as u32)
                        * 0x100 + b[3] as u32;
                    self.state = ConnState::AwaitBody(n);
                    ConnAction::Read(n as usize)
                },
                ReadResult::Eof => {
                    self.state = ConnState::Closed;
                    ConnAction::Close(true)
                },
                ReadResult::Failed => {
                    self.state = ConnState::Closed;
                    ConnAction::Close(false)
                },
            },
            ConnState::AwaitBody(n) => match read {
                ReadResult::Data(b) => {
                    if b.len() == n as usize {
                        self.state = ConnState::AwaitLength;
                        ConnAction::Dispatch(b)
                    } else {
                        self.state = ConnState::Closed;
                        ConnAction::Close(false)
                    }
                },
                _ => {
                    self.state = ConnState::Closed;
                    ConnAction::Close(false)
                },
            },
            ConnState::Closed => ConnAction::Close(true),
        }
    }
}

/// A request frame, read as its four length bytes and then its body, is
/// handed out for dispatch exactly once, and the connection then waits for
/// the next frame.
pub proof fn lemma_one_dispatch_per_frame(header: Vec<u8>, body: Vec<u8>)
    requires
        header@ == u32_bytes(body@.len() as u32),
        body@.len() <= u32::MAX,
    ensures
        conn_next(ConnState::AwaitLength, ReadResult::Data(header)) == (
            ConnState::AwaitBody(body@.len() as u32),
            ConnAction::Read(body@.len() as usize),
        ),
        conn_next(ConnState::AwaitBody(body@.len() as u32), ReadResult::Data(body)) == (
            ConnState::AwaitLength,
            ConnAction::Dispatch(body),
        ),
{
    crate::wire::lemma_u32_round_trip(body@.len() as u32, Seq::empty());
    assert(u32_bytes(body@.len() as u32) + Seq::<u8>::empty() =~= header@);
}

/// The state and the actions after a run of reads from `state`.
pub open spec fn run_reads(state: ConnState, reads: Seq<ReadResult>) -> (ConnState, Seq<ConnAction>)
    decreases reads.len(),
{
    if reads.len() == 0 {
        (state, Seq::empty())
    } else {
        let (next, action) = conn_next(state, reads[0]);
        let (last, rest) = run_reads(next, reads.skip(1));
        (last, seq![action] + rest)
    }
}

/// The reads of a run of frames: each frame's length bytes, then its body.
pub open spec fn frame_reads(headers: Seq<Vec<u8>>, bodies: Seq<Vec<u8>>) -> Seq<ReadResult>
    decreases bodies.len(),
{
    if bodies.len() == 0 || headers.len() == 0 {
        Seq::empty()
    } else {
        seq![ReadResult::Data(headers[0]), ReadResult::Data(bodies[0])] + frame_reads(
            headers.skip(1),
            bodies.skip(1),
        )
    }
}

/// The actions for a run of frames: read each body, then dispatch it.
pub open spec fn frame_actions(bodies: Seq<Vec<u8>>) -> Seq<ConnAction>
    decreases bodies.len(),
{
    if bodies.len() == 0 {
        Seq::empty()
    } else {
        seq![ConnAction::Read(bodies[0]@.len() as usize), ConnAction::Dispatch(bodies[0])]
            + frame_actions(bodies.skip(1))
    }
}

/// A run of request frames hands out each body for dispatch exactly once, in
/// the order the frames came, and nothing else: one response each.
pub proof fn lemma_frames_dispatched_in_order(headers: Seq<Vec<u8>>, bodies: Seq<Vec<u8>>)
    requires
        headers.len() == bodies.len(),
        forall|i: int|
            0 <= i < bodies.len() ==> #[trigger] headers[i]@ == u32_bytes(bodies[i]@.len() as u32)
                && bodies[i]@.len() <= u32::MAX,
    ensures
        run_reads(ConnState::AwaitLength, frame_reads(headers, bodies)) == (
            ConnState::AwaitLength,
            frame_actions(bodies),
        ),
    decreases bodies.len(),
{
    if bodies.len() > 0 {
        assert(headers[0]@ == u32_bytes(bodies[0]@.len() as u32));
        lemma_one_dispatch_per_frame(headers[0], bodies[0]);
        let rest = frame_reads(headers.skip(1), bodies.skip(1));
        let reads = frame_reads(headers, bodies);
        assert(reads.skip(1) =~= seq![ReadResult::Data(bodies[0])] + rest);
        assert(reads.skip(1).skip(1) =~= rest);
        assert forall|i: int| 0 <= i < bodies.skip(1).len() implies #[trigger] headers.skip(1)[i]@
            == u32_bytes(bodies.skip(1)[i]@.len() as u32) && bodies.skip(1)[i]@.len()
            <= u32::MAX by {
            assert(headers[i + 1]@ == u32_bytes(bodies[i + 1]@.len() as u32));
        }
        lemma_frames_dispatched_in_order(headers.skip(1), bodies.skip(1));
        let (s1, a1) = conn_next(ConnState::AwaitLength, reads[0]);
        let (s2, a2) = conn_next(s1, reads.skip(1)[0]);
        assert(run_reads(s2, reads.skip(1).skip(1)) == (
            ConnState::AwaitLength,
            frame_actions(bodies.skip(1)),
        ));
        assert(run_reads(s1, reads.skip(1)).1 =~= seq![a2] + frame_actions(bodies.skip(1)));
        assert(run_reads(ConnState::AwaitLength, reads).1 =~= frame_actions(bodies));
    }
}

/// A response frame, read back by the client, gives exactly the body that
/// was framed and nothing after it: one request, one response frame.
pub proof fn lemma_one_response_frame(body: Seq<u8>)
    requires
        body.len() <= u32::MAX,
    ensures
        parse_frame(frame(body)) == Some((body, Seq::<u8>::empty())),
        frame(body).len() == body.len() + 4,
{
    crate::wire::lemma_string_round_trip(body, Seq::empty());
    assert(frame(body) + Seq::<u8>::empty() =~= frame(body));
}

} // verus!
