use vstd::prelude::*;
use vstd::slice::slice_to_vec;
use crate::request::{first_occurrence, find_subsequence, head_of, parse_request_head, utf8_lossy, RequestHead, Route};

verus! {

/// The most bytes that the head of a request (blank line included) may take.
pub const HEAD_BUFFER_SIZE: usize = 8192;

/// The blank line that ends a request's head: CR LF CR LF.
pub open spec fn head_terminator() -> Seq<u8> {
    seq![13u8, 10u8, 13u8, 10u8]
}

/// A request ready to be served.
pub struct Request {
    pub route: Route,
    pub body: Vec<u8>,
}

/// What the connection got from its last read.
pub enum ConnectionEvent {
    /// Some bytes (at least one, and no more than were asked for).
    Data(Vec<u8>),
    /// The peer closed its side: the read returned no bytes.
    End,
    /// The read failed.
    Failed,
}

/// What the server must do next with the connection.
pub enum ConnectionAction {
    /// Read at most this many bytes and report them.
    Read(usize),
    /// Serve the request and close.
    Dispatch(Request),
    /// Close without answering.
    Close,
}

/// Where a connection stands.
pub enum ConnectionPhase {
    /// Reading the head; the bytes so far hold no blank line.
    ReadingHead(Vec<u8>),
    /// The head is known; reading the body it announced.
    ReadingBody(RequestHead, Vec<u8>),
    /// Finished: a request was handed out, or the connection was given up.
    Done,
}

pub struct Connection {
    pub phase: ConnectionPhase,
}

/// The abstract state of a connection.
pub enum ConnState {
    ReadingHead { received: Seq<u8> },
    ReadingBody { head: RequestHead, body: Seq<u8> },
    Done,
}

/// The abstract event.
pub enum EventModel {
    Data(Seq<u8>),
    End,
    Failed,
}

/// The abstract action.
pub enum ActionModel {
    Read(nat),
    Dispatch(Route, Seq<u8>),
    Close,
}

impl Connection {
    pub open spec fn state(&self) -> ConnState {
        match &self.phase {
            ConnectionPhase::ReadingHead(r) => ConnState::ReadingHead { received: r@ },
            ConnectionPhase::ReadingBody(h, b) => ConnState::ReadingBody { head: *h, body: b@ },
            ConnectionPhase::Done => ConnState::Done,
        }
    }

    /// The state invariant: the head so far is shorter than the buffer, and
    /// the body so far is shorter than announced.
    pub open spec fn wf(&self) -> bool {
        state_wf(self.state())
    }
}

pub open spec fn state_wf(s: ConnState) -> bool {
    match s {
        ConnState::ReadingHead { received } => received.len() < HEAD_BUFFER_SIZE,
        ConnState::ReadingBody { head, body } => body.len() < head.content_length,
        ConnState::Done => true,
    }
}

pub open spec fn event_model(e: &ConnectionEvent) -> EventModel {
    match e {
        ConnectionEvent::Data(d) => EventModel::Data(d@),
        ConnectionEvent::End => EventModel::End,
        ConnectionEvent::Failed => EventModel::Failed,
    }
}

pub open spec fn action_model(a: &ConnectionAction) -> ActionModel {
    match a {
        ConnectionAction::Read(n) => ActionModel::Read(*n as nat),
        ConnectionAction::Dispatch(r) => ActionModel::Dispatch(r.route, r.body@),
        ConnectionAction::Close => ActionModel::Close,
    }
}

/// How many bytes the next read may bring in this state.
pub open spec fn wanted(s: ConnState) -> int {
    match s {
        ConnState::ReadingHead { received } => HEAD_BUFFER_SIZE - received.len(),
        ConnState::ReadingBody { head, body } => head.content_length - body.len(),
        ConnState::Done => 0,
    }
}

/// Data events carry at least one byte and no more than was asked for.
pub open spec fn event_fits(s: ConnState, e: EventModel) -> bool {
    match e {
        EventModel::Data(d) => 0 < d.len() <= wanted(s),
        _ => true,
    }
}

/// The body is complete: serve the request if its request line named one.
pub open spec fn finish(head: RequestHead, body: Seq<u8>) -> (ConnState, ActionModel) {
    (ConnState::Done, match head.route {
        Some(r) => ActionModel::Dispatch(r, body),
        None => ActionModel::Close,
    })
}

/// With this much body: serve once the announced length is reached, else
/// read the rest.
pub open spec fn after_body(head: RequestHead, body: Seq<u8>) -> (ConnState, ActionModel) {
    if body.len() >= head.content_length {
        finish(head, body)
    } else {
        (ConnState::ReadingBody { head, body }, ActionModel::Read((head.content_length - body.len()) as nat))
    }
}

/// One step of the connection. While reading the head, bytes accumulate
/// until the first blank line; the text before it gives the head and what
/// follows starts the body. A head that fills the buffer without a blank
/// line, an end of stream or a failed read gives the connection up. While
/// reading the body, bytes accumulate until the announced length is
/// reached; an end of stream or a failed read serves what came so far.
pub open spec fn conn_step(s: ConnState, e: EventModel) -> (ConnState, ActionModel) {
    match s {
        ConnState::ReadingHead { received } => match e {
            EventModel::Data(d) => {
                let r = received + d;
                match first_occurrence(r, head_terminator()) {
                    Some(p) => after_body(head_of(utf8_lossy(r.take(p))), r.skip(p + 4)),
                    None => if r.len() < HEAD_BUFFER_SIZE {
                        (ConnState::ReadingHead { received: r }, ActionModel::Read((HEAD_BUFFER_SIZE - r.len()) as nat))
                    } else {
                        (ConnState::Done, ActionModel::Close)
                    },
                }
            },
            _ => (ConnState::Done, ActionModel::Close),
        },
        ConnState::ReadingBody { head, body } => match e {
            EventModel::Data(d) => after_body(head, body + d),
            _ => finish(head, body),
        },
        ConnState::Done => (ConnState::Done, ActionModel::Close),
    }
}

/// All the bytes of the reads, in order.
pub open spec fn concat(reads: Seq<Seq<u8>>) -> Seq<u8>
    decreases reads.len(),
{
    if reads.len() == 0 {
        Seq::empty()
    } else {
        concat(reads.drop_last()) + reads.last()
    }
}

/// A new connection fed the reads in order: the state it ends in, and its
/// actions (the first one that of `start`, then one for each read).
pub open spec fn feed(reads: Seq<Seq<u8>>) -> (ConnState, Seq<ActionModel>)
    decreases reads.len(),
{
    if reads.len() == 0 {
        (ConnState::ReadingHead { received: Seq::empty() }, seq![ActionModel::Read(HEAD_BUFFER_SIZE as nat)])
    } else {
        let prev = feed(reads.drop_last());
        let next = conn_step(prev.0, EventModel::Data(reads.last()));
        (next.0, prev.1.push(next.1))
    }
}

/// Each read brings at least one byte and no more than the connection asked
/// for.
pub open spec fn reads_fit(reads: Seq<Seq<u8>>) -> bool
    decreases reads.len(),
{
    reads.len() == 0 || (reads_fit(reads.drop_last()) && event_fits(
        feed(reads.drop_last()).0,
        EventModel::Data(reads.last()),
    ))
}

/// The head of a stream that begins with `all`, once its blank line has come.
pub open spec fn stream_head(all: Seq<u8>) -> Option<(int, RequestHead)> {
    match first_occurrence(all, head_terminator()) {
        Some(p) => Some((p, head_of(utf8_lossy(all.take(p))))),
        None => None,
    }
}

/// Serving `route` with `body` fits a stream that begins with `all`: the
/// blank line lies within the head buffer, the head before it names the
/// route, and the body is every byte after it.
pub open spec fn serves(all: Seq<u8>, route: Route, body: Seq<u8>) -> bool {
    match stream_head(all) {
        Some((p, head)) => p + 4 <= HEAD_BUFFER_SIZE && head.route == Some(route) && body == all.skip(p + 4),
        None => false,
    }
}

/// The body length that the head of a stream beginning with `all` announces.
pub open spec fn announced_length(all: Seq<u8>) -> int {
    match stream_head(all) {
        Some((_, head)) => head.content_length as int,
        None => 0,
    }
}

/// The number of body bytes that came in the same reads as the head: those
/// after the first blank line, within the reads up to and including the one
/// that brought it (0 while no blank line has come).
pub open spec fn with_head_length(reads: Seq<Seq<u8>>) -> int
    decreases reads.len(),
{
    if reads.len() == 0 {
        0
    } else if first_occurrence(concat(reads.drop_last()), head_terminator()) is Some {
        with_head_length(reads.drop_last())
    } else {
        match first_occurrence(concat(reads), head_terminator()) {
            Some(p) => concat(reads).len() - (p + 4),
            None => 0,
        }
    }
}

/// The most body that the reads may hand out: the larger of the announced
/// length and the bytes that came with the head.
pub open spec fn body_limit(reads: Seq<Seq<u8>>) -> int {
    let announced = announced_length(concat(reads));
    let with_head = with_head_length(reads);
    if announced >= with_head {
        announced
    } else {
        with_head
    }
}

/// The state is the one that the bytes `all` lead to: still reading a head
/// that fits the buffer and holds no blank line, or reading the body that the
/// head before the first blank line announced, or done.
pub open spec fn state_matches(s: ConnState, all: Seq<u8>) -> bool {
    match s {
        ConnState::ReadingHead { received } => received == all && first_occurrence(all, head_terminator()) is None
            && all.len() < HEAD_BUFFER_SIZE,
        ConnState::ReadingBody { head, body } => match stream_head(all) {
            Some((p, h)) => p + 4 <= HEAD_BUFFER_SIZE && head == h && body == all.skip(p + 4) && body.len()
                < head.content_length,
            None => false,
        },
        ConnState::Done => true,
    }
}

fn append_bytes(v: &mut Vec<u8>, d: &Vec<u8>)
    ensures
        final(v)@ == old(v)@ + d@,
{
    let n = d.len();
    let mut i: usize = 0;
    while i < n
        invariant
            n == d@.len(),
            i <= n,
            v@ == old(v)@ + d@.take(i as int),
        decreases n - i,
    {
        v.push(d[i]);
        assert(d@.take(i + 1) =~= d@.take(i as int).push(d@[i as int]));
        i = i + 1;
    }
    assert(d@.take(n as int) =~= d@);
}

impl Connection {
    /// A new connection and its first action: read up to a full head buffer.
    pub fn start() -> (r: (Connection, ConnectionAction))
        ensures
            r.0.wf(),
            r.0.state() == (ConnState::ReadingHead { received: Seq::empty() }),
            action_model(&r.1) == ActionModel::Read(HEAD_BUFFER_SIZE as nat),
    {
        let c = Connection { phase: ConnectionPhase::ReadingHead(Vec::new()) };
        (c, ConnectionAction::Read(HEAD_BUFFER_SIZE))
    }

    fn settle(head: RequestHead, body: Vec<u8>) -> (r: (ConnectionPhase, ConnectionAction))
        ensures
            (Connection { phase: r.0 }).state() == after_body(head, body@).0,
            action_model(&r.1) == after_body(head, body@).1,
            state_wf(after_body(head, body@).0),
    {
        if body.len() >= head.content_length {
            match head.route {
                Some(route) => (ConnectionPhase::Done, ConnectionAction::Dispatch(Request { route, body })),
                None => (ConnectionPhase::Done, ConnectionAction::Close),
            }
        } else {
            let want = head.content_length - body.len();
            (ConnectionPhase::ReadingBody(head, body), ConnectionAction::Read(want))
        }
    }

    /// Advances the connection by one event (see `conn_step`).
    pub fn step(&mut self, event: ConnectionEvent) -> (action: ConnectionAction)
        requires
            old(self).wf(),
            event_fits(old(self).state(), event_model(&event)),
        ensures
            final(self).wf(),
            (final(self).state(), action_model(&action)) == conn_step(old(self).state(), event_model(&event)),
    {
        let mut phase = ConnectionPhase::Done;
        std::mem::swap(&mut phase, &mut self.phase);
        match phase {
            ConnectionPhase::ReadingHead(mut received) => match event {
                ConnectionEvent::Data(d) => {
                    append_bytes(&mut received, &d);
                    let terminator: [u8; 4] = [13, 10, 13, 10];
                    assert(terminator@ =~= head_terminator());
                    match find_subsequence(received.as_slice(), &terminator) {
                        Some(p) => {
                            let all = received.as_slice();
                            let head = parse_request_head(&all[0..p]);
                            let body = slice_to_vec(&all[p + 4..all.len()]);
                            assert(all@.subrange(0, p as int) =~= received@.take(p as int));
                            assert(all@.subrange(p + 4, all@.len() as int) =~= received@.skip(p + 4));
                            let (next, action) = Connection::settle(head, body);
                            self.phase = next;
                            action
                        },
                        None => {
                            if received.len() < HEAD_BUFFER_SIZE {
                                let want = HEAD_BUFFER_SIZE - received.len();
                                self.phase = ConnectionPhase::ReadingHead(received);
                                ConnectionAction::Read(want)
                            } else {
                                ConnectionAction::Close
                            }
                        },
                    }
                },
                _ => ConnectionAction::Close,
            },
            ConnectionPhase::ReadingBody(head, mut body) => match event {
                ConnectionEvent::Data(d) => {
                    append_bytes(&mut body, &d);
                    let (next, action) = Connection::settle(head, body);
                    self.phase = next;
                    action
                },
                _ => match head.route {
                    Some(route) => ConnectionAction::Dispatch(Request { route, body }),
                    None => ConnectionAction::Close,
                },
            },
            ConnectionPhase::Done => ConnectionAction::Close,
        }
    }
}

} // verus!
