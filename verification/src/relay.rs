//! The decisions of a relay session. A session copies bytes in both
//! directions at once, each direction reading into a buffer and writing out
//! what it read; it ends, for both directions, as soon as either one ends.

use vstd::prelude::*;
use vstd::slice::slice_subrange;

verus! {

/// The size of the buffer that each direction reads into.
pub const BUFFER_SIZE: usize = 8192;

/// One of the two directions of a session.
#[derive(Debug, Clone, Copy, PartialEq, Eq, Structural)]
pub enum Direction {
    ClientToBackend,
    BackendToClient,
}

/// How a direction ended by itself.
#[derive(Debug, Clone, Copy, PartialEq, Eq, Structural)]
pub enum Outcome {
    /// The reading side reached the end of its stream.
    EndOfStream,
    /// A read or a write failed.
    Failed,
}

/// What a read into the buffer came back with.
#[derive(Debug, Clone, Copy, PartialEq, Eq, Structural)]
pub enum ReadEvent {
    /// The number of bytes read; zero at the end of the stream.
    Bytes(usize),
    Failed,
}

/// What a direction does next.
#[derive(Debug, Clone, Copy, PartialEq, Eq, Structural)]
pub enum CopyAction {
    /// Read into the buffer.
    Read,
    /// Write out the first bytes of the buffer, as many as given.
    Write(usize),
    /// Stop copying.
    Stop(Outcome),
}

/// The state of one direction.
#[derive(Debug, Clone, Copy, PartialEq, Eq, Structural)]
pub enum LinkState {
    Running,
    /// The direction ended by itself.
    Finished(Outcome),
    /// The direction was cancelled because the other one ended.
    Aborted,
}

/// What the session does when a direction reports its end.
#[derive(Debug, Clone, Copy, PartialEq, Eq, Structural)]
pub enum SessionAction {
    /// Cancel the given direction and close the session.
    Abort(Direction),
    /// The session was closed before: nothing is left to do.
    Nothing,
}

/// The direction opposite to `direction`.
pub open spec fn opposite(direction: Direction) -> Direction {
    match direction {
        Direction::ClientToBackend => Direction::BackendToClient,
        Direction::BackendToClient => Direction::ClientToBackend,
    }
}

/// The step that follows a read.
pub open spec fn step_after_read(event: ReadEvent) -> CopyAction {
    match event {
        ReadEvent::Bytes(count) => if count == 0 {
            CopyAction::Stop(Outcome::EndOfStream)
        } else {
            CopyAction::Write(count)
        },
        ReadEvent::Failed => CopyAction::Stop(Outcome::Failed),
    }
}

/// The step that follows a write.
pub open spec fn step_after_write(written: bool) -> CopyAction {
    if written {
        CopyAction::Read
    } else {
        CopyAction::Stop(Outcome::Failed)
    }
}

/// Decides what follows a read: the end of the stream and a failure stop
/// the direction, anything else is written out.
pub fn after_read(event: ReadEvent) -> (action: CopyAction)
    ensures
        action == step_after_read(event),
{
    match event {
        ReadEvent::Bytes(count) => {
            if count == 0 {
                CopyAction::Stop(Outcome::EndOfStream)
            } else {
                CopyAction::Write(count)
            }
        },
        ReadEvent::Failed => CopyAction::Stop(Outcome::Failed),
    }
}

/// Decides what follows a write: the next read, unless the write failed.
pub fn after_write(written: bool) -> (action: CopyAction)
    ensures
        action == step_after_write(written),
{
    if written {
        CopyAction::Read
    } else {
        CopyAction::Stop(Outcome::Failed)
    }
}

/// The first `count` bytes of a buffer: what a read of `count` bytes put
/// there.
pub open spec fn chunk_of(buffer: Seq<u8>, count: int) -> Seq<u8> {
    buffer.subrange(0, count)
}

/// The bytes to write out after a read of `count` bytes into `buffer`:
/// exactly the bytes that were read, in order.
pub fn chunk(buffer: &[u8], count: usize) -> (bytes: &[u8])
    requires
        count <= buffer@.len(),
    ensures
        bytes@ == chunk_of(buffer@, count as int),
{
    slice_subrange(buffer, 0, count)
}

/// What happens to a direction: a read came back, with the buffer as it
/// then stands, or a write came back, done or failed.
pub enum CopyEvent {
    Filled(Seq<u8>, ReadEvent),
    Wrote(bool),
}

/// A direction in the course of its work: what it does next, and the bytes
/// that it has handed over for writing so far.
pub struct CopyRun {
    pub action: CopyAction,
    pub forwarded: Seq<u8>,
}

/// One fill of the buffer by a read that brought bytes: the buffer after
/// the read, and the number of bytes that the read reported.
pub struct Fill {
    pub buffer: Seq<u8>,
    pub count: usize,
}

/// A direction at its start: about to read, nothing handed over.
pub open spec fn copy_start() -> CopyRun {
    CopyRun { action: CopyAction::Read, forwarded: Seq::<u8>::empty() }
}

/// A direction after one more event. A read that it waited for decides the
/// next step, and what is to be written is handed over at once; a write
/// that it waited for decides the next step. An event that it did not wait
/// for changes nothing.
pub open spec fn copy_advance(run: CopyRun, event: CopyEvent) -> CopyRun {
    match (run.action, event) {
        (CopyAction::Read, CopyEvent::Filled(buffer, read)) => {
            let next = step_after_read(read);
            CopyRun {
                action: next,
                forwarded: match next {
                    CopyAction::Write(count) => run.forwarded + chunk_of(buffer, count as int),
                    _ => run.forwarded,
                },
            }
        },
        (CopyAction::Write(_), CopyEvent::Wrote(written)) => CopyRun {
            action: step_after_write(written),
            forwarded: run.forwarded,
        },
        _ => run,
    }
}

/// A direction after a series of events, taken in one after the other.
pub open spec fn copy_run(run: CopyRun, events: Seq<CopyEvent>) -> CopyRun
    decreases events.len(),
{
    if events.len() == 0 {
        run
    } else {
        copy_advance(copy_run(run, events.drop_last()), events.last())
    }
}

/// The bytes that a series of fills brought, in order.
pub open spec fn stream_of(fills: Seq<Fill>) -> Seq<u8>
    decreases fills.len(),
{
    if fills.len() == 0 {
        Seq::<u8>::empty()
    } else {
        stream_of(fills.drop_last()) + chunk_of(fills.last().buffer, fills.last().count as int)
    }
}

/// The events of a run in which nothing fails: each fill is read and then
/// written out.
pub open spec fn faultless(fills: Seq<Fill>) -> Seq<CopyEvent>
    decreases fills.len(),
{
    if fills.len() == 0 {
        Seq::<CopyEvent>::empty()
    } else {
        faultless(fills.drop_last()).push(
            CopyEvent::Filled(fills.last().buffer, ReadEvent::Bytes(fills.last().count)),
        ).push(CopyEvent::Wrote(true))
    }
}

/// The events of a whole stream: its fills, read and written out without
/// failure, and then the read that finds the stream at its end.
pub open spec fn whole_stream(fills: Seq<Fill>, last_buffer: Seq<u8>) -> Seq<CopyEvent> {
    faultless(fills).push(CopyEvent::Filled(last_buffer, ReadEvent::Bytes(0)))
}

/// Bytes arrive unmodified. Whatever a stream holds and however the reads
/// cut it into fills, of any number and any sizes, a direction in which
/// nothing fails hands over for writing exactly the bytes of the stream:
/// the same bytes in the same order, none dropped, none twice. It is then
/// about to read again, and the read that finds the end of the stream stops
/// it with nothing more handed over.
pub proof fn lemma_stream_arrives(fills: Seq<Fill>, last_buffer: Seq<u8>)
    requires
        forall|i: int| 0 <= i < fills.len() ==> (#[trigger] fills[i]).count > 0,
    ensures
        copy_run(copy_start(), faultless(fills)) == (CopyRun {
            action: CopyAction::Read,
            forwarded: stream_of(fills),
        }),
        copy_run(copy_start(), whole_stream(fills, last_buffer)) == (CopyRun {
            action: CopyAction::Stop(Outcome::EndOfStream),
            forwarded: stream_of(fills),
        }),
    decreases fills.len(),
{
    let start = copy_start();
    if fills.len() > 0 {
        let front = fills.drop_last();
        let last = fills.last();
        assert forall|i: int| 0 <= i < front.len() implies (#[trigger] front[i]).count > 0 by {
            assert(front[i] == fills[i]);
        }
        lemma_stream_arrives(front, last_buffer);
        assert(last.count > 0);
        let read = CopyEvent::Filled(last.buffer, ReadEvent::Bytes(last.count));
        let filled = faultless(front).push(read);
        assert(filled.drop_last() =~= faultless(front));
        assert(copy_run(start, filled) == copy_advance(copy_run(start, faultless(front)), read));
        let written = filled.push(CopyEvent::Wrote(true));
        assert(written.drop_last() =~= filled);
        assert(copy_run(start, written) == copy_advance(
            copy_run(start, filled),
            CopyEvent::Wrote(true),
        ));
    }
    let end = CopyEvent::Filled(last_buffer, ReadEvent::Bytes(0));
    let whole = faultless(fills).push(end);
    assert(whole.drop_last() =~= faultless(fills));
    assert(copy_run(start, whole) == copy_advance(copy_run(start, faultless(fills)), end));
}

/// A direction that has stopped stays stopped and hands nothing more over,
/// whatever events still come.
pub proof fn lemma_stopped_stays(run: CopyRun, events: Seq<CopyEvent>)
    requires
        run.action is Stop,
    ensures
        copy_run(run, events) == run,
    decreases events.len(),
{
    if events.len() > 0 {
        lemma_stopped_stays(run, events.drop_last());
    }
}

/// The two directions of one proxied connection.
pub struct RelaySession {
    client_to_backend: LinkState,
    backend_to_client: LinkState,
}

impl RelaySession {
    /// The state of a direction.
    pub closed spec fn link(self, direction: Direction) -> LinkState {
        match direction {
            Direction::ClientToBackend => self.client_to_backend,
            Direction::BackendToClient => self.backend_to_client,
        }
    }

    /// Both directions run.
    pub open spec fn is_open(self) -> bool {
        self.link(Direction::ClientToBackend) is Running && self.link(
            Direction::BackendToClient,
        ) is Running
    }

    /// No direction runs.
    pub open spec fn is_closed(self) -> bool {
        !(self.link(Direction::ClientToBackend) is Running) && !(self.link(
            Direction::BackendToClient,
        ) is Running)
    }

    /// The two directions live and die together.
    #[verifier::type_invariant]
    spec fn together(self) -> bool {
        (self.client_to_backend is Running) == (self.backend_to_client is Running)
    }

    /// A session whose two directions run.
    pub fn new() -> (session: Self)
        ensures
            session.is_open(),
    {
        RelaySession {
            client_to_backend: LinkState::Running,
            backend_to_client: LinkState::Running,
        }
    }

    /// The state of a direction.
    pub fn state(&self, direction: Direction) -> (state: LinkState)
        ensures
            state == self.link(direction),
    {
        match direction {
            Direction::ClientToBackend => self.client_to_backend,
            Direction::BackendToClient => self.backend_to_client,
        }
    }

    /// Whether both directions run.
    pub fn open(&self) -> (open: bool)
        ensures
            open == self.is_open(),
            !open == self.is_closed(),
    {
        proof {
            use_type_invariant(self);
        }
        match self.client_to_backend {
            LinkState::Running => true,
            _ => false,
        }
    }

    /// Takes in the end of a direction. In an open session the direction is
    /// recorded as ended, the other one as cancelled, and the answer is to
    /// cancel that other one. In a closed session nothing changes.
    pub fn on_finished(&mut self, direction: Direction, outcome: Outcome) -> (action:
        SessionAction)
        ensures
            final(self).is_closed(),
            old(self).is_open() ==> {
                &&& final(self).link(direction) == LinkState::Finished(outcome)
                &&& final(self).link(opposite(direction)) == LinkState::Aborted
                &&& action == SessionAction::Abort(opposite(direction))
            },
            !old(self).is_open() ==> *final(self) == *old(self) && action
                == SessionAction::Nothing,
    {
        proof {
            use_type_invariant(&*self);
        }
        if !self.open() {
            return SessionAction::Nothing;
        }
        match direction {
            Direction::ClientToBackend => {
                *self = RelaySession {
                    client_to_backend: LinkState::Finished(outcome),
                    backend_to_client: LinkState::Aborted,
                };
                SessionAction::Abort(Direction::BackendToClient)
            },
            Direction::BackendToClient => {
                *self = RelaySession {
                    client_to_backend: LinkState::Aborted,
                    backend_to_client: LinkState::Finished(outcome),
                };
                SessionAction::Abort(Direction::ClientToBackend)
            },
        }
    }
}

} // verus!
