//! The read future's decisions. Like the write future it only ever tries the
//! connection's lock. While it holds it, it reads what is available, chunk by
//! chunk, onto an accumulator that may start with bytes from before; a read
//! of nothing means the peer closed its outbound direction, and ends the
//! future with everything accumulated. Whether those bytes are text is for the
//! caller to decide.
use crate::runtime::LinkState;
use vstd::prelude::*;

verus! {

/// What a step of the read future observed, short of reading bytes.
#[derive(Debug, Clone, Copy, PartialEq, Eq, Structural)]
pub enum ReadEvent {
    /// The lock was held elsewhere.
    LockBusy,
    /// The lock was taken and the connection set not to block.
    LockAcquired,
    /// The connection would have blocked.
    WouldBlock,
    /// A hard failure: not retried.
    Error,
}

/// What the read future does next.
#[derive(Debug, Clone, Copy, PartialEq, Eq, Structural)]
pub enum RecvAction {
    /// Release the lock and report not finished; try again on a later step.
    Retry,
    /// Read the next chunk.
    Read,
    /// The peer is done: report the accumulated bytes.
    Finish,
    /// Report the failure.
    Fail,
}

/// The next state and action after `e`.
pub open spec fn recv_step(state: LinkState, e: ReadEvent) -> (LinkState, RecvAction) {
    match e {
        ReadEvent::LockBusy => (state, RecvAction::Retry),
        ReadEvent::LockAcquired => (LinkState::InProgress, RecvAction::Read),
        ReadEvent::WouldBlock => (state, RecvAction::Retry),
        ReadEvent::Error => (LinkState::Failed, RecvAction::Fail),
    }
}

/// The read future over a shared connection `stream`.
pub struct TcpReceiver<S> {
    stream: S,
    buffer: Vec<u8>,
    state: LinkState,
}

impl<S> TcpReceiver<S> {
    /// The shared connection.
    pub closed spec fn spec_stream(&self) -> S {
        self.stream
    }

    /// The bytes accumulated so far.
    pub closed spec fn spec_buffer(&self) -> Seq<u8> {
        self.buffer@
    }

    /// Where the future stands.
    pub closed spec fn spec_state(&self) -> LinkState {
        self.state
    }

    /// A future that reads from `stream` onto `buffer`, which may already hold
    /// bytes.
    pub fn new(stream: S, buffer: Vec<u8>) -> (r: Self)
        ensures
            r.spec_stream() == stream,
            r.spec_buffer() == buffer@,
            r.spec_state() == LinkState::AwaitingLock,
    {
        TcpReceiver { stream, buffer, state: LinkState::AwaitingLock }
    }

    /// The shared connection.
    pub fn stream(&self) -> (r: &S)
        ensures
            *r == self.spec_stream(),
    {
        &self.stream
    }

    /// The bytes accumulated so far.
    pub fn buffer(&self) -> (r: &Vec<u8>)
        ensures
            r@ == self.spec_buffer(),
    {
        &self.buffer
    }

    /// Where the future stands.
    pub fn state(&self) -> (r: LinkState)
        ensures
            r == self.spec_state(),
    {
        self.state
    }

    /// Gives up the accumulated bytes.
    pub fn into_buffer(self) -> (r: Vec<u8>)
        ensures
            r@ == self.spec_buffer(),
    {
        self.buffer
    }

    /// Takes in what a step observed, short of bytes read, and says what to
    /// do next. The accumulated bytes are kept as they are.
    pub fn advance(&mut self, e: ReadEvent) -> (r: RecvAction)
        requires
            !old(self).spec_state().spec_is_terminal(),
            e is WouldBlock ==> old(self).spec_state() is InProgress,
        ensures
            final(self).spec_stream() == old(self).spec_stream(),
            final(self).spec_buffer() == old(self).spec_buffer(),
            (final(self).spec_state(), r) == recv_step(old(self).spec_state(), e),
    {
        match e {
            ReadEvent::LockBusy => RecvAction::Retry,
            ReadEvent::LockAcquired => {
                self.state = LinkState::InProgress;
                RecvAction::Read
            },
            ReadEvent::WouldBlock => RecvAction::Retry,
            ReadEvent::Error => {
                self.state = LinkState::Failed;
                RecvAction::Fail
            },
        }
    }

    /// Takes in a chunk that was read. An empty chunk means the peer closed
    /// its outbound direction: the future is complete. Otherwise the chunk
    /// goes after the accumulated bytes and reading goes on.
    pub fn received(&mut self, chunk: &[u8]) -> (r: RecvAction)
        requires
            old(self).spec_state() is InProgress,
        ensures
            final(self).spec_stream() == old(self).spec_stream(),
            final(self).spec_buffer() == old(self).spec_buffer() + chunk@,
            chunk@.len() == 0 ==> final(self).spec_state() == LinkState::Complete && r
                == RecvAction::Finish,
            chunk@.len() > 0 ==> final(self).spec_state() == LinkState::InProgress && r
                == RecvAction::Read,
    {
        if chunk.len() == 0 {
            self.state = LinkState::Complete;
            assert(self.buffer@ + chunk@ =~= self.buffer@);
            RecvAction::Finish
        } else {
            self.buffer.extend_from_slice(chunk);
            RecvAction::Read
        }
    }
}

/// The bytes held after the chunks `cs` are received in turn onto `buf`.
pub open spec fn accumulate(buf: Seq<u8>, cs: Seq<Seq<u8>>) -> Seq<u8>
    decreases cs.len(),
{
    if cs.len() == 0 {
        buf
    } else {
        accumulate(buf + cs[0], cs.drop_first())
    }
}

/// Reading never corrupts the data: whatever the lock and the connection do
/// in between, the bytes held are the starting bytes followed by every chunk
/// in the order it was read, none lost or repeated.
pub proof fn lemma_recv_in_order(buf: Seq<u8>, cs: Seq<Seq<u8>>)
    ensures
        accumulate(buf, cs) == buf + cs.flatten(),
    decreases cs.len(),
{
    if cs.len() > 0 {
        lemma_recv_in_order(buf + cs[0], cs.drop_first());
        assert(buf + cs[0] + cs.drop_first().flatten() =~= buf + cs.flatten());
    } else {
        assert(buf + cs.flatten() =~= buf);
    }
}

/// A busy lock changes nothing and only asks for a later try, so contention
/// loses no accumulated bytes; a taken lock always leads straight to a read.
pub proof fn lemma_recv_lock_handling(state: LinkState)
    ensures
        recv_step(state, ReadEvent::LockBusy) == (state, RecvAction::Retry),
        recv_step(state, ReadEvent::LockAcquired) == (LinkState::InProgress, RecvAction::Read),
{
}

} // verus!
