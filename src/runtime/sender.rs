//! The write future's decisions. The future shares one connection with
//! others behind a lock that it only ever tries to take; each step reports
//! to this machine what happened (the lock was busy, it was taken, so many
//! bytes were written, the write would block, it failed) and is told what to
//! do next. The machine keeps the offset of the first unsent byte, so a write
//! that is cut short resumes where it stopped on a later step.
use crate::runtime::LinkState;
use vstd::prelude::*;
use vstd::slice::slice_subrange;

verus! {

/// What a step of the write future observed.
#[derive(Debug, Clone, Copy, PartialEq, Eq, Structural)]
pub enum WriteEvent {
    /// The lock was held elsewhere.
    LockBusy,
    /// The lock was taken and the connection set not to block.
    LockAcquired,
    /// The connection took this many bytes from the front of the unsent ones.
    Wrote(usize),
    /// The connection would have blocked.
    WouldBlock,
    /// A hard failure: not retried.
    Error,
}

/// What the write future does next.
#[derive(Debug, Clone, Copy, PartialEq, Eq, Structural)]
pub enum SendAction {
    /// Release the lock and report not finished; try again on a later step.
    Retry,
    /// Write the unsent bytes.
    Write,
    /// Every byte is sent: close the outbound direction and report success.
    Finish,
    /// Report the failure.
    Fail,
}

/// The next offset, state and action after `e`, for a buffer of `len` bytes
/// of which `sent` are sent.
pub open spec fn send_step(len: nat, sent: nat, state: LinkState, e: WriteEvent) -> (
    nat,
    LinkState,
    SendAction,
) {
    match e {
        WriteEvent::LockBusy => (sent, state, SendAction::Retry),
        WriteEvent::LockAcquired => if sent == len {
            (sent, LinkState::Complete, SendAction::Finish)
        } else {
            (sent, LinkState::InProgress, SendAction::Write)
        },
        WriteEvent::Wrote(n) => if n == 0 {
            (sent, LinkState::Failed, SendAction::Fail)
        } else if sent + n == len {
            ((sent + n) as nat, LinkState::Complete, SendAction::Finish)
        } else {
            ((sent + n) as nat, LinkState::InProgress, SendAction::Write)
        },
        WriteEvent::WouldBlock => (sent, state, SendAction::Retry),
        WriteEvent::Error => (sent, LinkState::Failed, SendAction::Fail),
    }
}

/// Whether `e` can be observed in this position: never after the end, and a
/// write or a would-block only while working, a write of no more bytes than
/// are unsent.
pub open spec fn send_admissible(len: nat, sent: nat, state: LinkState, e: WriteEvent) -> bool {
    &&& !state.spec_is_terminal()
    &&& (e matches WriteEvent::Wrote(n) ==> state is InProgress && sent + n <= len)
    &&& (e is WouldBlock ==> state is InProgress)
}

/// The bytes of `buf` that the connection took at event `e`, with `sent`
/// bytes sent before it.
pub open spec fn taken_at(buf: Seq<u8>, sent: nat, e: WriteEvent) -> Seq<u8> {
    match e {
        WriteEvent::Wrote(n) => buf.subrange(sent as int, sent + n),
        _ => Seq::empty(),
    }
}

/// After the events `es` in turn: the offset, the state, and every byte the
/// connection took, in the order it took them.
pub open spec fn send_run(buf: Seq<u8>, sent: nat, state: LinkState, es: Seq<WriteEvent>) -> (
    nat,
    LinkState,
    Seq<u8>,
)
    decreases es.len(),
{
    if es.len() == 0 {
        (sent, state, Seq::empty())
    } else {
        let (s1, st1, _a) = send_step(buf.len(), sent, state, es[0]);
        let (s2, st2, rest) = send_run(buf, s1, st1, es.drop_first());
        (s2, st2, taken_at(buf, sent, es[0]) + rest)
    }
}

/// Whether each of the events `es` can be observed where it comes.
pub open spec fn send_run_admissible(
    len: nat,
    sent: nat,
    state: LinkState,
    es: Seq<WriteEvent>,
) -> bool
    decreases es.len(),
{
    if es.len() == 0 {
        true
    } else {
        let (s1, st1, _a) = send_step(len, sent, state, es[0]);
        send_admissible(len, sent, state, es[0]) && send_run_admissible(
            len,
            s1,
            st1,
            es.drop_first(),
        )
    }
}

/// Sending never corrupts the data, whatever the lock and the connection do:
/// over any run of steps, the bytes the connection took are exactly the
/// buffer's bytes from the starting offset up to the final one, in order, with
/// none skipped or repeated; and a future that ends complete has sent the
/// whole buffer.
pub proof fn lemma_send_run_in_order(
    buf: Seq<u8>,
    sent: nat,
    state: LinkState,
    es: Seq<WriteEvent>,
)
    requires
        sent <= buf.len(),
        send_run_admissible(buf.len(), sent, state, es),
    ensures
        sent <= send_run(buf, sent, state, es).0 <= buf.len(),
        send_run(buf, sent, state, es).2 == buf.subrange(
            sent as int,
            send_run(buf, sent, state, es).0 as int,
        ),
        send_run(buf, sent, state, es).1 is Complete && es.len() > 0 ==> send_run(
            buf,
            sent,
            state,
            es,
        ).0 == buf.len(),
    decreases es.len(),
{
    if es.len() > 0 {
        let (s1, st1, _a) = send_step(buf.len(), sent, state, es[0]);
        lemma_send_run_in_order(buf, s1, st1, es.drop_first());
        let (s2, st2, rest) = send_run(buf, s1, st1, es.drop_first());
        assert(taken_at(buf, sent, es[0]) =~= buf.subrange(sent as int, s1 as int));
        assert(taken_at(buf, sent, es[0]) + rest =~= buf.subrange(sent as int, s2 as int));
        if es.len() == 1 {
            assert(es.drop_first().len() == 0);
        }
    }
}

/// A busy lock changes nothing and only asks for a later try, so contention
/// loses no progress; a taken lock always leads straight to a write or to the
/// finish, never to waiting while it is held.
pub proof fn lemma_send_lock_handling(len: nat, sent: nat, state: LinkState)
    ensures
        send_step(len, sent, state, WriteEvent::LockBusy) == (sent, state, SendAction::Retry),
        send_step(len, sent, state, WriteEvent::LockAcquired).2 is Write || send_step(
            len,
            sent,
            state,
            WriteEvent::LockAcquired,
        ).2 is Finish,
{
}

/// The write future of one buffer over a shared connection `stream`.
pub struct TcpSender<S> {
    stream: S,
    buffer: Vec<u8>,
    sent: usize,
    state: LinkState,
}

impl<S> TcpSender<S> {
    #[verifier::type_invariant]
    spec fn inv(&self) -> bool {
        &&& self.sent <= self.buffer@.len()
        &&& self.state is Complete ==> self.sent == self.buffer@.len()
    }

    /// The shared connection.
    pub closed spec fn spec_stream(&self) -> S {
        self.stream
    }

    /// The bytes to send.
    pub closed spec fn spec_buffer(&self) -> Seq<u8> {
        self.buffer@
    }

    /// How many bytes from the front of the buffer are sent.
    pub closed spec fn spec_sent(&self) -> nat {
        self.sent as nat
    }

    /// Where the future stands.
    pub closed spec fn spec_state(&self) -> LinkState {
        self.state
    }

    /// A future that will send `buffer` over `stream`; nothing is sent yet.
    pub fn new(stream: S, buffer: Vec<u8>) -> (r: Self)
        ensures
            r.spec_stream() == stream,
            r.spec_buffer() == buffer@,
            r.spec_sent() == 0,
            r.spec_state() == LinkState::AwaitingLock,
    {
        TcpSender { stream, buffer, sent: 0, state: LinkState::AwaitingLock }
    }

    /// The shared connection.
    pub fn stream(&self) -> (r: &S)
        ensures
            *r == self.spec_stream(),
    {
        &self.stream
    }

    /// The bytes to send.
    pub fn buffer(&self) -> (r: &Vec<u8>)
        ensures
            r@ == self.spec_buffer(),
    {
        &self.buffer
    }

    /// How many bytes are sent.
    pub fn sent(&self) -> (r: usize)
        ensures
            r == self.spec_sent(),
            r <= self.spec_buffer().len(),
    {
        proof {
            use_type_invariant(self);
        }
        self.sent
    }

    /// Where the future stands.
    pub fn state(&self) -> (r: LinkState)
        ensures
            r == self.spec_state(),
    {
        self.state
    }

    /// The bytes still to send, from the first unsent one to the end.
    pub fn unsent(&self) -> (r: &[u8])
        ensures
            r@ == self.spec_buffer().subrange(self.spec_sent() as int, self.spec_buffer().len() as int),
    {
        proof {
            use_type_invariant(self);
        }
        slice_subrange(self.buffer.as_slice(), self.sent, self.buffer.len())
    }

    /// Takes in what a step observed and says what to do next.
    pub fn advance(&mut self, e: WriteEvent) -> (r: SendAction)
        requires
            send_admissible(
                old(self).spec_buffer().len(),
                old(self).spec_sent(),
                old(self).spec_state(),
                e,
            ),
        ensures
            final(self).spec_stream() == old(self).spec_stream(),
            final(self).spec_buffer() == old(self).spec_buffer(),
            (final(self).spec_sent(), final(self).spec_state(), r) == send_step(
                old(self).spec_buffer().len(),
                old(self).spec_sent(),
                old(self).spec_state(),
                e,
            ),
    {
        proof {
            use_type_invariant(&*self);
        }
        match e {
            WriteEvent::LockBusy => SendAction::Retry,
            WriteEvent::LockAcquired => {
                if self.sent == self.buffer.len() {
                    self.state = LinkState::Complete;
                    SendAction::Finish
                } else {
                    self.state = LinkState::InProgress;
                    SendAction::Write
                }
            },
            WriteEvent::Wrote(n) => {
                if n == 0 {
                    self.state = LinkState::Failed;
                    SendAction::Fail
                } else if n == self.buffer.len() - self.sent {
                    self.sent = self.sent + n;
                    self.state = LinkState::Complete;
                    SendAction::Finish
                } else {
                    self.sent = self.sent + n;
                    self.state = LinkState::InProgress;
                    SendAction::Write
                }
            },
            WriteEvent::WouldBlock => SendAction::Retry,
            WriteEvent::Error => {
                self.state = LinkState::Failed;
                SendAction::Fail
            },
        }
    }
}

} // verus!
