//! The notification handle handed to every step. It schedules nothing: the
//! executor steps every pending task on each sweep whatever is signalled, so
//! the handle only has to honour the token rules. A duplicate owns a fresh
//! token; a consuming signal and a release each give their token up once;
//! a signal by reference gives up nothing. Ownership makes a second release
//! of one token impossible.
use vstd::prelude::*;

verus! {

/// The value that every token holds.
pub const TOKEN_MARKER: u32 = 42;

/// A notification token: a marker on the heap, owned by exactly one handle.
pub struct RawWaker {
    data: Box<u32>,
}

impl RawWaker {
    /// The marker the token holds.
    pub closed spec fn marker(&self) -> u32 {
        *self.data
    }
}

/// A fresh token, owned by the caller.
pub fn create_raw_waker() -> (r: RawWaker)
    ensures
        r.marker() == TOKEN_MARKER,
{
    RawWaker { data: Box::new(TOKEN_MARKER) }
}

/// A notification handle that owns one token.
pub struct Waker {
    raw: RawWaker,
}

impl Waker {
    /// The marker of the token this handle owns.
    pub closed spec fn marker(&self) -> u32 {
        self.raw.marker()
    }

    /// A handle that takes over `raw`.
    pub fn from_raw(raw: RawWaker) -> (r: Waker)
        ensures
            r.marker() == raw.marker(),
    {
        Waker { raw }
    }

    /// Consuming signal: asks for another step and gives the token up.
    pub fn wake(self) {
        self.release();
    }

    /// Signal by reference: asks for another step and keeps the token.
    pub fn wake_by_ref(&self) {
    }

    /// Gives the token up without signalling.
    pub fn release(self) {
        let Waker { raw } = self;
        let RawWaker { data } = raw;
        let _ = data;
    }
}

impl Clone for Waker {
    /// Duplicate: a handle with a token of its own, newly allocated, that
    /// holds the same marker.
    fn clone(&self) -> (r: Self)
        ensures
            r.marker() == self.marker(),
    {
        let marker: u32 = *self.raw.data;
        Waker { raw: RawWaker { data: Box::new(marker) } }
    }
}

} // verus!
