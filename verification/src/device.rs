//! The shared side of one device minor: the buffer behind a lock, and the
//! per-open session handles that all point at the same buffer. The lock is
//! held for the whole of each operation, so reads and writes from different
//! sessions never interleave below whole-operation granularity and the
//! buffer invariant holds whenever no operation is in flight.

use vstd::prelude::*;
use vstd::rwlock::RwLock;
use vstd::rwlock::RwLockPredicate;
use crate::buffer::Buffer;

verus! {

/// Lock invariant of a minor's buffer: well-formed, with the capacity the
/// minor was created with.
pub struct CapacityPred {
    pub cap: nat,
}

impl RwLockPredicate<Buffer> for CapacityPred {
    open spec fn inv(self, b: Buffer) -> bool {
        b.wf() && b@.bytes.len() == self.cap
    }
}

/// One device minor: a buffer shared by every session opened on it. The
/// state lives for as long as the minor does; closing a session never
/// touches it.
pub struct Device {
    cap: usize,
    lock: RwLock<Buffer, CapacityPred>,
}

impl Device {
    /// The fixed capacity of this minor's buffer.
    pub closed spec fn capacity_spec(&self) -> nat {
        self.cap as nat
    }

    /// The lock guards exactly this minor's buffer invariant.
    pub closed spec fn wf(&self) -> bool {
        self.lock.pred() == (CapacityPred { cap: self.cap as nat })
    }

    /// A minor with a zero-filled buffer and both cursors at the start.
    pub fn new(capacity: usize) -> (d: Device)
        ensures
            d.wf(),
            d.capacity_spec() == capacity,
    {
        let buf = Buffer::new(capacity);
        let lock = RwLock::new(buf, Ghost(CapacityPred { cap: capacity as nat }));
        Device { cap: capacity, lock }
    }

    /// Total storage capacity of this minor.
    pub fn capacity(&self) -> (c: usize)
        ensures
            c == self.capacity_spec(),
    {
        self.cap
    }

    /// Appends `data` to the shared buffer under the lock, truncating
    /// silently at capacity, and reports the full input length whatever was
    /// pending when the lock was acquired.
    pub fn write(&self, data: &[u8]) -> (r: usize)
        requires
            self.wf(),
        ensures
            r == data@.len(),
    {
        let (mut buf, handle) = self.lock.acquire_write();
        let n = buf.write(data);
        handle.release_write(buf);
        n
    }

    /// Drains the shared buffer under the lock: delivers whatever was
    /// pending when the lock was acquired (never more than the capacity) and
    /// commits the read before releasing.
    pub fn read(&self) -> (out: Vec<u8>)
        requires
            self.wf(),
        ensures
            out@.len() <= self.capacity_spec(),
    {
        let (mut buf, handle) = self.lock.acquire_write();
        let out = buf.read();
        handle.release_write(buf);
        out
    }

    /// Number of bytes pending in the shared buffer at the moment the lock
    /// was held; never more than the capacity.
    pub fn available(&self) -> (n: usize)
        requires
            self.wf(),
        ensures
            n <= self.capacity_spec(),
    {
        let read_handle = self.lock.acquire_read();
        let buf = read_handle.borrow();
        let n = buf.available();
        read_handle.release_read();
        n
    }
}

/// One open session on a minor. Every session opened on the same minor
/// shares that minor's buffer; dropping a session leaves the buffer as it
/// is, so data persists across opens and closes.
pub struct Handle<'a> {
    dev: &'a Device,
}

impl<'a> Handle<'a> {
    /// The minor this session is bound to.
    pub closed spec fn device(&self) -> Device {
        *self.dev
    }

    /// Opens a session on a minor: binds the handle to that minor's shared
    /// buffer. No per-session state is isolated.
    pub fn open(dev: &'a Device) -> (h: Handle<'a>)
        requires
            dev.wf(),
        ensures
            h.device() == *dev,
            h.device().wf(),
    {
        Handle { dev }
    }

    /// Writes through this session; see [`Device::write`].
    pub fn write(&self, data: &[u8]) -> (r: usize)
        requires
            self.device().wf(),
        ensures
            r == data@.len(),
    {
        self.dev.write(data)
    }

    /// Reads through this session; see [`Device::read`].
    pub fn read(&self) -> (out: Vec<u8>)
        requires
            self.device().wf(),
        ensures
            out@.len() <= self.device().capacity_spec(),
    {
        self.dev.read()
    }
}

} // verus!
