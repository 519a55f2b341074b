//! The buffer state of one device minor: a fixed-length byte store plus the
//! two cursors that delimit the pending (written but not yet read) region.

use vstd::prelude::*;

verus! {

/// Mathematical model of a buffer: the full storage contents and the two
/// cursors. The pending region is `bytes[head .. tail)`.
pub struct BufModel {
    pub bytes: Seq<u8>,
    pub head: nat,
    pub tail: nat,
}

impl BufModel {
    /// Cursor sanity: `0 <= head <= tail <= capacity`.
    pub open spec fn wf(self) -> bool {
        self.head <= self.tail && self.tail <= self.bytes.len()
    }

    /// The pending region: written but not yet read.
    pub open spec fn unread(self) -> Seq<u8> {
        self.bytes.subrange(self.head as int, self.tail as int)
    }

    /// Free space between the write cursor and the end of storage.
    pub open spec fn room(self) -> nat {
        (self.bytes.len() - self.tail) as nat
    }
}

/// How many bytes a write of `len` input bytes actually copies: clamped to
/// the free room past `tail`; zero once the buffer is full.
pub open spec fn copy_len(m: BufModel, len: nat) -> nat {
    if len <= m.room() {
        len
    } else {
        m.room()
    }
}

/// The buffer after writing `data`: the first `copy_len` bytes of `data` are
/// placed at `tail`, the write cursor advances by the same amount, and the
/// read cursor and all other storage bytes are untouched.
pub open spec fn spec_write(m: BufModel, data: Seq<u8>) -> BufModel {
    let n = copy_len(m, data.len());
    BufModel {
        bytes: m.bytes.take(m.tail as int) + data.take(n as int) + m.bytes.skip(
            (m.tail + n) as int,
        ),
        head: m.head,
        tail: (m.tail + n) as nat,
    }
}

/// The buffer after a read. A read delivers `m.unread()` to the caller; the
/// cursors then either record the drain (`head` catches up to `tail`) or,
/// when nothing was pending, reset to the start of storage so the fixed
/// store can be reused.
pub open spec fn spec_read(m: BufModel) -> BufModel {
    if m.head < m.tail {
        BufModel { bytes: m.bytes, head: m.tail, tail: m.tail }
    } else {
        BufModel { bytes: m.bytes, head: 0, tail: 0 }
    }
}

/// A fixed-capacity byte buffer drained in FIFO order. Writes append at
/// `tail` and truncate silently at capacity; reads deliver `[head, tail)`.
pub struct Buffer {
    storage: Vec<u8>,
    tail: usize,
    head: usize,
}

impl View for Buffer {
    type V = BufModel;

    closed spec fn view(&self) -> BufModel {
        BufModel { bytes: self.storage@, head: self.head as nat, tail: self.tail as nat }
    }
}

impl Buffer {
    /// The buffer invariant: the cursors stay within storage.
    pub open spec fn wf(&self) -> bool {
        self@.wf()
    }

    /// A zero-filled buffer with both cursors at the start.
    pub fn new(capacity: usize) -> (b: Buffer)
        ensures
            b.wf(),
            b@.head == 0,
            b@.tail == 0,
            b@.bytes.len() == capacity,
            forall|j: int| 0 <= j < capacity ==> b@.bytes[j] == 0u8,
    {
        let mut storage: Vec<u8> = Vec::new();
        let mut i: usize = 0;
        while i < capacity
            invariant
                i <= capacity,
                storage@.len() == i,
                forall|j: int| 0 <= j < i ==> storage@[j] == 0u8,
            decreases capacity - i,
        {
            storage.push(0u8);
            i = i + 1;
        }
        Buffer { storage, tail: 0, head: 0 }
    }

    /// Total storage capacity.
    pub fn capacity(&self) -> (c: usize)
        ensures
            c == self@.bytes.len(),
    {
        self.storage.len()
    }

    /// The read cursor.
    pub fn head(&self) -> (h: usize)
        ensures
            h == self@.head,
    {
        self.head
    }

    /// The write cursor.
    pub fn tail(&self) -> (t: usize)
        ensures
            t == self@.tail,
    {
        self.tail
    }

    /// Number of pending bytes.
    pub fn available(&self) -> (n: usize)
        requires
            self.wf(),
        ensures
            n == self@.unread().len(),
    {
        self.tail - self.head
    }

    /// Appends `data` at the write cursor, truncating silently at capacity,
    /// and reports the full input length whether or not everything fit.
    pub fn write(&mut self, data: &[u8]) -> (r: usize)
        requires
            old(self).wf(),
        ensures
            final(self).wf(),
            r == data@.len(),
            final(self)@ == spec_write(old(self)@, data@),
            final(self)@.head == old(self)@.head,
            final(self)@.tail == old(self)@.tail + copy_len(old(self)@, data@.len()),
            final(self)@.bytes.len() == old(self)@.bytes.len(),
    {
        let mut len = data.len();
        if len >= self.storage.len() - self.tail {
            len = self.storage.len() - self.tail;
        }
        let mut i: usize = 0;
        while i < len
            invariant
                i <= len,
                old(self).wf(),
                self.head == old(self).head,
                self.tail == old(self).tail,
                self.storage@.len() == old(self)@.bytes.len(),
                len == copy_len(old(self)@, data@.len()),
                len <= data@.len(),
                old(self)@.tail + len <= self.storage@.len(),
                self.storage@.len() <= usize::MAX,
                forall|j: int|
                    0 <= j < i ==> self.storage@[old(self)@.tail + j] == data@[j],
                forall|j: int|
                    0 <= j < self.storage@.len() && !(old(self)@.tail <= j
                        < old(self)@.tail + i) ==> self.storage@[j] == old(self)@.bytes[j],
            decreases len - i,
        {
            let b = data[i];
            self.storage.set(self.tail + i, b);
            i = i + 1;
        }
        self.tail = self.tail + len;
        proof {
            let m = old(self)@;
            let d = data@;
            let n = copy_len(m, d.len());
            assert(self.storage@ =~= m.bytes.take(m.tail as int) + d.take(n as int)
                + m.bytes.skip((m.tail + n) as int));
        }
        data.len()
    }

    /// Copies the pending region out without touching the cursors, so that a
    /// failed delivery leaves the data re-readable.
    pub fn unread(&self) -> (out: Vec<u8>)
        requires
            self.wf(),
        ensures
            out@ == self@.unread(),
    {
        let mut out: Vec<u8> = Vec::new();
        let mut i: usize = self.head;
        while i < self.tail
            invariant
                self.wf(),
                self.head <= i,
                i <= self.tail,
                out@.len() == i - self.head,
                forall|j: int| 0 <= j < out@.len() ==> out@[j] == self@.bytes[self@.head + j],
            decreases self.tail - i,
        {
            let b = self.storage[i];
            out.push(b);
            i = i + 1;
        }
        proof {
            assert(out@ =~= self@.unread());
        }
        out
    }

    /// Records a completed read: when bytes were pending the read cursor
    /// catches up to the write cursor, otherwise both reset to the start of
    /// storage. Returns how many bytes the read delivered.
    pub fn commit_read(&mut self) -> (r: usize)
        requires
            old(self).wf(),
        ensures
            final(self).wf(),
            r == old(self)@.unread().len(),
            final(self)@ == spec_read(old(self)@),
            final(self)@.bytes == old(self)@.bytes,
    {
        let avail = self.tail - self.head;
        if avail > 0 {
            self.head = self.tail;
        } else {
            self.tail = 0;
            self.head = 0;
        }
        avail
    }

    /// Drains the buffer: delivers the pending region and commits the read.
    /// On an empty buffer it delivers nothing and resets both cursors.
    pub fn read(&mut self) -> (out: Vec<u8>)
        requires
            old(self).wf(),
        ensures
            final(self).wf(),
            out@ == old(self)@.unread(),
            final(self)@ == spec_read(old(self)@),
    {
        let out = self.unread();
        self.commit_read();
        out
    }
}

/// Sum of the lengths of a sequence of write payloads.
pub open spec fn total_len(ws: Seq<Seq<u8>>) -> nat
    decreases ws.len(),
{
    if ws.len() == 0 {
        0
    } else {
        ws[0].len() + total_len(ws.skip(1))
    }
}

/// Concatenation of a sequence of write payloads, in order.
pub open spec fn concat_all(ws: Seq<Seq<u8>>) -> Seq<u8>
    decreases ws.len(),
{
    if ws.len() == 0 {
        Seq::empty()
    } else {
        ws[0] + concat_all(ws.skip(1))
    }
}

/// The buffer after the writes in `ws`, issued in order with no read between.
pub open spec fn write_all(m: BufModel, ws: Seq<Seq<u8>>) -> BufModel
    decreases ws.len(),
{
    if ws.len() == 0 {
        m
    } else {
        write_all(spec_write(m, ws[0]), ws.skip(1))
    }
}

/// A write that fits entirely appends its payload to the pending region and
/// leaves everything else alone.
pub proof fn lemma_write_appends(m: BufModel, data: Seq<u8>)
    requires
        m.wf(),
        m.tail + data.len() <= m.bytes.len(),
    ensures
        spec_write(m, data).wf(),
        spec_write(m, data).bytes.len() == m.bytes.len(),
        spec_write(m, data).head == m.head,
        spec_write(m, data).tail == m.tail + data.len(),
        spec_write(m, data).unread() == m.unread() + data,
{
    let m1 = spec_write(m, data);
    assert(data.take(data.len() as int) =~= data);
    assert(m1.unread() =~= m.unread() + data);
}

/// A write of no bytes changes nothing at all.
pub proof fn lemma_write_empty(m: BufModel, data: Seq<u8>)
    requires
        m.wf(),
        data.len() == 0,
    ensures
        spec_write(m, data) == m,
{
    assert(spec_write(m, data).bytes =~= m.bytes);
}

/// A write to a full buffer copies nothing and moves no cursor; the write
/// cursor in particular stays at capacity. (The operation still reports the
/// full input length to its caller.)
pub proof fn lemma_write_full(m: BufModel, data: Seq<u8>)
    requires
        m.wf(),
        m.tail == m.bytes.len(),
    ensures
        spec_write(m, data) == m,
{
    assert(spec_write(m, data).bytes =~= m.bytes);
}

/// A read of an empty buffer delivers nothing and resets both cursors to the
/// start of storage.
pub proof fn lemma_read_empty(m: BufModel)
    requires
        m.wf(),
        m.head == m.tail,
    ensures
        m.unread().len() == 0,
        spec_read(m).head == 0,
        spec_read(m).tail == 0,
        spec_read(m).bytes == m.bytes,
{
}

/// After a read drains the buffer, the next read delivers nothing and leaves
/// the cursors reset at the start of storage.
pub proof fn lemma_read_after_drain(m: BufModel)
    requires
        m.wf(),
        m.head < m.tail,
    ensures
        spec_read(m).unread().len() == 0,
        spec_read(spec_read(m)).head == 0,
        spec_read(spec_read(m)).tail == 0,
        spec_read(spec_read(m)).unread().len() == 0,
{
}

/// Writes with no read between them extend the pending region by their
/// concatenation, as long as everything fits past the write cursor.
pub proof fn lemma_write_all_appends(m: BufModel, ws: Seq<Seq<u8>>)
    requires
        m.wf(),
        m.tail + total_len(ws) <= m.bytes.len(),
    ensures
        write_all(m, ws).wf(),
        write_all(m, ws).bytes.len() == m.bytes.len(),
        write_all(m, ws).head == m.head,
        write_all(m, ws).tail == m.tail + total_len(ws),
        write_all(m, ws).unread() == m.unread() + concat_all(ws),
    decreases ws.len(),
{
    if ws.len() == 0 {
        assert(m.unread() + concat_all(ws) =~= m.unread());
    } else {
        lemma_write_appends(m, ws[0]);
        let m1 = spec_write(m, ws[0]);
        lemma_write_all_appends(m1, ws.skip(1));
        assert((m.unread() + ws[0]) + concat_all(ws.skip(1)) =~= m.unread() + (ws[0]
            + concat_all(ws.skip(1))));
    }
}

/// For any writes of total length within capacity, issued on a fresh or
/// freshly reset buffer with no read between them, a subsequent read delivers
/// exactly the concatenation of the written bytes, in order, and its length
/// is the sum of the write lengths.
pub proof fn lemma_writes_then_read(m: BufModel, ws: Seq<Seq<u8>>)
    requires
        m.wf(),
        m.head == 0,
        m.tail == 0,
        total_len(ws) <= m.bytes.len(),
    ensures
        write_all(m, ws).unread() == concat_all(ws),
        write_all(m, ws).unread().len() == total_len(ws),
{
    lemma_write_all_appends(m, ws);
    assert(m.unread() + concat_all(ws) =~= concat_all(ws));
}

} // verus!
