//! The buffering logic of a network channel.
//!
//! A [`Channel`] buffers outgoing bytes until its write buffer is full or a
//! read needs the peer to have seen them, and buffers incoming bytes so that
//! small reads do not each cost a system call.
//!
//! The channel itself performs no I/O: each operation updates the buffers
//! and says what the caller must do with the underlying connection (write
//! these bytes and flush, read exactly so many bytes, or refill the read
//! buffer with whatever one read returns). Whatever the connection does,
//! no byte is lost, duplicated or reordered: the bytes sent to the
//! connection followed by the bytes still buffered are always the bytes the
//! user wrote, and the bytes handed to the user followed by the bytes still
//! buffered are always the bytes the connection delivered.
use vstd::prelude::*;
use crate::error::{ErrorKind, format_err};
use crate::serialization::CanonicalSerialize;

verus! {

/// The sizes of the read and write buffers of a [`Channel`].
pub struct BufferSizes {
    /// Size (in bytes) of the read buffer.
    pub read: usize,
    /// Size (in bytes) of the write buffer.
    pub write: usize,
}

/// The read buffer size that [`BufferSizes::default`] picks.
pub open spec fn default_read_size() -> usize {
    262144
}

/// The write buffer size that [`BufferSizes::default`] picks: a single TLS
/// record less its MAC and record type.
pub open spec fn default_write_size() -> usize {
    16367
}

impl Default for BufferSizes {
    fn default() -> (s: Self)
        ensures
            s.read == default_read_size(),
            s.write == default_write_size(),
    {
        BufferSizes { read: 1024 * 256, write: 16384 - (16 + 1) }
    }
}

/// What the caller must do with the connection after a write.
///
/// First, if `flush_first` holds bytes, write them all and flush the
/// connection. Then, if `write_direct` holds, write all of the bytes that
/// were passed to the write and flush the connection.
pub struct WritePlan {
    /// Bytes to write to the connection (and then flush) before anything
    /// else.
    pub flush_first: Option<Vec<u8>>,
    /// Whether the written bytes bypass the buffer and go to the connection
    /// directly (followed by a flush).
    pub write_direct: bool,
}

/// The bytes that a [`WritePlan`] sends to the connection, in order.
pub open spec fn plan_sent(plan: WritePlan, bytes: Seq<u8>) -> Seq<u8> {
    (match plan.flush_first {
        Some(v) => v@,
        None => Seq::empty(),
    }) + (if plan.write_direct {
        bytes
    } else {
        Seq::empty()
    })
}

/// What the caller must do with the connection during a read.
pub enum ReadAction {
    /// The read is complete.
    Done,
    /// Write these bytes to the connection, flush it, then call the read
    /// again.
    Flush(Vec<u8>),
    /// Read exactly this many bytes from the connection straight into the
    /// destination; the read is then complete.
    ReadExact(usize),
    /// Perform one read from the connection of at most
    /// [`Channel::read_capacity`] bytes, hand the bytes to
    /// [`Channel::fill_read_buffer`] (an empty read means the peer hit end of
    /// file), then call the read again.
    Fill,
}

/// What the caller must do with the connection during an
/// [`IoAdapter::read`].
pub enum AdapterRead {
    /// Write these bytes to the connection, flush it, then call the read
    /// again.
    Flush(Vec<u8>),
    /// Perform one read from the connection into the read buffer
    /// ([`Channel::fill_read_buffer`]); if it returns no byte the read returns
    /// zero bytes, otherwise call the read again.
    Fill,
    /// The read returns these bytes.
    Data(Vec<u8>),
}

/// The buffering state of a network channel.
pub struct Channel {
    read_buffer: Vec<u8>,
    read_buffer_pos: usize,
    read_buffer_len: usize,
    write_buffer: Vec<u8>,
    write_capacity: usize,
}

impl Channel {
    /// The buffers are consistent.
    pub closed spec fn wf(&self) -> bool {
        &&& self.read_buffer@.len() >= 1
        &&& self.read_buffer_pos + self.read_buffer_len <= self.read_buffer@.len()
        &&& self.write_capacity >= 1
        &&& self.write_buffer@.len() <= self.write_capacity
    }

    /// Bytes received from the peer and not yet handed to the user.
    pub closed spec fn pending_read(&self) -> Seq<u8> {
        self.read_buffer@.subrange(
            self.read_buffer_pos as int,
            self.read_buffer_pos + self.read_buffer_len,
        )
    }

    /// Bytes written by the user and not yet sent to the connection.
    pub closed spec fn pending_write(&self) -> Seq<u8> {
        self.write_buffer@
    }

    /// The size of the read buffer.
    pub closed spec fn spec_read_capacity(&self) -> nat {
        self.read_buffer@.len()
    }

    /// The size of the write buffer.
    pub closed spec fn spec_write_capacity(&self) -> nat {
        self.write_capacity as nat
    }

    /// In a consistent channel the buffers hold at most their capacities,
    /// and each capacity is at least one byte.
    pub proof fn lemma_buffer_bounds(&self)
        requires
            self.wf(),
        ensures
            self.pending_write().len() <= self.spec_write_capacity(),
            self.pending_read().len() <= self.spec_read_capacity(),
            self.spec_write_capacity() >= 1,
            self.spec_read_capacity() >= 1,
    {
    }

    /// A channel with empty buffers of the given sizes (a size of zero is
    /// taken as one).
    pub fn with_sizes(sizes: BufferSizes) -> (c: Self)
        ensures
            c.wf(),
            c.pending_read() == Seq::<u8>::empty(),
            c.pending_write() == Seq::<u8>::empty(),
            c.spec_read_capacity() == if sizes.read == 0 {
                1
            } else {
                sizes.read as nat
            },
            c.spec_write_capacity() == if sizes.write == 0 {
                1
            } else {
                sizes.write as nat
            },
    {
        let read = if sizes.read == 0 {
            1
        } else {
            sizes.read
        };
        let write = if sizes.write == 0 {
            1
        } else {
            sizes.write
        };
        let c = Channel {
            read_buffer: vec![0u8; read],
            read_buffer_pos: 0,
            read_buffer_len: 0,
            write_buffer: Vec::new(),
            write_capacity: write,
        };
        proof {
            assert(c.pending_read() =~= Seq::<u8>::empty());
        }
        c
    }

    /// A channel with the default buffer sizes.
    pub fn with_default_sizes() -> (c: Self)
        ensures
            c.wf(),
            c.pending_read() == Seq::<u8>::empty(),
            c.pending_write() == Seq::<u8>::empty(),
            c.spec_read_capacity() == default_read_size(),
            c.spec_write_capacity() == default_write_size(),
    {
        Self::with_sizes(BufferSizes::default())
    }

    /// The size of the read buffer.
    pub fn read_capacity(&self) -> (n: usize)
        requires
            self.wf(),
        ensures
            n == self.spec_read_capacity(),
            n >= 1,
    {
        self.read_buffer.len()
    }

    /// The number of received bytes not yet handed to the user.
    pub fn buffered_read_len(&self) -> (n: usize)
        requires
            self.wf(),
        ensures
            n == self.pending_read().len(),
    {
        self.read_buffer_len
    }

    /// Flush the channel: returns the buffered outgoing bytes (if any),
    /// which the caller must write to the connection and then flush it.
    pub fn force_flush(&mut self) -> (out: Option<Vec<u8>>)
        requires
            old(self).wf(),
        ensures
            final(self).wf(),
            old(self).pending_write().len() == 0 ==> out is None,
            old(self).pending_write().len() > 0 ==> (out matches Some(v) && v@ == old(self).pending_write()),
            final(self).pending_write() == Seq::<u8>::empty(),
            final(self).pending_read() == old(self).pending_read(),
            final(self).spec_read_capacity() == old(self).spec_read_capacity(),
            final(self).spec_write_capacity() == old(self).spec_write_capacity(),
    {
        if self.write_buffer.len() == 0 {
            None
        } else {
            let mut taken: Vec<u8> = Vec::new();
            core::mem::swap(&mut taken, &mut self.write_buffer);
            Some(taken)
        }
    }

    /// Write all of `bytes` to the peer.
    ///
    /// Bytes that fit in the write buffer are buffered. Otherwise the
    /// buffer is flushed first, and the bytes are then buffered, or, when
    /// they are larger than the whole buffer, written directly.
    pub fn write_bytes(&mut self, bytes: &[u8]) -> (plan: WritePlan)
        requires
            old(self).wf(),
        ensures
            final(self).wf(),
            plan_sent(plan, bytes@) + final(self).pending_write() == old(self).pending_write()
                + bytes@,
            old(self).pending_write().len() + bytes@.len() <= old(self).spec_write_capacity()
                ==> plan.flush_first is None && !plan.write_direct,
            old(self).pending_write().len() + bytes@.len() > old(self).spec_write_capacity()
                ==> (old(self).pending_write().len() > 0 <==> plan.flush_first is Some),
            plan.write_direct <==> (old(self).pending_write().len() + bytes@.len()
                > old(self).spec_write_capacity() && bytes@.len()
                > old(self).spec_write_capacity()),
            plan.write_direct ==> final(self).pending_write() == Seq::<u8>::empty(),
            final(self).pending_write().len() <= final(self).spec_write_capacity(),
            final(self).pending_read() == old(self).pending_read(),
            final(self).spec_read_capacity() == old(self).spec_read_capacity(),
            final(self).spec_write_capacity() == old(self).spec_write_capacity(),
    {
        let available = self.write_capacity - self.write_buffer.len();
        if available >= bytes.len() {
            self.write_buffer.extend_from_slice(bytes);
            WritePlan { flush_first: None, write_direct: false }
        } else {
            let flushed = self.force_flush();
            if bytes.len() > self.write_capacity {
                let plan = WritePlan { flush_first: flushed, write_direct: true };
                proof {
                    assert(plan_sent(plan, bytes@) + self.pending_write() =~= old(self).pending_write() + bytes@);
                }
                plan
            } else {
                self.write_buffer.extend_from_slice(bytes);
                let plan = WritePlan { flush_first: flushed, write_direct: false };
                proof {
                    assert(plan_sent(plan, bytes@) + self.pending_write() =~= old(self).pending_write() + bytes@);
                }
                plan
            }
        }
    }

    /// Replace the (empty) read buffer with bytes just read from the
    /// connection.
    pub fn fill_read_buffer(&mut self, data: &[u8])
        requires
            old(self).wf(),
            data@.len() <= old(self).spec_read_capacity(),
        ensures
            final(self).wf(),
            final(self).pending_read() == data@,
            final(self).pending_write() == old(self).pending_write(),
            final(self).spec_read_capacity() == old(self).spec_read_capacity(),
            final(self).spec_write_capacity() == old(self).spec_write_capacity(),
    {
        let n = data.len();
        let mut i: usize = 0;
        while i < n
            invariant
                n == data@.len(),
                i <= n,
                n <= self.read_buffer@.len(),
                self.read_buffer@.len() == old(self).read_buffer@.len(),
                self.write_buffer == old(self).write_buffer,
                self.write_capacity == old(self).write_capacity,
                old(self).wf(),
                forall|j: int| 0 <= j < i ==> self.read_buffer@[j] == data@[j],
            decreases n - i,
        {
            self.read_buffer.set(i, data[i]);
            i = i + 1;
        }
        self.read_buffer_pos = 0;
        self.read_buffer_len = n;
        proof {
            assert(self.pending_read() =~= data@);
        }
    }

    /// Move up to `max` buffered received bytes to the end of `dst`.
    fn take_buffered(&mut self, dst: &mut Vec<u8>, max: usize) -> (taken: usize)
        requires
            old(self).wf(),
        ensures
            final(self).wf(),
            taken == if old(self).pending_read().len() < max {
                old(self).pending_read().len()
            } else {
                max as nat
            },
            final(dst)@ == old(dst)@ + old(self).pending_read().take(taken as int),
            final(self).pending_read() == old(self).pending_read().skip(taken as int),
            final(self).pending_write() == old(self).pending_write(),
            final(self).spec_read_capacity() == old(self).spec_read_capacity(),
            final(self).spec_write_capacity() == old(self).spec_write_capacity(),
    {
        let to_take = if self.read_buffer_len < max {
            self.read_buffer_len
        } else {
            max
        };
        let start = self.read_buffer_pos;
        let cap = self.read_buffer.len();
        let mut i: usize = 0;
        while i < to_take
            invariant
                to_take <= self.read_buffer_len,
                start == self.read_buffer_pos,
                cap == self.read_buffer@.len(),
                self.wf(),
                i <= to_take,
                *self == *old(self),
                dst@ == old(dst)@ + old(self).pending_read().take(i as int),
            decreases to_take - i,
        {
            proof {
                assert(old(self).pending_read().take(i + 1) =~= old(self).pending_read().take(
                    i as int,
                ).push(self.read_buffer@[start + i]));
            }
            dst.push(self.read_buffer[start + i]);
            i = i + 1;
        }
        self.read_buffer_pos = start + to_take;
        self.read_buffer_len = self.read_buffer_len - to_take;
        proof {
            assert(self.pending_read() =~= old(self).pending_read().skip(to_take as int));
        }
        to_take
    }

    /// Continue reading `wanted` bytes from the peer into `got`.
    ///
    /// Outgoing bytes are flushed before any read. Buffered received bytes
    /// are then moved into `got`; if that is not enough, the caller must
    /// either read the rest directly from the connection (when more is
    /// missing than the read buffer holds) or refill the read buffer.
    pub fn read_bytes(&mut self, got: &mut Vec<u8>, wanted: usize) -> (action: ReadAction)
        requires
            old(self).wf(),
            old(got)@.len() <= wanted,
        ensures
            final(self).wf(),
            final(self).spec_read_capacity() == old(self).spec_read_capacity(),
            final(self).spec_write_capacity() == old(self).spec_write_capacity(),
            final(got)@ + final(self).pending_read() == old(got)@ + old(self).pending_read(),
            final(got)@.len() <= wanted,
            old(self).pending_write().len() > 0 ==> (action matches ReadAction::Flush(v) && v@
                == old(self).pending_write() && final(got)@ == old(got)@ && final(self).pending_read() == old(self).pending_read()),
            old(self).pending_write().len() == 0 ==> ({
                let need = wanted - old(got)@.len();
                let avail = old(self).pending_read();
                let take = if avail.len() < need {
                    avail.len() as int
                } else {
                    need
                };
                &&& final(got)@ == old(got)@ + avail.take(take)
                &&& final(self).pending_read() == avail.skip(take)
                &&& take == need ==> action is Done
                &&& take < need && need - take > old(self).spec_read_capacity() ==> action
                    == ReadAction::ReadExact((need - take) as usize)
                &&& take < need && need - take <= old(self).spec_read_capacity() ==> action
                    is Fill
            }),
            final(self).pending_write() == Seq::<u8>::empty(),
    {
        if self.write_buffer.len() > 0 {
            let flushed = self.force_flush();
            return ReadAction::Flush(flushed.unwrap());
        }
        let need = wanted - got.len();
        let taken = self.take_buffered(got, need);
        proof {
            let avail = old(self).pending_read();
            assert(avail.take(taken as int) + avail.skip(taken as int) =~= avail);
            assert(got@ + self.pending_read() =~= old(got)@ + avail);
        }
        if taken == need {
            ReadAction::Done
        } else if need - taken > self.read_buffer.len() {
            ReadAction::ReadExact(need - taken)
        } else {
            ReadAction::Fill
        }
    }

    /// Use this channel through [`IoAdapter`], the `Read`/`Write` view of a
    /// channel.
    pub fn as_std_io(self) -> (a: IoAdapter)
        ensures
            a.inner == self,
    {
        IoAdapter { inner: self }
    }
}

/// A channel seen as a `Read + Write` stream.
///
/// See [`Channel::as_std_io`].
pub struct IoAdapter {
    /// The channel being adapted.
    pub inner: Channel,
}

impl IoAdapter {
    /// Read at most `max` bytes.
    ///
    /// Outgoing bytes are flushed first; if nothing is buffered, the read
    /// buffer is refilled once; the buffered bytes, up to `max`, are then
    /// returned.
    pub fn read(&mut self, max: usize) -> (action: AdapterRead)
        requires
            old(self).inner.wf(),
        ensures
            final(self).inner.wf(),
            final(self).inner.spec_read_capacity() == old(self).inner.spec_read_capacity(),
            final(self).inner.spec_write_capacity() == old(self).inner.spec_write_capacity(),
            final(self).inner.pending_write() == Seq::<u8>::empty(),
            old(self).inner.pending_write().len() > 0 ==> (action matches AdapterRead::Flush(v)
                && v@ == old(self).inner.pending_write() && final(self).inner.pending_read() == old(self).inner.pending_read()),
            old(self).inner.pending_write().len() == 0 && old(self).inner.pending_read().len()
                == 0 ==> action is Fill && final(self).inner.pending_read() == old(self).inner.pending_read(),
            old(self).inner.pending_write().len() == 0 && old(self).inner.pending_read().len() > 0
                ==> ({
                let avail = old(self).inner.pending_read();
                let take = if avail.len() < max {
                    avail.len() as int
                } else {
                    max as int
                };
                &&& action matches AdapterRead::Data(v) && v@ == avail.take(take)
                &&& final(self).inner.pending_read() == avail.skip(take)
            }),
    {
        if let Some(flushed) = self.inner.force_flush() {
            return AdapterRead::Flush(flushed);
        }
        if self.inner.read_buffer_len == 0 {
            return AdapterRead::Fill;
        }
        let mut out: Vec<u8> = Vec::new();
        self.inner.take_buffered(&mut out, max);
        proof {
            assert(out@ =~= Seq::<u8>::empty() + out@);
        }
        AdapterRead::Data(out)
    }

    /// Write all of `buf` (as [`Channel::write_bytes`]).
    pub fn write(&mut self, buf: &[u8]) -> (plan: WritePlan)
        requires
            old(self).inner.wf(),
        ensures
            final(self).inner.wf(),
            plan_sent(plan, buf@) + final(self).inner.pending_write() == old(self).inner.pending_write() + buf@,
            final(self).inner.pending_read() == old(self).inner.pending_read(),
            final(self).inner.spec_read_capacity() == old(self).inner.spec_read_capacity(),
            final(self).inner.spec_write_capacity() == old(self).inner.spec_write_capacity(),
    {
        self.inner.write_bytes(buf)
    }

    /// Flush (as [`Channel::force_flush`]).
    pub fn flush(&mut self) -> (out: Option<Vec<u8>>)
        requires
            old(self).inner.wf(),
        ensures
            final(self).inner.wf(),
            old(self).inner.pending_write().len() == 0 ==> out is None,
            old(self).inner.pending_write().len() > 0 ==> (out matches Some(v) && v@ == old(self).inner.pending_write()),
            final(self).inner.pending_write() == Seq::<u8>::empty(),
            final(self).inner.pending_read() == old(self).inner.pending_read(),
    {
        self.inner.force_flush()
    }

    /// The adapted channel.
    pub fn into_channel(self) -> (c: Channel)
        ensures
            c == self.inner,
    {
        self.inner
    }
}

/// Decode a value of `T` from the bytes read for it (as many as its
/// representation has). Bytes that represent no value give a serialization
/// error.
pub fn decode_received<T: CanonicalSerialize>(bytes: &[u8]) -> (r: crate::error::Result<T>)
    requires
        bytes@.len() == T::byte_repr_len(),
    ensures
        r is Ok <==> T::spec_decodes(bytes@),
        r matches Ok(v) ==> v.spec_to_bytes() == bytes@,
        r matches Err(e) ==> e.spec_kind() == ErrorKind::SerializationError && e.spec_message()
            == "Failed to deserialize bytes read from a channel."@,
{
    match T::from_bytes(bytes) {
        Ok(v) => Ok(v),
        Err(_) => Err(
            format_err(ErrorKind::SerializationError, "Failed to deserialize bytes read from a channel."),
        ),
    }
}

/// What one end reads is what the other end wrote, in order: if the bytes
/// the writing channel sent followed by its buffered ones are the bytes its
/// user wrote, the connection delivered a prefix of what was sent, and the
/// bytes the reading channel handed to its user followed by its buffered
/// ones are what was delivered, then the reading user got a prefix of the
/// bytes the writing user wrote.
pub proof fn reads_follow_writes(
    written: Seq<u8>,
    sent: Seq<u8>,
    pending_write: Seq<u8>,
    delivered: Seq<u8>,
    got: Seq<u8>,
    pending_read: Seq<u8>,
)
    requires
        sent + pending_write == written,
        delivered.len() <= sent.len(),
        sent.take(delivered.len() as int) == delivered,
        got + pending_read == delivered,
    ensures
        got.len() <= written.len(),
        got == written.take(got.len() as int),
{
    assert(got.len() <= delivered.len());
    assert forall|i: int| 0 <= i < got.len() implies got[i] == written[i] by {
        assert(got[i] == (got + pending_read)[i]);
        assert(delivered[i] == sent.take(delivered.len() as int)[i]);
        assert(written[i] == (sent + pending_write)[i]);
    }
    assert(got =~= written.take(got.len() as int));
}

/// A run of writes keeps the channel's account: if the bytes sent so far
/// followed by the buffered ones are the bytes written so far, then after
/// one more write (whose plan sends `plan_sent` and leaves `pending_after`
/// buffered, as [`Channel::write_bytes`] ensures) the same holds with
/// `bytes` added to what was written.
pub proof fn write_run_step(
    written: Seq<u8>,
    sent: Seq<u8>,
    pending_before: Seq<u8>,
    bytes: Seq<u8>,
    plan_sent: Seq<u8>,
    pending_after: Seq<u8>,
)
    requires
        sent + pending_before == written,
        plan_sent + pending_after == pending_before + bytes,
    ensures
        (sent + plan_sent) + pending_after == written + bytes,
{
    assert((sent + plan_sent) + pending_after =~= sent + (plan_sent + pending_after));
    assert(written + bytes =~= sent + (pending_before + bytes));
}

/// The byte strings one after the other.
pub open spec fn concat(parts: Seq<Seq<u8>>) -> Seq<u8>
    decreases parts.len(),
{
    if parts.len() == 0 {
        Seq::empty()
    } else {
        concat(parts.drop_last()) + parts.last()
    }
}

/// Whether a run of buffer operations keeps its account step by step:
/// starting from an empty buffer (`pending[0]`), operation `k` takes in
/// `inputs[k]`, hands out `outputs[k]` and leaves `pending[k + 1]`, with
/// `outputs[k] + pending[k + 1] == pending[k] + inputs[k]`. On the write
/// side the inputs are the user's writes (empty for a flush or a read) and
/// the outputs what goes to the connection, as [`Channel::write_bytes`],
/// [`Channel::force_flush`] and [`Channel::read_bytes`] ensure; on the read
/// side the inputs are what the connection delivers and the outputs what
/// the user is handed.
pub open spec fn run_keeps_account(
    inputs: Seq<Seq<u8>>,
    outputs: Seq<Seq<u8>>,
    pending: Seq<Seq<u8>>,
) -> bool {
    &&& outputs.len() == inputs.len()
    &&& pending.len() == inputs.len() + 1
    &&& pending[0] == Seq::<u8>::empty()
    &&& forall|k: int|
        0 <= k < inputs.len() ==> #[trigger] outputs[k] + pending[k + 1] == pending[k]
            + inputs[k]
}

/// Over a whole run from a new channel, the bytes handed out so far
/// followed by the buffered ones are the bytes taken in so far, in order:
/// nothing is lost, duplicated or reordered.
pub proof fn run_preserves_order(
    inputs: Seq<Seq<u8>>,
    outputs: Seq<Seq<u8>>,
    pending: Seq<Seq<u8>>,
    k: int,
)
    requires
        run_keeps_account(inputs, outputs, pending),
        0 <= k <= inputs.len(),
    ensures
        concat(outputs.take(k)) + pending[k] == concat(inputs.take(k)),
    decreases k,
{
    if k == 0 {
        assert(concat(outputs.take(0)) =~= Seq::<u8>::empty());
        assert(concat(inputs.take(0)) =~= Seq::<u8>::empty());
        assert(concat(outputs.take(k)) + pending[k] =~= concat(inputs.take(k)));
    } else {
        run_preserves_order(inputs, outputs, pending, k - 1);
        let j = k - 1;
        assert(outputs[j] + pending[j + 1] == pending[j] + inputs[j]);
        assert(outputs.take(k).drop_last() =~= outputs.take(j));
        assert(inputs.take(k).drop_last() =~= inputs.take(j));
        assert(concat(outputs.take(k)) == concat(outputs.take(j)) + outputs[j]);
        assert(concat(inputs.take(k)) == concat(inputs.take(j)) + inputs[j]);
        assert(concat(outputs.take(k)) + pending[k] =~= concat(outputs.take(j)) + (outputs[j]
            + pending[j + 1]));
        assert(concat(inputs.take(k)) =~= (concat(outputs.take(j)) + pending[j]) + inputs[j]);
    }
}

/// Two connected channels deliver in order: when the writing channel's run
/// and the reading channel's run each keep their account, and the
/// connection delivers to the reader a prefix of what the writer sent, the
/// bytes the reading user has been handed are a prefix of the bytes the
/// writing user wrote.
pub proof fn connected_channels_deliver_in_order(
    writes: Seq<Seq<u8>>,
    sent: Seq<Seq<u8>>,
    write_pending: Seq<Seq<u8>>,
    kw: int,
    delivered: Seq<Seq<u8>>,
    handed: Seq<Seq<u8>>,
    read_pending: Seq<Seq<u8>>,
    kr: int,
)
    requires
        run_keeps_account(writes, sent, write_pending),
        run_keeps_account(delivered, handed, read_pending),
        0 <= kw <= writes.len(),
        0 <= kr <= delivered.len(),
        concat(delivered.take(kr)).len() <= concat(sent.take(kw)).len(),
        concat(sent.take(kw)).take(concat(delivered.take(kr)).len() as int) == concat(
            delivered.take(kr),
        ),
    ensures
        concat(handed.take(kr)).len() <= concat(writes.take(kw)).len(),
        concat(handed.take(kr)) == concat(writes.take(kw)).take(
            concat(handed.take(kr)).len() as int,
        ),
{
    run_preserves_order(writes, sent, write_pending, kw);
    run_preserves_order(delivered, handed, read_pending, kr);
    reads_follow_writes(
        concat(writes.take(kw)),
        concat(sent.take(kw)),
        write_pending[kw],
        concat(delivered.take(kr)),
        concat(handed.take(kr)),
        read_pending[kr],
    );
}

} // verus!
