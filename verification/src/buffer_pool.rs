//! A pool of reusable buffers, so that the copy loop allocates nothing.
//!
//! The pool keeps its free buffers in a bounded channel. Every buffer in it is
//! clean: as long as the pool's buffer size and full of zeros.

use vstd::prelude::*;

verus! {

/// A reusable buffer: up to `capacity` bytes, of which the first `len` count.
pub struct Buffer {
    data: Vec<u8>,
    capacity: usize,
}

impl View for Buffer {
    type V = Seq<u8>;

    closed spec fn view(&self) -> Seq<u8> {
        self.data@
    }
}

/// `n` zero bytes.
pub open spec fn zeros(n: nat) -> Seq<u8> {
    Seq::new(n, |i: int| 0u8)
}

impl Buffer {
    /// The most bytes that the buffer holds.
    pub closed spec fn size(self) -> nat {
        self.capacity as nat
    }

    /// An empty buffer for `capacity` bytes.
    pub fn with_capacity(capacity: usize) -> (buffer: Self)
        ensures
            buffer@ == Seq::<u8>::empty(),
            buffer.size() == capacity,
    {
        Buffer { data: Vec::with_capacity(capacity), capacity }
    }

    /// The bytes that count, for writing.
    pub fn as_mut_slice(&mut self) -> (slice: &mut [u8])
        ensures
            slice@ == old(self)@,
            final(self)@ == final(slice)@,
            final(self).size() == old(self).size(),
    {
        self.data.as_mut_slice()
    }

    /// Makes the first `len` bytes count; bytes that did not count before are 0.
    pub fn set_len(&mut self, len: usize)
        requires
            len <= old(self).size(),
        ensures
            final(self)@.len() == len,
            forall|i: int|
                0 <= i < len ==> #[trigger] final(self)@[i] == if i < old(self)@.len() {
                    old(self)@[i]
                } else {
                    0u8
                },
            final(self).size() == old(self).size(),
    {
        self.data.resize(len, 0);
    }

    /// How many bytes count.
    pub fn len(&self) -> (len: usize)
        ensures
            len == self@.len(),
    {
        self.data.len()
    }

    /// The most bytes that the buffer holds.
    pub fn capacity(&self) -> (capacity: usize)
        ensures
            capacity == self.size(),
    {
        self.capacity
    }

    pub fn is_empty(&self) -> (empty: bool)
        ensures
            empty == (self@.len() == 0),
    {
        self.data.len() == 0
    }

    /// The bytes that count.
    pub fn as_slice(&self) -> (slice: &[u8])
        ensures
            slice@ == self@,
    {
        self.data.as_slice()
    }

    /// Makes no byte count.
    pub fn clear(&mut self)
        ensures
            final(self)@ == Seq::<u8>::empty(),
            final(self).size() == old(self).size(),
    {
        self.data.clear();
    }

    /// The bytes that count, out of the buffer.
    pub fn into_vec(self) -> (data: Vec<u8>)
        ensures
            data@ == self@,
    {
        self.data
    }
}

/// The sending end of a channel of the `crossbeam` crate.
#[verifier::external_type_specification]
#[verifier::external_body]
#[verifier::reject_recursive_types(T)]
pub struct ExSender<T>(crossbeam::channel::Sender<T>);

/// The receiving end of a channel of the `crossbeam` crate.
#[verifier::external_type_specification]
#[verifier::external_body]
#[verifier::reject_recursive_types(T)]
pub struct ExReceiver<T>(crossbeam::channel::Receiver<T>);

/// What is queued between the two ends of one channel, the next to be received
/// first; `None` for ends of two channels.
pub uninterp spec fn queued(
    sender: crossbeam::channel::Sender<Vec<u8>>,
    receiver: crossbeam::channel::Receiver<Vec<u8>>,
) -> Option<Seq<Vec<u8>>>;

/// The bound that the channel of a receiving end was made with.
pub uninterp spec fn channel_bound(receiver: crossbeam::channel::Receiver<Vec<u8>>) -> nat;

/// Both ends of a bounded channel that carries byte vectors. Neither end has
/// contents of its own, so the two are held together; nothing else holds an
/// end, so nothing but the functions below changes what is queued.
struct BufferChannel {
    sender: crossbeam::channel::Sender<Vec<u8>>,
    receiver: crossbeam::channel::Receiver<Vec<u8>>,
}

impl BufferChannel {
    /// Whether the two ends belong to one channel.
    spec fn joined(self) -> bool {
        queued(self.sender, self.receiver) is Some
    }

    /// What is queued, the next to be received first.
    spec fn content(self) -> Seq<Vec<u8>> {
        queued(self.sender, self.receiver)->0
    }

    /// The most that can be queued.
    spec fn bound(self) -> nat {
        channel_bound(self.receiver)
    }
}

/// `crossbeam::channel::bounded`: an empty channel with the given bound. A
/// bound whose slots could not lie in memory would make it panic.
#[verifier::external_body]
fn channel_bounded(bound: usize) -> (channel: BufferChannel)
    requires
        bound * 64 <= isize::MAX,
    ensures
        queued(channel.sender, channel.receiver) == Some(Seq::<Vec<u8>>::empty()),
        channel_bound(channel.receiver) == bound,
{
    let (sender, receiver) = crossbeam::channel::bounded(bound);
    BufferChannel { sender, receiver }
}

/// `crossbeam::channel::Sender::try_send`: queues the message at the end if
/// fewer than the bound are queued, else drops it.
#[verifier::external_body]
fn channel_try_send(channel: &mut BufferChannel, data: Vec<u8>) -> (sent: bool)
    requires
        old(channel).joined(),
    ensures
        final(channel).joined(),
        final(channel).bound() == old(channel).bound(),
        sent == (old(channel).content().len() < old(channel).bound()),
        sent ==> final(channel).content() == old(channel).content().push(data),
        !sent ==> final(channel).content() == old(channel).content(),
{
    channel.sender.try_send(data).is_ok()
}

/// `crossbeam::channel::Receiver::try_recv`: takes the first queued message, if
/// there is one.
#[verifier::external_body]
fn channel_try_recv(channel: &mut BufferChannel) -> (data: Option<Vec<u8>>)
    requires
        old(channel).joined(),
    ensures
        final(channel).joined(),
        final(channel).bound() == old(channel).bound(),
        match data {
            Some(first) => old(channel).content().len() > 0 && first == old(channel).content()[0]
                && final(channel).content() == old(channel).content().drop_first(),
            None => old(channel).content().len() == 0 && final(channel).content() == old(
                channel,
            ).content(),
        },
{
    channel.receiver.try_recv().ok()
}

/// `crossbeam::channel::Receiver::len`: how many messages are queued.
#[verifier::external_body]
fn channel_len(channel: &BufferChannel) -> (len: usize)
    requires
        channel.joined(),
    ensures
        len == channel.content().len(),
{
    channel.receiver.len()
}

/// A pool of buffers of one size.
pub struct BufferPool {
    channel: BufferChannel,
    capacity: usize,
    buffer_size: usize,
}

impl BufferPool {
    /// How many buffers the pool can hold.
    pub closed spec fn pool_size(self) -> nat {
        self.capacity as nat
    }

    /// The size of each buffer.
    pub closed spec fn buffer_size(self) -> nat {
        self.buffer_size as nat
    }

    /// How many buffers are free.
    pub closed spec fn free(self) -> nat {
        self.channel.content().len()
    }

    /// Whether the pool is in order: no more buffers than it can hold, each of
    /// them clean.
    pub closed spec fn wf(self) -> bool {
        &&& self.channel.joined()
        &&& self.channel.bound() == self.capacity
        &&& self.channel.content().len() <= self.capacity
        &&& forall|i: int|
            0 <= i < self.channel.content().len() ==> #[trigger] self.channel.content()[i]@ == zeros(
                self.buffer_size as nat,
            )
    }

    /// A pool of `pool_size` buffers of `buffer_size` bytes each, all free.
    pub fn new(buffer_size: usize, pool_size: usize) -> (pool: Self)
        requires
            pool_size * 64 <= isize::MAX,
        ensures
            pool.wf(),
            pool.buffer_size() == buffer_size,
            pool.pool_size() == pool_size,
            pool.free() == pool_size,
    {
        let mut channel = channel_bounded(pool_size);
        let mut i: usize = 0;
        while i < pool_size
            invariant
                i <= pool_size,
                channel.joined(),
                channel.bound() == pool_size,
                channel.content().len() == i,
                forall|j: int|
                    0 <= j < i ==> #[trigger] channel.content()[j]@ == zeros(buffer_size as nat),
            decreases pool_size - i,
        {
            let data = clean(buffer_size);
            let _sent: bool = channel_try_send(&mut channel, data);
            i = i + 1;
        }
        BufferPool { channel, capacity: pool_size, buffer_size }
    }

    /// Takes a free buffer. It is as long as the pool's buffer size and full of
    /// zeros.
    pub fn acquire(&mut self) -> (buffer: Buffer)
        requires
            old(self).wf(),
            old(self).free() > 0,
        ensures
            final(self).wf(),
            final(self).free() == old(self).free() - 1,
            final(self).buffer_size() == old(self).buffer_size(),
            final(self).pool_size() == old(self).pool_size(),
            buffer@ == zeros(old(self).buffer_size()),
            buffer.size() == old(self).buffer_size(),
    {
        self.try_acquire().unwrap()
    }

    /// Takes a free buffer, if there is one.
    pub fn try_acquire(&mut self) -> (buffer: Option<Buffer>)
        requires
            old(self).wf(),
        ensures
            final(self).wf(),
            final(self).buffer_size() == old(self).buffer_size(),
            final(self).pool_size() == old(self).pool_size(),
            match buffer {
                Some(b) => {
                    &&& old(self).free() > 0
                    &&& final(self).free() == old(self).free() - 1
                    &&& b@ == zeros(old(self).buffer_size())
                    &&& b.size() == old(self).buffer_size()
                },
                None => old(self).free() == 0 && final(self).free() == 0,
            },
    {
        match channel_try_recv(&mut self.channel) {
            Some(data) => {
                Some(Buffer { data, capacity: self.buffer_size })
            },
            None => None,
        }
    }

    /// Returns a buffer, cleaned, to the pool; it is dropped where the pool is
    /// full.
    pub fn release(&mut self, buffer: Buffer)
        requires
            old(self).wf(),
        ensures
            final(self).wf(),
            final(self).buffer_size() == old(self).buffer_size(),
            final(self).pool_size() == old(self).pool_size(),
            final(self).free() == if old(self).free() < old(self).pool_size() {
                old(self).free() + 1
            } else {
                old(self).free()
            },
    {
        let mut data = buffer.into_vec();
        data.clear();
        data.resize(self.buffer_size, 0);
        assert(data@ =~= zeros(self.buffer_size as nat));
        let _sent: bool = channel_try_send(&mut self.channel, data);
    }

    /// How many buffers the pool can hold.
    pub fn capacity(&self) -> (capacity: usize)
        ensures
            capacity == self.pool_size(),
    {
        self.capacity
    }

    /// How many buffers are free.
    pub fn available(&self) -> (available: usize)
        requires
            self.wf(),
        ensures
            available == self.free(),
    {
        self.available_count()
    }

    /// How many buffers are free.
    pub fn available_count(&self) -> (available: usize)
        requires
            self.wf(),
        ensures
            available == self.free(),
    {
        channel_len(&self.channel)
    }
}

fn clean(size: usize) -> (data: Vec<u8>)
    ensures
        data@ == zeros(size as nat),
{
    let mut data: Vec<u8> = Vec::with_capacity(size);
    data.resize(size, 0);
    assert(data@ =~= zeros(size as nat));
    data
}

/// A fresh pool has all its buffers free.
pub proof fn law_fresh_pool_is_full(buffer_size: usize, pool_size: usize, pool: BufferPool)
    requires
        call_ensures(BufferPool::new, (buffer_size, pool_size), pool),
    ensures
        pool.free() == pool_size,
        pool.pool_size() == pool_size,
        pool.buffer_size() == buffer_size,
{
}

/// A buffer is had if and only if one is free. It has the size of the pool's buffers,
/// all of it counts, and no byte of an earlier use is left in it.
pub proof fn law_buffers_come_clean(pool: &mut BufferPool, buffer: Option<Buffer>)
    requires
        call_ensures(BufferPool::try_acquire, (pool,), buffer),
    ensures
        buffer is Some <==> old(pool).free() > 0,
        buffer is Some ==> {
            &&& final(pool).free() + 1 == old(pool).free()
            &&& buffer->0@.len() == old(pool).buffer_size()
            &&& buffer->0.size() == old(pool).buffer_size()
            &&& forall|i: int| 0 <= i < buffer->0@.len() ==> #[trigger] buffer->0@[i] == 0u8
        },
        buffer is None ==> final(pool).free() == 0,
        final(pool).pool_size() == old(pool).pool_size(),
        final(pool).buffer_size() == old(pool).buffer_size(),
{
}

/// A buffer that is waited for is as clean as one that is asked for.
pub proof fn law_acquired_buffer_is_clean(pool: &mut BufferPool, buffer: Buffer)
    requires
        call_ensures(BufferPool::acquire, (pool,), buffer),
    ensures
        final(pool).free() == old(pool).free() - 1,
        buffer@.len() == old(pool).buffer_size(),
        forall|i: int| 0 <= i < buffer@.len() ==> #[trigger] buffer@[i] == 0u8,
{
}

/// A buffer that comes back is free again, whatever it holds; a full pool takes in no
/// more.
pub proof fn law_released_buffer_is_free_again(
    pool: &mut BufferPool,
    buffer: Buffer,
    available: usize,
)
    requires
        call_ensures(BufferPool::release, (pool, buffer), ()),
        call_ensures(BufferPool::available, (final(pool),), available),
        old(pool).wf(),
    ensures
        old(pool).free() < old(pool).pool_size() ==> available == old(pool).free() + 1,
        old(pool).free() == old(pool).pool_size() ==> available == old(pool).free(),
        available <= old(pool).pool_size(),
        final(pool).pool_size() == old(pool).pool_size(),
        final(pool).buffer_size() == old(pool).buffer_size(),
{
}

/// A buffer that is cut keeps its front, and one that is made longer is filled with
/// zeros.
pub proof fn law_cut_buffer_keeps_its_front(buffer: &mut Buffer, len: usize)
    requires
        call_ensures(Buffer::set_len, (buffer, len), ()),
    ensures
        final(buffer)@.len() == len,
        len <= old(buffer)@.len() ==> final(buffer)@ == old(buffer)@.take(len as int),
        len > old(buffer)@.len() ==> final(buffer)@.take(old(buffer)@.len() as int) == old(
            buffer,
        )@ && (forall|i: int|
            old(buffer)@.len() <= i < len ==> #[trigger] final(buffer)@[i] == 0u8),
        final(buffer).size() == old(buffer).size(),
{
}

} // verus!
