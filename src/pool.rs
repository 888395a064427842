use vstd::prelude::*;
use crossbeam_queue::SegQueue;
use dashmap::DashMap;
use crate::sample::Sample;

verus! {

#[verifier::external_type_specification]
#[verifier::external_body]
#[verifier::reject_recursive_types(T)]
pub struct ExSegQueue<T>(SegQueue<T>);

#[verifier::external_type_specification]
#[verifier::external_body]
#[verifier::reject_recursive_types(K)]
#[verifier::reject_recursive_types(V)]
#[verifier::reject_recursive_types(S)]
pub struct ExDashMap<K, V, S>(DashMap<K, V, S>);

/// Backing storage of one pooled buffer: one vector per channel.
pub type Storage = Vec<Vec<Sample>>;

/// Queues of released storage, keyed by channel count.
pub type Buckets = DashMap<usize, SegQueue<Storage>>;

/// The channels of a storage block as sequences.
pub open spec fn storage_view(s: Storage) -> Seq<Seq<Sample>> {
    Seq::new(s@.len(), |c: int| s@[c]@)
}

/// What a queue of storage blocks holds, front first.
pub uninterp spec fn queued(q: SegQueue<Storage>) -> Seq<Seq<Seq<Sample>>>;

/// What the bucket map holds: for each channel count, its queue's contents.
pub uninterp spec fn bucket_contents(m: Buckets) -> Map<usize, Seq<Seq<Seq<Sample>>>>;

/// Relies on SegQueue::new: a new queue is empty.
#[verifier::external_body]
pub(crate) fn queue_new() -> (r: SegQueue<Storage>)
    ensures
        queued(r) == Seq::<Seq<Seq<Sample>>>::empty(),
{
    SegQueue::new()
}

/// Relies on SegQueue::len: the number of queued elements.
#[verifier::external_body]
pub(crate) fn queue_len(q: &SegQueue<Storage>) -> (r: usize)
    ensures
        r == queued(*q).len(),
{
    q.len()
}

/// Relies on SegQueue::push_mut: the element joins the back of the queue.
#[verifier::external_body]
pub(crate) fn queue_push(q: &mut SegQueue<Storage>, s: Storage)
    ensures
        queued(*final(q)) == queued(*old(q)).push(storage_view(s)),
{
    q.push_mut(s)
}

/// Relies on SegQueue::pop_mut: the front element leaves the queue; `None` when empty.
#[verifier::external_body]
pub(crate) fn queue_pop(q: &mut SegQueue<Storage>) -> (r: Option<Storage>)
    ensures
        queued(*old(q)).len() == 0 ==> r is None && queued(*final(q)) == queued(*old(q)),
        queued(*old(q)).len() > 0 ==> r is Some && storage_view(r->0) == queued(*old(q))[0]
            && queued(*final(q)) == queued(*old(q)).drop_first(),
{
    q.pop_mut()
}

/// Relies on DashMap::new: a new map is empty.
#[verifier::external_body]
pub(crate) fn buckets_new() -> (r: Buckets)
    ensures
        bucket_contents(r) =~= Map::empty(),
{
    DashMap::new()
}

/// Relies on DashMap::remove: takes the entry of `k` out of the map, if there is one.
#[verifier::external_body]
pub(crate) fn buckets_remove(m: &mut Buckets, k: usize) -> (r: Option<(usize, SegQueue<Storage>)>)
    ensures
        r is Some <==> bucket_contents(*old(m)).contains_key(k),
        r matches Some((key, queue)) ==> key == k && queued(queue) == bucket_contents(*old(m))[k],
        bucket_contents(*final(m)) == bucket_contents(*old(m)).remove(k),
{
    m.remove(&k)
}

/// Relies on DashMap::insert: sets the entry of `k`, handing back the value it replaced.
#[verifier::external_body]
pub(crate) fn buckets_insert(m: &mut Buckets, k: usize, v: SegQueue<Storage>) -> (r: Option<SegQueue<Storage>>)
    ensures
        r is Some <==> bucket_contents(*old(m)).contains_key(k),
        r is Some ==> queued(r->0) == bucket_contents(*old(m))[k],
        bucket_contents(*final(m)) == bucket_contents(*old(m)).insert(k, queued(v)),
{
    m.insert(k, v)
}

/// A bucket's contents, empty where the map has no entry.
pub open spec fn bucket_or_empty(m: Map<usize, Seq<Seq<Seq<Sample>>>>, k: usize) -> Seq<Seq<Seq<Sample>>> {
    if m.contains_key(k) { m[k] } else { Seq::empty() }
}

/// `k` empty channels.
pub open spec fn empty_channels(k: nat) -> Seq<Seq<Sample>> {
    Seq::new(k, |c: int| Seq::<Sample>::empty())
}

/// The stock after a block with `k` channels is released under `limit`.
pub open spec fn released(stock: Map<usize, Seq<Seq<Seq<Sample>>>>, k: usize, limit: usize)
    -> Map<usize, Seq<Seq<Seq<Sample>>>> {
    stock.insert(k, if bucket_or_empty(stock, k).len() < limit {
        bucket_or_empty(stock, k).push(empty_channels(k as nat))
    } else {
        bucket_or_empty(stock, k)
    })
}

/// Releasing never grows a bucket past the limit, and a bucket at the limit
/// stays exactly as it was: the released block is dropped.
pub proof fn lemma_release_bounded(stock: Map<usize, Seq<Seq<Seq<Sample>>>>, k: usize, limit: usize)
    requires
        bucket_or_empty(stock, k).len() <= limit,
    ensures
        released(stock, k, limit)[k].len() <= limit,
        bucket_or_empty(stock, k).len() == limit ==> released(stock, k, limit)[k] == bucket_or_empty(stock, k),
{
}

/// Reusable sample storage, kept in one queue per channel count.
pub struct BufferPool {
    pool: Buckets,
    max_buffers: usize,
}

/// Sample storage checked out of a `BufferPool`.
pub struct PooledBuffer {
    data: Storage,
}

impl BufferPool {
    /// For each channel count, the storage blocks waiting for reuse, oldest first.
    pub closed spec fn stock(&self) -> Map<usize, Seq<Seq<Seq<Sample>>>> {
        bucket_contents(self.pool)
    }

    /// The most storage blocks kept for one channel count.
    pub closed spec fn limit(&self) -> usize {
        self.max_buffers
    }

    /// No bucket holds more than `limit()` blocks.
    pub open spec fn wf(&self) -> bool {
        forall|k: usize| #[trigger] self.stock().contains_key(k) ==> self.stock()[k].len() <= self.limit()
    }

    /// An empty pool keeping at most `max_buffers` blocks per channel count.
    pub fn new(max_buffers: usize) -> (r: BufferPool)
        ensures
            r.wf(),
            r.limit() == max_buffers,
            r.stock() == Map::<usize, Seq<Seq<Seq<Sample>>>>::empty(),
    {
        BufferPool { pool: buckets_new(), max_buffers }
    }

    /// The number of blocks waiting for reuse with `channels` channels.
    pub fn available(&mut self, channels: usize) -> (r: usize)
        ensures
            r == bucket_or_empty(old(self).stock(), channels).len(),
            final(self).stock() == old(self).stock(),
            final(self).limit() == old(self).limit(),
    {
        match buckets_remove(&mut self.pool, channels) {
            Some((_, q)) => {
                let n = queue_len(&q);
                buckets_insert(&mut self.pool, channels, q);
                assert(self.stock() =~= old(self).stock());
                n
            },
            None => {
                assert(self.stock() =~= old(self).stock());
                0
            },
        }
    }

    /// Storage with `channels` empty channels, each with room reserved for
    /// `capacity` samples: the oldest released block of that shape when
    /// there is one, else a new one.
    pub fn get(&mut self, channels: usize, capacity: usize) -> (r: PooledBuffer)
        requires
            old(self).wf(),
        ensures
            final(self).wf(),
            final(self).limit() == old(self).limit(),
            r@ == empty_channels(channels as nat),
            final(self).stock() == old(self).stock().insert(channels,
                if bucket_or_empty(old(self).stock(), channels).len() > 0 {
                    bucket_or_empty(old(self).stock(), channels).drop_first()
                } else {
                    Seq::empty()
                }),
    {
        let mut q = match buckets_remove(&mut self.pool, channels) {
            Some((_, q)) => q,
            None => queue_new(),
        };
        let ghost before = queued(q);
        assert(before == bucket_or_empty(old(self).stock(), channels));
        let reused = queue_pop(&mut q);
        proof {
            if before.len() == 0 {
                assert(queued(q) =~= Seq::empty());
            }
        }
        buckets_insert(&mut self.pool, channels, q);
        assert(self.stock() =~= old(self).stock().insert(channels, queued(q)));
        assert(self.wf()) by {
            assert(forall|k: usize| #[trigger] self.stock().contains_key(k) && k != channels
                ==> old(self).stock().contains_key(k) && self.stock()[k] == old(self).stock()[k]);
        }
        let mut data = match reused {
            Some(d) => d,
            None => Vec::new(),
        };
        if data.len() != channels {
            data = Vec::new();
            let mut c: usize = 0;
            while c < channels
                invariant
                    c <= channels,
                    data@.len() == c,
                decreases channels - c,
            {
                data.push(Vec::new());
                c += 1;
            }
        }
        let mut c: usize = 0;
        while c < channels
            invariant
                c <= channels,
                data@.len() == channels,
                forall|k: int| 0 <= k < c ==> (#[trigger] data@[k])@ == Seq::<Sample>::empty(),
            decreases channels - c,
        {
            data[c].clear();
            data[c].reserve(capacity);
            c += 1;
        }
        let r = PooledBuffer { data };
        assert(r@ =~= empty_channels(channels as nat));
        r
    }

    /// Takes storage back for reuse. It joins the queue for its channel count,
    /// emptied, unless that queue already holds `limit()` blocks, in which
    /// case it is dropped.
    pub fn release(&mut self, buffer: PooledBuffer)
        requires
            old(self).wf(),
        ensures
            final(self).wf(),
            final(self).limit() == old(self).limit(),
            final(self).stock() == released(old(self).stock(), buffer@.len() as usize, old(self).limit()),
    {
        let mut data = buffer.data;
        let channels = data.len();
        let mut q = match buckets_remove(&mut self.pool, channels) {
            Some((_, q)) => q,
            None => queue_new(),
        };
        if queue_len(&q) < self.max_buffers {
            let mut c: usize = 0;
            while c < channels
                invariant
                    c <= channels,
                    data@.len() == channels,
                    forall|k: int| 0 <= k < c ==> (#[trigger] data@[k])@ == Seq::<Sample>::empty(),
                decreases channels - c,
            {
                data[c].clear();
                c += 1;
            }
            assert(storage_view(data) =~= empty_channels(channels as nat));
            queue_push(&mut q, data);
        }
        buckets_insert(&mut self.pool, channels, q);
        assert(self.stock() =~= old(self).stock().insert(channels, queued(q)));
        assert(self.wf()) by {
            assert(forall|k: usize| #[trigger] self.stock().contains_key(k) && k != channels
                ==> old(self).stock().contains_key(k) && self.stock()[k] == old(self).stock()[k]);
        }
    }
}

impl View for PooledBuffer {
    type V = Seq<Seq<Sample>>;

    closed spec fn view(&self) -> Seq<Seq<Sample>> {
        storage_view(self.data)
    }
}

impl PooledBuffer {
    /// Checks storage out of `pool`; see `BufferPool::get`.
    pub fn new(pool: &mut BufferPool, channels: usize, capacity: usize) -> (r: PooledBuffer)
        requires
            old(pool).wf(),
        ensures
            final(pool).wf(),
            final(pool).limit() == old(pool).limit(),
            r@ == empty_channels(channels as nat),
            final(pool).stock() == old(pool).stock().insert(channels,
                if bucket_or_empty(old(pool).stock(), channels).len() > 0 {
                    bucket_or_empty(old(pool).stock(), channels).drop_first()
                } else {
                    Seq::empty()
                }),
    {
        pool.get(channels, capacity)
    }

    /// Samples per channel, measured on the first channel.
    pub fn len(&self) -> (r: usize)
        requires
            self@.len() >= 1,
        ensures
            r == self@[0].len(),
    {
        self.data[0].len()
    }

    /// The number of channels.
    pub fn channels(&self) -> (r: usize)
        ensures
            r == self@.len(),
    {
        self.data.len()
    }

    /// Channel `c`.
    pub fn channel(&self, c: usize) -> (r: &Vec<Sample>)
        requires
            c < self@.len(),
        ensures
            r@ == self@[c as int],
    {
        &self.data[c]
    }

    /// Appends `samples` to channel `c`.
    pub fn extend_channel(&mut self, c: usize, samples: &[Sample])
        requires
            c < old(self)@.len(),
        ensures
            final(self)@ == old(self)@.update(c as int, old(self)@[c as int] + samples@),
    {
        self.data[c].extend_from_slice(samples);
        assert(self.data@.len() == old(self).data@.len());
        assert(self.data@[c as int]@ == old(self).data@[c as int]@ + samples@);
        assert(old(self)@[c as int] == old(self).data@[c as int]@);
        assert(forall|k: int| 0 <= k < self.data@.len() && k != c ==> self.data@[k] == old(self).data@[k]);
        assert(self@ =~= old(self)@.update(c as int, old(self)@[c as int] + samples@));
    }

    /// Mutable access to channel `c`.
    pub fn channel_mut(&mut self, c: usize) -> (r: &mut Vec<Sample>)
        requires
            c < old(self)@.len(),
        ensures
            r@ == old(self)@[c as int],
            final(self)@ == old(self)@.update(c as int, final(r)@),
    {
        &mut self.data[c]
    }

    /// Sets sample `i` of channel `c`.
    pub fn set(&mut self, c: usize, i: usize, v: Sample)
        requires
            c < old(self)@.len(),
            i < old(self)@[c as int].len(),
        ensures
            final(self)@ == old(self)@.update(c as int, old(self)@[c as int].update(i as int, v)),
    {
        self.data[c].set(i, v);
        assert(self@ =~= old(self)@.update(c as int, old(self)@[c as int].update(i as int, v)));
    }

    /// How many samples channel `c` can hold before it must grow.
    pub fn capacity(&self, c: usize) -> (r: usize)
        requires
            c < self@.len(),
        ensures
            r >= self@[c as int].len(),
    {
        vec_capacity(&self.data[c])
    }
}

/// Relies on Vec::capacity: never less than the length.
#[verifier::external_body]
fn vec_capacity(v: &Vec<Sample>) -> (r: usize)
    ensures
        r >= v@.len(),
{
    v.capacity()
}

} // verus!
