use vstd::prelude::*;

use crate::types::{
    MorseSequenceSerialization, SampledLightIntensity, TimedLightEvent, Morse, KEY_CAP,
    QUEUE_RING, SAMPLE_BUF_CAP, TLE_BATCH_CAP,
};

verus! {

// The pipeline keeps its staging buffers in `heapless` fixed-capacity
// containers, so that decoding runs in constant memory. The containers are
// opaque to the verifier: each one gets a model function naming its contents,
// and a small trusted wrapper per method the pipeline calls, whose contract
// states what the `heapless` source shows.

#[verifier::external_type_specification]
#[verifier::external_body]
#[verifier::reject_recursive_types(T)]
pub struct ExHeaplessVec<T, const N: usize>(heapless::Vec<T, N>);

#[verifier::external_type_specification]
#[verifier::external_body]
#[verifier::reject_recursive_types(T)]
pub struct ExSpscQueue<T, const N: usize>(heapless::spsc::Queue<T, N>);

#[verifier::external_type_specification]
#[verifier::external_body]
#[verifier::reject_recursive_types(K)]
#[verifier::reject_recursive_types(V)]
#[verifier::reject_recursive_types(S)]
pub struct ExIndexMap<K, V, S, const N: usize>(heapless::IndexMap<K, V, S, N>);

#[verifier::external_type_specification]
#[verifier::external_body]
#[verifier::reject_recursive_types(H)]
pub struct ExBuildHasherDefault<H>(hash32::BuildHasherDefault<H>);

#[verifier::external_type_specification]
#[verifier::external_body]
pub struct ExFnvHasher(hash32::FnvHasher);

/// Pre-calibration sample buffer of the manager.
pub type SampleBuf = heapless::Vec<SampledLightIntensity, SAMPLE_BUF_CAP>;

/// One batch of spans coming out of the edge detector.
pub type TleBatch = heapless::Vec<TimedLightEvent, TLE_BATCH_CAP>;

/// Staging queue of raw samples; holds `QUEUE_RING - 1` elements.
pub type SampleQueue = heapless::spsc::Queue<SampledLightIntensity, QUEUE_RING>;

/// Staging queue of detected spans; holds `QUEUE_RING - 1` elements.
pub type TleQueue = heapless::spsc::Queue<TimedLightEvent, QUEUE_RING>;

/// Staging queue of classified symbols; holds `QUEUE_RING - 1` elements.
pub type MorseQueue = heapless::spsc::Queue<Morse, QUEUE_RING>;

/// The symbol table mapping `(length, bits)` to a letter.
pub type MorseKey = heapless::FnvIndexMap<MorseSequenceSerialization, char, KEY_CAP>;

/// The samples held by a `SampleBuf`, oldest first.
pub uninterp spec fn sample_buf_model(v: SampleBuf) -> Seq<SampledLightIntensity>;

/// The spans held by a `TleBatch`, oldest first.
pub uninterp spec fn tle_batch_model(v: TleBatch) -> Seq<TimedLightEvent>;

/// The samples held by a `SampleQueue`, front (next out) first.
pub uninterp spec fn sample_queue_model(q: SampleQueue) -> Seq<SampledLightIntensity>;

/// The spans held by a `TleQueue`, front (next out) first.
pub uninterp spec fn tle_queue_model(q: TleQueue) -> Seq<TimedLightEvent>;

/// The symbols held by a `MorseQueue`, front (next out) first.
pub uninterp spec fn morse_queue_model(q: MorseQueue) -> Seq<Morse>;

/// The entries held by a `MorseKey`.
pub uninterp spec fn key_model(k: MorseKey) -> Map<MorseSequenceSerialization, char>;

/// The empty symbol table.
pub open spec fn empty_table() -> Map<MorseSequenceSerialization, char> {
    Map::empty()
}

/// Relies on `heapless::Vec::new`: an empty vector.
#[verifier::external_body]
pub(crate) fn sbuf_new() -> (v: SampleBuf)
    ensures
        sample_buf_model(v) == Seq::<SampledLightIntensity>::empty(),
{
    heapless::Vec::new()
}

/// Relies on `heapless::Vec::push`: appends, or hands the item back when the
/// vector already holds `N` elements.
#[verifier::external_body]
pub(crate) fn sbuf_push(v: &mut SampleBuf, s: SampledLightIntensity) -> (r: bool)
    ensures
        r <==> sample_buf_model(*old(v)).len() < SAMPLE_BUF_CAP,
        r ==> sample_buf_model(*final(v)) == sample_buf_model(*old(v)).push(s),
        !r ==> sample_buf_model(*final(v)) == sample_buf_model(*old(v))
            && sample_buf_model(*old(v)).len() >= SAMPLE_BUF_CAP,
{
    v.push(s).is_ok()
}

/// Relies on `heapless::Vec::as_slice`: the stored elements in order.
#[verifier::external_body]
pub(crate) fn sbuf_as_slice(v: &SampleBuf) -> (r: &[SampledLightIntensity])
    ensures
        r@ == sample_buf_model(*v),
{
    v.as_slice()
}

/// Relies on `heapless::Vec::new`: an empty vector.
#[verifier::external_body]
pub(crate) fn tbatch_new() -> (v: TleBatch)
    ensures
        tle_batch_model(v) == Seq::<TimedLightEvent>::empty(),
{
    heapless::Vec::new()
}

/// Relies on `heapless::Vec::push`: appends, or hands the item back when the
/// vector already holds `N` elements.
#[verifier::external_body]
pub(crate) fn tbatch_push(v: &mut TleBatch, t: TimedLightEvent) -> (r: bool)
    ensures
        r <==> tle_batch_model(*old(v)).len() < TLE_BATCH_CAP,
        r ==> tle_batch_model(*final(v)) == tle_batch_model(*old(v)).push(t),
        !r ==> tle_batch_model(*final(v)) == tle_batch_model(*old(v))
            && tle_batch_model(*old(v)).len() >= TLE_BATCH_CAP,
{
    v.push(t).is_ok()
}

/// Relies on `heapless::Vec::as_slice`: the stored elements in order.
#[verifier::external_body]
pub(crate) fn tbatch_as_slice(v: &TleBatch) -> (r: &[TimedLightEvent])
    ensures
        r@ == tle_batch_model(*v),
{
    v.as_slice()
}

/// Relies on `heapless::spsc::Queue::new`: an empty queue.
#[verifier::external_body]
pub(crate) fn sq_new() -> (q: SampleQueue)
    ensures
        sample_queue_model(q) == Seq::<SampledLightIntensity>::empty(),
{
    heapless::spsc::Queue::new()
}

/// Relies on `heapless::spsc::Queue::enqueue`: appends at the tail, or hands
/// the item back when `N - 1` elements are already stored.
#[verifier::external_body]
pub(crate) fn sq_enqueue(q: &mut SampleQueue, s: SampledLightIntensity) -> (r: bool)
    ensures
        r <==> sample_queue_model(*old(q)).len() < QUEUE_RING - 1,
        r ==> sample_queue_model(*final(q)) == sample_queue_model(*old(q)).push(s),
        !r ==> sample_queue_model(*final(q)) == sample_queue_model(*old(q))
            && sample_queue_model(*old(q)).len() >= QUEUE_RING - 1,
{
    q.enqueue(s).is_ok()
}

/// Relies on `heapless::spsc::Queue::dequeue`: removes and returns the front
/// element, or `None` on an empty queue.
#[verifier::external_body]
pub(crate) fn sq_dequeue(q: &mut SampleQueue) -> (r: Option<SampledLightIntensity>)
    ensures
        match r {
            Some(s) => sample_queue_model(*old(q)).len() > 0
                && s == sample_queue_model(*old(q))[0]
                && sample_queue_model(*final(q)) == sample_queue_model(*old(q)).drop_first(),
            None => sample_queue_model(*old(q)).len() == 0
                && sample_queue_model(*final(q)) == sample_queue_model(*old(q)),
        },
{
    q.dequeue()
}

/// Relies on `heapless::spsc::Queue::new`: an empty queue.
#[verifier::external_body]
pub(crate) fn tq_new() -> (q: TleQueue)
    ensures
        tle_queue_model(q) == Seq::<TimedLightEvent>::empty(),
{
    heapless::spsc::Queue::new()
}

/// Relies on `heapless::spsc::Queue::enqueue`: appends at the tail, or hands
/// the item back when `N - 1` elements are already stored.
#[verifier::external_body]
pub(crate) fn tq_enqueue(q: &mut TleQueue, t: TimedLightEvent) -> (r: bool)
    ensures
        r <==> tle_queue_model(*old(q)).len() < QUEUE_RING - 1,
        r ==> tle_queue_model(*final(q)) == tle_queue_model(*old(q)).push(t),
        !r ==> tle_queue_model(*final(q)) == tle_queue_model(*old(q))
            && tle_queue_model(*old(q)).len() >= QUEUE_RING - 1,
{
    q.enqueue(t).is_ok()
}

/// Relies on `heapless::spsc::Queue::dequeue`: removes and returns the front
/// element, or `None` on an empty queue.
#[verifier::external_body]
pub(crate) fn tq_dequeue(q: &mut TleQueue) -> (r: Option<TimedLightEvent>)
    ensures
        match r {
            Some(t) => tle_queue_model(*old(q)).len() > 0
                && t == tle_queue_model(*old(q))[0]
                && tle_queue_model(*final(q)) == tle_queue_model(*old(q)).drop_first(),
            None => tle_queue_model(*old(q)).len() == 0
                && tle_queue_model(*final(q)) == tle_queue_model(*old(q)),
        },
{
    q.dequeue()
}

/// Relies on `heapless::spsc::Queue::len`: the number of stored elements.
#[verifier::external_body]
pub(crate) fn tq_len(q: &TleQueue) -> (r: usize)
    ensures
        r == tle_queue_model(*q).len(),
{
    q.len()
}

/// Relies on `heapless::spsc::Queue::iter`: walks the queue front to tail.
#[verifier::external_body]
pub(crate) fn tq_snapshot(q: &TleQueue) -> (r: Vec<TimedLightEvent>)
    ensures
        r@ == tle_queue_model(*q),
{
    q.iter().copied().collect()
}

/// Relies on `heapless::spsc::Queue::new`: an empty queue.
#[verifier::external_body]
pub(crate) fn mq_new() -> (q: MorseQueue)
    ensures
        morse_queue_model(q) == Seq::<Morse>::empty(),
{
    heapless::spsc::Queue::new()
}

/// Relies on `heapless::spsc::Queue::enqueue`: appends at the tail, or hands
/// the item back when `N - 1` elements are already stored.
#[verifier::external_body]
pub(crate) fn mq_enqueue(q: &mut MorseQueue, m: Morse) -> (r: bool)
    ensures
        r <==> morse_queue_model(*old(q)).len() < QUEUE_RING - 1,
        r ==> morse_queue_model(*final(q)) == morse_queue_model(*old(q)).push(m),
        !r ==> morse_queue_model(*final(q)) == morse_queue_model(*old(q))
            && morse_queue_model(*old(q)).len() >= QUEUE_RING - 1,
{
    q.enqueue(m).is_ok()
}

/// Relies on `heapless::spsc::Queue::dequeue`: removes and returns the front
/// element, or `None` on an empty queue.
#[verifier::external_body]
pub(crate) fn mq_dequeue(q: &mut MorseQueue) -> (r: Option<Morse>)
    ensures
        match r {
            Some(m) => morse_queue_model(*old(q)).len() > 0
                && m == morse_queue_model(*old(q))[0]
                && morse_queue_model(*final(q)) == morse_queue_model(*old(q)).drop_first(),
            None => morse_queue_model(*old(q)).len() == 0
                && morse_queue_model(*final(q)) == morse_queue_model(*old(q)),
        },
{
    q.dequeue()
}

/// Relies on `heapless::spsc::Queue::peek`: the front element, not removed.
#[verifier::external_body]
pub(crate) fn mq_peek(q: &MorseQueue) -> (r: Option<Morse>)
    ensures
        match r {
            Some(m) => morse_queue_model(*q).len() > 0 && m == morse_queue_model(*q)[0],
            None => morse_queue_model(*q).len() == 0,
        },
{
    q.peek().copied()
}

/// Relies on `heapless::spsc::Queue::len`: the number of stored elements.
#[verifier::external_body]
pub(crate) fn mq_len(q: &MorseQueue) -> (r: usize)
    ensures
        r == morse_queue_model(*q).len(),
{
    q.len()
}

/// Relies on `heapless::spsc::Queue::iter`: walks the queue front to tail.
#[verifier::external_body]
pub(crate) fn mq_snapshot(q: &MorseQueue) -> (r: Vec<Morse>)
    ensures
        r@ == morse_queue_model(*q),
{
    q.iter().copied().collect()
}

/// Relies on `Clone for heapless::spsc::Queue`: clones element by element in
/// queue order.
#[verifier::external_body]
pub(crate) fn mq_clone(q: &MorseQueue) -> (r: MorseQueue)
    ensures
        morse_queue_model(r) == morse_queue_model(*q),
{
    q.clone()
}

/// Relies on `heapless::IndexMap::new`: an empty map.
#[verifier::external_body]
pub(crate) fn key_new() -> (k: MorseKey)
    ensures
        key_model(k) == empty_table(),
{
    heapless::FnvIndexMap::new()
}

/// Relies on `heapless::IndexMap::insert`: replaces the value of a present
/// key; inserts an absent key while fewer than `N` entries are stored; hands
/// the pair back from a full map.
#[verifier::external_body]
pub(crate) fn key_insert(k: &mut MorseKey, key: MorseSequenceSerialization, val: char) -> (r: bool)
    ensures
        r <==> key_model(*old(k)).dom().contains(key) || key_model(*old(k)).dom().len()
            < KEY_CAP,
        r ==> key_model(*final(k)) == key_model(*old(k)).insert(key, val),
        !r ==> key_model(*final(k)) == key_model(*old(k)),
        key_model(*final(k)).dom().finite(),
        key_model(*old(k)).dom().finite(),
{
    k.insert(key, val).is_ok()
}

/// Relies on `heapless::IndexMap::get`: the value stored for the key.
#[verifier::external_body]
pub(crate) fn key_get(k: &MorseKey, key: MorseSequenceSerialization) -> (r: Option<char>)
    ensures
        r == if key_model(*k).dom().contains(key) {
            Some(key_model(*k)[key])
        } else {
            None::<char>
        },
{
    k.get(&key).copied()
}

} // verus!
