//! The queue of audio samples between the decoder and the sound card.
//!
//! A sample is kept as the 32 bits of its floating point number, which pass
//! through unchanged.
use vstd::prelude::*;
use ringbuf::traits::{Consumer, Producer};
use ringbuf::HeapRb;

verus! {

/// The bits of a silent sample.
pub const SILENCE: u32 = 0;

/// A ring buffer of samples, `ringbuf::HeapRb`.
#[verifier::external_body]
pub struct SampleRing {
    ring: HeapRb<u32>,
}

/// The samples in a ring buffer, the eldest first.
pub uninterp spec fn ring_contents(ring: SampleRing) -> Seq<u32>;

/// The number of samples for which a ring buffer was made.
pub uninterp spec fn ring_capacity(ring: SampleRing) -> nat;

/// Calls `ringbuf::HeapRb::new`, which makes an empty ring buffer with room for
/// exactly `capacity` samples. It panics without room for any sample, and where
/// the samples would take more memory than can be addressed.
#[verifier::external_body]
fn ring_new(capacity: usize) -> (ring: SampleRing)
    requires
        0 < capacity,
        4 * capacity <= isize::MAX,
    ensures
        ring_contents(ring) == Seq::<u32>::empty(),
        ring_capacity(ring) == capacity,
{
    SampleRing { ring: HeapRb::<u32>::new(capacity) }
}

/// Calls `ringbuf::traits::Producer::try_push`, which appends a sample; where
/// the ring buffer is full it hands the sample back and changes nothing.
#[verifier::external_body]
fn ring_push(ring: &mut SampleRing, sample: u32) -> (result: Result<(), u32>)
    ensures
        ring_capacity(*final(ring)) == ring_capacity(*old(ring)),
        ring_contents(*old(ring)).len() < ring_capacity(*old(ring)) ==> result is Ok
            && ring_contents(*final(ring)) == ring_contents(*old(ring)).push(sample),
        ring_contents(*old(ring)).len() >= ring_capacity(*old(ring)) ==> result is Err
            && result->Err_0 == sample && ring_contents(*final(ring)) == ring_contents(*old(ring)),
{
    ring.ring.try_push(sample)
}

/// Calls `ringbuf::traits::Consumer::try_pop`, which takes the eldest sample out;
/// where the ring buffer is empty it returns `None` and changes nothing.
#[verifier::external_body]
fn ring_pop(ring: &mut SampleRing) -> (sample: Option<u32>)
    ensures
        ring_capacity(*final(ring)) == ring_capacity(*old(ring)),
        ring_contents(*old(ring)).len() == 0 ==> sample is None && ring_contents(*final(ring))
            == ring_contents(*old(ring)),
        ring_contents(*old(ring)).len() > 0 ==> sample == Some(ring_contents(*old(ring))[0])
            && ring_contents(*final(ring)) == ring_contents(*old(ring)).skip(1),
{
    ring.ring.try_pop()
}

/// What a queue holds, and how many samples it has room for.
pub struct Samples {
    pub contents: Seq<u32>,
    pub capacity: nat,
}

/// Samples on their way to the sound card.
pub struct SampleQueue {
    ring: SampleRing,
}

impl View for SampleQueue {
    type V = Samples;

    closed spec fn view(&self) -> Samples {
        Samples { contents: ring_contents(self.ring), capacity: ring_capacity(self.ring) }
    }
}

/// The smaller of two numbers.
pub open spec fn least(a: int, b: int) -> int {
    if a < b {
        a
    } else {
        b
    }
}

impl Samples {
    /// A queue holds no more samples than it has room for.
    pub open spec fn wf(self) -> bool {
        self.contents.len() <= self.capacity && self.capacity > 0
    }

    /// How many of `n` samples there is room for.
    pub open spec fn room_for(self, n: int) -> int {
        least(n, self.capacity - self.contents.len())
    }

    /// The queue once as many samples were appended as there is room for.
    pub open spec fn after_push(self, samples: Seq<u32>) -> Samples {
        Samples {
            contents: self.contents + samples.take(self.room_for(samples.len() as int)),
            ..self
        }
    }

    /// The queue without any samples.
    pub open spec fn emptied(self) -> Samples {
        Samples { contents: Seq::empty(), ..self }
    }

    /// The queue that the sound card is given from: after a jump it is emptied first.
    pub open spec fn unless_reset(self, reset: bool) -> Samples {
        if reset {
            self.emptied()
        } else {
            self
        }
    }

    /// How many of `n` samples that are asked for the queue can give.
    pub open spec fn given(self, n: int) -> int {
        least(n, self.contents.len() as int)
    }

    /// The queue once its eldest `n` samples were played.
    pub open spec fn after_play(self, n: int) -> Samples {
        Samples { contents: self.contents.skip(self.given(n)), ..self }
    }

    /// What is played when `n` samples are asked for: the eldest samples, and
    /// silence where there are not enough.
    pub open spec fn played(self, n: int) -> Seq<u32> {
        Seq::new(
            n as nat,
            |i: int|
                if i < self.contents.len() {
                    self.contents[i]
                } else {
                    SILENCE
                },
        )
    }
}

/// The room of a queue for a sound card: two seconds of sound, and never none.
pub open spec fn queue_capacity(sample_rate: u32, channels: u16) -> int {
    if sample_rate * channels * 2 < 1 {
        1
    } else {
        sample_rate * channels * 2
    }
}

impl SampleQueue {
    /// An empty queue for a sound card with the given sample rate and channels.
    pub fn for_output(sample_rate: u32, channels: u16) -> (queue: Self)
        requires
            4 * queue_capacity(sample_rate, channels) <= isize::MAX,
        ensures
            queue@.wf(),
            queue@.contents == Seq::<u32>::empty(),
            queue@.capacity == queue_capacity(sample_rate, channels),
    {
        assert(0 <= sample_rate * channels <= sample_rate * channels * 2) by (nonlinear_arith);
        let capacity: usize = sample_rate as usize * channels as usize * 2;
        SampleQueue {
            ring: ring_new(
                if capacity < 1 {
                    1
                } else {
                    capacity
                },
            ),
        }
    }

    /// Appends the samples from `start` on, as far as there is room. Returns the
    /// index of the first sample that found none.
    pub fn push_from(&mut self, samples: &[u32], start: usize) -> (next: usize)
        requires
            old(self)@.wf(),
            start <= samples@.len(),
        ensures
            final(self)@.wf(),
            final(self)@ == old(self)@.after_push(samples@.skip(start as int)),
            next == start + old(self)@.room_for(samples@.len() - start),
    {
        let mut next: usize = start;
        while next < samples.len()
            invariant
                start <= next <= samples@.len(),
                old(self)@.wf(),
                self@.wf(),
                self@.capacity == old(self)@.capacity,
                self@.contents == old(self)@.contents + samples@.subrange(
                    start as int,
                    next as int,
                ),
            ensures
                start <= next <= samples@.len(),
                next == samples@.len() || self@.contents.len() == self@.capacity,
                self@.wf(),
                self@.capacity == old(self)@.capacity,
                self@.contents == old(self)@.contents + samples@.subrange(
                    start as int,
                    next as int,
                ),
            decreases samples@.len() - next,
        {
            match ring_push(&mut self.ring, samples[next]) {
                Ok(_) => {
                    assert(samples@.subrange(start as int, next as int).push(samples@[next as int])
                        =~= samples@.subrange(start as int, next as int + 1));
                    next = next + 1;
                },
                Err(_) => {
                    break;
                },
            }
        }
        assert(samples@.skip(start as int).take(next - start) =~= samples@.subrange(
            start as int,
            next as int,
        ));
        next
    }

    /// Takes all samples out.
    pub fn clear(&mut self)
        ensures
            final(self)@ == old(self)@.emptied(),
    {
        while ring_pop(&mut self.ring).is_some()
            invariant
                self@.capacity == old(self)@.capacity,
            ensures
                self@.capacity == old(self)@.capacity,
                self@.contents.len() == 0,
            decreases self@.contents.len(),
        {
        }
        assert(self@.contents =~= Seq::empty());
    }

    /// Takes the next sample out.
    pub fn pop(&mut self) -> (sample: Option<u32>)
        requires
            old(self)@.wf(),
        ensures
            final(self)@.wf(),
            final(self)@ == old(self)@.after_play(1),
            sample == (if old(self)@.contents.len() > 0 {
                Some(old(self)@.contents[0])
            } else {
                None
            }),
    {
        let sample: Option<u32> = ring_pop(&mut self.ring);
        assert(self@.contents =~= old(self)@.contents.skip(old(self)@.given(1)));
        sample
    }

    /// Fills what the sound card asks for. After a jump, `reset` throws away what
    /// was queued before it. Returns how many samples came out of the queue.
    pub fn fill_output(&mut self, reset: bool, out: &mut Vec<u32>) -> (read: usize)
        requires
            old(self)@.wf(),
        ensures
            final(self)@.wf(),
            ({
                let queue = if reset {
                    old(self)@.emptied()
                } else {
                    old(self)@
                };
                &&& final(out)@ == queue.played(old(out)@.len() as int)
                &&& read == queue.given(old(out)@.len() as int)
                &&& final(self)@ == queue.after_play(old(out)@.len() as int)
                &&& queue == old(self)@.unless_reset(reset)
            }),
    {
        if reset {
            self.clear();
        }
        let ghost queue = self@;
        let len: usize = out.len();
        let mut read: usize = 0;
        let mut i: usize = 0;
        assert(queue.after_play(0).contents =~= queue.contents);
        while i < len
            invariant
                i <= len,
                len == out@.len(),
                self@.wf(),
                self@ == queue.after_play(i as int),
                read == queue.given(i as int),
                forall|j: int| 0 <= j < i ==> out@[j] == queue.played(len as int)[j],
            decreases len - i,
        {
            match self.pop() {
                Some(sample) => {
                    out.set(i, sample);
                    read = read + 1;
                },
                None => {
                    out.set(i, SILENCE);
                },
            }
            assert(self@.contents =~= queue.after_play(i + 1).contents);
            i = i + 1;
        }
        assert(out@ =~= queue.played(len as int));
        read
    }
}

/// What happens to a queue.
pub enum QueueEvent {
    /// Samples are appended, as far as there is room.
    Push(Seq<u32>),
    /// Samples are asked for.
    Play(nat),
    /// What is queued is thrown away.
    Reset,
}

/// The queue after a number of events.
pub open spec fn queue_after(queue: Samples, events: Seq<QueueEvent>) -> Samples
    decreases events.len(),
{
    if events.len() == 0 {
        queue
    } else {
        let before = queue_after(queue, events.drop_last());
        match events.last() {
            QueueEvent::Push(samples) => before.after_push(samples),
            QueueEvent::Play(n) => before.after_play(n as int),
            QueueEvent::Reset => before.emptied(),
        }
    }
}

/// All samples that found room during the events.
pub open spec fn samples_queued(queue: Samples, events: Seq<QueueEvent>) -> Seq<u32>
    decreases events.len(),
{
    if events.len() == 0 {
        seq![]
    } else {
        let before = queue_after(queue, events.drop_last());
        samples_queued(queue, events.drop_last()) + (match events.last() {
            QueueEvent::Push(samples) => samples.take(before.room_for(samples.len() as int)),
            _ => seq![],
        })
    }
}

/// All samples that came out of the queue to be played during the events,
/// without the silence between them.
pub open spec fn samples_played(queue: Samples, events: Seq<QueueEvent>) -> Seq<u32>
    decreases events.len(),
{
    if events.len() == 0 {
        seq![]
    } else {
        let before = queue_after(queue, events.drop_last());
        samples_played(queue, events.drop_last()) + (match events.last() {
            QueueEvent::Play(n) => before.played(n as int).take(before.given(n as int)),
            _ => seq![],
        })
    }
}

/// The queue never holds more than it has room for, and its room never changes.
pub proof fn queue_keeps_its_room(queue: Samples, events: Seq<QueueEvent>)
    requires
        queue.wf(),
    ensures
        queue_after(queue, events).wf(),
        queue_after(queue, events).capacity == queue.capacity,
    decreases events.len(),
{
    if events.len() > 0 {
        queue_keeps_its_room(queue, events.drop_last());
    }
}

/// As long as nothing is thrown away, every queued sample is played once and in
/// order: what was played, followed by what still waits, is what was in the
/// queue at first, followed by what was queued since.
pub proof fn samples_play_once_and_in_order(queue: Samples, events: Seq<QueueEvent>)
    requires
        queue.wf(),
        forall|i: int| 0 <= i < events.len() ==> !(events[i] is Reset),
    ensures
        samples_played(queue, events) + queue_after(queue, events).contents == queue.contents
            + samples_queued(queue, events),
    decreases events.len(),
{
    if events.len() > 0 {
        let before = queue_after(queue, events.drop_last());
        samples_play_once_and_in_order(queue, events.drop_last());
        queue_keeps_its_room(queue, events.drop_last());
        assert(events.last() == events[events.len() - 1]);
        let played = samples_played(queue, events.drop_last());
        let queued = samples_queued(queue, events.drop_last());
        match events.last() {
            QueueEvent::Push(samples) => {
                let added = samples.take(before.room_for(samples.len() as int));
                assert(played + seq![] =~= played);
                assert(played + (before.contents + added) =~= (played + before.contents) + added);
                assert((queue.contents + queued) + added =~= queue.contents + (queued + added));
            },
            QueueEvent::Play(n) => {
                let taken = before.played(n as int).take(before.given(n as int));
                let rest = before.after_play(n as int).contents;
                assert(taken + rest =~= before.contents);
                assert((played + taken) + rest =~= played + (taken + rest));
                assert(queued + seq![] =~= queued);
            },
            QueueEvent::Reset => {},
        }
    } else {
        assert(samples_played(queue, events) + queue_after(queue, events).contents
            =~= queue.contents + samples_queued(queue, events));
    }
}

/// How far the samples of a frame have been queued: the queue, the first sample
/// that found no room yet, and everything that was queued of them.
pub struct Delivery {
    pub queue: Samples,
    pub next: int,
    pub queued: Seq<u32>,
}

/// The delivery after one more attempt to queue the rest of the samples.
pub open spec fn after_attempt(delivery: Delivery, samples: Seq<u32>) -> Delivery {
    let rest = samples.skip(delivery.next);
    let count = delivery.queue.room_for(rest.len() as int);
    Delivery {
        queue: delivery.queue.after_push(rest),
        next: delivery.next + count,
        queued: delivery.queued + rest.take(count),
    }
}

/// The delivery of samples after a first attempt and one more after each pause.
/// `pauses` tells what happened to the queue during each of them.
pub open spec fn delivery_after(
    queue: Samples,
    samples: Seq<u32>,
    pauses: Seq<Seq<QueueEvent>>,
) -> Delivery
    decreases pauses.len(),
{
    if pauses.len() == 0 {
        after_attempt(Delivery { queue, next: 0, queued: seq![] }, samples)
    } else {
        let before = delivery_after(queue, samples, pauses.drop_last());
        after_attempt(
            Delivery { queue: queue_after(before.queue, pauses.last()), ..before },
            samples,
        )
    }
}

/// However often a full queue has to be tried again, the samples are queued once
/// and in order: what was queued of them are the first `next` of them. An attempt
/// stops short only of a full queue, so that every attempt that finds room gets on.
pub proof fn samples_are_queued_once_and_in_order(
    queue: Samples,
    samples: Seq<u32>,
    pauses: Seq<Seq<QueueEvent>>,
)
    requires
        queue.wf(),
    ensures
        ({
            let delivery = delivery_after(queue, samples, pauses);
            &&& delivery.queue.wf()
            &&& 0 <= delivery.next <= samples.len()
            &&& delivery.queued == samples.take(delivery.next)
            &&& delivery.next < samples.len() ==> delivery.queue.contents.len()
                == delivery.queue.capacity
            &&& delivery.next == samples.len() ==> delivery.queued == samples
        }),
    decreases pauses.len(),
{
    let delivery = delivery_after(queue, samples, pauses);
    if pauses.len() == 0 {
        assert(samples.skip(0) =~= samples);
        assert(seq![] + samples.take(delivery.next) =~= samples.take(delivery.next));
    } else {
        let before = delivery_after(queue, samples, pauses.drop_last());
        samples_are_queued_once_and_in_order(queue, samples, pauses.drop_last());
        queue_keeps_its_room(before.queue, pauses.last());
        let rest = samples.skip(before.next);
        let count = delivery.next - before.next;
        assert(samples.take(before.next) + rest.take(count) =~= samples.take(delivery.next));
    }
    assert(samples.take(samples.len() as int) =~= samples);
}

/// A pause in which the sound card takes a sample lets the delivery get on.
pub proof fn delivery_gets_on(
    queue: Samples,
    samples: Seq<u32>,
    pauses: Seq<Seq<QueueEvent>>,
    pause: Seq<QueueEvent>,
)
    requires
        queue.wf(),
        ({
            let before = delivery_after(queue, samples, pauses);
            &&& before.next < samples.len()
            &&& queue_after(before.queue, pause).contents.len() < before.queue.capacity
        }),
    ensures
        delivery_after(queue, samples, pauses.push(pause)).next > delivery_after(
            queue,
            samples,
            pauses,
        ).next,
{
    let before = delivery_after(queue, samples, pauses);
    samples_are_queued_once_and_in_order(queue, samples, pauses);
    queue_keeps_its_room(before.queue, pause);
    assert(pauses.push(pause).drop_last() =~= pauses);
}

/// Where the queue was empty at first and nothing was thrown away, everything
/// that was queued has been played exactly when as many samples were played as
/// were queued.
pub proof fn all_played_when_counts_meet(queue: Samples, events: Seq<QueueEvent>)
    requires
        queue.wf(),
        queue.contents.len() == 0,
        forall|i: int| 0 <= i < events.len() ==> !(events[i] is Reset),
    ensures
        samples_played(queue, events).len() <= samples_queued(queue, events).len(),
        samples_played(queue, events).len() == samples_queued(queue, events).len()
            <==> samples_played(queue, events) == samples_queued(queue, events),
        samples_played(queue, events).len() == samples_queued(queue, events).len()
            <==> queue_after(queue, events).contents.len() == 0,
{
    samples_play_once_and_in_order(queue, events);
    let played = samples_played(queue, events);
    let queued = samples_queued(queue, events);
    let rest = queue_after(queue, events).contents;
    assert(played + rest == queue.contents + queued);
    assert((played + rest).len() == played.len() + rest.len());
    assert((queue.contents + queued).len() == queued.len());
    if played.len() == queued.len() {
        assert(played =~= queued) by {
            assert forall|i: int| 0 <= i < played.len() implies played[i] == queued[i] by {
                assert((played + rest)[i] == played[i]);
                assert((queue.contents + queued)[i] == queued[i]);
            }
        }
    }
}

/// The sound card gets the eldest samples, as many as it asks for or as there are, in
/// order, and silence behind them; just those leave the queue.
pub proof fn eldest_samples_are_played_first(queue: Samples, n: nat, i: int)
    ensures
        ({
            let given = queue.given(n as int);
            let played = queue.played(n as int);
            let rest = queue.after_play(n as int);
            &&& played.len() == n
            &&& n <= queue.contents.len() ==> given == n
            &&& n > queue.contents.len() ==> given == queue.contents.len()
            &&& 0 <= i < given ==> played[i] == queue.contents[i]
            &&& given <= i < n ==> played[i] == 0
            &&& rest.capacity == queue.capacity
            &&& played.take(given) + rest.contents == queue.contents
        }),
{
    let given = queue.given(n as int);
    assert(queue.played(n as int).take(given) + queue.after_play(n as int).contents
        =~= queue.contents);
}

/// Samples are queued behind those that wait, in order, up to the room of the queue; and
/// an emptied queue holds none and keeps its room.
pub proof fn samples_wait_in_order(queue: Samples, samples: Seq<u32>)
    requires
        queue.wf(),
    ensures
        ({
            let after = queue.after_push(samples);
            let room = queue.capacity - queue.contents.len();
            &&& after.capacity == queue.capacity
            &&& samples.len() <= room ==> after.contents == queue.contents + samples
            &&& samples.len() > room ==> after.contents.len() == queue.capacity && after.contents
                == queue.contents + samples.take(room)
            &&& queue.emptied().contents.len() == 0
            &&& queue.emptied().capacity == queue.capacity
        }),
{
    assert(samples.take(samples.len() as int) =~= samples);
}

/// A queue holds two seconds of sound: as many samples as the card plays in that time,
/// over all of its channels.
pub proof fn queue_holds_two_seconds(sample_rate: u32, channels: u16)
    requires
        sample_rate > 0,
        channels > 0,
    ensures
        queue_capacity(sample_rate, channels) == sample_rate * channels + sample_rate * channels,
        queue_capacity(sample_rate, channels) > 0,
{
    assert(sample_rate * channels >= 1) by (nonlinear_arith)
        requires
            sample_rate > 0,
            channels > 0,
    ;
}

/// After a jump nothing that was queued before it is played: the sound card gets silence
/// alone. Otherwise the queue is left as it is.
pub proof fn jumps_silence_what_was_queued(queue: Samples, n: nat, i: int)
    requires
        0 <= i < n,
    ensures
        queue.unless_reset(true).played(n as int)[i] == 0,
        queue.unless_reset(true).given(n as int) == 0,
        queue.unless_reset(true).after_play(n as int).contents.len() == 0,
        queue.unless_reset(false) == queue,
{
}

} // verus!
