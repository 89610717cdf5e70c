//! Image ids, and the pair of ids that animated output takes turns with.
use vstd::prelude::*;

verus! {

/// Image ids are 24 bits wide, so that a placeholder's text color can hold one.
pub const IMAGE_ID_LIMIT: u32 = 0x0100_0000;

/// The counter from which image ids are drawn.
#[derive(Debug, Clone, Copy, PartialEq, Eq, Structural)]
pub struct ImageIds {
    pub next: u32,
}

impl ImageIds {
    pub fn new() -> (ids: Self)
        ensures
            ids.next == 1,
    {
        ImageIds { next: 1 }
    }
}

/// The counter, one further; it wraps around.
pub open spec fn counter_after(n: u32) -> u32 {
    if n == u32::MAX {
        0
    } else {
        (n + 1) as u32
    }
}

/// The id that a counter hands out: its low 24 bits, zero being passed over.
pub open spec fn drawn_id(n: u32) -> u32 {
    if n % IMAGE_ID_LIMIT != 0 {
        n % IMAGE_ID_LIMIT
    } else {
        1
    }
}

/// The counter once an id was handed out.
pub open spec fn counter_after_draw(n: u32) -> u32 {
    if n % IMAGE_ID_LIMIT != 0 {
        counter_after(n)
    } else {
        counter_after(counter_after(n))
    }
}

/// Draws an image id.
pub fn next_image_id(ids: &mut ImageIds) -> (id: u32)
    ensures
        id == drawn_id(old(ids).next),
        final(ids).next == counter_after_draw(old(ids).next),
        1 <= id < IMAGE_ID_LIMIT,
    decreases (if old(ids).next % IMAGE_ID_LIMIT == 0 { 1int } else { 0int }),
{
    let n: u32 = ids.next;
    assert(n & 0x00ff_ffffu32 == n % 0x0100_0000u32) by (bit_vector);
    ids.next = n.wrapping_add(1);
    let id: u32 = n & 0x00ff_ffff;
    if id == 0 {
        next_image_id(ids)
    } else {
        id
    }
}

/// Reusable image ids for animated output under tmux. Taking turns with two ids
/// bounds what the terminal stores, while the frame shown last stays alive until
/// the next one has replaced it.
#[derive(Debug, Clone)]
pub struct TmuxImageState {
    ids: [u32; 2],
    used: [bool; 2],
    next: usize,
}

/// What a [`TmuxImageState`] holds: the two ids, whether each was handed out
/// before, and whose turn it is.
pub struct TmuxImages {
    pub ids: Seq<u32>,
    pub used: Seq<bool>,
    pub turn: int,
}

impl TmuxImages {
    pub open spec fn wf(self) -> bool {
        &&& self.ids.len() == 2
        &&& self.used.len() == 2
        &&& 0 <= self.turn < 2
    }

    /// The images before the first frame, with ids drawn from a counter.
    pub open spec fn fresh(ids: ImageIds) -> TmuxImages {
        TmuxImages {
            ids: seq![drawn_id(ids.next), drawn_id(counter_after_draw(ids.next))],
            used: seq![false, false],
            turn: 0,
        }
    }

    /// The id of the frame to be sent now.
    pub open spec fn frame_id(self) -> u32 {
        self.ids[self.turn]
    }

    /// Whether an earlier frame already went out under that id.
    pub open spec fn reuses(self) -> bool {
        self.used[self.turn]
    }

    /// The state once a frame was sent.
    pub open spec fn after_frame(self) -> TmuxImages {
        TmuxImages {
            ids: self.ids,
            used: self.used.update(self.turn, true),
            turn: 1 - self.turn,
        }
    }

    /// The state once `n` frames were sent.
    pub open spec fn after_frames(self, n: nat) -> TmuxImages
        decreases n,
    {
        if n == 0 {
            self
        } else {
            self.after_frames((n - 1) as nat).after_frame()
        }
    }
}

impl View for TmuxImageState {
    type V = TmuxImages;

    closed spec fn view(&self) -> TmuxImages {
        TmuxImages { ids: self.ids@, used: self.used@, turn: self.next as int }
    }
}

impl TmuxImageState {
    /// Draws the two ids. Neither has been used.
    pub fn new(ids: &mut ImageIds) -> (state: Self)
        ensures
            state@.wf(),
            state@.ids == seq![
                drawn_id(old(ids).next),
                drawn_id(counter_after_draw(old(ids).next)),
            ],
            state@.used == seq![false, false],
            state@.turn == 0,
            state@ == TmuxImages::fresh(*old(ids)),
            final(ids).next == counter_after_draw(counter_after_draw(old(ids).next)),
    {
        let first: u32 = next_image_id(ids);
        let second: u32 = next_image_id(ids);
        let state = TmuxImageState { ids: [first, second], used: [false, false], next: 0 };
        assert(state@.ids =~= seq![first, second]);
        assert(state@.used =~= seq![false, false]);
        state
    }

    /// Hands out the id for the next frame, and tells whether an earlier frame
    /// already went out under it.
    pub fn next_frame_id(&mut self) -> (frame: (u32, bool))
        requires
            old(self)@.wf(),
        ensures
            frame.0 == old(self)@.frame_id(),
            frame.1 == old(self)@.reuses(),
            final(self)@ == old(self)@.after_frame(),
            final(self)@.wf(),
    {
        let index: usize = self.next;
        self.next = (self.next + 1) % 2;
        let was_used: bool = self.used[index];
        self.used[index] = true;
        assert(final(self)@.used =~= old(self)@.used.update(index as int, true));
        (self.ids[index], was_used)
    }
}

/// The two ids take turns: `n` frames later it is the turn of the same id when
/// `n` is even, and of the other one when `n` is odd.
pub proof fn ids_take_turns(images: TmuxImages, n: nat)
    requires
        images.wf(),
    ensures
        images.after_frames(n).wf(),
        images.after_frames(n).ids == images.ids,
        images.after_frames(n).turn == (if n % 2 == 0 { images.turn } else { 1 - images.turn }),
        images.after_frames(n).frame_id() == images.ids[(images.turn + n) % 2],
    decreases n,
{
    if n > 0 {
        ids_take_turns(images, (n - 1) as nat);
    }
}

/// Of a fresh state the first two frames go out under unused ids, and every
/// later frame takes over the id of the frame before the previous one.
pub proof fn only_later_frames_reuse(images: TmuxImages, n: nat)
    requires
        images.wf(),
        images.used == seq![false, false],
    ensures
        images.after_frames(n).reuses() <==> n >= 2,
    decreases n,
{
    ids_take_turns(images, n);
    if n == 1 {
        reveal_with_fuel(TmuxImages::after_frames, 2);
    } else if n > 1 {
        let before = images.after_frames((n - 2) as nat);
        ids_take_turns(images, (n - 2) as nat);
        assert(images.after_frames((n - 1) as nat) == before.after_frame());
        assert(images.after_frames(n) == before.after_frame().after_frame());
        assert(before.after_frame().used[before.turn]);
    }
}

/// Where the two ids differ, the image on the screen is never the one that the
/// next frame replaces.
pub proof fn shown_frame_stays_alive(images: TmuxImages)
    requires
        images.wf(),
        images.ids[0] != images.ids[1],
    ensures
        images.after_frame().frame_id() != images.frame_id(),
{
}

/// The two ids of a new state differ, whatever the counter was.
pub proof fn new_ids_differ(n: u32)
    ensures
        drawn_id(n) != drawn_id(counter_after_draw(n)),
        1 <= drawn_id(n) < IMAGE_ID_LIMIT,
{
}

/// Ids count up one by one. After the last one of 24 bits they start over with one,
/// and zero is never handed out.
pub proof fn ids_count_up(n: u32)
    ensures
        1 <= drawn_id(n) <= 0xff_ffff,
        drawn_id(n) < 0xff_ffff ==> drawn_id(counter_after_draw(n)) == drawn_id(n) + 1,
        drawn_id(n) == 0xff_ffff ==> drawn_id(counter_after_draw(n)) == 1,
        1 <= n <= 0xff_ffff ==> drawn_id(n) == n,
{
}

} // verus!
