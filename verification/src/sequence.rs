use crate::conf::FPS;
use crate::engine::TextureID;
use crate::texture::TextureRef;
use vstd::prelude::*;

verus! {

/// A frame-timed texture sequence: holds each frame for `count` calls
/// of `next`, then advances cyclically. A blocked sequence freezes on
/// its current frame until reset.
pub struct Sequence {
    pub textures: Vec<TextureRef>,
    pub current_texture: usize,
    pub animation_count: u32,
    pub blocked: bool,
    pub count: u32,
}

/// One `next` step of the sequence state machine: a no-op while
/// blocked; otherwise the hold counter rises (saturating at the
/// threshold, beyond which only "reached" is ever asked of it), and on
/// reaching the threshold the frame advances cyclically and the counter
/// clears, unless there is only one frame to show.
pub open spec fn next_spec(s: Sequence) -> Sequence {
    if s.blocked {
        s
    } else {
        let ac = if s.animation_count < s.count {
            (s.animation_count + 1) as u32
        } else {
            s.animation_count
        };
        if ac >= s.count && s.textures@.len() > 1 {
            Sequence {
                current_texture: ((s.current_texture + 1) % (s.textures@.len() as int)) as usize,
                animation_count: 0,
                ..s
            }
        } else {
            Sequence { animation_count: ac, ..s }
        }
    }
}

/// The sequence state machine applied `n` times.
pub open spec fn iter_next(s: Sequence, n: nat) -> Sequence
    decreases n,
{
    if n == 0 {
        s
    } else {
        next_spec(iter_next(s, (n - 1) as nat))
    }
}

impl Sequence {
    /// At least one frame, the current one in range, the counter never
    /// past its threshold.
    pub open spec fn wf(&self) -> bool {
        &&& self.textures@.len() > 0
        &&& self.current_texture < self.textures@.len()
        &&& self.animation_count <= self.count
    }

    /// The hold counter has reached the per-frame threshold.
    pub open spec fn timeout_spec(&self) -> bool {
        self.animation_count >= self.count
    }

    /// The current frame is the final one.
    pub open spec fn last_frame_spec(&self) -> bool {
        self.current_texture == self.textures@.len() - 1
    }

    /// A fresh sequence: first frame, counter cleared, not blocked.
    pub fn new(textures: Vec<TextureRef>, count: u32) -> (r: Sequence)
        requires
            textures@.len() > 0,
        ensures
            r.wf(),
            r.textures == textures,
            r.current_texture == 0,
            r.animation_count == 0,
            r.count == count,
            !r.blocked,
    {
        Sequence { textures, current_texture: 0, animation_count: 0, blocked: false, count }
    }

    /// One-shot completion: the final frame has been held for the full
    /// threshold.
    pub fn done(&self) -> (r: bool)
        requires
            self.wf(),
        ensures
            r == (self.last_frame_spec() && self.timeout_spec()),
    {
        self.last_frame() && self.animation_count >= self.count
    }

    /// The texture to display now.
    pub fn get_texture(&self) -> (r: TextureRef)
        requires
            self.wf(),
        ensures
            r == self.textures@[self.current_texture as int],
    {
        self.textures[self.current_texture]
    }

    /// The id of the texture to display now.
    pub fn get_texture_id(&self) -> (r: TextureID)
        requires
            self.wf(),
        ensures
            r == self.textures@[self.current_texture as int].id,
    {
        self.textures[self.current_texture].id()
    }

    /// Whether the sequence shows its final frame.
    pub fn last_frame(&self) -> (r: bool)
        requires
            self.wf(),
        ensures
            r == self.last_frame_spec(),
    {
        self.current_texture == self.textures.len() - 1
    }

    /// Returns to the first frame, clears the counter and unblocks.
    pub fn reset(&mut self)
        requires
            old(self).wf(),
        ensures
            final (self).wf(),
            final (self).textures == old(self).textures,
            final (self).count == old(self).count,
            final (self).current_texture == 0,
            final (self).animation_count == 0,
            !final (self).blocked,
    {
        self.current_texture = 0;
        self.animation_count = 0;
        self.blocked = false;
    }

    /// Advances the state machine by one tick: exactly `next_spec`.
    /// While blocked nothing changes, in particular not the current
    /// frame.
    pub fn next(&mut self)
        requires
            old(self).wf(),
        ensures
            final (self).wf(),
            *final (self) == next_spec(*old(self)),
            old(self).blocked ==> *final (self) == *old(self),
    {
        if self.blocked {
            return ;
        }
        if self.animation_count < self.count {
            self.animation_count = self.animation_count + 1;
        }
        if self.animation_count >= self.count {
            if self.textures.len() == 1 {
                return ;
            }
            self.current_texture = (self.current_texture + 1) % self.textures.len();
            self.animation_count = 0;
        }
    }

    /// Freezes the current frame until the next reset.
    pub fn block(&mut self)
        requires
            old(self).wf(),
        ensures
            final (self).wf(),
            *final (self) == (Sequence { blocked: true, ..*old(self) }),
    {
        self.blocked = true;
    }
}

/// Counting from a cleared hold counter, the first `count - 1` ticks
/// leave the frame alone and only fill the counter.
proof fn lemma_iter_next_below_threshold(s: Sequence, n: nat)
    requires
        s.wf(),
        !s.blocked,
        s.animation_count == 0,
        s.textures@.len() > 1,
        n < s.count,
    ensures
        iter_next(s, n) == (Sequence { animation_count: n as u32, ..s }),
    decreases n,
{
    if n > 0 {
        lemma_iter_next_below_threshold(s, (n - 1) as nat);
    }
}

/// On a sequence with more than one frame and a cleared counter,
/// exactly `count` ticks advance the frame by exactly one, wrapping
/// past the end, and clear the counter again; every earlier tick leaves
/// the frame where it was.
pub proof fn lemma_hold_threshold_advances_frame(s: Sequence)
    requires
        s.wf(),
        !s.blocked,
        s.animation_count == 0,
        s.textures@.len() > 1,
        s.count >= 1,
    ensures
        forall|k: nat|
            k < s.count ==> #[trigger] iter_next(s, k).current_texture == s.current_texture,
        iter_next(s, s.count as nat).current_texture == (s.current_texture + 1) % (
        s.textures@.len() as int),
        iter_next(s, s.count as nat).animation_count == 0,
{
    assert forall|k: nat| k < s.count implies #[trigger] iter_next(s, k).current_texture
        == s.current_texture by {
        lemma_iter_next_below_threshold(s, k);
    }
    lemma_iter_next_below_threshold(s, (s.count - 1) as nat);
    assert(iter_next(s, s.count as nat) == next_spec(iter_next(s, (s.count - 1) as nat)));
    let m = (s.current_texture + 1) % (s.textures@.len() as int);
    assert(0 <= m < s.textures@.len()) by {
        vstd::arithmetic::div_mod::lemma_mod_division_less_than_divisor(
            s.current_texture + 1,
            s.textures@.len() as int,
        );
    }
    assert(s.textures@.len() <= usize::MAX) by {
        vstd::std_specs::vec::axiom_spec_len(&s.textures);
    }
}

/// The four animation sequences of an enemy, with the standard frame
/// timings.
pub struct EnemySequence {
    pub walking_textures: Sequence,
    pub dying_textures: Sequence,
    pub shooting_textures: Sequence,
    pub pain_textures: Sequence,
}

impl EnemySequence {
    pub open spec fn wf(&self) -> bool {
        &&& self.walking_textures.wf()
        &&& self.dying_textures.wf()
        &&& self.shooting_textures.wf()
        &&& self.pain_textures.wf()
    }

    pub fn new(
        walking_textures: Vec<TextureRef>,
        shooting_textures: Vec<TextureRef>,
        pain_texture: Vec<TextureRef>,
        dying_textures: Vec<TextureRef>,
    ) -> (r: EnemySequence)
        requires
            walking_textures@.len() > 0,
            shooting_textures@.len() > 0,
            pain_texture@.len() > 0,
            dying_textures@.len() > 0,
        ensures
            r.wf(),
            !r.walking_textures.blocked && !r.dying_textures.blocked
                && !r.shooting_textures.blocked && !r.pain_textures.blocked,
            r.dying_textures.current_texture == 0,
            r.walking_textures.textures == walking_textures,
            r.shooting_textures.textures == shooting_textures,
            r.dying_textures.textures == dying_textures,
            r.pain_textures.textures == pain_texture,
    {
        let walking_textures = Sequence::new(walking_textures, FPS * 2);
        let shooting_textures = Sequence::new(shooting_textures, FPS * 3);
        let pain_textures = Sequence::new(pain_texture, FPS * 3);
        let dying_textures = Sequence::new(dying_textures, FPS);
        EnemySequence { walking_textures, shooting_textures, pain_textures, dying_textures }
    }
}

} // verus!
