use vstd::prelude::*;
use crate::math::Vec2;

verus! {

/// Ticks between two releases of an armored segment.
pub const ARMOR_DECAY_MAX_DELAY: u32 = 50;

/// One link of a body chain.
#[derive(Clone, Copy, Debug)]
pub struct SnakeSegment<S> {
    pub position: Vec2<S>,
    pub angle: S,
    /// `false` while the segment is armored.
    pub cuttable: bool,
}

/// A body chain; the segment at index 0 is the head.
#[derive(Clone, Debug)]
pub struct Snake<S> {
    pub segments: Vec<SnakeSegment<S>>,
    /// Ticks until the next armored segment may be released.
    pub armor_decay: u32,
}

/// What a chain is: its segments from the head on, and its armor countdown.
pub struct SnakeModel<S> {
    pub segments: Seq<SnakeSegment<S>>,
    pub armor_decay: u32,
}

impl<S> View for Snake<S> {
    type V = SnakeModel<S>;

    open spec fn view(&self) -> SnakeModel<S> {
        SnakeModel { segments: self.segments@, armor_decay: self.armor_decay }
    }
}

/// The lowest index at or after `from` whose segment is cuttable.
pub open spec fn first_cuttable_from<S>(segs: Seq<SnakeSegment<S>>, from: int) -> Option<int>
    decreases segs.len() - from,
{
    if from < 0 || from >= segs.len() {
        None
    } else if segs[from].cuttable {
        Some(from)
    } else {
        first_cuttable_from(segs, from + 1)
    }
}

/// The lowest index whose segment is cuttable.
pub open spec fn first_cuttable<S>(segs: Seq<SnakeSegment<S>>) -> Option<int> {
    first_cuttable_from(segs, 0)
}

/// `n - 1`, stopping at zero.
pub open spec fn pred_or_zero(n: int) -> int {
    if n > 0 {
        n - 1
    } else {
        0
    }
}

/// `seg` with its armor taken off.
pub open spec fn unarmored<S>(seg: SnakeSegment<S>) -> SnakeSegment<S> {
    SnakeSegment { position: seg.position, angle: seg.angle, cuttable: true }
}

/// Whether this tick releases a segment: the countdown has run out, some
/// segment is cuttable, and the first such segment does not sit just before
/// `neck`.
pub open spec fn releases<S>(segs: Seq<SnakeSegment<S>>, armor_decay: u32, neck: usize) -> bool {
    armor_decay == 0 && match first_cuttable(segs) {
        Some(index) => index != pred_or_zero(neck as int),
        None => false,
    }
}

/// The chain after the armor step of one tick: on a release the segment just
/// before the first cuttable one becomes cuttable.
pub open spec fn released<S>(segs: Seq<SnakeSegment<S>>, armor_decay: u32, neck: usize) -> Seq<
    SnakeSegment<S>,
> {
    if releases(segs, armor_decay, neck) {
        let at = pred_or_zero(first_cuttable(segs).unwrap());
        segs.update(at, unarmored(segs[at]))
    } else {
        segs
    }
}

/// The countdown after the armor step of one tick.
pub open spec fn next_armor_decay<S>(segs: Seq<SnakeSegment<S>>, armor_decay: u32, neck: usize) -> u32 {
    if releases(segs, armor_decay, neck) {
        ARMOR_DECAY_MAX_DELAY
    } else if armor_decay == 0 {
        0
    } else {
        (armor_decay - 1) as u32
    }
}

/// The chain after one step of motion: the head takes the given place and
/// heading, every other segment takes those its predecessor had. Armor stays
/// with the index.
pub open spec fn trailed<S>(segs: Seq<SnakeSegment<S>>, head_position: Vec2<S>, head_angle: S) -> Seq<
    SnakeSegment<S>,
> {
    Seq::new(
        segs.len(),
        |i: int|
            SnakeSegment {
                position: if i == 0 {
                    head_position
                } else {
                    segs[i - 1].position
                },
                angle: if i == 0 {
                    head_angle
                } else {
                    segs[i - 1].angle
                },
                cuttable: segs[i].cuttable,
            },
    )
}

/// A chain of one cuttable segment, with nothing to count down.
pub open spec fn fresh_snake<S>(position: Vec2<S>, angle: S) -> SnakeModel<S> {
    SnakeModel {
        segments: seq![SnakeSegment { position, angle, cuttable: true }],
        armor_decay: 0,
    }
}

/// The chain after one tick: the armor step, then the motion.
pub open spec fn advanced<S>(snake: SnakeModel<S>, head_position: Vec2<S>, head_angle: S, neck: usize) -> SnakeModel<
    S,
> {
    SnakeModel {
        segments: trailed(
            released(snake.segments, snake.armor_decay, neck),
            head_position,
            head_angle,
        ),
        armor_decay: next_armor_decay(snake.segments, snake.armor_decay, neck),
    }
}

/// The lowest index from `from` on and below `limit` at which `flags` holds
/// `true`.
pub open spec fn first_set(flags: Seq<bool>, from: int, limit: int) -> Option<int>
    decreases limit - from,
{
    if from < 0 || from >= limit || from >= flags.len() {
        None
    } else if flags[from] {
        Some(from)
    } else {
        first_set(flags, from + 1, limit)
    }
}

/// What `first_cuttable_from` finds is cuttable, and nothing before it is.
pub proof fn lemma_first_cuttable_from<S>(segs: Seq<SnakeSegment<S>>, from: int)
    requires
        0 <= from,
    ensures
        match first_cuttable_from(segs, from) {
            Some(i) => from <= i < segs.len() && segs[i].cuttable && forall|j: int|
                from <= j < i ==> !(#[trigger] segs[j]).cuttable,
            None => forall|j: int| from <= j < segs.len() ==> !(#[trigger] segs[j]).cuttable,
        },
    decreases segs.len() - from,
{
    if from < segs.len() && !segs[from].cuttable {
        lemma_first_cuttable_from(segs, from + 1);
    }
}

/// What `first_set` finds is set, and nothing before it is.
pub proof fn lemma_first_set(flags: Seq<bool>, from: int, limit: int)
    requires
        0 <= from,
    ensures
        match first_set(flags, from, limit) {
            Some(i) => from <= i < limit && i < flags.len() && flags[i] && forall|j: int|
                from <= j < i ==> !flags[j],
            None => forall|j: int| from <= j < limit && j < flags.len() ==> !flags[j],
        },
    decreases limit - from,
{
    if from < limit && from < flags.len() && !flags[from] {
        lemma_first_set(flags, from + 1, limit);
    }
}

/// Scans `flags` from `from` up to, not including, `limit` and the end of
/// `flags`, and returns the first index that holds `true`.
pub fn first_set_index(flags: &Vec<bool>, from: usize, limit: usize) -> (r: Option<usize>)
    ensures
        match r {
            Some(i) => first_set(flags@, from as int, limit as int) == Some(i as int),
            None => first_set(flags@, from as int, limit as int).is_none(),
        },
        match r {
            Some(i) => from <= i < limit && i < flags.len() && flags[i as int] && forall|j: int|
                from <= j < i ==> !flags[j],
            None => forall|j: int| from <= j < limit && j < flags.len() ==> !flags[j],
        },
{
    let mut i: usize = from;
    while i < limit && i < flags.len()
        invariant
            from <= i,
            first_set(flags@, from as int, limit as int) == first_set(flags@, i as int, limit as int),
        decreases flags.len() - i,
    {
        if flags[i] {
            proof {
                lemma_first_set(flags@, from as int, limit as int);
            }
            return Some(i);
        }
        i += 1;
    }
    proof {
        lemma_first_set(flags@, from as int, limit as int);
    }
    None
}

impl<S: Copy> Snake<S> {
    /// A chain is well formed when it has a head.
    pub open spec fn wf(&self) -> bool {
        self.segments@.len() >= 1
    }

    /// A chain of one cuttable segment with the given place and heading.
    pub fn new(position: Vec2<S>, angle: S) -> (snake: Snake<S>)
        ensures
            snake.wf(),
            snake@ == fresh_snake(position, angle),
    {
        let mut segments: Vec<SnakeSegment<S>> = Vec::new();
        segments.push(SnakeSegment { position, angle, cuttable: true });
        Snake { segments, armor_decay: 0 }
    }

    /// The number of segments.
    pub fn len(&self) -> (n: usize)
        ensures
            n == self.segments@.len(),
    {
        self.segments.len()
    }

    /// Starts the armor countdown anew.
    pub fn reset_armor_decay(&mut self)
        ensures
            final(self)@ == (SnakeModel { armor_decay: ARMOR_DECAY_MAX_DELAY, ..old(self)@ }),
    {
        self.armor_decay = ARMOR_DECAY_MAX_DELAY;
    }

    /// The lowest index whose segment is cuttable, if there is one.
    pub fn get_first_cuttable_index(&self) -> (r: Option<usize>)
        ensures
            match r {
                Some(i) => first_cuttable(self.segments@) == Some(i as int),
                None => first_cuttable(self.segments@).is_none(),
            },
            match r {
                Some(i) => i < self.segments@.len() && self.segments@[i as int].cuttable && forall|
                    j: int,
                | 0 <= j < i ==> !(#[trigger] self.segments@[j]).cuttable,
                None => forall|j: int|
                    0 <= j < self.segments@.len() ==> !(#[trigger] self.segments@[j]).cuttable,
            },
    {
        let mut i: usize = 0;
        while i < self.segments.len()
            invariant
                first_cuttable(self.segments@) == first_cuttable_from(self.segments@, i as int),
            decreases self.segments.len() - i,
        {
            if self.segments[i].cuttable {
                proof {
                    lemma_first_cuttable_from(self.segments@, 0);
                }
                return Some(i);
            }
            i += 1;
        }
        proof {
            lemma_first_cuttable_from(self.segments@, 0);
        }
        None
    }

    /// Advances the chain by one tick.
    ///
    /// First the armor step: when the countdown stands at zero and the first
    /// cuttable segment does not sit just before `neck`, the segment before it
    /// is released and the countdown starts anew; a countdown above zero goes
    /// down by one. Then the motion: the head moves to `head_position` with
    /// heading `head_angle`, and every other segment takes the place and the
    /// heading that its predecessor had before this call.
    pub fn update(&mut self, head_position: Vec2<S>, head_angle: S, neck: usize)
        requires
            old(self).wf(),
        ensures
            final(self)@ == advanced(old(self)@, head_position, head_angle, neck),
            final(self).wf(),
    {
        if self.armor_decay == 0 {
            match self.get_first_cuttable_index() {
                Some(index) => {
                    let stop: usize = if neck > 0 {
                        neck - 1
                    } else {
                        0
                    };
                    if index != stop {
                        let at: usize = if index > 0 {
                            index - 1
                        } else {
                            0
                        };
                        self.segments[at].cuttable = true;
                        self.armor_decay = ARMOR_DECAY_MAX_DELAY;
                    }
                },
                None => {},
            }
        } else {
            self.armor_decay = self.armor_decay - 1;
        }
        let ghost armored = self.segments@;
        let mut carried_position = head_position;
        let mut carried_angle = head_angle;
        let mut i: usize = 0;
        while i < self.segments.len()
            invariant
                i <= self.segments@.len(),
                self.segments@.len() == armored.len(),
                self.armor_decay == next_armor_decay(
                    old(self).segments@,
                    old(self).armor_decay,
                    neck,
                ),
                forall|k: int|
                    0 <= k < i ==> self.segments@[k] == trailed(armored, head_position, head_angle)[k],
                forall|k: int| i <= k < armored.len() ==> self.segments@[k] == armored[k],
                i == 0 ==> carried_position == head_position && carried_angle == head_angle,
                i > 0 ==> carried_position == armored[i - 1].position && carried_angle == armored[i
                    - 1].angle,
            decreases self.segments@.len() - i,
        {
            let current = self.segments[i];
            self.segments[i] = SnakeSegment {
                position: carried_position,
                angle: carried_angle,
                cuttable: current.cuttable,
            };
            carried_position = current.position;
            carried_angle = current.angle;
            i += 1;
        }
        assert(self.segments@ =~= trailed(armored, head_position, head_angle));
    }

    /// The segment off which a point bounces: the lowest index, the tail left
    /// out, at which `touched` holds `true`. `touched[i]` says whether the
    /// point lies within reach of segment `i`; an index that `touched` does
    /// not cover counts as out of reach. The point is then reflected about the
    /// line from that segment to the next.
    pub fn get_collision_reflection(&self, touched: &Vec<bool>) -> (r: Option<usize>)
        ensures
            match r {
                Some(i) => first_set(touched@, 0, self.segments@.len() - 1) == Some(i as int),
                None => first_set(touched@, 0, self.segments@.len() - 1).is_none(),
            },
            match r {
                Some(i) => i + 1 < self.segments@.len() && i < touched@.len() && touched@[i as int]
                    && forall|j: int| 0 <= j < i ==> !touched@[j],
                None => forall|j: int|
                    0 <= j < self.segments@.len() - 1 && j < touched@.len() ==> !touched@[j],
            },
    {
        let n = self.segments.len();
        let limit: usize = if n > 0 {
            n - 1
        } else {
            0
        };
        first_set_index(touched, 0, limit)
    }
}

} // verus!
