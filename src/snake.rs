//! The snake: an ordered body of segments, head first.
use vstd::prelude::*;
use crate::geometry::{can_step, step, stepped, Direction, Point, HEIGHT, UNIT};

verus! {

/// One grid cell of the body, with the heading it moves along.
#[derive(Clone, Copy, Debug, PartialEq, Eq, Structural)]
pub struct Segment {
    pub pos: Point,
    pub dir: Direction,
}

/// The body of the snake; index 0 is the head.
pub struct Snake {
    pub segments: Vec<Segment>,
}

impl View for Snake {
    type V = Seq<Segment>;

    open spec fn view(&self) -> Seq<Segment> {
        self.segments@
    }
}

/// The column of the head at the start.
pub const START_X: i32 = UNIT;

/// The row of the head at the start: the lowest row of the arena.
pub const START_Y: i32 = HEIGHT - UNIT;

/// Where segment `i` of a new snake stands: in a column below the head.
pub open spec fn start_position(i: int) -> Point {
    Point { x: START_X, y: (START_Y + i * UNIT) as i32 }
}

/// A new body of `length` segments, all heading up.
pub open spec fn initial_body(length: nat) -> Seq<Segment> {
    Seq::new(length, |i: int| Segment { pos: start_position(i), dir: Direction::Up })
}

/// Every segment can take its next step without leaving `i32`.
pub open spec fn can_advance(s: Seq<Segment>) -> bool {
    forall|i: int| 0 <= i < s.len() ==> can_step(#[trigger] s[i].pos, s[i].dir)
}

/// Segment `i` after one step: moved along its own heading, and then taking
/// the heading its predecessor had before the step (the head keeps its own).
pub open spec fn moved_segment(s: Seq<Segment>, i: int) -> Segment {
    Segment {
        pos: stepped(s[i].pos, s[i].dir),
        dir: if i == 0 { s[0].dir } else { s[i - 1].dir },
    }
}

/// The body after one step; when `grow` holds, a new tail stands where the
/// old tail was, with the heading it had.
pub open spec fn advanced(s: Seq<Segment>, grow: bool) -> Seq<Segment> {
    let moved = Seq::new(s.len(), |i: int| moved_segment(s, i));
    if grow && s.len() > 0 {
        moved.push(s.last())
    } else {
        moved
    }
}

impl Snake {
    /// A snake of `length` segments (none when `length` is not positive), head
    /// at the start position, the rest below it, all heading up.
    pub fn new(length: i32) -> (r: Snake)
        requires
            START_Y + (length - 1) * UNIT <= i32::MAX,
        ensures
            r@ == initial_body(if length > 0 { length as nat } else { 0 }),
    {
        let mut segments: Vec<Segment> = Vec::new();
        let mut i: i32 = 0;
        while i < length
            invariant
                0 <= i,
                length > 0 ==> i <= length,
                length <= 0 ==> i == 0,
                START_Y + (length - 1) * UNIT <= i32::MAX,
                segments@ == initial_body(i as nat),
            decreases length - i,
        {
            let seg = Segment { pos: Point { x: START_X, y: START_Y + i * UNIT }, dir: Direction::Up };
            segments.push(seg);
            assert(segments@ =~= initial_body((i + 1) as nat));
            i = i + 1;
        }
        Snake { segments }
    }

    /// The number of segments.
    pub fn len(&self) -> (r: usize)
        ensures
            r == self@.len(),
    {
        self.segments.len()
    }

    /// Where the head stands.
    pub fn head(&self) -> (r: Point)
        requires
            self@.len() > 0,
        ensures
            r == self@[0].pos,
    {
        self.segments[0].pos
    }

    /// Points the head towards `d`; the rest of the body is untouched.
    pub fn set_head_direction(&mut self, d: Direction)
        requires
            old(self)@.len() > 0,
        ensures
            final(self)@ == old(self)@.update(0, Segment { pos: old(self)@[0].pos, dir: d }),
    {
        let pos = self.segments[0].pos;
        self.segments.set(0, Segment { pos, dir: d });
    }

    /// Moves every segment one step along its heading, hands each heading one
    /// segment back, and with `grow` appends a tail where the old tail was.
    /// An empty body stays empty.
    pub fn advance(&mut self, grow: bool)
        requires
            can_advance(old(self)@),
        ensures
            final(self)@ == advanced(old(self)@, grow),
    {
        let ghost s0 = self@;
        let n = self.segments.len();
        if n == 0 {
            assert(self@ =~= advanced(s0, grow));
            return;
        }
        let tail = self.segments[n - 1];
        let mut prev_dir = self.segments[0].dir;
        let mut i: usize = 0;
        while i < n
            invariant
                n == self@.len(),
                n == s0.len(),
                n > 0,
                can_advance(s0),
                0 <= i <= n,
                forall|j: int| 0 <= j < i ==> #[trigger] self@[j] == moved_segment(s0, j),
                forall|j: int| i <= j < n ==> #[trigger] self@[j] == s0[j],
                i > 0 ==> prev_dir == s0[i - 1].dir,
                tail == s0[n - 1],
            decreases n - i,
        {
            let seg = self.segments[i];
            assert(can_step(s0[i as int].pos, s0[i as int].dir));
            let new_dir = if i == 0 { seg.dir } else { prev_dir };
            self.segments.set(i, Segment { pos: step(seg.pos, seg.dir), dir: new_dir });
            prev_dir = seg.dir;
            i = i + 1;
        }
        if grow {
            self.segments.push(tail);
        }
        assert(self@ =~= advanced(s0, grow));
    }
}

} // verus!
