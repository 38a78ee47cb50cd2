//! The game: one snake, the food on the board, the score and the terminal flag.
use vstd::prelude::*;
use crate::food::{generate_random_items, valid_batch, valid_food, FoodItem};
use crate::geometry::{aligned, can_step, in_arena, is_in_arena, stepped, Direction, Point, HEIGHT, UNIT, WIDTH};
use crate::snake::{advanced, can_advance, initial_body, moved_segment, start_position, Segment, Snake};

verus! {

/// The length of the snake at the start of a game.
pub const START_LENGTH: i32 = 3;

/// What the player can ask for.
#[derive(Clone, Copy, Debug, PartialEq, Eq, Structural)]
pub enum Input {
    Up,
    Right,
    Left,
    Down,
    Restart,
    /// Any other key; it is ignored.
    Other,
}

/// The whole state of one game.
pub struct Game {
    pub snake: Snake,
    pub items: Vec<FoodItem>,
    pub score: u32,
    pub is_game_over: bool,
    /// The generator that places new food.
    pub rng: rand::rngs::StdRng,
}

/// `p` lies in the arena or one cell around it: where a segment can be.
pub open spec fn near_arena(p: Point) -> bool {
    -UNIT <= p.x <= WIDTH + UNIT && -UNIT <= p.y <= HEIGHT + UNIT
}

/// A body that the game can produce: not empty, each segment one step behind
/// its predecessor along its own heading, all on grid cells near the arena.
pub open spec fn body_ok(s: Seq<Segment>) -> bool {
    &&& s.len() > 0
    &&& forall|i: int| 1 <= i < s.len() ==> stepped(#[trigger] s[i].pos, s[i].dir) == s[i - 1].pos
    &&& forall|i: int| 0 <= i < s.len() ==> near_arena(#[trigger] s[i].pos) && aligned(s[i].pos)
}

/// Food `i` is the first one lying on `p`.
pub open spec fn is_first_food_at(items: Seq<FoodItem>, p: Point, i: int) -> bool {
    &&& 0 <= i < items.len()
    &&& items[i].pos == p
    &&& forall|j: int| 0 <= j < i ==> (#[trigger] items[j]).pos != p
}

/// Some food lies on `p`.
pub open spec fn has_food_at(items: Seq<FoodItem>, p: Point) -> bool {
    exists|i: int| 0 <= i < items.len() && (#[trigger] items[i]).pos == p
}

/// The food left once the head at `p` has eaten: the first item on `p` is
/// gone, the others stay in order.
pub open spec fn food_left(items: Seq<FoodItem>, p: Point) -> Seq<FoodItem> {
    if has_food_at(items, p) {
        items.remove(choose|i: int| is_first_food_at(items, p, i))
    } else {
        items
    }
}

/// The index of the first food item on `p`, if any.
pub fn find_food(items: &Vec<FoodItem>, p: Point) -> (r: Option<usize>)
    ensures
        r is None <==> !has_food_at(items@, p),
        r matches Some(i) ==> is_first_food_at(items@, p, i as int),
{
    let mut i: usize = 0;
    while i < items.len()
        invariant
            0 <= i <= items@.len(),
            forall|j: int| 0 <= j < i ==> (#[trigger] items@[j]).pos != p,
        decreases items@.len() - i,
    {
        if items[i].pos == p {
            return Some(i);
        }
        i = i + 1;
    }
    None
}

/// One tick keeps a consistent body consistent, as long as the head starts
/// inside the arena.
proof fn lemma_advance_keeps_body(s: Seq<Segment>, grow: bool)
    requires
        body_ok(s),
        in_arena(s[0].pos),
    ensures
        can_advance(s),
        body_ok(advanced(s, grow)),
{
    assert forall|i: int| 0 <= i < s.len() implies can_step(#[trigger] s[i].pos, s[i].dir) by {
        assert(near_arena(s[i].pos));
    }
    let t = advanced(s, grow);
    assert forall|i: int| 0 <= i < s.len() implies #[trigger] t[i] == moved_segment(s, i) by {}
    assert forall|i: int| 0 <= i < t.len() implies near_arena(#[trigger] t[i].pos) && aligned(t[i].pos) by {
        if i == 0 {
            assert(aligned(s[0].pos));
        } else if i < s.len() {
            assert(stepped(s[i].pos, s[i].dir) == s[i - 1].pos);
        } else {
            assert(t[i] == s[s.len() - 1]);
        }
    }
    assert forall|i: int| 1 <= i < t.len() implies stepped(#[trigger] t[i].pos, t[i].dir) == t[i - 1].pos by {
        if i < s.len() {
            assert(stepped(s[i].pos, s[i].dir) == s[i - 1].pos);
            if i > 1 {
                assert(stepped(s[i - 1].pos, s[i - 1].dir) == s[i - 2].pos);
            }
        } else {
            assert(t[i] == s[s.len() - 1]);
        }
    }
}

/// The first food item on `p`, when there is one, is the one `choose` picks.
proof fn lemma_first_food_unique(items: Seq<FoodItem>, p: Point, i: int)
    requires
        is_first_food_at(items, p, i),
    ensures
        has_food_at(items, p),
        food_left(items, p) == items.remove(i),
{
    assert(items[i].pos == p);
    let k = choose|k: int| is_first_food_at(items, p, k);
    assert(is_first_food_at(items, p, k));
    if k < i {
        assert(items[k].pos != p);
    } else if i < k {
        assert(items[i].pos != p);
    }
}

impl Game {
    /// The consistency that every game started by `create` or `restart`
    /// keeps through ticks and keys: a body where each segment is one step
    /// behind its predecessor, near the arena, and food on grid cells inside
    /// the arena. The operations do not ask for it; they keep it.
    pub open spec fn wf(&self) -> bool {
        &&& body_ok(self.snake@)
        &&& forall|i: int| 0 <= i < self.items@.len() ==> valid_food(#[trigger] self.items@[i].pos)
    }

    /// The state right after a start or a restart.
    pub open spec fn is_fresh(&self) -> bool {
        &&& self.snake@ == initial_body(START_LENGTH as nat)
        &&& self.score == 0
        &&& !self.is_game_over
        &&& valid_batch(self.items@)
    }

    /// Where the head stands, in a game that satisfies the invariant.
    pub open spec fn head_pos(&self) -> Point {
        self.snake@[0].pos
    }
}

/// A new body satisfies the body invariant.
proof fn lemma_initial_body_ok()
    ensures
        body_ok(initial_body(START_LENGTH as nat)),
{
    let s = initial_body(START_LENGTH as nat);
    assert(s[0].pos == start_position(0));
    assert(s[1].pos == start_position(1));
    assert(s[2].pos == start_position(2));
}

impl Game {
    /// A fresh game: score 0, running, a snake of `START_LENGTH` segments at
    /// the start position heading up, and a new batch of food drawn from `rng`.
    pub fn create(rng: rand::rngs::StdRng) -> (r: Game)
        ensures
            r.wf(),
            r.is_fresh(),
            r.snake@.len() == START_LENGTH,
            r.head_pos() == start_position(0),
    {
        let mut rng = rng;
        let items = generate_random_items(&mut rng);
        proof {
            lemma_initial_body_ok();
        }
        Game { snake: Snake::new(START_LENGTH), items, score: 0, is_game_over: false, rng }
    }

    /// Starts over: the state becomes that of a fresh game, the generator
    /// going on from where it was.
    pub fn restart(&mut self)
        ensures
            final(self).wf(),
            final(self).is_fresh(),
            final(self).snake@.len() == START_LENGTH,
            final(self).head_pos() == start_position(0),
    {
        self.snake = Snake::new(START_LENGTH);
        self.items = generate_random_items(&mut self.rng);
        self.score = 0;
        self.is_game_over = false;
        proof {
            lemma_initial_body_ok();
        }
    }

    /// Checks the invariant of a game whose fields were set from outside.
    pub fn is_well_formed(&self) -> (r: bool)
        ensures
            r == self.wf(),
    {
        let n = self.snake.segments.len();
        if n == 0 {
            return false;
        }
        let mut i: usize = 0;
        while i < n
            invariant
                n == self.snake@.len(),
                0 <= i <= n,
                forall|j: int| 1 <= j < i ==> stepped(#[trigger] self.snake@[j].pos, self.snake@[j].dir) == self.snake@[j - 1].pos,
                forall|j: int| 0 <= j < i ==> near_arena(#[trigger] self.snake@[j].pos) && aligned(self.snake@[j].pos),
            decreases n - i,
        {
            let seg = self.snake.segments[i];
            if !(-UNIT <= seg.pos.x && seg.pos.x <= WIDTH + UNIT && -UNIT <= seg.pos.y && seg.pos.y <= HEIGHT + UNIT) {
                return false;
            }
            if seg.pos.x % UNIT != 0 || seg.pos.y % UNIT != 0 {
                return false;
            }
            if i > 0 {
                let (dx, dy) = seg.dir.delta();
                let prev = self.snake.segments[i - 1].pos;
                if seg.pos.x + dx != prev.x || seg.pos.y + dy != prev.y {
                    return false;
                }
            }
            i = i + 1;
        }
        let m = self.items.len();
        let mut k: usize = 0;
        while k < m
            invariant
                m == self.items@.len(),
                0 <= k <= m,
                forall|j: int| 0 <= j < k ==> valid_food(#[trigger] self.items@[j].pos),
            decreases m - k,
        {
            let p = self.items[k].pos;
            if !is_in_arena(p) || p.x % UNIT != 0 || p.y % UNIT != 0 {
                return false;
            }
            k = k + 1;
        }
        true
    }
}

impl Game {
    /// One tick. A finished game stays as it is. Otherwise the first food
    /// item under the head is eaten (score up by one, the snake to grow);
    /// then a head outside the arena ends the game with the body where it
    /// was, and a head inside lets a new batch of food appear if none is left
    /// and moves the snake one step.
    pub fn update(&mut self)
        requires
            old(self).snake@.len() > 0,
            !old(self).is_game_over && in_arena(old(self).head_pos()) ==> can_advance(old(self).snake@),
            !old(self).is_game_over && has_food_at(old(self).items@, old(self).head_pos())
                ==> old(self).score < u32::MAX,
        ensures
            old(self).wf() ==> final(self).wf(),
            old(self).is_game_over ==> {
                &&& final(self).is_game_over
                &&& final(self).snake@ == old(self).snake@
                &&& final(self).items@ == old(self).items@
                &&& final(self).score == old(self).score
                &&& final(self).rng == old(self).rng
            },
            !old(self).is_game_over ==> {
                let head = old(self).head_pos();
                let ate = has_food_at(old(self).items@, head);
                let rest = food_left(old(self).items@, head);
                &&& final(self).score == old(self).score + if ate { 1int } else { 0int }
                &&& !in_arena(head) ==> {
                    &&& final(self).is_game_over
                    &&& final(self).snake@ == old(self).snake@
                    &&& final(self).items@ == rest
                }
                &&& in_arena(head) ==> {
                    &&& !final(self).is_game_over
                    &&& final(self).snake@ == advanced(old(self).snake@, ate)
                    &&& rest.len() > 0 ==> final(self).items@ == rest
                    &&& rest.len() == 0 ==> valid_batch(final(self).items@)
                }
            },
            // a tick that meets no food inside the arena keeps length and score
            !has_food_at(old(self).items@, old(self).head_pos()) && in_arena(old(self).head_pos()) ==> {
                &&& final(self).snake@.len() == old(self).snake@.len()
                &&& final(self).score == old(self).score
            },
            // a running game whose head meets food inside the arena scores
            // one, eats one item and grows by one segment
            !old(self).is_game_over && has_food_at(old(self).items@, old(self).head_pos())
                && in_arena(old(self).head_pos()) ==> {
                &&& final(self).score == old(self).score + 1
                &&& final(self).snake@.len() == old(self).snake@.len() + 1
                &&& old(self).items@.len() >= 2 ==> final(self).items@.len() == old(self).items@.len() - 1
                &&& old(self).items@.len() == 1 ==> valid_batch(final(self).items@)
            },
            // a head outside the arena ends the game and nothing moves
            !in_arena(old(self).head_pos()) ==> {
                &&& final(self).is_game_over
                &&& final(self).snake@ == old(self).snake@
            },
    {
        if self.is_game_over {
            return;
        }
        let head = self.snake.head();
        let found = find_food(&self.items, head);
        let grow = found.is_some();
        let ghost items0 = self.items@;
        if let Some(i) = found {
            proof {
                lemma_first_food_unique(items0, head, i as int);
                items0.remove_ensures(i as int);
            }
            self.score = self.score + 1;
            self.items.remove(i);
        }
        assert(self.items@ == food_left(items0, head));
        assert forall|j: int| 0 <= j < self.items@.len() && old(self).wf() implies valid_food(#[trigger] self.items@[j].pos) by {
            if let Some(i) = found {
                if j < i {
                    assert(self.items@[j] == items0[j]);
                } else {
                    assert(self.items@[j] == items0[j + 1]);
                }
            } else {
                assert(self.items@[j] == items0[j]);
            }
        }
        if !is_in_arena(head) {
            self.is_game_over = true;
        } else {
            if self.items.len() == 0 {
                self.items = generate_random_items(&mut self.rng);
            }
            proof {
                if old(self).wf() {
                    lemma_advance_keeps_body(self.snake@, grow);
                }
            }
            self.snake.advance(grow);
        }
    }

    /// Applies one input: an arrow points the head that way, `Restart` starts
    /// a fresh game, anything else is ignored.
    pub fn keypress(&mut self, input: Input)
        requires
            (input is Up || input is Right || input is Left || input is Down) ==> old(self).snake@.len() > 0,
        ensures
            old(self).wf() ==> final(self).wf(),
            input == Input::Restart ==> {
                &&& final(self).wf()
                &&& final(self).is_fresh()
                &&& final(self).snake@.len() == START_LENGTH
                &&& final(self).head_pos() == start_position(0)
            },
            input != Input::Restart ==> {
                &&& final(self).items@ == old(self).items@
                &&& final(self).score == old(self).score
                &&& final(self).is_game_over == old(self).is_game_over
                &&& final(self).rng == old(self).rng
            },
            input == Input::Other ==> final(self).snake@ == old(self).snake@,
            input matches Input::Up ==> final(self).snake@ == turned(old(self).snake@, Direction::Up),
            input matches Input::Right ==> final(self).snake@ == turned(old(self).snake@, Direction::Right),
            input matches Input::Left ==> final(self).snake@ == turned(old(self).snake@, Direction::Left),
            input matches Input::Down ==> final(self).snake@ == turned(old(self).snake@, Direction::Down),
    {
        match input {
            Input::Up => self.turn(Direction::Up),
            Input::Right => self.turn(Direction::Right),
            Input::Left => self.turn(Direction::Left),
            Input::Down => self.turn(Direction::Down),
            Input::Restart => self.restart(),
            Input::Other => {},
        }
    }

    /// Points the head towards `d`.
    fn turn(&mut self, d: Direction)
        requires
            old(self).snake@.len() > 0,
        ensures
            old(self).wf() ==> final(self).wf(),
            final(self).snake@ == turned(old(self).snake@, d),
            final(self).items@ == old(self).items@,
            final(self).score == old(self).score,
            final(self).is_game_over == old(self).is_game_over,
            final(self).rng == old(self).rng,
    {
        self.snake.set_head_direction(d);
        assert(forall|i: int| 1 <= i < self.snake@.len() ==> #[trigger] self.snake@[i] == old(self).snake@[i]);
    }
}

/// The body with the head pointed towards `d`.
pub open spec fn turned(s: Seq<Segment>, d: Direction) -> Seq<Segment> {
    s.update(0, Segment { pos: s[0].pos, dir: d })
}

} // verus!
