use crate::frame::{heading_degrees, Banner, DrawOp};
use crate::grid::{
    all_in_grid, grid_full, in_grid, is_empty_cell, lemma_cell_count, wrap_spec, Vector2D,
};
use crate::keys::{key_of, Key};
use vstd::prelude::*;

verus! {

/// Frames between simulation steps at the slowest speed.
pub const MIN_SPEED: u32 = 3;

/// Frames between simulation steps at the fastest speed.
pub const MAX_SPEED: u32 = 1;

/// How many key names are kept before further input is ignored.
pub const MAX_KEY_BUFF_LEN: usize = 3;

/// Apple target of a new engine.
pub const INITIAL_APPLES: usize = 5;

pub open spec fn is_unit(d: Vector2D) -> bool {
    ||| (d.x == 1 && d.y == 0)
    ||| (d.x == -1 && d.y == 0)
    ||| (d.x == 0 && d.y == 1)
    ||| (d.x == 0 && d.y == -1)
}

/// The apples are distinct cells of the grid, none of them under the snake.
pub open spec fn apples_ok(cols: int, rows: int, path: Seq<Vector2D>, apples: Seq<Vector2D>) -> bool {
    &&& apples.no_duplicates()
    &&& all_in_grid(apples, cols, rows)
    &&& forall|i: int| 0 <= i < apples.len() ==> !path.contains(#[trigger] apples[i])
}

/// `s` without the cell `c`, the last element taking its place.
pub open spec fn remove_cell(s: Seq<Vector2D>, c: Vector2D) -> Seq<Vector2D> {
    let i = choose|i: int| 0 <= i < s.len() && s[i] == c;
    s.update(i, s.last()).drop_last()
}

pub(crate) proof fn lemma_remove_cell(s: Seq<Vector2D>, c: Vector2D, i: int)
    requires
        s.no_duplicates(),
        0 <= i < s.len(),
        s[i] == c,
    ensures
        remove_cell(s, c) == s.update(i, s.last()).drop_last(),
        remove_cell(s, c).len() == s.len() - 1,
        remove_cell(s, c).no_duplicates(),
        forall|x: Vector2D| remove_cell(s, c).contains(x) <==> (s.contains(x) && x != c),
{
    let j = choose|j: int| 0 <= j < s.len() && s[j] == c;
    assert(j == i);
    let r = s.update(i, s.last()).drop_last();
    let n = s.len() - 1;
    assert forall|a: int, b: int| 0 <= a < b < r.len() implies r[a] != r[b] by {
        let ia = if a == i { n } else { a };
        let ib = if b == i { n } else { b };
        assert(r[a] == s[ia] && r[b] == s[ib]);
    }
    assert forall|x: Vector2D| r.contains(x) <==> (s.contains(x) && x != c) by {
        if r.contains(x) {
            let k = choose|k: int| 0 <= k < r.len() && r[k] == x;
            let ik = if k == i { n } else { k };
            assert(s[ik] == x);
        }
        if s.contains(x) && x != c {
            let k = choose|k: int| 0 <= k < s.len() && s[k] == x;
            if k == n {
                assert(r[i] == x);
            } else {
                assert(r[k] == x);
            }
        }
    }
}

/// A layout that an engine can start from: a grid that fits `i32`, a snake
/// of distinct cells on it, apples on other distinct cells, a unit heading.
pub open spec fn layout_ok(
    cols: int,
    rows: int,
    path: Seq<Vector2D>,
    direction: Vector2D,
    apples: Seq<Vector2D>,
) -> bool {
    &&& 0 < cols <= i32::MAX
    &&& 0 < rows <= i32::MAX
    &&& path.len() > 0
    &&& path.no_duplicates()
    &&& all_in_grid(path, cols, rows)
    &&& apples_ok(cols, rows, path, apples)
    &&& is_unit(direction)
}

/// The state of the engine, as plain values.
pub struct EngineView {
    pub cols: int,
    pub rows: int,
    pub focus_banner: bool,
    pub paused: bool,
    pub game_over: bool,
    pub won: bool,
    pub score: nat,
    pub keys: Seq<Seq<char>>,
    pub apples: Seq<Vector2D>,
    pub num_apples: nat,
    pub growing: bool,
    pub frames_between_updates: nat,
    pub frames_until_update: nat,
    pub direction: Vector2D,
    pub head_is_tail: bool,
    pub path: Seq<Vector2D>,
}

impl EngineView {
    pub open spec fn head(self) -> Vector2D {
        if self.head_is_tail {
            self.path.last()
        } else {
            self.path[0]
        }
    }

    pub open spec fn tail(self) -> Vector2D {
        if self.head_is_tail {
            self.path[0]
        } else {
            self.path.last()
        }
    }

    /// The engine's invariant: a non-empty snake of distinct cells on the
    /// grid, apples on other distinct cells, a unit heading, a speed between
    /// the fastest and the slowest, a bounded key buffer, and a score below
    /// the length the snake is about to reach.
    pub open spec fn wf(self) -> bool {
        &&& 0 < self.cols <= i32::MAX
        &&& 0 < self.rows <= i32::MAX
        &&& self.path.len() > 0
        &&& self.path.no_duplicates()
        &&& all_in_grid(self.path, self.cols, self.rows)
        &&& apples_ok(self.cols, self.rows, self.path, self.apples)
        &&& is_unit(self.direction)
        &&& MAX_SPEED <= self.frames_between_updates <= MIN_SPEED
        &&& self.keys.len() <= MAX_KEY_BUFF_LEN
        &&& self.num_apples <= usize::MAX
        &&& self.score < self.path.len() + if self.growing { 1int } else { 0int }
    }

    /// The countdown to the next step never exceeds the interval between steps.
    pub open spec fn countdown_ok(self) -> bool {
        self.frames_until_update <= self.frames_between_updates
    }

    pub open spec fn effectively_paused(self) -> bool {
        self.focus_banner || self.paused || self.game_over
    }

    pub open spec fn with_focus_banner(self, shown: bool) -> EngineView {
        EngineView { focus_banner: shown, ..self }
    }

    /// The key is queued unless the buffer is full.
    pub open spec fn with_key(self, k: Seq<char>) -> EngineView {
        if self.keys.len() < MAX_KEY_BUFF_LEN {
            EngineView { keys: self.keys.push(k), ..self }
        } else {
            self
        }
    }

    pub open spec fn without_first_key(self) -> EngineView {
        EngineView { keys: self.keys.drop_first(), ..self }
    }

    pub open spec fn reset_state(self) -> EngineView {
        EngineView {
            game_over: false,
            won: false,
            growing: false,
            path: seq![Vector2D { x: (self.cols / 2) as i32, y: (self.rows / 2) as i32 }],
            score: 0,
            apples: Seq::empty(),
            frames_between_updates: MIN_SPEED as nat,
            frames_until_update: MIN_SPEED as nat,
            ..self
        }
    }

    /// The first phase of a tick: a leading reset or pause key is acted on, and
    /// the buffer is emptied while the game is effectively paused.
    pub open spec fn pre_processed(self) -> EngineView {
        let s1 = if self.keys.len() > 0 {
            let k = key_of(self.keys[0]);
            if k == Key::Reset {
                self.without_first_key().reset_state()
            } else if k == Key::PauseResume {
                if self.game_over {
                    self.without_first_key().reset_state()
                } else {
                    EngineView { paused: !self.paused, ..self.without_first_key() }
                }
            } else {
                self
            }
        } else {
            self
        };
        if s1.effectively_paused() {
            EngineView { keys: Seq::empty(), ..s1 }
        } else {
            s1
        }
    }

    /// The effect of a gameplay key on the state.
    pub open spec fn apply_key(self, k: Key) -> EngineView {
        match k {
            Key::Up => EngineView { direction: Vector2D { x: 0, y: -1i32 }, ..self },
            Key::Down => EngineView { direction: Vector2D { x: 0, y: 1 }, ..self },
            Key::Right => EngineView { direction: Vector2D { x: 1, y: 0 }, ..self },
            Key::Left => EngineView { direction: Vector2D { x: -1i32, y: 0 }, ..self },
            Key::AddApple => EngineView {
                num_apples: if self.num_apples < usize::MAX {
                    self.num_apples + 1
                } else {
                    self.num_apples
                },
                ..self
            },
            Key::Reverse => EngineView { head_is_tail: !self.head_is_tail, ..self },
            Key::Slower => EngineView {
                frames_between_updates: if self.frames_between_updates + 1 < MIN_SPEED {
                    (self.frames_between_updates + 1) as nat
                } else {
                    MIN_SPEED as nat
                },
                ..self
            },
            Key::Faster => EngineView {
                frames_between_updates: if self.frames_between_updates - 1 > MAX_SPEED {
                    (self.frames_between_updates - 1) as nat
                } else {
                    MAX_SPEED as nat
                },
                ..self
            },
            _ => self,
        }
    }

    /// The front key is taken off the buffer and, unless the game is
    /// effectively paused, applied.
    pub open spec fn key_processed(self) -> EngineView {
        if self.keys.len() == 0 {
            self
        } else if self.without_first_key().effectively_paused() {
            self.without_first_key()
        } else {
            self.without_first_key().apply_key(key_of(self.keys[0]))
        }
    }

    /// The head moved one step in the current direction, wrapped around the edges.
    pub open spec fn next_head(self) -> Vector2D {
        Vector2D {
            x: wrap_spec(self.head().x + self.direction.x, self.cols) as i32,
            y: wrap_spec(self.head().y + self.direction.y, self.rows) as i32,
        }
    }

    /// The snake's move: blocked where the next cell is part of the snake,
    /// else the new head is added and, unless growing, the tail removed.
    pub open spec fn advanced(self) -> EngineView {
        let nh = self.next_head();
        if self.path.contains(nh) {
            self
        } else {
            let body = if self.growing {
                self.path
            } else if self.head_is_tail {
                self.path.drop_first()
            } else {
                self.path.drop_last()
            };
            let path = if self.head_is_tail {
                body.push(nh)
            } else {
                seq![nh] + body
            };
            EngineView { path, growing: false, ..self }
        }
    }

    /// An apple on cell `c` is eaten: the snake will grow and the score rises.
    pub open spec fn eat_at(self, c: Vector2D) -> EngineView {
        if self.apples.contains(c) {
            EngineView {
                apples: remove_cell(self.apples, c),
                growing: true,
                score: self.score + 1,
                ..self
            }
        } else {
            self
        }
    }

    /// The deterministic part of a simulation step: the move, then the apple
    /// on the step's target cell is eaten.
    pub open spec fn stepped(self) -> EngineView {
        self.advanced().eat_at(self.next_head())
    }

    /// The apples after replenishment, and the game won when none is left.
    pub open spec fn settled(self, apples: Seq<Vector2D>) -> EngineView {
        EngineView {
            apples,
            game_over: self.game_over || apples.len() == 0,
            won: self.won || apples.len() == 0,
            ..self
        }
    }

    /// Apples are added on empty cells, after the existing ones, until the
    /// target is met or no empty cell remains.
    pub open spec fn replenished(self, apples: Seq<Vector2D>) -> bool {
        &&& self.apples.len() <= apples.len()
        &&& apples.subrange(0, self.apples.len() as int) == self.apples
        &&& apples_ok(self.cols, self.rows, self.path, apples)
        &&& if self.apples.len() >= self.num_apples {
            apples.len() == self.apples.len()
        } else {
            &&& apples.len() <= self.num_apples
            &&& apples.len() == self.num_apples || grid_full(self.cols, self.rows, self.path, apples)
        }
    }

    /// `post` is a possible outcome of one simulation step from `self`.
    pub open spec fn update_ok(self, post: EngineView) -> bool {
        &&& self.stepped().replenished(post.apples)
        &&& post == self.stepped().settled(post.apples)
    }

    pub open spec fn with_countdown(self, n: nat) -> EngineView {
        EngineView { frames_until_update: n, ..self }
    }

    /// `post` is a possible state after one frame from `self`: keys are
    /// pre-processed; unless effectively paused, a step (front key, then
    /// update) runs when the countdown is at zero and reloads it with the
    /// interval between steps, and otherwise the countdown goes down by one.
    pub open spec fn tick_ok(self, post: EngineView) -> bool {
        let p = self.pre_processed();
        if p.effectively_paused() {
            post == p
        } else if p.frames_until_update == 0 {
            let q = p.key_processed();
            &&& q.update_ok(post.with_countdown(q.frames_until_update))
            &&& post.frames_until_update == q.frames_between_updates
        } else {
            post == p.with_countdown((p.frames_until_update - 1) as nat)
        }
    }

    pub open spec fn banner(self) -> Option<Banner> {
        if self.paused {
            Some(Banner::Paused)
        } else if self.game_over {
            if self.won {
                Some(Banner::YouWon)
            } else {
                Some(Banner::GameOver)
            }
        } else if self.focus_banner {
            Some(Banner::LostFocus)
        } else {
            None
        }
    }

    /// The drawing of a frame: background, apples, body, tail, head with its
    /// heading, then at most one banner.
    pub open spec fn frame(self) -> Seq<DrawOp> {
        let banner = match self.banner() {
            Some(b) => seq![DrawOp::Banner(b)],
            None => Seq::empty(),
        };
        seq![DrawOp::Clear]
            + self.apples.map_values(|a: Vector2D| DrawOp::Apple(a))
            + self.path.map_values(|c: Vector2D| DrawOp::Body(c))
            + seq![DrawOp::Tail(self.tail()), DrawOp::Head(self.head(), heading_degrees(self.direction))]
            + banner
    }
}

pub(crate) proof fn lemma_advanced_wf(s: EngineView)
    requires
        s.wf(),
    ensures
        in_grid(s.next_head(), s.cols, s.rows),
        s.path.contains(s.next_head()) ==> s.advanced() == s,
        !s.path.contains(s.next_head()) ==> !s.advanced().growing,
        s.advanced().path.len() > 0,
        s.advanced().path.no_duplicates(),
        all_in_grid(s.advanced().path, s.cols, s.rows),
        forall|x: Vector2D| #[trigger] s.advanced().path.contains(x) ==> s.path.contains(x) || x == s.next_head(),
        s.advanced().score < s.advanced().path.len() + if s.advanced().growing { 1int } else { 0int },
{
    let nh = s.next_head();
    let h = s.head();
    assert(in_grid(h, s.cols, s.rows)) by {
        if s.head_is_tail {
            assert(in_grid(s.path[s.path.len() - 1], s.cols, s.rows));
        } else {
            assert(in_grid(s.path[0], s.cols, s.rows));
        }
    }
    if !s.path.contains(nh) {
        let body = if s.growing {
            s.path
        } else if s.head_is_tail {
            s.path.drop_first()
        } else {
            s.path.drop_last()
        };
        let off: int = if !s.growing && s.head_is_tail { 1 } else { 0 };
        assert forall|k: int| 0 <= k < body.len() implies body[k] == s.path[k + off] by {}
        let p = s.advanced().path;
        let poff: int = if s.head_is_tail { 0 } else { 1 };
        let hidx: int = if s.head_is_tail { body.len() as int } else { 0 };
        assert(p.len() == body.len() + 1);
        assert(p[hidx] == nh);
        assert forall|k: int| 0 <= k < p.len() && k != hidx implies p[k] == s.path[k - poff + off] by {}
        assert forall|a: int, b: int| 0 <= a < b < p.len() implies p[a] != p[b] by {
            if a != hidx && b != hidx {
                assert(p[a] == s.path[a - poff + off]);
                assert(p[b] == s.path[b - poff + off]);
            } else if a == hidx {
                assert(p[b] == s.path[b - poff + off]);
            } else {
                assert(p[a] == s.path[a - poff + off]);
            }
        }
        assert forall|k: int| 0 <= k < p.len() implies #[trigger] in_grid(p[k], s.cols, s.rows) by {
            if k != hidx {
                assert(p[k] == s.path[k - poff + off]);
            }
        }
        assert forall|x: Vector2D| #[trigger] p.contains(x) implies s.path.contains(x) || x == nh by {
            let k = choose|k: int| 0 <= k < p.len() && p[k] == x;
            if k != hidx {
                assert(p[k] == s.path[k - poff + off]);
            }
        }
    }
}

pub(crate) proof fn lemma_stepped_wf(s: EngineView)
    requires
        s.wf(),
    ensures
        s.stepped().wf(),
{
    lemma_advanced_wf(s);
    let nh = s.next_head();
    let a = s.advanced();
    let t = s.stepped();
    if s.apples.contains(nh) {
        let i = choose|i: int| 0 <= i < s.apples.len() && s.apples[i] == nh;
        assert(!s.path.contains(s.apples[i]));
        lemma_remove_cell(s.apples, nh, i);
        assert forall|k: int| 0 <= k < t.apples.len() implies #[trigger] in_grid(t.apples[k], s.cols, s.rows)
            && !t.path.contains(t.apples[k]) by {
            assert(t.apples.contains(t.apples[k]));
            let j = choose|j: int| 0 <= j < s.apples.len() && s.apples[j] == t.apples[k];
            assert(in_grid(s.apples[j], s.cols, s.rows));
            assert(!s.path.contains(s.apples[j]));
        }
    } else {
        assert forall|k: int| 0 <= k < t.apples.len() implies !t.path.contains(#[trigger] t.apples[k]) by {
            assert(!s.path.contains(s.apples[k]));
            assert(s.apples.contains(s.apples[k]));
        }
    }
}

pub(crate) proof fn lemma_push_apple(cols: int, rows: int, path: Seq<Vector2D>, apples: Seq<Vector2D>, c: Vector2D)
    requires
        apples_ok(cols, rows, path, apples),
        is_empty_cell(cols, rows, path, apples, c),
    ensures
        apples_ok(cols, rows, path, apples.push(c)),
{
    let r = apples.push(c);
    assert forall|a: int, b: int| 0 <= a < b < r.len() implies r[a] != r[b] by {
        if b == apples.len() {
            assert(apples.contains(r[a]));
        }
    }
    assert forall|k: int| 0 <= k < r.len() implies #[trigger] in_grid(r[k], cols, rows)
        && !path.contains(r[k]) by {
        if k < apples.len() {
            assert(r[k] == apples[k]);
        }
    }
}

proof fn lemma_concat_contains(a: Seq<Vector2D>, b: Seq<Vector2D>, c: Vector2D)
    ensures
        (a + b).contains(c) <==> a.contains(c) || b.contains(c),
{
    let u = a + b;
    if u.contains(c) {
        let k = choose|k: int| 0 <= k < u.len() && u[k] == c;
        if k < a.len() {
            assert(a[k] == c);
        } else {
            assert(b[k - a.len()] == c);
        }
    }
    if a.contains(c) {
        let k = choose|k: int| 0 <= k < a.len() && a[k] == c;
        assert(u[k] == c);
    }
    if b.contains(c) {
        let k = choose|k: int| 0 <= k < b.len() && b[k] == c;
        assert(u[k + a.len()] == c);
    }
}

/// The snake and the apples never take more cells than the grid has, and
/// they take all of them exactly when the grid is full.
pub proof fn lemma_occupied_count(cols: int, rows: int, path: Seq<Vector2D>, apples: Seq<Vector2D>)
    requires
        0 < cols <= i32::MAX,
        0 < rows <= i32::MAX,
        path.no_duplicates(),
        all_in_grid(path, cols, rows),
        apples_ok(cols, rows, path, apples),
    ensures
        path.len() + apples.len() <= cols * rows,
        grid_full(cols, rows, path, apples) <==> path.len() + apples.len() == cols * rows,
{
    let u = path + apples;
    assert forall|i: int, j: int| 0 <= i < path.len() && 0 <= j < apples.len() implies path[i] != apples[j] by {
        assert(!path.contains(apples[j]));
    }
    vstd::seq_lib::lemma_no_dup_in_concat(path, apples);
    assert forall|k: int| 0 <= k < u.len() implies #[trigger] in_grid(u[k], cols, rows) by {
        if k < path.len() {
            assert(in_grid(path[k], cols, rows));
        } else {
            assert(in_grid(apples[k - path.len()], cols, rows));
        }
    }
    lemma_cell_count(u, cols, rows);
    if grid_full(cols, rows, path, apples) {
        assert forall|c: Vector2D| in_grid(c, cols, rows) implies #[trigger] u.contains(c) by {
            assert(!is_empty_cell(cols, rows, path, apples, c));
            lemma_concat_contains(path, apples, c);
        }
    } else {
        let c = choose|c: Vector2D| is_empty_cell(cols, rows, path, apples, c);
        lemma_concat_contains(path, apples, c);
        let v = u.push(c);
        assert forall|i: int, j: int| 0 <= i < j < v.len() implies v[i] != v[j] by {
            if j == u.len() {
                assert(u.contains(v[i]));
            } else {
                assert(v[i] == u[i] && v[j] == u[j]);
            }
        }
        assert forall|k: int| 0 <= k < v.len() implies #[trigger] in_grid(v[k], cols, rows) by {
            if k < u.len() {
                assert(in_grid(u[k], cols, rows));
            }
        }
        lemma_cell_count(v, cols, rows);
    }
}

/// Replenishment from at most the target leaves as many apples as the target
/// or as the free cells allow, whichever is fewer.
pub proof fn lemma_replenished_count(pre: EngineView, apples: Seq<Vector2D>)
    requires
        pre.wf(),
        pre.apples.len() <= pre.num_apples,
        pre.replenished(apples),
    ensures
        apples.len() == if pre.num_apples <= pre.cols * pre.rows - pre.path.len() {
            pre.num_apples as int
        } else {
            pre.cols * pre.rows - pre.path.len()
        },
{
    lemma_occupied_count(pre.cols, pre.rows, pre.path, apples);
}

} // verus!
