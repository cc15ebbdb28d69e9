use crate::frame::{head_angle, Banner, DrawOp};
use crate::grid::{
    cells_disjoint, cells_in_grid, contains_cell, distinct_cells, get_empty_squares, grid_full,
    in_grid, is_empty_cell, position_of, wrap, Vector2D,
};
use crate::keys::{classify_key, Key};
use crate::model::{
    apples_ok, layout_ok, lemma_advanced_wf, lemma_push_apple, lemma_remove_cell,
    lemma_stepped_wf, EngineView, INITIAL_APPLES, MAX_KEY_BUFF_LEN, MAX_SPEED, MIN_SPEED,
};
use crate::rng::{choose_cell, thread_rng};
use std::collections::VecDeque;
use vstd::prelude::*;

verus! {

/// The snake engine: grid, snake, apples, key buffer, speed and mode flags.
pub struct Inner {
    num_squares_x: i32,
    num_squares_y: i32,
    should_show_focus_banner: bool,
    is_paused: bool,
    is_game_over: bool,
    did_win: bool,
    score: usize,
    key_buff: VecDeque<String>,
    apples: Vec<Vector2D>,
    num_apples: usize,
    is_growing: bool,
    frames_between_updates: u32,
    frames_until_update: u32,
    head_direction: Vector2D,
    head_is_tail: bool,
    path: VecDeque<Vector2D>,
    rng: rand::rngs::ThreadRng,
}

impl View for Inner {
    type V = EngineView;

    closed spec fn view(&self) -> EngineView {
        EngineView {
            cols: self.num_squares_x as int,
            rows: self.num_squares_y as int,
            focus_banner: self.should_show_focus_banner,
            paused: self.is_paused,
            game_over: self.is_game_over,
            won: self.did_win,
            score: self.score as nat,
            keys: self.key_buff@.map_values(|k: String| k@),
            apples: self.apples@,
            num_apples: self.num_apples as nat,
            growing: self.is_growing,
            frames_between_updates: self.frames_between_updates as nat,
            frames_until_update: self.frames_until_update as nat,
            direction: self.head_direction,
            head_is_tail: self.head_is_tail,
            path: self.path@,
        }
    }
}

impl Inner {
    /// A new game on a `num_cols` by `num_rows` grid: running, the snake one
    /// random cell long and heading right, no apples yet, at the slowest speed.
    pub fn new(num_cols: u32, num_rows: u32) -> (r: Inner)
        requires
            0 < num_cols <= i32::MAX,
            0 < num_rows <= i32::MAX,
        ensures
            r@.wf(),
            r@.countdown_ok(),
            r@.cols == num_cols,
            r@.rows == num_rows,
            !r@.focus_banner && !r@.paused && !r@.game_over && !r@.won,
            r@.score == 0,
            r@.keys.len() == 0,
            r@.apples.len() == 0,
            r@.num_apples == INITIAL_APPLES,
            !r@.growing,
            r@.frames_between_updates == MIN_SPEED,
            r@.frames_until_update == 0,
            r@.direction == (Vector2D { x: 1, y: 0 }),
            r@.head_is_tail,
            r@.path.len() == 1,
    {
        let mut inner = Inner {
            num_squares_x: num_cols as i32,
            num_squares_y: num_rows as i32,
            should_show_focus_banner: false,
            is_paused: false,
            is_game_over: false,
            did_win: false,
            score: 0,
            key_buff: VecDeque::with_capacity(MAX_KEY_BUFF_LEN),
            apples: Vec::new(),
            num_apples: INITIAL_APPLES,
            is_growing: false,
            frames_between_updates: MIN_SPEED,
            frames_until_update: 0,
            head_direction: Vector2D { x: 1, y: 0 },
            head_is_tail: true,
            path: VecDeque::new(),
            rng: thread_rng(),
        };
        proof {
            let origin = Vector2D { x: 0, y: 0 };
            assert(is_empty_cell(inner@.cols, inner@.rows, inner@.path, inner@.apples, origin));
        }
        let space = inner.get_random_empty_space();
        if let Some(space) = space {
            inner.path.push_front(space);
        }
        proof {
            assert(inner@.keys =~= Seq::empty());
        }
        inner
    }

    /// A uniformly random empty cell, or `None` when the grid is full.
    fn get_random_empty_space(&mut self) -> (r: Option<Vector2D>)
        requires
            0 < old(self)@.cols,
            0 < old(self)@.rows,
        ensures
            final(self)@ == old(self)@,
            r.is_none() <==> grid_full(old(self)@.cols, old(self)@.rows, old(self)@.path, old(self)@.apples),
            r matches Some(c) ==> is_empty_cell(old(self)@.cols, old(self)@.rows, old(self)@.path, old(self)@.apples, c),
    {
        let empty_squares = get_empty_squares(self.num_squares_x, self.num_squares_y, &self.path, &self.apples);
        let r = choose_cell(&mut self.rng, &empty_squares);
        proof {
            if r.is_none() {
                assert forall|c: Vector2D| !#[trigger] is_empty_cell(self@.cols, self@.rows, self@.path, self@.apples, c) by {
                    if is_empty_cell(self@.cols, self@.rows, self@.path, self@.apples, c) {
                        assert(empty_squares@.contains(c));
                    }
                }
            } else {
                let c = r->Some_0;
                assert(!grid_full(self@.cols, self@.rows, self@.path, self@.apples)) by {
                    assert(is_empty_cell(self@.cols, self@.rows, self@.path, self@.apples, c));
                }
            }
        }
        r
    }

    fn reset(&mut self)
        requires
            old(self)@.wf(),
        ensures
            final(self)@ == old(self)@.reset_state(),
            final(self)@.wf(),
            final(self)@.countdown_ok(),
    {
        self.is_game_over = false;
        self.did_win = false;
        self.is_growing = false;
        self.path.clear();
        self.path.push_front(Vector2D { x: self.num_squares_x / 2, y: self.num_squares_y / 2 });
        self.score = 0;
        self.apples.clear();
        self.frames_between_updates = MIN_SPEED;
        self.frames_until_update = MIN_SPEED;
        proof {
            assert(self@.path =~= old(self)@.reset_state().path);
            assert(self@.apples =~= Seq::empty());
        }
    }

    /// Raises the lost-focus overlay; the game is then effectively paused.
    pub fn show_focus_banner(&mut self)
        ensures
            final(self)@ == old(self)@.with_focus_banner(true),
    {
        self.should_show_focus_banner = true;
    }

    /// Clears the lost-focus overlay.
    pub fn hide_focus_banner(&mut self)
        ensures
            final(self)@ == old(self)@.with_focus_banner(false),
    {
        self.should_show_focus_banner = false;
    }

    /// Queues a raw key name; it is dropped when the buffer is full.
    pub fn handle_key(&mut self, key: String)
        ensures
            final(self)@ == old(self)@.with_key(key@),
    {
        if self.key_buff.len() < MAX_KEY_BUFF_LEN {
            let ghost k = key@;
            self.key_buff.push_back(key);
            proof {
                assert(self@.keys =~= old(self)@.keys.push(k));
            }
        }
    }

    pub fn effectively_paused(&self) -> (r: bool)
        ensures
            r == self@.effectively_paused(),
    {
        self.should_show_focus_banner || self.is_paused || self.is_game_over
    }

    fn pop_key(&mut self) -> (r: Option<String>)
        ensures
            old(self)@.keys.len() == 0 ==> final(self)@ == old(self)@ && r.is_none(),
            old(self)@.keys.len() > 0 ==> final(self)@ == old(self)@.without_first_key(),
            old(self)@.keys.len() > 0 ==> (r matches Some(k) && k@ == old(self)@.keys[0]),
    {
        let r = self.key_buff.pop_front();
        proof {
            if old(self)@.keys.len() > 0 {
                assert(self@.keys =~= old(self)@.keys.drop_first());
            }
        }
        r
    }

    fn clear_keys(&mut self)
        ensures
            final(self)@ == (EngineView { keys: Seq::empty(), ..old(self)@ }),
    {
        self.key_buff.clear();
        proof {
            assert(self@.keys =~= Seq::empty());
        }
    }

    /// The first phase of a tick: only the front key is looked at. A reset key
    /// resets; the pause key resets a finished game and otherwise toggles the
    /// pause. While the game is then effectively paused the buffer is emptied.
    pub fn pre_process_keys(&mut self)
        requires
            old(self)@.wf(),
        ensures
            final(self)@ == old(self)@.pre_processed(),
            final(self)@.wf(),
            old(self)@.countdown_ok() ==> final(self)@.countdown_ok(),
    {
        let mut should_reset = false;
        if self.key_buff.len() > 0 {
            let key = classify_key(self.key_buff[0].as_str());
            proof {
                assert(self@.keys[0] == self.key_buff@[0]@);
            }
            match key {
                Key::Reset => {
                    should_reset = true;
                    self.pop_key();
                },
                Key::PauseResume => {
                    if self.is_game_over {
                        should_reset = true;
                    } else {
                        self.is_paused = !self.is_paused;
                    }
                    self.pop_key();
                },
                _ => {},
            }
        }
        if should_reset {
            self.reset();
        }
        if self.effectively_paused() {
            self.clear_keys();
        }
    }

    /// Takes the front key off the buffer and, unless the game is effectively
    /// paused, applies it as a direction, speed or gameplay command.
    pub fn process_key(&mut self)
        requires
            old(self)@.wf(),
        ensures
            final(self)@ == old(self)@.key_processed(),
            final(self)@.wf(),
            old(self)@.countdown_ok() && old(self)@.frames_until_update == 0 ==> final(self)@.countdown_ok(),
    {
        if let Some(key) = self.pop_key() {
            if self.effectively_paused() {
                return;
            }
            match classify_key(key.as_str()) {
                Key::Up => self.head_direction = Vector2D { x: 0, y: -1 },
                Key::Down => self.head_direction = Vector2D { x: 0, y: 1 },
                Key::Right => self.head_direction = Vector2D { x: 1, y: 0 },
                Key::Left => self.head_direction = Vector2D { x: -1, y: 0 },
                Key::AddApple => {
                    if self.num_apples < usize::MAX {
                        self.num_apples += 1;
                    }
                },
                Key::Reverse => self.head_is_tail = !self.head_is_tail,
                Key::Slower => {
                    self.frames_between_updates =
                        if self.frames_between_updates + 1 < MIN_SPEED {
                            self.frames_between_updates + 1
                        } else {
                            MIN_SPEED
                        };
                },
                Key::Faster => {
                    self.frames_between_updates =
                        if self.frames_between_updates - 1 > MAX_SPEED {
                            self.frames_between_updates - 1
                        } else {
                            MAX_SPEED
                        };
                },
                _ => {},
            }
        }
    }

    fn head_cell(&self) -> (r: Vector2D)
        requires
            self@.wf(),
        ensures
            r == self@.head(),
            in_grid(r, self@.cols, self@.rows),
    {
        proof {
            assert(in_grid(self@.path[self@.path.len() - 1], self@.cols, self@.rows));
            assert(in_grid(self@.path[0], self@.cols, self@.rows));
        }
        if self.head_is_tail {
            self.path[self.path.len() - 1]
        } else {
            self.path[0]
        }
    }

    /// Moves the snake one cell towards its heading, unless that cell is part
    /// of the snake; returns the target cell.
    fn advance_snake(&mut self) -> (r: Vector2D)
        requires
            old(self)@.wf(),
        ensures
            r == old(self)@.next_head(),
            final(self)@ == old(self)@.advanced(),
    {
        let head = self.head_cell();
        let current_head = Vector2D {
            x: wrap(head.x + self.head_direction.x, self.num_squares_x),
            y: wrap(head.y + self.head_direction.y, self.num_squares_y),
        };
        if !contains_cell(&self.path, current_head) {
            if self.is_growing {
                self.is_growing = false;
            } else if self.head_is_tail {
                self.path.pop_front();
            } else {
                self.path.pop_back();
            }
            if self.head_is_tail {
                self.path.push_back(current_head);
            } else {
                self.path.push_front(current_head);
            }
        }
        proof {
            assert(self@.path =~= old(self)@.advanced().path);
        }
        current_head
    }

    /// Eats the apple on cell `at`, if there is one.
    fn eat_apple(&mut self, at: Vector2D)
        requires
            old(self)@.apples.no_duplicates(),
            old(self)@.apples.contains(at) ==> !old(self)@.growing && old(self)@.score < old(self)@.path.len(),
        ensures
            final(self)@ == old(self)@.eat_at(at),
    {
        match position_of(&self.apples, at) {
            Some(i) => {
                proof {
                    lemma_remove_cell(self@.apples, at, i as int);
                }
                assert(self@.path.len() == self.path.len());
                self.apples.swap_remove(i);
                self.is_growing = true;
                self.score += 1;
                proof {
                    assert(self@.apples =~= old(self)@.eat_at(at).apples);
                }
            },
            None => {},
        }
    }

    /// Places apples on random empty cells until the target is met or the grid is full.
    fn replenish_apples(&mut self)
        requires
            old(self)@.wf(),
        ensures
            final(self)@ == (EngineView { apples: final(self)@.apples, ..old(self)@ }),
            old(self)@.replenished(final(self)@.apples),
    {
        let ghost s1 = self@;
        let mut full = false;
        while !full && self.apples.len() < self.num_apples
            invariant
                s1.wf(),
                self@ == (EngineView { apples: self@.apples, ..s1 }),
                s1.apples.len() <= self@.apples.len(),
                self@.apples.len() <= s1.apples.len() || self@.apples.len() <= s1.num_apples,
                self@.apples.subrange(0, s1.apples.len() as int) == s1.apples,
                apples_ok(s1.cols, s1.rows, s1.path, self@.apples),
                full ==> grid_full(s1.cols, s1.rows, s1.path, self@.apples),
            decreases 2 * (self@.num_apples - self@.apples.len()) + if full { 0int } else { 1int },
        {
            match self.get_random_empty_space() {
                None => {
                    full = true;
                },
                Some(apple) => {
                    let ghost before = self@.apples;
                    self.apples.push(apple);
                    proof {
                        lemma_push_apple(s1.cols, s1.rows, s1.path, before, apple);
                        assert(self@.apples.subrange(0, s1.apples.len() as int)
                            =~= before.subrange(0, s1.apples.len() as int));
                    }
                },
            }
        }
    }

    /// One simulation step. The head moves one cell in the current direction,
    /// wrapping around the edges; a move onto the snake itself is blocked, not
    /// fatal. Unless growing, the tail end follows. An apple on the target cell
    /// is eaten, the missing apples are placed on random empty cells, and the
    /// game is won when no apple can be placed.
    pub fn update(&mut self)
        requires
            old(self)@.wf(),
        ensures
            final(self)@.wf(),
            old(self)@.update_ok(final(self)@),
    {
        let ghost s0 = self@;
        proof {
            lemma_advanced_wf(s0);
            if s0.apples.contains(s0.next_head()) {
                let i = choose|i: int| 0 <= i < s0.apples.len() && s0.apples[i] == s0.next_head();
                assert(!s0.path.contains(s0.apples[i]));
            }
        }
        let current_head = self.advance_snake();
        self.eat_apple(current_head);
        proof {
            lemma_stepped_wf(s0);
        }
        self.replenish_apples();
        if self.apples.len() == 0 {
            self.is_game_over = true;
            self.did_win = true;
        }
    }

    /// One frame of the fixed-rate loop: key pre-processing, then, unless
    /// effectively paused, the countdown. At zero the front key is applied,
    /// one simulation step runs and the countdown is reloaded with the
    /// interval between steps; otherwise it goes down by one. Drawing follows
    /// with `draw`.
    pub fn tick(&mut self)
        requires
            old(self)@.wf(),
        ensures
            final(self)@.wf(),
            old(self)@.countdown_ok() ==> final(self)@.countdown_ok(),
            old(self)@.tick_ok(final(self)@),
    {
        self.pre_process_keys();
        if !self.effectively_paused() {
            if self.frames_until_update == 0 {
                self.process_key();
                self.update();
                self.frames_until_update = self.frames_between_updates;
            } else {
                self.frames_until_update -= 1;
            }
        }
    }

    /// The frame to draw for the current state; the state is left unchanged.
    pub fn draw(&self) -> (r: Vec<DrawOp>)
        requires
            self@.wf(),
        ensures
            r@ == self@.frame(),
    {
        let mut ops: Vec<DrawOp> = Vec::new();
        ops.push(DrawOp::Clear);
        let mut i: usize = 0;
        while i < self.apples.len()
            invariant
                0 <= i <= self@.apples.len(),
                ops@ =~= seq![DrawOp::Clear] + self@.apples.subrange(0, i as int).map_values(|a: Vector2D| DrawOp::Apple(a)),
            decreases self@.apples.len() - i,
        {
            ops.push(DrawOp::Apple(self.apples[i]));
            proof {
                assert(self@.apples.subrange(0, i + 1) =~= self@.apples.subrange(0, i as int).push(self@.apples[i as int]));
            }
            i += 1;
        }
        assert(self@.apples.subrange(0, self@.apples.len() as int) =~= self@.apples);
        let ghost prefix = ops@;
        let mut j: usize = 0;
        while j < self.path.len()
            invariant
                0 <= j <= self@.path.len(),
                ops@ =~= prefix + self@.path.subrange(0, j as int).map_values(|c: Vector2D| DrawOp::Body(c)),
            decreases self@.path.len() - j,
        {
            ops.push(DrawOp::Body(self.path[j]));
            proof {
                assert(self@.path.subrange(0, j + 1) =~= self@.path.subrange(0, j as int).push(self@.path[j as int]));
            }
            j += 1;
        }
        assert(self@.path.subrange(0, self@.path.len() as int) =~= self@.path);
        let last = self.path[self.path.len() - 1];
        let first = self.path[0];
        let head = self.head_cell();
        let tail = if self.head_is_tail { first } else { last };
        ops.push(DrawOp::Tail(tail));
        ops.push(DrawOp::Head(head, head_angle(self.head_direction)));
        if self.is_paused {
            ops.push(DrawOp::Banner(Banner::Paused));
        } else if self.is_game_over {
            if self.did_win {
                ops.push(DrawOp::Banner(Banner::YouWon));
            } else {
                ops.push(DrawOp::Banner(Banner::GameOver));
            }
        } else if self.should_show_focus_banner {
            ops.push(DrawOp::Banner(Banner::LostFocus));
        }
        ops
    }

    /// A running game that starts from the given snake, heading and apples,
    /// with score zero, an empty key buffer, at the slowest speed and with a
    /// step due on the next tick; `None` when the layout is not valid. The
    /// path is listed from front to back; the head is its back end when
    /// `head_is_tail` holds and its front end otherwise.
    pub fn with_layout(
        num_cols: u32,
        num_rows: u32,
        path: Vec<Vector2D>,
        head_is_tail: bool,
        direction: Vector2D,
        apples: Vec<Vector2D>,
        num_apples: usize,
    ) -> (r: Option<Inner>)
        ensures
            r.is_some() <==> layout_ok(num_cols as int, num_rows as int, path@, direction, apples@),
            r matches Some(e) ==> e@ == (EngineView {
                cols: num_cols as int,
                rows: num_rows as int,
                focus_banner: false,
                paused: false,
                game_over: false,
                won: false,
                score: 0,
                keys: Seq::empty(),
                apples: apples@,
                num_apples: num_apples as nat,
                growing: false,
                frames_between_updates: MIN_SPEED as nat,
                frames_until_update: 0,
                direction,
                head_is_tail,
                path: path@,
            }),
            r matches Some(e) ==> e@.wf() && e@.countdown_ok(),
    {
        if num_cols == 0 || num_cols > i32::MAX as u32 || num_rows == 0 || num_rows > i32::MAX as u32 {
            return None;
        }
        let cols = num_cols as i32;
        let rows = num_rows as i32;
        let unit = (direction.x == 1 && direction.y == 0) || (direction.x == -1 && direction.y == 0)
            || (direction.x == 0 && direction.y == 1) || (direction.x == 0 && direction.y == -1);
        if path.len() == 0 || !unit || !distinct_cells(&path) || !cells_in_grid(&path, cols, rows)
            || !distinct_cells(&apples) || !cells_in_grid(&apples, cols, rows)
            || !cells_disjoint(&apples, &path) {
            return None;
        }
        let mut cells: VecDeque<Vector2D> = VecDeque::new();
        let mut i: usize = 0;
        while i < path.len()
            invariant
                0 <= i <= path@.len(),
                cells@ =~= path@.subrange(0, i as int),
            decreases path@.len() - i,
        {
            cells.push_back(path[i]);
            i += 1;
        }
        let inner = Inner {
            num_squares_x: cols,
            num_squares_y: rows,
            should_show_focus_banner: false,
            is_paused: false,
            is_game_over: false,
            did_win: false,
            score: 0,
            key_buff: VecDeque::with_capacity(MAX_KEY_BUFF_LEN),
            apples,
            num_apples,
            is_growing: false,
            frames_between_updates: MIN_SPEED,
            frames_until_update: 0,
            head_direction: direction,
            head_is_tail,
            path: cells,
            rng: thread_rng(),
        };
        proof {
            assert(inner@.keys =~= Seq::empty());
            assert(inner@.path =~= path@);
            assert forall|k: int| 0 <= k < apples@.len() implies !inner@.path.contains(#[trigger] apples@[k]) by {}
        }
        Some(inner)
    }

    pub fn score(&self) -> (r: usize)
        ensures
            r == self@.score,
    {
        self.score
    }

    /// The snake's cells from front to back.
    pub fn path(&self) -> (r: Vec<Vector2D>)
        ensures
            r@ == self@.path,
    {
        let mut out: Vec<Vector2D> = Vec::new();
        let mut i: usize = 0;
        while i < self.path.len()
            invariant
                0 <= i <= self@.path.len(),
                out@ =~= self@.path.subrange(0, i as int),
            decreases self@.path.len() - i,
        {
            out.push(self.path[i]);
            i += 1;
        }
        out
    }

    pub fn head(&self) -> (r: Vector2D)
        requires
            self@.wf(),
        ensures
            r == self@.head(),
    {
        self.head_cell()
    }

    pub fn apples(&self) -> (r: Vec<Vector2D>)
        ensures
            r@ == self@.apples,
    {
        self.apples.clone()
    }

    /// The buffered key names, oldest first.
    pub fn pending_keys(&self) -> (r: Vec<String>)
        ensures
            r@.map_values(|k: String| k@) == self@.keys,
    {
        let mut out: Vec<String> = Vec::new();
        let mut i: usize = 0;
        while i < self.key_buff.len()
            invariant
                0 <= i <= self@.keys.len(),
                out@.map_values(|k: String| k@) =~= self@.keys.subrange(0, i as int),
            decreases self@.keys.len() - i,
        {
            let ghost before = out@;
            let k = self.key_buff[i].clone();
            out.push(k);
            proof {
                assert(out@.map_values(|k: String| k@) =~= before.map_values(|k: String| k@).push(k@));
                assert(self@.keys.subrange(0, i + 1) =~= self@.keys.subrange(0, i as int).push(self@.keys[i as int]));
            }
            i += 1;
        }
        proof {
            assert(self@.keys.subrange(0, i as int) =~= self@.keys);
        }
        out
    }

    pub fn is_paused(&self) -> (r: bool)
        ensures
            r == self@.paused,
    {
        self.is_paused
    }

    pub fn is_game_over(&self) -> (r: bool)
        ensures
            r == self@.game_over,
    {
        self.is_game_over
    }

    pub fn did_win(&self) -> (r: bool)
        ensures
            r == self@.won,
    {
        self.did_win
    }

    pub fn is_showing_focus_banner(&self) -> (r: bool)
        ensures
            r == self@.focus_banner,
    {
        self.should_show_focus_banner
    }

    pub fn is_growing(&self) -> (r: bool)
        ensures
            r == self@.growing,
    {
        self.is_growing
    }

    pub fn num_apples(&self) -> (r: usize)
        ensures
            r == self@.num_apples,
    {
        self.num_apples
    }

    pub fn frames_between_updates(&self) -> (r: u32)
        ensures
            r == self@.frames_between_updates,
    {
        self.frames_between_updates
    }

    pub fn frames_until_update(&self) -> (r: u32)
        ensures
            r == self@.frames_until_update,
    {
        self.frames_until_update
    }

    pub fn direction(&self) -> (r: Vector2D)
        ensures
            r == self@.direction,
    {
        self.head_direction
    }

    pub fn head_is_tail(&self) -> (r: bool)
        ensures
            r == self@.head_is_tail,
    {
        self.head_is_tail
    }

    pub fn num_cols(&self) -> (r: i32)
        ensures
            r == self@.cols,
    {
        self.num_squares_x
    }

    pub fn num_rows(&self) -> (r: i32)
        ensures
            r == self@.rows,
    {
        self.num_squares_y
    }
}

} // verus!

