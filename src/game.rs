//! The game's state machine: one aggregate that owns the snake, the spawned
//! items, the score and the clocks, and advances them one step at a time.

use crate::cell::{
    board_fits, cell_at, in_board, lemma_cell_at, within, Cell, Direction,
};
use crate::grid::{contribution, near, OccupancyGrid};
use crate::snake::Snake;
use crate::steering::{key_choice, DirectionController, Keys};
use crate::timer::{frames_for, slowed_down, sped_up, FrameData, Waiter};
use vstd::prelude::*;

verus! {

/// The constants of a session.
#[derive(Clone, Copy, Debug, PartialEq, Eq, Structural)]
pub struct Config {
    pub width: i32,
    pub height: i32,
    /// Chebyshev radius of the zone around each segment where nothing spawns.
    pub buffer_radius: i32,
    /// Frames per step at the start, in hundredths of a frame.
    pub base_delay: u64,
    /// Smallest delay that speed-ups lead to, in hundredths of a frame.
    pub min_delay: u64,
    /// Percentage of the delay that remains after an apple or golden apple.
    pub speedup_percent: u64,
    /// Hundredths of a frame that a blueberry adds to the delay.
    pub slowdown: u64,
    /// Steps between blueberries.
    pub blueberry_period: u32,
    /// Steps between golden apples.
    pub golden_apple_period: u32,
    /// Steps between oranges (the shield pickup).
    pub orange_period: u32,
    /// Steps between new stone walls.
    pub stone_wall_period: u32,
    /// Score and growth that a golden apple gives.
    pub golden_apple_worth: u64,
}

impl Config {
    pub open spec fn valid(self) -> bool {
        &&& board_fits(self.width as int, self.height as int)
        &&& self.buffer_radius >= 0
        &&& 1 <= self.min_delay <= self.base_delay
        &&& self.speedup_percent <= 100
    }

    /// The cell where the snake starts.
    pub open spec fn centre(self) -> Cell {
        Cell { x: (self.width / 2) as i32, y: (self.height / 2) as i32 }
    }

    /// A 76 by 45 board with a buffer of 3 cells, starting at 5 frames per
    /// step.
    pub fn standard() -> (c: Config)
        ensures
            c.valid(),
    {
        Config {
            width: 76,
            height: 45,
            buffer_radius: 3,
            base_delay: 500,
            min_delay: 100,
            speedup_percent: 92,
            slowdown: 140,
            blueberry_period: 720,
            golden_apple_period: 1080,
            orange_period: 560,
            stone_wall_period: 640,
            golden_apple_worth: 10,
        }
    }

    /// Whether the constants can run a game.
    pub fn is_valid(&self) -> (r: bool)
        ensures
            r == self.valid(),
    {
        if self.width < 1 || self.height < 1 {
            return false;
        }
        let w = self.width as u64;
        let h = self.height as u64;
        assert(w * h <= (i32::MAX as int) * (i32::MAX as int)) by (nonlinear_arith)
            requires
                1 <= w <= i32::MAX,
                1 <= h <= i32::MAX,
        ;
        w * h <= usize::MAX as u64 && self.buffer_radius >= 0 && 1 <= self.min_delay
            && self.min_delay <= self.base_delay && self.speedup_percent <= 100
    }
}

/// The random numbers that one step may use, one per spawn category; each
/// picks among the open cells at the time of its spawn.
#[derive(Clone, Copy, Debug, PartialEq, Eq, Structural)]
pub struct SpawnPicks {
    pub apple: u64,
    pub blueberry: u64,
    pub golden_apple: u64,
    pub orange: u64,
    pub stone_wall: u64,
}

impl SpawnPicks {
    /// Draws each pick at random.
    pub fn draw() -> (p: SpawnPicks) {
        SpawnPicks {
            apple: rand::random::<u64>(),
            blueberry: rand::random::<u64>(),
            golden_apple: rand::random::<u64>(),
            orange: rand::random::<u64>(),
            stone_wall: rand::random::<u64>(),
        }
    }
}

/// The state of a game as the contracts see it.
pub struct GameView {
    pub config: Config,
    /// Tail first, head last.
    pub body: Seq<Cell>,
    /// The regular food: one point, one cell of growth, a speed-up.
    pub apple: Option<Cell>,
    /// One point and a slow-down.
    pub blueberry: Option<Cell>,
    /// The bonus food: `golden_apple_worth` points and cells, a speed-up.
    pub golden_apple: Option<Cell>,
    /// The shield pickup.
    pub orange: Option<Cell>,
    /// The obstacles.
    pub stone_walls: Set<Cell>,
    pub score: u64,
    pub live: bool,
    pub shielded: bool,
    /// Steps whose tail shrink is still to be skipped.
    pub grow_buffer: u64,
    pub steering: DirectionController,
    pub frame_data: FrameData,
}

/// `a + b`, stopping at the largest `u64`.
pub open spec fn sat_add(a: u64, b: u64) -> u64 {
    if a + b > u64::MAX {
        u64::MAX
    } else {
        (a + b) as u64
    }
}

/// The board's cells in row-major order.
pub open spec fn board_cells(width: int, height: int) -> Seq<Cell> {
    Seq::new((width * height) as nat, |i: int| cell_at(i, width))
}

impl GameView {
    pub open spec fn width(self) -> int {
        self.config.width as int
    }

    pub open spec fn height(self) -> int {
        self.config.height as int
    }

    pub open spec fn head(self) -> Cell {
        self.body.last()
    }

    /// Whether `c` holds any pickup.
    pub open spec fn holds_item(self, c: Cell) -> bool {
        ||| self.apple == Some(c)
        ||| self.blueberry == Some(c)
        ||| self.golden_apple == Some(c)
        ||| self.orange == Some(c)
    }

    /// Whether something may spawn on `c`: it is outside every segment's
    /// buffer zone and free of items and walls.
    pub open spec fn spawnable(self, c: Cell) -> bool {
        &&& !near(self.body, c, self.config.buffer_radius as int)
        &&& !self.holds_item(c)
        &&& !self.stone_walls.contains(c)
    }

    /// The cells where something may spawn, in row-major order.
    pub open spec fn open_cells(self) -> Seq<Cell> {
        board_cells(self.width(), self.height()).filter(|c: Cell| self.spawnable(c))
    }

    /// The cell that `pick` chooses among the open cells, if there is one.
    pub open spec fn spawn_choice(self, pick: u64) -> Option<Cell> {
        let open = self.open_cells();
        if open.len() == 0 {
            None
        } else {
            Some(open[(pick % (open.len() as u64)) as int])
        }
    }
}

/// A fresh game before its first apple: the snake alone at the centre.
pub open spec fn fresh_view(config: Config) -> GameView {
    GameView {
        config,
        body: seq![config.centre()],
        apple: None,
        blueberry: None,
        golden_apple: None,
        orange: None,
        stone_walls: Set::empty(),
        score: 0,
        live: true,
        shielded: false,
        grow_buffer: 0,
        steering: DirectionController { direction: None, buffered_direction: None },
        frame_data: FrameData {
            frame: 0,
            frame_delay: config.base_delay,
            bb_waiter: Waiter { frame: 0, update_freq: config.blueberry_period },
            ga_waiter: Waiter { frame: 0, update_freq: config.golden_apple_period },
            or_waiter: Waiter { frame: 0, update_freq: config.orange_period },
            sw_waiter: Waiter { frame: 0, update_freq: config.stone_wall_period },
        },
    }
}

/// A new game whose first apple is chosen by `pick`.
pub open spec fn initial_view(config: Config, pick: u64) -> GameView {
    let v = fresh_view(config);
    GameView { apple: v.spawn_choice(pick), ..v }
}

/// A running snake game.
pub struct Game {
    config: Config,
    score: u64,
    live: bool,
    shielded: bool,
    snake: Snake,
    apple: Option<Cell>,
    blueberry: Option<Cell>,
    golden_apple: Option<Cell>,
    orange: Option<Cell>,
    stone_walls: OccupancyGrid,
    grow_buffer: u64,
    steering: DirectionController,
    frame_data: FrameData,
}

impl View for Game {
    type V = GameView;

    closed spec fn view(&self) -> GameView {
        GameView {
            config: self.config,
            body: self.snake@,
            apple: self.apple,
            blueberry: self.blueberry,
            golden_apple: self.golden_apple,
            orange: self.orange,
            stone_walls: Set::new(
                |c: Cell|
                    in_board(c, self.config.width as int, self.config.height as int)
                        && self.stone_walls.count(c) > 0,
            ),
            score: self.score,
            live: self.live,
            shielded: self.shielded,
            grow_buffer: self.grow_buffer,
            steering: self.steering,
            frame_data: self.frame_data,
        }
    }
}

/// Whether `o` holds `c`.
fn holds(o: Option<Cell>, c: Cell) -> (r: bool)
    ensures
        r == (o == Some(c)),
{
    match o {
        Some(x) => x == c,
        None => false,
    }
}

impl Game {
    pub closed spec fn wf(self) -> bool {
        &&& self.config.valid()
        &&& self.snake.wf()
        &&& self.snake.width() == self.config.width
        &&& self.snake.height() == self.config.height
        &&& self.snake.radius() == self.config.buffer_radius
        &&& self.stone_walls.wf()
        &&& self.stone_walls.width() == self.config.width
        &&& self.stone_walls.height() == self.config.height
        &&& self.stone_walls.radius() == 0
        &&& forall|c: Cell|
            #![trigger self.stone_walls.count(c)]
            in_board(c, self.config.width as int, self.config.height as int)
                ==> self.stone_walls.count(c) <= 1
        &&& self.frame_data.wf()
    }

    fn is_spawnable(&self, c: Cell) -> (r: bool)
        requires
            self.wf(),
            in_board(c, self.config.width as int, self.config.height as int),
        ensures
            r == self@.spawnable(c),
    {
        !self.snake.is_off_limits(c) && !holds(self.apple, c) && !holds(self.blueberry, c)
            && !holds(self.golden_apple, c) && !holds(self.orange, c)
            && !self.stone_walls.is_forbidden(c)
    }

    /// The cells where something may spawn now, in row-major order.
    pub fn open_cells(&self) -> (v: Vec<Cell>)
        requires
            self.wf(),
        ensures
            v@ == self@.open_cells(),
    {
        let ghost view = self@;
        let ghost pred = |c: Cell| view.spawnable(c);
        let ghost all = board_cells(view.width(), view.height());
        let w = self.config.width;
        let n = (self.config.width as usize) * (self.config.height as usize);
        let mut v: Vec<Cell> = Vec::new();
        let mut i: usize = 0;
        while i < n
            invariant
                self.wf(),
                view == self@,
                w == view.config.width,
                n == view.width() * view.height(),
                all == board_cells(view.width(), view.height()),
                pred == (|c: Cell| view.spawnable(c)),
                i <= n,
                v@ == all.subrange(0, i as int).filter(pred),
            decreases n - i,
        {
            proof {
                lemma_cell_at(i as int, w as int, view.height());
            }
            let c = Cell { x: (i % (w as usize)) as i32, y: (i / (w as usize)) as i32 };
            assert(c == cell_at(i as int, w as int));
            assert(c == all[i as int]);
            assert(all.subrange(0, i + 1) =~= all.subrange(0, i as int).push(c));
            proof {
                all.subrange(0, i as int).lemma_filter_push(c, pred);
            }
            if self.is_spawnable(c) {
                v.push(c);
            }
            i = i + 1;
        }
        assert(all.subrange(0, n as int) =~= all);
        v
    }

    /// The cell that `pick` chooses among the open cells; none where no cell
    /// is open.
    pub fn spawn_cell(&self, pick: u64) -> (r: Option<Cell>)
        requires
            self.wf(),
        ensures
            r == self@.spawn_choice(pick),
    {
        let open = self.open_cells();
        if open.len() == 0 {
            None
        } else {
            Some(open[(pick % (open.len() as u64)) as usize])
        }
    }

    /// A new game under `config` whose first apple is chosen by `food_pick`.
    pub fn start(config: Config, food_pick: u64) -> (g: Game)
        requires
            config.valid(),
        ensures
            g.wf(),
            g@ == initial_view(config, food_pick),
    {
        let centre = Cell { x: config.width / 2, y: config.height / 2 };
        let mut g = Game {
            config,
            score: 0,
            live: true,
            shielded: false,
            snake: Snake::new(centre, config.width, config.height, config.buffer_radius),
            apple: None,
            blueberry: None,
            golden_apple: None,
            orange: None,
            stone_walls: OccupancyGrid::new(config.width, config.height, 0),
            grow_buffer: 0,
            steering: DirectionController::new(),
            frame_data: FrameData::new(
                config.base_delay,
                config.blueberry_period,
                config.golden_apple_period,
                config.orange_period,
                config.stone_wall_period,
            ),
        };
        assert(g@.stone_walls =~= Set::<Cell>::empty());
        assert(g@ == fresh_view(config));
        g.apple = g.spawn_cell(food_pick);
        g
    }

    /// A new game under `config`, its first apple placed at random.
    pub fn new(config: Config) -> (g: Game)
        requires
            config.valid(),
        ensures
            g.wf(),
            exists|pick: u64| g@ == initial_view(config, pick),
    {
        let pick = rand::random::<u64>();
        Game::start(config, pick)
    }
}


impl GameView {
    /// Eating the apple on `cand`: a point, a cell of growth, a speed-up, and
    /// a new apple chosen by `pick`.
    pub open spec fn eat_apple(self, cand: Cell, pick: u64) -> GameView {
        if self.apple == Some(cand) {
            GameView {
                apple: self.spawn_choice(pick),
                score: sat_add(self.score, 1),
                grow_buffer: sat_add(self.grow_buffer, 1),
                frame_data: FrameData {
                    frame_delay: sped_up(
                        self.frame_data.frame_delay,
                        self.config.speedup_percent,
                        self.config.min_delay,
                    ),
                    ..self.frame_data
                },
                ..self
            }
        } else {
            self
        }
    }

    /// A blueberry on `cand` is eaten (a point and a slow-down); while there
    /// is none, its waiter counts and, when it fires, `pick` places one.
    pub open spec fn visit_blueberry(self, cand: Cell, pick: u64) -> GameView {
        match self.blueberry {
            Some(b) => if b == cand {
                GameView {
                    blueberry: None,
                    score: sat_add(self.score, 1),
                    frame_data: FrameData {
                        frame_delay: slowed_down(self.frame_data.frame_delay, self.config.slowdown),
                        ..self.frame_data
                    },
                    ..self
                }
            } else {
                self
            },
            None => {
                let w = self.frame_data.bb_waiter;
                let ticked = GameView {
                    frame_data: FrameData { bb_waiter: w.ticked(), ..self.frame_data },
                    ..self
                };
                if w.fires_next() {
                    GameView { blueberry: self.spawn_choice(pick), ..ticked }
                } else {
                    ticked
                }
            },
        }
    }

    /// A golden apple on `cand` is eaten (its worth in points and growth, and
    /// a speed-up); while there is none, its waiter counts and may place one.
    pub open spec fn visit_golden_apple(self, cand: Cell, pick: u64) -> GameView {
        match self.golden_apple {
            Some(g) => if g == cand {
                GameView {
                    golden_apple: None,
                    score: sat_add(self.score, self.config.golden_apple_worth),
                    grow_buffer: sat_add(self.grow_buffer, self.config.golden_apple_worth),
                    frame_data: FrameData {
                        frame_delay: sped_up(
                            self.frame_data.frame_delay,
                            self.config.speedup_percent,
                            self.config.min_delay,
                        ),
                        ..self.frame_data
                    },
                    ..self
                }
            } else {
                self
            },
            None => {
                let w = self.frame_data.ga_waiter;
                let ticked = GameView {
                    frame_data: FrameData { ga_waiter: w.ticked(), ..self.frame_data },
                    ..self
                };
                if w.fires_next() {
                    GameView { golden_apple: self.spawn_choice(pick), ..ticked }
                } else {
                    ticked
                }
            },
        }
    }

    /// An orange on `cand` gives the shield; while there is none and no
    /// shield is held, its waiter counts and may place one.
    pub open spec fn visit_orange(self, cand: Cell, pick: u64) -> GameView {
        match self.orange {
            Some(o) => if o == cand {
                GameView { orange: None, shielded: true, ..self }
            } else {
                self
            },
            None => if self.shielded {
                self
            } else {
                let w = self.frame_data.or_waiter;
                let ticked = GameView {
                    frame_data: FrameData { or_waiter: w.ticked(), ..self.frame_data },
                    ..self
                };
                if w.fires_next() {
                    GameView { orange: self.spawn_choice(pick), ..ticked }
                } else {
                    ticked
                }
            },
        }
    }

    /// The wall waiter counts; when it fires, `pick` adds a stone wall.
    pub open spec fn add_stone_wall(self, pick: u64) -> GameView {
        let w = self.frame_data.sw_waiter;
        let ticked = GameView {
            frame_data: FrameData { sw_waiter: w.ticked(), ..self.frame_data },
            ..self
        };
        if w.fires_next() {
            match self.spawn_choice(pick) {
                Some(c) => GameView { stone_walls: self.stone_walls.insert(c), ..ticked },
                None => ticked,
            }
        } else {
            ticked
        }
    }

    /// The tail leaves unless growth is owed, in which case one unit of it
    /// is spent instead.
    pub open spec fn settle_tail(self) -> GameView {
        if self.grow_buffer == 0 {
            GameView { body: self.body.subrange(1, self.body.len() as int), ..self }
        } else {
            GameView { grow_buffer: (self.grow_buffer - 1) as u64, ..self }
        }
    }

    /// Everything that follows a successful move onto `cand`.
    pub open spec fn after_move(self, cand: Cell, picks: SpawnPicks) -> GameView {
        self.eat_apple(cand, picks.apple).visit_blueberry(cand, picks.blueberry).visit_golden_apple(
            cand,
            picks.golden_apple,
        ).visit_orange(cand, picks.orange).add_stone_wall(picks.stone_wall).settle_tail()
    }

    /// The cell that the head moves to under the buffered direction.
    pub open spec fn candidate(self) -> Cell {
        match self.steering.buffered_direction {
            Some(d) => self.head().spec_neighbor(d),
            None => self.head(),
        }
    }

    /// One simulation step. Nothing happens once the game is over or before
    /// the first direction. Otherwise the buffered direction takes effect and
    /// the head moves: off the board, onto a wall without a shield, or onto
    /// the body (but for the tail) the game ends; a shield breaks the wall it
    /// meets.
    pub open spec fn step(self, picks: SpawnPicks) -> GameView {
        match self.steering.buffered_direction {
            None => self,
            Some(d) => if !self.live {
                self
            } else {
                let v = GameView {
                    steering: DirectionController { direction: Some(d), ..self.steering },
                    ..self
                };
                let cand = self.candidate();
                if !in_board(cand, self.width(), self.height()) {
                    GameView { live: false, ..v }
                } else if self.stone_walls.contains(cand) && !self.shielded {
                    GameView { live: false, ..v }
                } else {
                    let v1 = if self.stone_walls.contains(cand) {
                        GameView {
                            shielded: false,
                            stone_walls: self.stone_walls.remove(cand),
                            ..v
                        }
                    } else {
                        v
                    };
                    if self.body.contains(cand) && cand != self.body[0] {
                        GameView { live: false, ..v1 }
                    } else {
                        GameView { body: self.body.push(cand), ..v1 }.after_move(cand, picks)
                    }
                }
            },
        }
    }
}

/// The open cells depend only on the board, the body, the items and the
/// walls.
proof fn lemma_same_open_cells(a: GameView, b: GameView)
    requires
        a.config == b.config,
        a.body == b.body,
        a.apple == b.apple,
        a.blueberry == b.blueberry,
        a.golden_apple == b.golden_apple,
        a.orange == b.orange,
        a.stone_walls == b.stone_walls,
    ensures
        a.open_cells() == b.open_cells(),
{
    let pa = |c: Cell| a.spawnable(c);
    let pb = |c: Cell| b.spawnable(c);
    assert(pa =~= pb);
}

/// A spawned cell is on the board and open.
pub proof fn lemma_spawn_choice(v: GameView, pick: u64)
    requires
        v.config.valid(),
    ensures
        v.spawn_choice(pick) matches Some(c) ==> in_board(c, v.width(), v.height()) && v.spawnable(c),
        v.spawn_choice(pick) is None <==> v.open_cells().len() == 0,
{
    let open = v.open_cells();
    if open.len() > 0 {
        let i = (pick % (open.len() as u64)) as int;
        let c = open[i];
        let pred = |c: Cell| v.spawnable(c);
        let all = board_cells(v.width(), v.height());
        all.lemma_filter_pred(pred, i);
        assert(open.contains(c));
        all.lemma_filter_contains_rev(pred, c);
        let j = choose|j: int| 0 <= j < all.len() && all[j] == c;
        lemma_cell_at(j, v.width(), v.height());
    }
}

impl Game {
    fn eat_apple(&mut self, cand: Cell, pick: u64)
        requires
            old(self).wf(),
        ensures
            final(self).wf(),
            final(self)@ == old(self)@.eat_apple(cand, pick),
            final(self)@.body == old(self)@.body,
    {
        if holds(self.apple, cand) {
            self.apple = self.spawn_cell(pick);
            self.score = self.score.saturating_add(1);
            self.frame_data.speed_up(self.config.speedup_percent, self.config.min_delay);
            self.grow_buffer = self.grow_buffer.saturating_add(1);
        }
    }

    fn visit_blueberry(&mut self, cand: Cell, pick: u64)
        requires
            old(self).wf(),
        ensures
            final(self).wf(),
            final(self)@ == old(self)@.visit_blueberry(cand, pick),
            final(self)@.body == old(self)@.body,
    {
        let ghost start = self@;
        match self.blueberry {
            Some(b) => {
                if b == cand {
                    self.blueberry = None;
                    self.score = self.score.saturating_add(1);
                    self.frame_data.slow_down(self.config.slowdown);
                }
            },
            None => {
                if self.frame_data.bb_waiter.tick() {
                    proof {
                        lemma_same_open_cells(self@, start);
                    }
                    self.blueberry = self.spawn_cell(pick);
                }
            },
        }
    }

    fn visit_golden_apple(&mut self, cand: Cell, pick: u64)
        requires
            old(self).wf(),
        ensures
            final(self).wf(),
            final(self)@ == old(self)@.visit_golden_apple(cand, pick),
            final(self)@.body == old(self)@.body,
    {
        let ghost start = self@;
        match self.golden_apple {
            Some(g) => {
                if g == cand {
                    self.golden_apple = None;
                    self.score = self.score.saturating_add(self.config.golden_apple_worth);
                    self.frame_data.speed_up(self.config.speedup_percent, self.config.min_delay);
                    self.grow_buffer = self.grow_buffer.saturating_add(
                        self.config.golden_apple_worth,
                    );
                }
            },
            None => {
                if self.frame_data.ga_waiter.tick() {
                    proof {
                        lemma_same_open_cells(self@, start);
                    }
                    self.golden_apple = self.spawn_cell(pick);
                }
            },
        }
    }

    fn visit_orange(&mut self, cand: Cell, pick: u64)
        requires
            old(self).wf(),
        ensures
            final(self).wf(),
            final(self)@ == old(self)@.visit_orange(cand, pick),
            final(self)@.body == old(self)@.body,
    {
        let ghost start = self@;
        match self.orange {
            Some(o) => {
                if o == cand {
                    self.orange = None;
                    self.shielded = true;
                }
            },
            None => {
                if !self.shielded {
                    if self.frame_data.or_waiter.tick() {
                        proof {
                            lemma_same_open_cells(self@, start);
                        }
                        self.orange = self.spawn_cell(pick);
                    }
                }
            },
        }
    }

    fn add_stone_wall(&mut self, pick: u64)
        requires
            old(self).wf(),
        ensures
            final(self).wf(),
            final(self)@ == old(self)@.add_stone_wall(pick),
            final(self)@.body == old(self)@.body,
    {
        let ghost start = self@;
        if self.frame_data.sw_waiter.tick() {
            proof {
                lemma_same_open_cells(self@, start);
            }
            match self.spawn_cell(pick) {
                Some(c) => {
                    let ghost before = *self;
                    proof {
                        lemma_spawn_choice(start, pick);
                    }
                    self.stone_walls.mark(c);
                    assert forall|d: Cell| #[trigger] self@.stone_walls.contains(d)
                        == before@.stone_walls.insert(c).contains(d) by {
                        if in_board(d, start.width(), start.height()) {
                            assert(self.stone_walls.count(d) == before.stone_walls.count(d)
                                + contribution(c, d, 0));
                        }
                    }
                    assert(self@.stone_walls =~= before@.stone_walls.insert(c));
                },
                None => {},
            }
        }
    }

    fn settle_tail(&mut self)
        requires
            old(self).wf(),
            old(self)@.body.len() >= 2,
        ensures
            final(self).wf(),
            final(self)@ == old(self)@.settle_tail(),
    {
        if self.grow_buffer == 0 {
            self.snake.shrink();
        } else {
            self.grow_buffer = self.grow_buffer - 1;
        }
    }
}


impl GameView {
    /// Whether the next frame brings a step: the game runs, a direction has
    /// been given, and the frame count reaches the delay.
    pub open spec fn step_due(self) -> bool {
        &&& self.live
        &&& self.steering.buffered_direction is Some
        &&& self.frame_data.frame + 1 >= frames_for(self.frame_data.frame_delay)
    }

    /// One frame of the clock: counted while the game runs and has a
    /// direction, and followed by a step when one is due.
    pub open spec fn after_frame(self, picks: SpawnPicks) -> GameView {
        if !self.live || self.steering.buffered_direction is None {
            self
        } else if self.step_due() {
            GameView { frame_data: FrameData { frame: 0, ..self.frame_data }, ..self }.step(picks)
        } else {
            GameView {
                frame_data: FrameData { frame: (self.frame_data.frame + 1) as u64, ..self.frame_data },
                ..self
            }
        }
    }

    /// The keys fold into the direction buffer while the game runs.
    pub open spec fn after_keys(self, keys: Keys) -> GameView {
        if !self.live {
            self
        } else {
            GameView {
                steering: DirectionController {
                    buffered_direction: match key_choice(self.steering.direction, keys) {
                        Some(d) => Some(d),
                        None => self.steering.buffered_direction,
                    },
                    ..self.steering
                },
                ..self
            }
        }
    }
}

impl Game {
    /// Advances the simulation by one step, with `picks` choosing where
    /// anything spawns.
    pub fn step_with(&mut self, picks: SpawnPicks)
        requires
            old(self).wf(),
        ensures
            final(self).wf(),
            final(self)@ == old(self)@.step(picks),
    {
        if !self.live {
            return;
        }
        let d = match self.steering.buffered_direction {
            Some(d) => d,
            None => return ,
        };
        let ghost start = self@;
        self.steering.commit();
        let head = self.snake.head();
        let cand = head.neighbor(d);
        if cand.x < 0 || cand.x >= self.config.width || cand.y < 0 || cand.y >= self.config.height {
            self.live = false;
            return ;
        }
        if self.stone_walls.is_forbidden(cand) {
            if self.shielded {
                let ghost before = *self;
                self.shielded = false;
                self.stone_walls.unmark(cand);
                assert forall|d: Cell| #[trigger] self@.stone_walls.contains(d)
                    == before@.stone_walls.remove(cand).contains(d) by {
                    if in_board(d, start.width(), start.height()) {
                        assert(self.stone_walls.count(d) == before.stone_walls.count(d)
                            - contribution(cand, d, 0));
                    }
                }
                assert(self@.stone_walls =~= before@.stone_walls.remove(cand));
            } else {
                self.live = false;
                return ;
            }
        }
        proof {
            self.snake.lemma_on_board();
        }
        if !self.snake.grow(cand) {
            self.live = false;
            return ;
        }
        assert(self@.body.len() >= 2);
        self.eat_apple(cand, picks.apple);
        self.visit_blueberry(cand, picks.blueberry);
        self.visit_golden_apple(cand, picks.golden_apple);
        self.visit_orange(cand, picks.orange);
        self.add_stone_wall(picks.stone_wall);
        self.settle_tail();
    }

    /// One frame of the clock, with `picks` for the step it may bring.
    /// Returns whether a step ran and the game still runs, that is, whether
    /// further frames that are waiting may follow.
    pub fn advance_frame_with(&mut self, picks: SpawnPicks) -> (more: bool)
        requires
            old(self).wf(),
        ensures
            final(self).wf(),
            final(self)@ == old(self)@.after_frame(picks),
            more == (old(self)@.step_due() && final(self)@.live),
    {
        if !self.live || self.steering.buffered_direction.is_none() {
            return false;
        }
        self.frame_data.next_frame();
        if !self.frame_data.time_to_update() {
            return false;
        }
        self.step_with(picks);
        self.live
    }

    /// One frame of the clock; whatever spawns is placed at random.
    pub fn advance_frame(&mut self) -> (more: bool)
        requires
            old(self).wf(),
        ensures
            final(self).wf(),
            exists|picks: SpawnPicks|
                #![auto]
                final(self)@ == old(self)@.after_frame(picks) && more == (old(self)@.step_due()
                    && final(self)@.live),
    {
        let picks = SpawnPicks::draw();
        self.advance_frame_with(picks)
    }

    /// Folds the held keys into the direction buffer while the game runs.
    /// Returns whether the game runs with a direction, so that frames may
    /// advance it.
    pub fn steer(&mut self, keys: Keys) -> (ready: bool)
        requires
            old(self).wf(),
        ensures
            final(self).wf(),
            final(self)@ == old(self)@.after_keys(keys),
            ready == (final(self)@.live && final(self)@.steering.buffered_direction is Some),
    {
        if !self.live {
            return false;
        }
        self.steering.submit_keys(keys);
        self.steering.buffered_direction.is_some()
    }

    /// Starts again under the same constants, the first apple chosen by
    /// `food_pick`.
    pub fn reset_with(&mut self, food_pick: u64)
        requires
            old(self).wf(),
        ensures
            final(self).wf(),
            final(self)@ == initial_view(old(self)@.config, food_pick),
    {
        *self = Game::start(self.config, food_pick);
    }

    /// Starts again under the same constants, the first apple at random.
    pub fn reset(&mut self)
        requires
            old(self).wf(),
        ensures
            final(self).wf(),
            exists|pick: u64| final(self)@ == initial_view(old(self)@.config, pick),
    {
        let pick = rand::random::<u64>();
        self.reset_with(pick);
    }

    /// The input of one update: after the game is over the restart key
    /// starts a new one; while it runs the keys steer. Returns whether frames
    /// may advance the game.
    pub fn handle_keys(&mut self, keys: Keys) -> (ready: bool)
        requires
            old(self).wf(),
        ensures
            final(self).wf(),
            old(self)@.live ==> final(self)@ == old(self)@.after_keys(keys) && ready == (
            final(self)@.steering.buffered_direction is Some),
            !old(self)@.live && keys.space ==> exists|pick: u64|
                final(self)@ == initial_view(old(self)@.config, pick),
            !old(self)@.live && !keys.space ==> final(self)@ == old(self)@,
            !old(self)@.live ==> !ready,
    {
        if !self.live {
            if keys.space {
                self.reset();
            }
            return false;
        }
        self.steer(keys)
    }

    pub fn score(&self) -> (r: u64)
        ensures
            r == self@.score,
    {
        self.score
    }

    pub fn is_alive(&self) -> (r: bool)
        ensures
            r == self@.live,
    {
        self.live
    }

    pub fn is_shielded(&self) -> (r: bool)
        ensures
            r == self@.shielded,
    {
        self.shielded
    }

    pub fn grow_buffer(&self) -> (r: u64)
        ensures
            r == self@.grow_buffer,
    {
        self.grow_buffer
    }

    pub fn config(&self) -> (r: Config)
        ensures
            r == self@.config,
    {
        self.config
    }

    pub fn apple(&self) -> (r: Option<Cell>)
        ensures
            r == self@.apple,
    {
        self.apple
    }

    pub fn blueberry(&self) -> (r: Option<Cell>)
        ensures
            r == self@.blueberry,
    {
        self.blueberry
    }

    pub fn golden_apple(&self) -> (r: Option<Cell>)
        ensures
            r == self@.golden_apple,
    {
        self.golden_apple
    }

    pub fn orange(&self) -> (r: Option<Cell>)
        ensures
            r == self@.orange,
    {
        self.orange
    }

    /// The direction in effect.
    pub fn direction(&self) -> (r: Option<Direction>)
        ensures
            r == self@.steering.direction,
    {
        self.steering.direction
    }

    /// The frame delay, in hundredths of a frame.
    pub fn frame_delay(&self) -> (r: u64)
        ensures
            r == self@.frame_data.frame_delay,
    {
        self.frame_data.frame_delay
    }

    /// The snake's cells, tail first.
    pub fn snake_cells(&self) -> (v: Vec<Cell>)
        ensures
            v@ == self@.body,
    {
        self.snake.cells()
    }

    /// The head of the snake.
    pub fn head(&self) -> (c: Cell)
        requires
            self.wf(),
        ensures
            c == self@.head(),
    {
        self.snake.head()
    }

    /// The stone walls, in row-major order.
    pub fn stone_walls(&self) -> (v: Vec<Cell>)
        requires
            self.wf(),
        ensures
            v@ == board_cells(self@.width(), self@.height()).filter(
                |c: Cell| self@.stone_walls.contains(c),
            ),
    {
        let ghost view = self@;
        let ghost pred = |c: Cell| view.stone_walls.contains(c);
        let ghost all = board_cells(view.width(), view.height());
        let w = self.config.width;
        let n = (self.config.width as usize) * (self.config.height as usize);
        let mut v: Vec<Cell> = Vec::new();
        let mut i: usize = 0;
        while i < n
            invariant
                self.wf(),
                view == self@,
                w == view.config.width,
                n == view.width() * view.height(),
                all == board_cells(view.width(), view.height()),
                pred == (|c: Cell| view.stone_walls.contains(c)),
                i <= n,
                v@ == all.subrange(0, i as int).filter(pred),
            decreases n - i,
        {
            proof {
                lemma_cell_at(i as int, w as int, view.height());
            }
            let c = Cell { x: (i % (w as usize)) as i32, y: (i / (w as usize)) as i32 };
            assert(c == cell_at(i as int, w as int));
            assert(c == all[i as int]);
            assert(all.subrange(0, i + 1) =~= all.subrange(0, i as int).push(c));
            proof {
                all.subrange(0, i as int).lemma_filter_push(c, pred);
            }
            if self.stone_walls.is_forbidden(c) {
                v.push(c);
            }
            i = i + 1;
        }
        assert(all.subrange(0, n as int) =~= all);
        v
    }
}


/// Length is conserved on a step that eats no food: the body's length plus
/// the growth still owed is the same before and after any step that leaves
/// the snake alive without eating an apple or a golden apple.
pub proof fn lemma_steady_length(v: GameView, picks: SpawnPicks)
    requires
        v.live,
        v.step(picks).live,
        v.apple != Some(v.candidate()),
        v.golden_apple != Some(v.candidate()),
    ensures
        v.step(picks).body.len() + v.step(picks).grow_buffer == v.body.len() + v.grow_buffer,
{
}

/// A reset gives a fresh game: no score, a snake of one segment at the
/// centre, one apple and no other item, no walls, no shield. The apple needs
/// a cell outside the start's buffer zone, which a board wider or taller than
/// the zone has.
pub proof fn lemma_reset_state(config: Config, pick: u64)
    requires
        config.valid(),
        config.width / 2 > config.buffer_radius || config.height / 2 > config.buffer_radius,
    ensures
        initial_view(config, pick).score == 0,
        initial_view(config, pick).body == seq![config.centre()],
        initial_view(config, pick).apple is Some,
        initial_view(config, pick).blueberry is None,
        initial_view(config, pick).golden_apple is None,
        initial_view(config, pick).orange is None,
        initial_view(config, pick).stone_walls == Set::<Cell>::empty(),
        !initial_view(config, pick).shielded,
        initial_view(config, pick).live,
        initial_view(config, pick).grow_buffer == 0,
{
    let v = fresh_view(config);
    let all = board_cells(v.width(), v.height());
    let pred = |c: Cell| v.spawnable(c);
    let corner = Cell { x: 0, y: 0 };
    let w = v.width();
    assert(w * v.height() >= 1) by (nonlinear_arith)
        requires
            w >= 1,
            v.height() >= 1,
    ;
    assert(0int % w == 0 && 0int / w == 0) by (nonlinear_arith)
        requires
            w >= 1,
    ;
    assert(all[0] == corner);
    assert(!within(corner, config.centre(), config.buffer_radius as int));
    assert(!near(v.body, corner, config.buffer_radius as int));
    all.lemma_filter_contains(pred, 0);
    assert(v.open_cells().contains(corner));
}


/// The score never drops on a step.
pub proof fn lemma_score_never_drops(v: GameView, picks: SpawnPicks)
    ensures
        v.step(picks).score >= v.score,
{
}

/// Once the game is over, steps and frames leave it as it is: only a reset
/// starts a new one.
pub proof fn lemma_game_over_is_final(v: GameView, picks: SpawnPicks)
    requires
        !v.live,
    ensures
        v.step(picks) == v,
        v.after_frame(picks) == v,
{
}

/// The delay never falls below the configured floor, so it stays positive.
pub proof fn lemma_delay_floor(v: GameView, picks: SpawnPicks)
    requires
        v.config.valid(),
        v.frame_data.frame_delay >= v.config.min_delay,
    ensures
        v.step(picks).frame_data.frame_delay >= v.config.min_delay,
        v.after_frame(picks).frame_data.frame_delay >= v.config.min_delay,
{
    let p = v.config.speedup_percent;
    let f = v.config.min_delay;
    assert forall|d: u64| #[trigger] sped_up(d, p, f) >= f by {
        assert((d as int) * (p as int) / 100 <= d) by (nonlinear_arith)
            requires
                p <= 100,
                d >= 0,
        ;
    }
}

} // verus!
