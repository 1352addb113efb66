use vstd::prelude::*;
use crate::entity::{Bullet, UpdateCommand};
use crate::level::{SCREEN_HEIGHT, SCREEN_WIDTH};
use crate::point::{clamp_coord, Point};
use crate::sprite::{Color, Direction, SpriteState};

verus! {

/// Whether a row lies on the playfield, `[0, SCREEN_HEIGHT]`.
pub open spec fn in_field_y(y: int) -> bool {
    0 <= y <= SCREEN_HEIGHT
}

/// One cell along a bullet's travel: up for `Up`, down for anything else.
pub open spec fn bullet_step(dir: Direction) -> Point {
    if dir == Direction::Up {
        Point { x: 0, y: 1 }
    } else {
        Point { x: 0, y: -1i16 }
    }
}

/// `t` plus one, held at the largest value.
pub open spec fn inc_sat(t: i32) -> i32 {
    if t == i32::MAX { t } else { (t + 1) as i32 }
}

/// `t` minus one, held at zero.
pub open spec fn dec16(t: u16) -> u16 {
    if t == 0 { 0 } else { (t - 1) as u16 }
}

/// `t` minus one, held at zero.
pub open spec fn dec32(t: u32) -> u32 {
    if t == 0 { 0 } else { (t - 1) as u32 }
}

impl SpriteState {
    /// `self` and `o` differ at most in their position.
    pub open spec fn same_but_pos(self, o: SpriteState) -> bool {
        &&& self.hp == o.hp
        &&& self.id == o.id
        &&& self.direction == o.direction
        &&& self.cells == o.cells
    }
}

/// Moves a bullet one cell every `speed` ticks.
pub struct BulletAi {
    pub speed: i32,
    pub tick: i32,
}

impl BulletAi {
    pub fn new(speed: i32) -> (r: BulletAi)
        ensures
            r.speed == speed,
            r.tick == 0,
    {
        BulletAi { speed, tick: 0 }
    }

    /// Whether the update from `self` moves the bullet.
    pub open spec fn moves(self) -> bool {
        inc_sat(self.tick) >= self.speed
    }

    /// One update from (`self`, `s`) to (`ai`, `s2`) emitting `cmds`.
    pub open spec fn stepped(self, s: SpriteState, ai: BulletAi, s2: SpriteState, cmds: Seq<UpdateCommand>) -> bool {
        &&& ai.speed == self.speed
        &&& s2.same_but_pos(s)
        &&& ai.tick == (if self.moves() { 0 } else { inc_sat(self.tick) })
        &&& s2.pos == (if self.moves() { s.pos.plus_spec(bullet_step(s.direction)) } else { s.pos })
        &&& cmds.len() == (if self.moves() && !in_field_y(s2.pos.y as int) { 1int } else { 0 })
        &&& cmds.len() == 1 ==> cmds[0] == UpdateCommand::RemoveBullet(s.id)
    }

    /// Counts a tick; every `speed` ticks moves the bullet one cell along its
    /// facing and asks for its removal once its row is off the playfield.
    pub fn update(&mut self, sprite: &mut SpriteState) -> (cmds: Vec<UpdateCommand>)
        ensures
            old(self).stepped(*old(sprite), *final(self), *final(sprite), cmds@),
    {
        let mut cmds: Vec<UpdateCommand> = Vec::new();
        if self.tick < i32::MAX {
            self.tick = self.tick + 1;
        }
        if self.tick >= self.speed {
            self.tick = 0;
            match sprite.direction {
                Direction::Up => {
                    sprite.move_by(&Point::new(0, 1));
                },
                _ => {
                    sprite.move_by(&Point::new(0, -1));
                },
            }
            if sprite.pos.y < 0 || sprite.pos.y > SCREEN_HEIGHT as i16 {
                cmds.push(UpdateCommand::RemoveBullet(sprite.id));
            }
        }
        cmds
    }
}

/// The ticks the player waits between two shots.
pub const FIRE_COOLDOWN: u32 = 15;

/// The player's intent, set by input, and its firing cooldown.
pub struct PlayerAi {
    pub ticks_to_fire: u32,
    pub do_fire: bool,
    pub do_move: Direction,
}

impl PlayerAi {
    pub fn new() -> (r: PlayerAi)
        ensures
            r.ticks_to_fire == FIRE_COOLDOWN,
            !r.do_fire,
            r.do_move == Direction::Still,
    {
        PlayerAi { do_fire: false, do_move: Direction::Still, ticks_to_fire: FIRE_COOLDOWN }
    }

    /// Whether the update from `self` fires a shot.
    pub open spec fn fires(self) -> bool {
        self.do_fire && self.ticks_to_fire == 0
    }

    /// How firing and the cooldown go from `self` to `next` in one update.
    pub open spec fn cooldown_step(self, next: PlayerAi) -> bool {
        if self.fires() {
            !next.do_fire && next.ticks_to_fire == FIRE_COOLDOWN - 1
        } else {
            next.do_fire == self.do_fire && next.ticks_to_fire == dec32(self.ticks_to_fire)
        }
    }

    /// The column the player stands on after moving by intent `dir` from `x`.
    pub open spec fn moved_x(dir: Direction, x: i16) -> i16 {
        if dir == Direction::Left && x > 1 {
            (x - 1) as i16
        } else if dir == Direction::Right && x < SCREEN_WIDTH - 2 {
            (x + 1) as i16
        } else {
            x
        }
    }

    /// The intent left after moving by intent `dir` from `x`: a move that
    /// meets an edge of the playfield is dropped.
    pub open spec fn moved_intent(dir: Direction, x: i16) -> Direction {
        if (dir == Direction::Left && x <= 1) || (dir == Direction::Right && x >= SCREEN_WIDTH - 2) {
            Direction::Still
        } else {
            dir
        }
    }

    /// One update from (`self`, `s`) to (`ai`, `s2`) emitting `cmds`.
    pub open spec fn stepped(self, s: SpriteState, ai: PlayerAi, s2: SpriteState, cmds: Seq<UpdateCommand>) -> bool {
        &&& self.cooldown_step(ai)
        &&& ai.do_move == PlayerAi::moved_intent(self.do_move, s.pos.x)
        &&& s2.same_but_pos(s)
        &&& s2.pos.y == s.pos.y
        &&& s2.pos.x == PlayerAi::moved_x(self.do_move, s.pos.x)
        &&& cmds.len() == (if self.fires() { 1int } else { 0 })
        &&& self.fires() ==> (match cmds[0] {
            UpdateCommand::SpawnPlayerBullet(b) => b.spawned(s.fire_point_spec(), Direction::Up, Color::LightBlue, 1),
            _ => false,
        })
    }

    /// Fires when asked and the cooldown is over, counts the cooldown down,
    /// and moves one cell along the intent, stopping at the playfield's edges.
    pub fn update(&mut self, sprite: &mut SpriteState) -> (cmds: Vec<UpdateCommand>)
        ensures
            old(self).stepped(*old(sprite), *final(self), *final(sprite), cmds@),
            1 <= old(sprite).pos.x <= SCREEN_WIDTH - 2 ==> 1 <= final(sprite).pos.x <= SCREEN_WIDTH - 2,
    {
        let mut cmds: Vec<UpdateCommand> = Vec::new();
        if self.do_fire && self.ticks_to_fire == 0 {
            self.do_fire = false;
            self.ticks_to_fire = FIRE_COOLDOWN;
            cmds.push(UpdateCommand::SpawnPlayerBullet(sprite.fire(Direction::Up, Color::LightBlue, 1)));
        }
        if self.ticks_to_fire > 0 {
            self.ticks_to_fire = self.ticks_to_fire - 1;
        }
        match self.do_move {
            Direction::Left => {
                if sprite.pos.x <= 1 {
                    self.do_move = Direction::Still;
                } else {
                    sprite.move_by(&Point::new(-1, 0));
                }
            },
            Direction::Right => {
                if sprite.pos.x >= (SCREEN_WIDTH - 2) as i16 {
                    self.do_move = Direction::Still;
                } else {
                    sprite.move_by(&Point::new(1, 0));
                }
            },
            _ => {},
        }
        cmds
    }
}

} // verus!

verus! {

/// Relies on rand::Rng::gen_range on rand::thread_rng: a value drawn from
/// `[0, n)`. It panics on an empty range, which `requires` rules out.
#[verifier::external_body]
fn random_below(n: u16) -> (r: u16)
    requires
        n > 0,
    ensures
        r < n,
{
    rand::Rng::gen_range(&mut rand::thread_rng(), 0..n)
}

/// A reload drawn for a shooter whose reload scale is `fire_rate`: below
/// `fire_rate`, and 0 when firing is off.
pub open spec fn reload_ok(fire_rate: u16, reload: u16) -> bool {
    if fire_rate == 0 { reload == 0 } else { reload < fire_rate }
}

/// Draws a reload from `[0, fire_rate)`, or 0 when `fire_rate` is 0.
pub fn draw_reload(fire_rate: u16) -> (r: u16)
    ensures
        reload_ok(fire_rate, r),
{
    if fire_rate == 0 {
        0
    } else {
        random_below(fire_rate)
    }
}

/// The column after one patrol step from `x` in direction `dir`: left for
/// `Left`, right for anything else.
pub open spec fn patrol_x(dir: Direction, x: i16) -> i16 {
    if dir == Direction::Left {
        clamp_coord(x - 1)
    } else {
        clamp_coord(x + 1)
    }
}

/// The direction after a patrol step in `dir` that reached column `x`: it
/// turns once the column has passed the bound it was heading for.
pub open spec fn patrol_dir(dir: Direction, x: i16, range: (i16, i16)) -> Direction {
    if dir == Direction::Left {
        if x < range.0 { Direction::Right } else { dir }
    } else {
        if x > range.1 { Direction::Left } else { dir }
    }
}

/// Whether a countdown at `t` reaches zero on this tick.
pub open spec fn due(t: u16) -> bool {
    dec16(t) == 0
}

/// A basic enemy: patrols between two columns and fires down at random
/// intervals. `fire_rate` scales the reload: each reload is drawn from
/// `[0, fire_rate)`, and 0 turns firing off.
pub struct InvanderAi {
    pub move_dir: Direction,
    pub ticks_to_spawn_bullet: u16,
    pub ticks_to_move: u16,
    pub x_range: (i16, i16),
    pub move_speed: u16,
    pub fire_rate: u16,
    pub bullet_speed: i32,
}

impl InvanderAi {
    /// A fresh behaviour whose first reload is `reload`.
    pub open spec fn started(self, x_range: (i16, i16), move_speed: u16, fire_rate: u16, bullet_speed: i32, reload: u16) -> bool {
        &&& self.x_range == x_range
        &&& self.move_dir == Direction::Left
        &&& self.move_speed == move_speed
        &&& self.ticks_to_move == move_speed
        &&& self.fire_rate == fire_rate
        &&& self.ticks_to_spawn_bullet == reload
        &&& self.bullet_speed == bullet_speed
    }

    pub fn with_reload(x_range: &(i16, i16), move_speed: u16, fire_rate: u16, bullet_speed: i32, reload: u16) -> (r: InvanderAi)
        ensures
            r.started(*x_range, move_speed, fire_rate, bullet_speed, reload),
    {
        InvanderAi {
            x_range: *x_range,
            move_dir: Direction::Left,
            move_speed,
            ticks_to_move: move_speed,
            fire_rate,
            ticks_to_spawn_bullet: reload,
            bullet_speed,
        }
    }

    pub fn new(x_range: &(i16, i16), move_speed: u16, fire_rate: u16, bullet_speed: i32) -> (r: InvanderAi)
        ensures
            reload_ok(fire_rate, r.ticks_to_spawn_bullet),
            r.started(*x_range, move_speed, fire_rate, bullet_speed, r.ticks_to_spawn_bullet),
    {
        let reload = draw_reload(fire_rate);
        InvanderAi::with_reload(x_range, move_speed, fire_rate, bullet_speed, reload)
    }

    /// Whether this tick fires.
    pub open spec fn fires(self) -> bool {
        self.fire_rate > 0 && due(self.ticks_to_spawn_bullet)
    }

    /// One update from (`self`, `s`) to (`ai`, `s2`) emitting `cmds`, where a
    /// shot takes `reload` as its next reload.
    pub open spec fn stepped(self, s: SpriteState, ai: InvanderAi, s2: SpriteState, cmds: Seq<UpdateCommand>, reload: u16) -> bool {
        let moves = due(self.ticks_to_move);
        let x = if moves { patrol_x(self.move_dir, s.pos.x) } else { s.pos.x };
        &&& ai.x_range == self.x_range
        &&& ai.move_speed == self.move_speed
        &&& ai.fire_rate == self.fire_rate
        &&& ai.bullet_speed == self.bullet_speed
        &&& ai.ticks_to_move == (if moves { self.move_speed } else { dec16(self.ticks_to_move) })
        &&& s2.same_but_pos(s)
        &&& s2.pos == Point { x, y: s.pos.y }
        &&& ai.move_dir == (if moves { patrol_dir(self.move_dir, x, self.x_range) } else { self.move_dir })
        &&& ai.ticks_to_spawn_bullet == (if self.fire_rate == 0 {
            self.ticks_to_spawn_bullet
        } else if self.fires() {
            reload
        } else {
            dec16(self.ticks_to_spawn_bullet)
        })
        &&& cmds.len() == (if self.fires() { 1int } else { 0 })
        &&& self.fires() ==> (match cmds[0] {
            UpdateCommand::SpawnBullet(b) => b.spawned(s2.fire_point_spec(), Direction::Down, Color::Red, self.bullet_speed),
            _ => false,
        })
    }

    /// One tick with `reload` as the next reload should this tick fire.
    pub fn step(&mut self, sprite: &mut SpriteState, reload: u16) -> (cmds: Vec<UpdateCommand>)
        ensures
            old(self).stepped(*old(sprite), *final(self), *final(sprite), cmds@, reload),
    {
        let mut commands: Vec<UpdateCommand> = Vec::new();
        if self.ticks_to_move > 0 {
            self.ticks_to_move = self.ticks_to_move - 1;
        }
        if self.ticks_to_move == 0 {
            self.ticks_to_move = self.move_speed;
            match self.move_dir {
                Direction::Left => {
                    sprite.move_by(&Point::new(-1, 0));
                    if sprite.pos.x < self.x_range.0 {
                        self.move_dir = Direction::Right;
                    }
                },
                _ => {
                    sprite.move_by(&Point::new(1, 0));
                    if sprite.pos.x > self.x_range.1 {
                        self.move_dir = Direction::Left;
                    }
                },
            }
        }
        if self.fire_rate > 0 {
            if self.ticks_to_spawn_bullet > 0 {
                self.ticks_to_spawn_bullet = self.ticks_to_spawn_bullet - 1;
            }
            if self.ticks_to_spawn_bullet == 0 {
                self.ticks_to_spawn_bullet = reload;
                commands.push(UpdateCommand::SpawnBullet(sprite.fire(Direction::Down, Color::Red, self.bullet_speed)));
            }
        }
        commands
    }

    /// One tick: a patrol step every `move_speed` ticks, turning once past a
    /// bound, and a shot down whenever the reload runs out, with a fresh
    /// reload drawn at random.
    pub fn update(&mut self, sprite: &mut SpriteState) -> (cmds: Vec<UpdateCommand>)
        ensures
            exists|reload: u16| reload_ok(old(self).fire_rate, reload)
                && old(self).stepped(*old(sprite), *final(self), *final(sprite), cmds@, reload),
    {
        let reload = draw_reload(self.fire_rate);
        self.step(sprite, reload)
    }
}

} // verus!

verus! {

/// The shots in a boss salvo.
pub const SALVO: u16 = 10;

/// The glyph of a boss's cannon cells.
pub const CANNON: char = 'V';

/// How far a boss at row `y` may drift toward the bottom bound.
pub open spec fn drift_down(y: i16, y_range: (i16, i16)) -> int {
    if y - y_range.0 > 0 { y - y_range.0 } else { 0 }
}

/// How far a boss at row `y` may drift toward the top bound.
pub open spec fn drift_up(y: i16, y_range: (i16, i16)) -> int {
    if y_range.1 - y > 0 { y_range.1 - y } else { 0 }
}

/// The row after a drift from `y`: up when `up`, by `shift` modulo the room
/// left toward that bound, and not at all where there is none.
pub open spec fn drifted_y(y: i16, y_range: (i16, i16), up: bool, shift: u16) -> i16 {
    if up {
        let room = drift_up(y, y_range);
        if room == 0 { y } else { (y + (shift as int) % room) as i16 }
    } else {
        let room = drift_down(y, y_range);
        if room == 0 { y } else { (y - (shift as int) % room) as i16 }
    }
}

/// The place of a shot from the cannon at entity-local `c` of an entity at `pos`.
pub open spec fn cannon_shot(pos: Point, c: Point) -> Point {
    Point { x: clamp_coord(pos.x + c.x), y: clamp_coord(pos.y - c.y) }
}

/// `cmds` holds one downward shot from each cannon listed in `cannons`, in
/// their order, for an entity at `pos`.
pub open spec fn salvo_from(pos: Point, cannons: Seq<Point>, cmds: Seq<UpdateCommand>) -> bool {
    &&& cmds.len() == cannons.len()
    &&& forall|k: int| 0 <= k < cmds.len() ==> (match #[trigger] cmds[k] {
        UpdateCommand::SpawnBullet(b) => b.spawned(cannon_shot(pos, cannons[k]), Direction::Down, Color::LightMagenta, 1),
        _ => false,
    })
}

/// The boss: patrols like an invader, drifts up or down at random at each
/// turn, and fires salvos from every cannon cell at once.
pub struct BossAi {
    pub move_dir: Direction,
    pub ticks_to_spawn_bullet: u16,
    pub ticks_to_move: u16,
    pub x_range: (i16, i16),
    pub y_range: (i16, i16),
    pub move_speed: u16,
    pub fire_rate: u16,
    pub bullet_count: u16,
}

impl BossAi {
    /// A fresh behaviour whose first reload is `reload`.
    pub open spec fn started(self, x_range: (i16, i16), y_range: (i16, i16), move_speed: u16, fire_rate: u16, reload: u16) -> bool {
        &&& self.x_range == x_range
        &&& self.y_range == y_range
        &&& self.move_dir == Direction::Left
        &&& self.move_speed == move_speed
        &&& self.ticks_to_move == move_speed
        &&& self.fire_rate == fire_rate
        &&& self.ticks_to_spawn_bullet == reload
        &&& self.bullet_count == SALVO
    }

    pub fn with_reload(x_range: &(i16, i16), y_range: &(i16, i16), move_speed: u16, fire_rate: u16, reload: u16) -> (r: BossAi)
        ensures
            r.started(*x_range, *y_range, move_speed, fire_rate, reload),
    {
        BossAi {
            bullet_count: SALVO,
            x_range: *x_range,
            y_range: *y_range,
            move_dir: Direction::Left,
            move_speed,
            ticks_to_move: move_speed,
            fire_rate,
            ticks_to_spawn_bullet: reload,
        }
    }

    pub fn new(x_range: &(i16, i16), y_range: &(i16, i16), move_speed: u16, fire_rate: u16) -> (r: BossAi)
        ensures
            reload_ok(fire_rate, r.ticks_to_spawn_bullet),
            r.started(*x_range, *y_range, move_speed, fire_rate, r.ticks_to_spawn_bullet),
    {
        let reload = draw_reload(fire_rate);
        BossAi::with_reload(x_range, y_range, move_speed, fire_rate, reload)
    }

    /// Whether this tick's patrol step is a turn: a step from a bound
    /// toward the outside.
    pub open spec fn turns_at(self, x: i16) -> bool {
        if self.move_dir == Direction::Left { x == self.x_range.0 } else { x == self.x_range.1 }
    }

    /// Whether this tick fires a salvo.
    pub open spec fn fires(self) -> bool {
        self.fire_rate > 0 && self.ticks_to_spawn_bullet == 0 && self.bullet_count > 0
    }

    /// One update from (`self`, `s`) to (`ai`, `s2`) emitting `cmds`, with
    /// `reload`, `up` and `shift` standing for the draws it makes.
    pub open spec fn stepped(self, s: SpriteState, ai: BossAi, s2: SpriteState, cmds: Seq<UpdateCommand>, reload: u16, up: bool, shift: u16) -> bool {
        let moves = due(self.ticks_to_move);
        let y = if moves && self.turns_at(s.pos.x) { drifted_y(s.pos.y, self.y_range, up, shift) } else { s.pos.y };
        let x = if moves { patrol_x(self.move_dir, s.pos.x) } else { s.pos.x };
        &&& ai.x_range == self.x_range
        &&& ai.y_range == self.y_range
        &&& ai.move_speed == self.move_speed
        &&& ai.fire_rate == self.fire_rate
        &&& ai.ticks_to_move == (if moves { self.move_speed } else { dec16(self.ticks_to_move) })
        &&& s2.same_but_pos(s)
        &&& s2.pos == Point { x, y }
        &&& ai.move_dir == (if moves { patrol_dir(self.move_dir, x, self.x_range) } else { self.move_dir })
        &&& (if self.fire_rate == 0 {
            ai.bullet_count == self.bullet_count && ai.ticks_to_spawn_bullet == self.ticks_to_spawn_bullet
        } else if self.fires() {
            ai.bullet_count == self.bullet_count - 1 && ai.ticks_to_spawn_bullet == self.ticks_to_spawn_bullet
        } else if self.bullet_count == 0 {
            ai.bullet_count == SALVO && ai.ticks_to_spawn_bullet == reload
        } else {
            ai.bullet_count == self.bullet_count && ai.ticks_to_spawn_bullet == dec16(self.ticks_to_spawn_bullet)
        })
        &&& (if self.fires() {
            exists|cannons: Seq<Point>| s2.lists_cells(CANNON, cannons) && salvo_from(s2.pos, cannons, cmds)
        } else {
            cmds.len() == 0
        })
    }

    /// One tick with the given draws: `reload` for the next reload, `up` and
    /// `shift` for the drift at a turn.
    pub fn step(&mut self, sprite: &mut SpriteState, reload: u16, up: bool, shift: u16) -> (cmds: Vec<UpdateCommand>)
        requires
            old(sprite).shape_ok(),
        ensures
            old(self).stepped(*old(sprite), *final(self), *final(sprite), cmds@, reload, up, shift),
    {
        let mut commands: Vec<UpdateCommand> = Vec::new();
        if self.ticks_to_move > 0 {
            self.ticks_to_move = self.ticks_to_move - 1;
        }
        if self.ticks_to_move == 0 {
            self.ticks_to_move = self.move_speed;
            let turning = match self.move_dir {
                Direction::Left => sprite.pos.x == self.x_range.0,
                _ => sprite.pos.x == self.x_range.1,
            };
            if turning {
                let y = sprite.pos.y;
                if up {
                    let room: i32 = self.y_range.1 as i32 - y as i32;
                    if room > 0 {
                        sprite.pos.y = (y as i32 + shift as i32 % room) as i16;
                    }
                } else {
                    let room: i32 = y as i32 - self.y_range.0 as i32;
                    if room > 0 {
                        sprite.pos.y = (y as i32 - shift as i32 % room) as i16;
                    }
                }
            }
            match self.move_dir {
                Direction::Left => {
                    sprite.move_by(&Point::new(-1, 0));
                    if sprite.pos.x < self.x_range.0 {
                        self.move_dir = Direction::Right;
                    }
                },
                _ => {
                    sprite.move_by(&Point::new(1, 0));
                    if sprite.pos.x > self.x_range.1 {
                        self.move_dir = Direction::Left;
                    }
                },
            }
        }
        if self.fire_rate > 0 {
            if self.ticks_to_spawn_bullet == 0 && self.bullet_count > 0 {
                let cannons = sprite.find_char_pos(CANNON);
                let mut k: usize = 0;
                while k < cannons.len()
                    invariant
                        k <= cannons@.len(),
                        sprite.lists_cells(CANNON, cannons@),
                        salvo_from(sprite.pos, cannons@.take(k as int), commands@),
                    decreases cannons@.len() - k,
                {
                    let c = cannons[k];
                    let at = sprite.pos.plus(Point::new(c.x, 0)).minus(Point::new(0, c.y));
                    assert(sprite.shows_at(CANNON, c.y as int, c.x as int));
                    commands.push(UpdateCommand::SpawnBullet(Bullet::new(at.x, at.y, Direction::Down, Color::LightMagenta, 1)));
                    k += 1;
                    assert(salvo_from(sprite.pos, cannons@.take(k as int), commands@));
                }
                assert(cannons@.take(cannons@.len() as int) =~= cannons@);
                self.bullet_count = self.bullet_count - 1;
            } else if self.bullet_count == 0 {
                self.bullet_count = SALVO;
                self.ticks_to_spawn_bullet = reload;
            } else {
                self.ticks_to_spawn_bullet = self.ticks_to_spawn_bullet - 1;
            }
        }
        commands
    }

    /// One tick: a patrol step every `move_speed` ticks with a random drift
    /// at each turn, and salvos while shots are left in the burst, followed
    /// by a random reload.
    pub fn update(&mut self, sprite: &mut SpriteState) -> (cmds: Vec<UpdateCommand>)
        requires
            old(sprite).shape_ok(),
        ensures
            exists|reload: u16, up: bool, shift: u16| reload_ok(old(self).fire_rate, reload)
                && old(self).stepped(*old(sprite), *final(self), *final(sprite), cmds@, reload, up, shift),
    {
        let reload = draw_reload(self.fire_rate);
        let up = random_below(2) == 1;
        let shift = random_below(u16::MAX);
        self.step(sprite, reload, up, shift)
    }
}

} // verus!

verus! {

/// A bullet on the playfield asks for its removal on exactly the tick its
/// row leaves `[0, SCREEN_HEIGHT]`, whichever way it travels, and on no other.
pub proof fn lemma_bullet_removed_on_leaving(ai: BulletAi, s: SpriteState, ai2: BulletAi, s2: SpriteState, cmds: Seq<UpdateCommand>)
    requires
        ai.stepped(s, ai2, s2, cmds),
        in_field_y(s.pos.y as int),
    ensures
        cmds.len() <= 1,
        cmds.len() == 1 <==> !in_field_y(s2.pos.y as int),
        cmds.len() == 1 ==> cmds[0] == UpdateCommand::RemoveBullet(s.id),
{
}

/// The player never leaves columns `[1, SCREEN_WIDTH - 2]`, and moving
/// against an edge keeps it in place and drops the intent.
pub proof fn lemma_player_stays_on_field(ai: PlayerAi, s: SpriteState, ai2: PlayerAi, s2: SpriteState, cmds: Seq<UpdateCommand>)
    requires
        ai.stepped(s, ai2, s2, cmds),
        1 <= s.pos.x <= SCREEN_WIDTH - 2,
    ensures
        1 <= s2.pos.x <= SCREEN_WIDTH - 2,
        ai.do_move == Direction::Left && s.pos.x == 1 ==> s2.pos == s.pos && ai2.do_move == Direction::Still,
        ai.do_move == Direction::Right && s.pos.x == SCREEN_WIDTH - 2 ==> s2.pos == s.pos && ai2.do_move == Direction::Still,
{
}

/// An invader heading left or right turns on the tick its step takes the
/// column past the bound it heads for, and on no other tick.
pub proof fn lemma_invander_turns_past_bound(
    ai: InvanderAi,
    s: SpriteState,
    ai2: InvanderAi,
    s2: SpriteState,
    cmds: Seq<UpdateCommand>,
    reload: u16,
)
    requires
        ai.stepped(s, ai2, s2, cmds, reload),
        ai.move_dir == Direction::Left || ai.move_dir == Direction::Right,
    ensures
        ai2.move_dir != ai.move_dir <==> due(ai.ticks_to_move) && (
            (ai.move_dir == Direction::Left && s2.pos.x < ai.x_range.0)
            || (ai.move_dir == Direction::Right && s2.pos.x > ai.x_range.1)),
{
}

/// After a shot, the cooldown is at least `FIRE_COOLDOWN - (k - i)` for the
/// following `FIRE_COOLDOWN` updates.
proof fn lemma_cooldown_after(ais: Seq<PlayerAi>, i: int, k: int)
    requires
        forall|n: int| 0 <= n < ais.len() - 1 ==> #[trigger] ais[n].cooldown_step(ais[n + 1]),
        0 <= i < k < ais.len(),
        k - i <= FIRE_COOLDOWN,
        ais[i].fires(),
    ensures
        ais[k].ticks_to_fire >= FIRE_COOLDOWN - (k - i),
    decreases k - i,
{
    let n = k - 1;
    assert(ais[n].cooldown_step(ais[n + 1]));
    if k > i + 1 {
        lemma_cooldown_after(ais, i, k - 1);
    }
}

/// With updates chained one after the other, two shots are at least
/// `FIRE_COOLDOWN` updates apart, however often fire is asked for.
pub proof fn lemma_fire_cooldown(ais: Seq<PlayerAi>, i: int, j: int)
    requires
        forall|n: int| 0 <= n < ais.len() - 1 ==> #[trigger] ais[n].cooldown_step(ais[n + 1]),
        0 <= i < j < ais.len(),
        ais[i].fires(),
        ais[j].fires(),
    ensures
        j - i >= FIRE_COOLDOWN,
{
    if j - i < FIRE_COOLDOWN {
        lemma_cooldown_after(ais, i, j);
    }
}

} // verus!
