use vstd::prelude::*;
use crate::ai::{reload_ok, BossAi, BulletAi, InvanderAi, PlayerAi, FIRE_COOLDOWN};
use crate::point::Point;
use crate::sprite::{glyph, Cell, Color, Direction, SpriteState};

verus! {

/// A deferred change to the entity collections, emitted while they are
/// being walked and applied once the walk is over.
pub enum UpdateCommand {
    SpawnBullet(Bullet),
    SpawnPlayerBullet(Bullet),
    RemoveBullet(u32),
    RemoveInvander(u32),
}

pub struct Bullet {
    pub state: SpriteState,
    pub ai: BulletAi,
}

impl Bullet {
    /// A fresh bullet at `p`, travelling `dir`, one cell per `speed` ticks.
    pub open spec fn spawned(self, p: Point, dir: Direction, color: Color, speed: i32) -> bool {
        &&& self.state.pos == p
        &&& self.state.direction == dir
        &&& self.state.hp == 1
        &&& self.state.id == 0
        &&& self.state.cells@.len() == 1
        &&& self.state.cells@[0]@ == seq![Cell { symbol: '*', color }]
        &&& self.ai.speed == speed
        &&& self.ai.tick == 0
    }

    pub fn new(x: i16, y: i16, dir: Direction, color: Color, bullet_speed: i32) -> (r: Bullet)
        ensures
            r.spawned(Point::new_spec(x, y), dir, color, bullet_speed),
            r.state.shape_ok(),
    {
        let row = vec![Cell::new('*', color)];
        let r = Bullet {
            state: SpriteState { id: 0, hp: 1, pos: Point::new(x, y), direction: dir, cells: vec![row] },
            ai: BulletAi::new(bullet_speed),
        };
        assert(r.state.cells@[0]@ =~= seq![Cell { symbol: '*', color }]);
        r
    }
}

impl SpriteState {
    /// A bullet at this entity's fire point.
    pub fn fire(&self, dir: Direction, color: Color, bullet_speed: i32) -> (r: Bullet)
        ensures
            r.spawned(self.fire_point_spec(), dir, color, bullet_speed),
            r.state.shape_ok(),
    {
        let start = self.fire_point();
        Bullet::new(start.x, start.y, dir, color, bullet_speed)
    }
}

} // verus!

verus! {

/// The enemy kinds that patrol in waves.
#[derive(Debug, Copy, Clone, PartialEq, Eq, Structural)]
pub enum InvanderKind {
    Fighter,
    Tank,
    Assassin,
}

/// The player's ship: a nose over a three-cell hull.
pub open spec fn player_shape() -> Seq<Seq<Cell>> {
    seq![
        seq![
            glyph(' ', Color::Blue),
            glyph('^', Color::LightBlue),
        ],
        seq![
            glyph('/', Color::Blue),
            glyph('V', Color::Red),
            glyph('\\', Color::Blue),
        ],
    ]
}

/// The fighter: a lid, a body between claws, three legs.
pub open spec fn fighter_shape() -> Seq<Seq<Cell>> {
    seq![
        seq![
            glyph(' ', Color::Green),
            glyph('_', Color::Green),
            glyph('_', Color::Green),
            glyph('_', Color::Green),
            glyph('_', Color::Green),
            glyph('_', Color::Green),
            glyph(' ', Color::Green),
        ],
        seq![
            glyph('<', Color::Green),
            glyph(':', Color::Yellow),
            glyph(':', Color::Yellow),
            glyph(':', Color::Yellow),
            glyph(':', Color::Yellow),
            glyph(':', Color::Yellow),
            glyph('>', Color::Green),
        ],
        seq![
            glyph(' ', Color::Green),
            glyph('|', Color::Red),
            glyph(' ', Color::Green),
            glyph('|', Color::Red),
            glyph(' ', Color::Green),
            glyph('|', Color::Red),
            glyph(' ', Color::Green),
        ],
    ]
}

/// The tank: a turret row, a hollow hull, three treads.
pub open spec fn tank_shape() -> Seq<Seq<Cell>> {
    seq![
        seq![
            glyph(' ', Color::Red),
            glyph('^', Color::Red),
            glyph('^', Color::Red),
            glyph('^', Color::Red),
            glyph(' ', Color::Red),
        ],
        seq![
            glyph('{', Color::Green),
            glyph(' ', Color::Green),
            glyph(' ', Color::Green),
            glyph(' ', Color::Green),
            glyph('}', Color::Green),
        ],
        seq![
            glyph(' ', Color::Green),
            glyph('V', Color::Yellow),
            glyph('V', Color::Yellow),
            glyph('V', Color::Yellow),
            glyph(' ', Color::Green),
        ],
    ]
}

/// The assassin: three rows of nine, wings around a core `&` in the middle
/// of row 1.
pub open spec fn assassin_shape() -> Seq<Seq<Cell>> {
    seq![
        seq![
            glyph(' ', Color::Green),
            glyph('<', Color::LightGreen),
            glyph('<', Color::Green),
            glyph('<', Color::Cyan),
            glyph(' ', Color::Green),
            glyph('>', Color::Cyan),
            glyph('>', Color::Green),
            glyph('>', Color::LightGreen),
            glyph(' ', Color::Green),
        ],
        seq![
            glyph('<', Color::LightGreen),
            glyph('<', Color::Green),
            glyph('<', Color::Cyan),
            glyph(' ', Color::Green),
            glyph('&', Color::Red),
            glyph(' ', Color::Green),
            glyph('>', Color::Cyan),
            glyph('>', Color::Green),
            glyph('>', Color::LightGreen),
        ],
        seq![
            glyph(' ', Color::Green),
            glyph('<', Color::LightGreen),
            glyph('<', Color::Green),
            glyph('<', Color::Cyan),
            glyph(' ', Color::Green),
            glyph('>', Color::Cyan),
            glyph('>', Color::Green),
            glyph('>', Color::LightGreen),
            glyph(' ', Color::Green),
        ],
    ]
}

/// The boss: a hull eleven cells wide with three `V` cannons on its bottom row.
pub open spec fn boss_shape() -> Seq<Seq<Cell>> {
    seq![
        seq![
            glyph(' ', Color::Red),
            glyph('/', Color::Red),
            glyph('=', Color::Red),
            glyph('=', Color::Red),
            glyph('=', Color::Red),
            glyph('=', Color::Red),
            glyph('=', Color::Red),
            glyph('=', Color::Red),
            glyph('=', Color::Red),
            glyph('\\', Color::Red),
            glyph(' ', Color::Red),
        ],
        seq![
            glyph('<', Color::LightMagenta),
            glyph('|', Color::Red),
            glyph(' ', Color::Red),
            glyph(' ', Color::Red),
            glyph('(', Color::Yellow),
            glyph('O', Color::LightMagenta),
            glyph(')', Color::Yellow),
            glyph(' ', Color::Red),
            glyph(' ', Color::Red),
            glyph('|', Color::Red),
            glyph('>', Color::LightMagenta),
        ],
        seq![
            glyph(' ', Color::Red),
            glyph('\\', Color::Red),
            glyph('_', Color::Red),
            glyph('_', Color::Red),
            glyph('_', Color::Red),
            glyph('_', Color::Red),
            glyph('_', Color::Red),
            glyph('_', Color::Red),
            glyph('_', Color::Red),
            glyph('/', Color::Red),
            glyph(' ', Color::Red),
        ],
        seq![
            glyph(' ', Color::Yellow),
            glyph(' ', Color::Yellow),
            glyph('V', Color::Yellow),
            glyph(' ', Color::Yellow),
            glyph(' ', Color::Yellow),
            glyph('V', Color::Yellow),
            glyph(' ', Color::Yellow),
            glyph(' ', Color::Yellow),
            glyph('V', Color::Yellow),
            glyph(' ', Color::Yellow),
            glyph(' ', Color::Yellow),
        ],
    ]
}

/// The shape of an enemy of kind `kind`.
pub open spec fn kind_shape(kind: InvanderKind) -> Seq<Seq<Cell>> {
    match kind {
        InvanderKind::Fighter => fighter_shape(),
        InvanderKind::Tank => tank_shape(),
        InvanderKind::Assassin => assassin_shape(),
    }
}

/// The ticks between two patrol steps of kind `kind`.
pub open spec fn kind_move_speed(kind: InvanderKind) -> u16 {
    match kind {
        InvanderKind::Fighter => 10,
        InvanderKind::Tank => 4,
        InvanderKind::Assassin => 1,
    }
}

/// The reload scale of kind `kind`; 0 for the tank, which never fires.
pub open spec fn kind_fire_rate(kind: InvanderKind) -> u16 {
    match kind {
        InvanderKind::Fighter => 1000,
        InvanderKind::Tank => 0,
        InvanderKind::Assassin => 80,
    }
}

/// The ticks per cell of the bullets of kind `kind`.
pub open spec fn kind_bullet_speed(kind: InvanderKind) -> i32 {
    match kind {
        InvanderKind::Fighter => 8,
        InvanderKind::Tank => 1,
        InvanderKind::Assassin => 30,
    }
}

/// The hit points an enemy of kind `kind` is made with.
pub open spec fn kind_hp(kind: InvanderKind) -> u16 {
    if kind == InvanderKind::Tank { 2 } else { 1 }
}

pub struct Player {
    pub state: SpriteState,
    pub ai: PlayerAi,
}

impl Player {
    /// A fresh player ship at (`x`, `y`).
    pub open spec fn spawned(self, x: i16, y: i16) -> bool {
        &&& self.state.pos == Point::new_spec(x, y)
        &&& self.state.direction == Direction::Up
        &&& self.state.hp == 1
        &&& self.state.id == 0
        &&& self.state.shape_ok()
        &&& self.state.shape() == player_shape()
        &&& self.ai.ticks_to_fire == FIRE_COOLDOWN
        &&& !self.ai.do_fire
        &&& self.ai.do_move == Direction::Still
    }

    /// The ship the player flies, facing up with one hit point.
    pub fn new(x: i16, y: i16) -> (r: Player)
        ensures
            r.spawned(x, y),
    {
        let r = Player {
            state: SpriteState {
                hp: 1,
                id: 0,
                pos: Point::new(x, y),
                direction: Direction::Up,
                cells: vec![
                    vec![
                        Cell::new(' ', Color::Blue),
                        Cell::new('^', Color::LightBlue),
                    ],
                    vec![
                        Cell::new('/', Color::Blue),
                        Cell::new('V', Color::Red),
                        Cell::new('\\', Color::Blue),
                    ],
                ],
            },
            ai: PlayerAi::new(),
        };
        assert(r.state.shape() =~~= player_shape());
        r
    }
}

pub struct Invander {
    pub kind: InvanderKind,
    pub state: SpriteState,
    pub ai: InvanderAi,
}

impl Invander {
    /// A fresh enemy of kind `kind` at (`x`, `y`), facing down, with the
    /// shape, hit points and behaviour of its kind, patrolling `x_range`.
    pub open spec fn spawned(self, kind: InvanderKind, x: i16, y: i16, x_range: (i16, i16)) -> bool {
        &&& self.kind == kind
        &&& self.state.pos == Point::new_spec(x, y)
        &&& self.state.id == 0
        &&& self.behaves_as(kind, x_range)
    }

    /// Facing, shape, hit points and a fresh behaviour as kind `kind` has
    /// them, patrolling `x_range`.
    pub open spec fn behaves_as(self, kind: InvanderKind, x_range: (i16, i16)) -> bool {
        &&& self.state.direction == Direction::Down
        &&& self.state.hp == kind_hp(kind)
        &&& self.state.shape_ok()
        &&& self.state.shape() == kind_shape(kind)
        &&& self.ai.started(x_range, kind_move_speed(kind), kind_fire_rate(kind), kind_bullet_speed(kind), self.ai.ticks_to_spawn_bullet)
        &&& reload_ok(kind_fire_rate(kind), self.ai.ticks_to_spawn_bullet)
    }

    /// The standard enemy, a fighter.
    pub fn new(x: i16, y: i16, x_range: &(i16, i16)) -> (r: Invander)
        ensures
            r.spawned(InvanderKind::Fighter, x, y, *x_range),
    {
        Invander::new_fighter(x, y, x_range)
    }

    /// A fighter: one hit point, a step every 10 ticks, frequent fire.
    pub fn new_fighter(x: i16, y: i16, x_range: &(i16, i16)) -> (r: Invander)
        ensures
            r.spawned(InvanderKind::Fighter, x, y, *x_range),
    {
        let r = Invander {
            kind: InvanderKind::Fighter,
            state: SpriteState {
                hp: 1,
                id: 0,
                pos: Point::new(x, y),
                direction: Direction::Down,
                cells: vec![
                    vec![
                        Cell::new(' ', Color::Green),
                        Cell::new('_', Color::Green),
                        Cell::new('_', Color::Green),
                        Cell::new('_', Color::Green),
                        Cell::new('_', Color::Green),
                        Cell::new('_', Color::Green),
                        Cell::new(' ', Color::Green),
                    ],
                    vec![
                        Cell::new('<', Color::Green),
                        Cell::new(':', Color::Yellow),
                        Cell::new(':', Color::Yellow),
                        Cell::new(':', Color::Yellow),
                        Cell::new(':', Color::Yellow),
                        Cell::new(':', Color::Yellow),
                        Cell::new('>', Color::Green),
                    ],
                    vec![
                        Cell::new(' ', Color::Green),
                        Cell::new('|', Color::Red),
                        Cell::new(' ', Color::Green),
                        Cell::new('|', Color::Red),
                        Cell::new(' ', Color::Green),
                        Cell::new('|', Color::Red),
                        Cell::new(' ', Color::Green),
                    ],
                ],
            },
            ai: InvanderAi::new(x_range, 10, 1000, 8),
        };
        assert(r.state.shape() =~~= fighter_shape());
        r
    }

    /// A tank: two hit points, a step every 4 ticks, no fire.
    pub fn new_tank(x: i16, y: i16, x_range: &(i16, i16)) -> (r: Invander)
        ensures
            r.spawned(InvanderKind::Tank, x, y, *x_range),
            r.ai.ticks_to_spawn_bullet == 0,
    {
        let r = Invander {
            kind: InvanderKind::Tank,
            state: SpriteState {
                hp: 2,
                id: 0,
                pos: Point::new(x, y),
                direction: Direction::Down,
                cells: vec![
                    vec![
                        Cell::new(' ', Color::Red),
                        Cell::new('^', Color::Red),
                        Cell::new('^', Color::Red),
                        Cell::new('^', Color::Red),
                        Cell::new(' ', Color::Red),
                    ],
                    vec![
                        Cell::new('{', Color::Green),
                        Cell::new(' ', Color::Green),
                        Cell::new(' ', Color::Green),
                        Cell::new(' ', Color::Green),
                        Cell::new('}', Color::Green),
                    ],
                    vec![
                        Cell::new(' ', Color::Green),
                        Cell::new('V', Color::Yellow),
                        Cell::new('V', Color::Yellow),
                        Cell::new('V', Color::Yellow),
                        Cell::new(' ', Color::Green),
                    ],
                ],
            },
            ai: InvanderAi::new(x_range, 4, 0, 1),
        };
        assert(r.state.shape() =~~= tank_shape());
        r
    }

    /// An assassin: one hit point, a step every tick, slow bullets.
    pub fn new_assasin(x: i16, y: i16, x_range: &(i16, i16)) -> (r: Invander)
        ensures
            r.spawned(InvanderKind::Assassin, x, y, *x_range),
    {
        let r = Invander {
            kind: InvanderKind::Assassin,
            state: SpriteState {
                hp: 1,
                id: 0,
                pos: Point::new(x, y),
                direction: Direction::Down,
                cells: vec![
                    vec![
                        Cell::new(' ', Color::Green),
                        Cell::new('<', Color::LightGreen),
                        Cell::new('<', Color::Green),
                        Cell::new('<', Color::Cyan),
                        Cell::new(' ', Color::Green),
                        Cell::new('>', Color::Cyan),
                        Cell::new('>', Color::Green),
                        Cell::new('>', Color::LightGreen),
                        Cell::new(' ', Color::Green),
                    ],
                    vec![
                        Cell::new('<', Color::LightGreen),
                        Cell::new('<', Color::Green),
                        Cell::new('<', Color::Cyan),
                        Cell::new(' ', Color::Green),
                        Cell::new('&', Color::Red),
                        Cell::new(' ', Color::Green),
                        Cell::new('>', Color::Cyan),
                        Cell::new('>', Color::Green),
                        Cell::new('>', Color::LightGreen),
                    ],
                    vec![
                        Cell::new(' ', Color::Green),
                        Cell::new('<', Color::LightGreen),
                        Cell::new('<', Color::Green),
                        Cell::new('<', Color::Cyan),
                        Cell::new(' ', Color::Green),
                        Cell::new('>', Color::Cyan),
                        Cell::new('>', Color::Green),
                        Cell::new('>', Color::LightGreen),
                        Cell::new(' ', Color::Green),
                    ],
                ],
            },
            ai: InvanderAi::new(x_range, 1, 80, 30),
        };
        assert(r.state.shape() =~~= assassin_shape());
        r
    }
}

pub struct Boss {
    pub state: SpriteState,
    pub ai: BossAi,
}

/// The boss's hit points.
pub const BOSS_HP: u16 = 10;

/// The ticks between two patrol steps of the boss.
pub const BOSS_MOVE_SPEED: u16 = 1;

/// The boss's reload scale.
pub const BOSS_FIRE_RATE: u16 = 300;

impl Boss {
    /// A fresh boss at (`x`, `y`) with its shape, hit points and behaviour,
    /// patrolling `x_range` and drifting within `y_range`.
    pub open spec fn spawned(self, x: i16, y: i16, x_range: (i16, i16), y_range: (i16, i16)) -> bool {
        &&& self.state.pos == Point::new_spec(x, y)
        &&& self.state.id == 0
        &&& self.behaves_as(x_range, y_range)
    }

    /// Facing, shape, hit points and a fresh behaviour of the boss.
    pub open spec fn behaves_as(self, x_range: (i16, i16), y_range: (i16, i16)) -> bool {
        &&& self.state.direction == Direction::Down
        &&& self.state.hp == BOSS_HP
        &&& self.state.shape_ok()
        &&& self.state.shape() == boss_shape()
        &&& self.ai.started(x_range, y_range, BOSS_MOVE_SPEED, BOSS_FIRE_RATE, self.ai.ticks_to_spawn_bullet)
        &&& reload_ok(BOSS_FIRE_RATE, self.ai.ticks_to_spawn_bullet)
    }

    /// The boss: ten hit points, three cannons on its bottom row.
    pub fn new_boss(x: i16, y: i16, x_range: &(i16, i16), y_range: &(i16, i16)) -> (r: Boss)
        ensures
            r.spawned(x, y, *x_range, *y_range),
    {
        let r = Boss {
            state: SpriteState {
                hp: BOSS_HP,
                id: 0,
                pos: Point::new(x, y),
                direction: Direction::Down,
                cells: vec![
                    vec![
                        Cell::new(' ', Color::Red),
                        Cell::new('/', Color::Red),
                        Cell::new('=', Color::Red),
                        Cell::new('=', Color::Red),
                        Cell::new('=', Color::Red),
                        Cell::new('=', Color::Red),
                        Cell::new('=', Color::Red),
                        Cell::new('=', Color::Red),
                        Cell::new('=', Color::Red),
                        Cell::new('\\', Color::Red),
                        Cell::new(' ', Color::Red),
                    ],
                    vec![
                        Cell::new('<', Color::LightMagenta),
                        Cell::new('|', Color::Red),
                        Cell::new(' ', Color::Red),
                        Cell::new(' ', Color::Red),
                        Cell::new('(', Color::Yellow),
                        Cell::new('O', Color::LightMagenta),
                        Cell::new(')', Color::Yellow),
                        Cell::new(' ', Color::Red),
                        Cell::new(' ', Color::Red),
                        Cell::new('|', Color::Red),
                        Cell::new('>', Color::LightMagenta),
                    ],
                    vec![
                        Cell::new(' ', Color::Red),
                        Cell::new('\\', Color::Red),
                        Cell::new('_', Color::Red),
                        Cell::new('_', Color::Red),
                        Cell::new('_', Color::Red),
                        Cell::new('_', Color::Red),
                        Cell::new('_', Color::Red),
                        Cell::new('_', Color::Red),
                        Cell::new('_', Color::Red),
                        Cell::new('/', Color::Red),
                        Cell::new(' ', Color::Red),
                    ],
                    vec![
                        Cell::new(' ', Color::Yellow),
                        Cell::new(' ', Color::Yellow),
                        Cell::new('V', Color::Yellow),
                        Cell::new(' ', Color::Yellow),
                        Cell::new(' ', Color::Yellow),
                        Cell::new('V', Color::Yellow),
                        Cell::new(' ', Color::Yellow),
                        Cell::new(' ', Color::Yellow),
                        Cell::new('V', Color::Yellow),
                        Cell::new(' ', Color::Yellow),
                        Cell::new(' ', Color::Yellow),
                    ],
                ],
            },
            ai: BossAi::new(x_range, y_range, BOSS_MOVE_SPEED, BOSS_FIRE_RATE),
        };
        assert(r.state.shape() =~~= boss_shape());
        r
    }
}

} // verus!

verus! {

/// `hp` changed by `d`, held to `[0, u16::MAX]`.
pub open spec fn hp_after(hp: u16, d: i16) -> u16 {
    if hp + d < 0 {
        0
    } else if hp + d > u16::MAX {
        u16::MAX
    } else {
        (hp + d) as u16
    }
}

/// Every kind of entity, behind one set of operations.
pub enum Sprite {
    Player(Player),
    Invander(Invander),
    Bullet(Bullet),
    Boss(Boss),
}

impl Sprite {
    pub open spec fn state_spec(self) -> SpriteState {
        match self {
            Sprite::Player(e) => e.state,
            Sprite::Invander(e) => e.state,
            Sprite::Bullet(e) => e.state,
            Sprite::Boss(e) => e.state,
        }
    }

    pub open spec fn id_spec(self) -> u32 {
        self.state_spec().id
    }

    /// The same entity under identifier `id`.
    pub open spec fn with_id(self, id: u32) -> Sprite {
        match self {
            Sprite::Player(e) => Sprite::Player(Player { state: SpriteState { id, ..e.state }, ..e }),
            Sprite::Invander(e) => Sprite::Invander(Invander { state: SpriteState { id, ..e.state }, ..e }),
            Sprite::Bullet(e) => Sprite::Bullet(Bullet { state: SpriteState { id, ..e.state }, ..e }),
            Sprite::Boss(e) => Sprite::Boss(Boss { state: SpriteState { id, ..e.state }, ..e }),
        }
    }

    /// The same entity with its hit points changed by `d`; only enemies
    /// take damage, players and bullets keep theirs.
    pub open spec fn with_hp_change(self, d: i16) -> Sprite {
        match self {
            Sprite::Invander(e) => Sprite::Invander(
                Invander { state: SpriteState { hp: hp_after(e.state.hp, d), ..e.state }, ..e },
            ),
            Sprite::Boss(e) => Sprite::Boss(Boss { state: SpriteState { hp: hp_after(e.state.hp, d), ..e.state }, ..e }),
            _ => self,
        }
    }

    /// Whether the entity can run its behaviour: a boss needs a well-formed
    /// shape to find its cannons.
    pub open spec fn ready(self) -> bool {
        self is Boss ==> self.state_spec().shape_ok()
    }

    /// One update from `self` to `next` emitting `cmds`, by the kind's behaviour.
    pub open spec fn updated(self, next: Sprite, cmds: Seq<UpdateCommand>) -> bool {
        match (self, next) {
            (Sprite::Player(a), Sprite::Player(b)) => a.ai.stepped(a.state, b.ai, b.state, cmds),
            (Sprite::Bullet(a), Sprite::Bullet(b)) => a.ai.stepped(a.state, b.ai, b.state, cmds),
            (Sprite::Invander(a), Sprite::Invander(b)) => {
                &&& a.kind == b.kind
                &&& exists|reload: u16| reload_ok(a.ai.fire_rate, reload)
                    && a.ai.stepped(a.state, b.ai, b.state, cmds, reload)
            },
            (Sprite::Boss(a), Sprite::Boss(b)) => exists|reload: u16, up: bool, shift: u16|
                reload_ok(a.ai.fire_rate, reload) && a.ai.stepped(a.state, b.ai, b.state, cmds, reload, up, shift),
            _ => false,
        }
    }

    pub fn state(&self) -> (r: &SpriteState)
        ensures
            *r == self.state_spec(),
    {
        match self {
            Sprite::Player(e) => &e.state,
            Sprite::Invander(e) => &e.state,
            Sprite::Bullet(e) => &e.state,
            Sprite::Boss(e) => &e.state,
        }
    }

    pub fn id(&self) -> (r: u32)
        ensures
            r == self.id_spec(),
    {
        self.state().id
    }

    pub fn collides(&self, p: &Point) -> (r: bool)
        ensures
            r == self.state_spec().covers(*p),
    {
        self.state().collides(p)
    }

    pub fn set_id(&mut self, id: u32)
        ensures
            *final(self) == old(self).with_id(id),
    {
        match self {
            Sprite::Player(e) => e.state.id = id,
            Sprite::Invander(e) => e.state.id = id,
            Sprite::Bullet(e) => e.state.id = id,
            Sprite::Boss(e) => e.state.id = id,
        }
    }

    /// Changes the hit points of an enemy by `hp_mod`, held at zero.
    pub fn modify_hp(&mut self, hp_mod: i16)
        ensures
            *final(self) == old(self).with_hp_change(hp_mod),
    {
        match self {
            Sprite::Invander(e) => e.state.hp = change_hp(e.state.hp, hp_mod),
            Sprite::Boss(e) => e.state.hp = change_hp(e.state.hp, hp_mod),
            _ => {},
        }
    }

    /// Runs the kind's behaviour for one tick.
    pub fn update(&mut self) -> (cmds: Vec<UpdateCommand>)
        requires
            old(self).ready(),
        ensures
            old(self).updated(*final(self), cmds@),
            final(self).state_spec().same_but_pos(old(self).state_spec()),
    {
        match self {
            Sprite::Player(e) => e.ai.update(&mut e.state),
            Sprite::Invander(e) => e.ai.update(&mut e.state),
            Sprite::Bullet(e) => e.ai.update(&mut e.state),
            Sprite::Boss(e) => e.ai.update(&mut e.state),
        }
    }
}

/// `hp` changed by `d`, held to `[0, u16::MAX]`.
pub fn change_hp(hp: u16, d: i16) -> (r: u16)
    ensures
        r == hp_after(hp, d),
{
    let v: i32 = hp as i32 + d as i32;
    if v < 0 {
        0
    } else if v > u16::MAX as i32 {
        u16::MAX
    } else {
        v as u16
    }
}

} // verus!
