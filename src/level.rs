use vstd::prelude::*;
use crate::entity::{Boss, Invander, InvanderKind, Sprite, UpdateCommand};
use crate::sprite::SpriteState;

verus! {

/// Columns of the playfield.
pub const SCREEN_WIDTH: usize = 94;

/// Rows of the playfield.
pub const SCREEN_HEIGHT: usize = 30;

/// The collection a new entity goes to.
#[derive(Debug, Copy, Clone, PartialEq, Eq, Structural)]
pub enum SpriteCategory {
    PlayerBullet,
    AlienBullet,
    Alien,
}

/// Every shape in `s` is well formed.
pub open spec fn shapes_ok(s: Seq<Sprite>) -> bool {
    forall|i: int| 0 <= i < s.len() ==> (#[trigger] s[i]).state_spec().shape_ok()
}

/// Every entity of `s` can run its behaviour.
pub open spec fn all_ready(s: Seq<Sprite>) -> bool {
    forall|i: int| 0 <= i < s.len() ==> (#[trigger] s[i]).ready()
}

/// Identifiers in `s` are positive, at most `top` and strictly rising.
pub open spec fn well_kept(s: Seq<Sprite>, top: u32) -> bool {
    &&& forall|i: int| 0 <= i < s.len() ==> 0 < (#[trigger] s[i]).id_spec() <= top
    &&& forall|i: int, j: int| 0 <= i < j < s.len() ==> (#[trigger] s[i]).id_spec() < (#[trigger] s[j]).id_spec()
}

/// No identifier appears both in `s` and in `t`.
pub open spec fn apart(s: Seq<Sprite>, t: Seq<Sprite>) -> bool {
    forall|i: int, j: int| 0 <= i < s.len() && 0 <= j < t.len() ==> (#[trigger] s[i]).id_spec() != (#[trigger] t[j]).id_spec()
}

/// Whether some entity of `s` has identifier `id`.
pub open spec fn holds_id(s: Seq<Sprite>, id: u32) -> bool {
    exists|i: int| 0 <= i < s.len() && (#[trigger] s[i]).id_spec() == id
}

/// What a level holds, as sequences.
pub struct LevelView {
    pub number: u16,
    pub player_bullets: Seq<Sprite>,
    pub bullets: Seq<Sprite>,
    pub aliens: Seq<Sprite>,
    pub counter: u32,
}

impl LevelView {
    /// `e` named with the next identifier and added to the collection of
    /// `category`; nothing changes once every identifier is spent.
    pub open spec fn spawn(self, e: Sprite, category: SpriteCategory) -> LevelView {
        if self.counter == u32::MAX {
            self
        } else {
            let id = (self.counter + 1) as u32;
            match category {
                SpriteCategory::PlayerBullet => LevelView {
                    player_bullets: self.player_bullets.push(e.with_id(id)),
                    counter: id,
                    ..self
                },
                SpriteCategory::AlienBullet => LevelView { bullets: self.bullets.push(e.with_id(id)), counter: id, ..self },
                SpriteCategory::Alien => LevelView { aliens: self.aliens.push(e.with_id(id)), counter: id, ..self },
            }
        }
    }

    /// The level after applying command `c`.
    pub open spec fn apply(self, c: UpdateCommand) -> LevelView {
        match c {
            UpdateCommand::SpawnBullet(b) => self.spawn(Sprite::Bullet(b), SpriteCategory::AlienBullet),
            UpdateCommand::SpawnPlayerBullet(b) => self.spawn(Sprite::Bullet(b), SpriteCategory::PlayerBullet),
            UpdateCommand::RemoveBullet(id) => LevelView {
                bullets: without_id(self.bullets, id),
                player_bullets: without_id(self.player_bullets, id),
                ..self
            },
            UpdateCommand::RemoveInvander(id) => LevelView { aliens: without_id(self.aliens, id), ..self },
        }
    }

    /// The level after applying `cmds` in order.
    pub open spec fn apply_all(self, cmds: Seq<UpdateCommand>) -> LevelView
        decreases cmds.len(),
    {
        if cmds.len() == 0 {
            self
        } else {
            self.apply_all(cmds.drop_last()).apply(cmds.last())
        }
    }
}

/// One wave: the entities alive in it and the counter that names them.
pub struct Level {
    pub number: u16,
    pub player_bullets: Vec<Sprite>,
    pub bullets: Vec<Sprite>,
    pub aliens: Vec<Sprite>,
    pub entity_id_counter: u32,
}

impl Level {
    /// Every collection is kept in order of identifier, below the counter.
    pub open spec fn wf(self) -> bool {
        &&& well_kept(self.player_bullets@, self.entity_id_counter)
        &&& well_kept(self.bullets@, self.entity_id_counter)
        &&& well_kept(self.aliens@, self.entity_id_counter)
        &&& shapes_ok(self.aliens@)
        &&& all_ready(self.player_bullets@)
        &&& all_ready(self.bullets@)
        &&& apart(self.player_bullets@, self.bullets@)
        &&& apart(self.player_bullets@, self.aliens@)
        &&& apart(self.bullets@, self.aliens@)
    }

    pub open spec fn view(self) -> LevelView {
        LevelView {
            number: self.number,
            player_bullets: self.player_bullets@,
            bullets: self.bullets@,
            aliens: self.aliens@,
            counter: self.entity_id_counter,
        }
    }

    pub fn new(number: u16) -> (r: Level)
        ensures
            r.wf(),
            r.number == number,
            r.entity_id_counter == 0,
            r.player_bullets@.len() == 0,
            r.bullets@.len() == 0,
            r.aliens@.len() == 0,
    {
        Level {
            number,
            player_bullets: Vec::new(),
            bullets: Vec::new(),
            aliens: Vec::new(),
            entity_id_counter: 0,
        }
    }

    /// The wave is over once no enemy is left.
    pub fn is_finished(&self) -> (r: bool)
        ensures
            r == (self.aliens@.len() == 0),
    {
        self.aliens.len() == 0
    }

    fn next_id(&mut self) -> (r: u32)
        requires
            old(self).entity_id_counter < u32::MAX,
        ensures
            r == old(self).entity_id_counter + 1,
            final(self).entity_id_counter == r,
            final(self).number == old(self).number,
            final(self).player_bullets == old(self).player_bullets,
            final(self).bullets == old(self).bullets,
            final(self).aliens == old(self).aliens,
    {
        self.entity_id_counter = self.entity_id_counter + 1;
        self.entity_id_counter
    }

    /// Names `sprite` with the next identifier and adds it to the collection
    /// of `category`. Once every identifier is spent nothing is added.
    pub fn add_sprite(&mut self, sprite: Sprite, category: SpriteCategory)
        requires
            old(self).wf(),
            category == SpriteCategory::Alien ==> sprite.state_spec().shape_ok(),
            sprite.ready(),
        ensures
            final(self).wf(),
            final(self).view() == old(self).view().spawn(sprite, category),
    {
        if self.entity_id_counter == u32::MAX {
            assert(self.view() == old(self).view());
            return;
        }
        let ghost orig = sprite;
        let mut sprite = sprite;
        let id = self.next_id();
        sprite.set_id(id);
        match category {
            SpriteCategory::Alien => self.aliens.push(sprite),
            SpriteCategory::AlienBullet => self.bullets.push(sprite),
            SpriteCategory::PlayerBullet => self.player_bullets.push(sprite),
        }
        assert(self.view() == old(self).view().spawn(orig, category));
    }
}

/// `s` without the entities whose identifier is `id`.
pub open spec fn without_id(s: Seq<Sprite>, id: u32) -> Seq<Sprite>
    decreases s.len(),
{
    if s.len() == 0 {
        s
    } else {
        let rest = without_id(s.drop_last(), id);
        if s.last().id_spec() == id { rest } else { rest.push(s.last()) }
    }
}

/// Takes the entities with identifier `id` out of `v`, keeping the order of
/// the others; nothing changes where there is none.
pub fn remove_by_id(v: &mut Vec<Sprite>, id: u32)
    ensures
        final(v)@ == without_id(old(v)@, id),
        !holds_id(old(v)@, id) ==> final(v)@ == old(v)@,
{
    let ghost s = v@;
    let n = v.len();
    let mut kept: Vec<Sprite> = Vec::new();
    let mut i: usize = 0;
    while v.len() > 0
        invariant
            s.len() == n,
            i <= s.len(),
            v@ == s.subrange(i as int, s.len() as int),
            v@.len() == s.len() - i,
            kept@ == without_id(s.take(i as int), id),
            !holds_id(s, id) ==> kept@ == s.take(i as int),
        decreases v@.len(),
    {
        let e = v.remove(0);
        assert(s.take(i + 1).drop_last() == s.take(i as int));
        assert(e == s[i as int]);
        if e.id() != id {
            kept.push(e);
        } else {
            assert(holds_id(s, id));
        }
        i += 1;
        assert(v@ =~= s.subrange(i as int, s.len() as int));
    }
    assert(s.take(s.len() as int) =~= s);
    *v = kept;
}

/// Removing entities keeps the rest in order and well kept.
pub proof fn lemma_without_id_kept(s: Seq<Sprite>, id: u32, top: u32)
    requires
        well_kept(s, top),
    ensures
        well_kept(without_id(s, id), top),
        forall|k: int| 0 <= k < without_id(s, id).len() ==> exists|j: int| 0 <= j < s.len() && #[trigger] without_id(s, id)[k] == s[j],
    decreases s.len(),
{
    if s.len() > 0 {
        let r = without_id(s.drop_last(), id);
        assert(well_kept(s.drop_last(), top));
        lemma_without_id_kept(s.drop_last(), id, top);
        assert forall|k: int| 0 <= k < r.len() implies #[trigger] r[k].id_spec() < s.last().id_spec() by {
            let j = choose|j: int| 0 <= j < s.drop_last().len() && r[k] == s.drop_last()[j];
            assert(s[j] == s.drop_last()[j]);
        }
        let w = without_id(s, id);
        assert forall|k: int| 0 <= k < w.len() implies exists|j: int| 0 <= j < s.len() && #[trigger] w[k] == s[j] by {
            if k < r.len() {
                let j = choose|j: int| 0 <= j < s.drop_last().len() && r[k] == s.drop_last()[j];
                assert(w[k] == s[j]);
            } else {
                assert(w[k] == s[s.len() - 1]);
            }
        }
    }
}

} // verus!


verus! {

/// The enemies in each row of the first two waves.
pub const ROW_LEN: usize = 9;

/// The rows of the first two waves.
pub const GRID_ROWS: usize = 3;

/// The column of the `i`-th enemy of a row in the first two waves.
pub open spec fn grid_x(i: int) -> int {
    10 * i + 2
}

/// The row of the `row`-th line of enemies, counted from the top.
pub open spec fn line_y(row: int) -> int {
    SCREEN_HEIGHT - 2 - 5 * row
}

/// The kind of the enemies in line `row` of wave 1, or of wave 2 when `tanks`.
pub open spec fn grid_kind(tanks: bool, row: int) -> InvanderKind {
    if tanks && row == 2 { InvanderKind::Tank } else { InvanderKind::Fighter }
}

impl Sprite {
    /// A fresh enemy of `kind` at (`x`, `y`) that patrols `[lo, hi]`, with
    /// the facing, shape, hit points and behaviour of its kind.
    pub open spec fn is_invander_at(self, kind: InvanderKind, x: int, y: int, lo: int, hi: int) -> bool {
        match self {
            Sprite::Invander(e) => {
                &&& e.kind == kind
                &&& e.state.pos.x == x
                &&& e.state.pos.y == y
                &&& e.ai.x_range.0 == lo
                &&& e.ai.x_range.1 == hi
                &&& e.behaves_as(kind, e.ai.x_range)
            },
            _ => false,
        }
    }
}

impl Level {
    /// A fresh wave whose only entities are its enemies, named 1, 2, ...
    pub open spec fn fresh(self, number: u16, n: int) -> bool {
        &&& self.wf()
        &&& self.number == number
        &&& self.entity_id_counter == n
        &&& self.player_bullets@.len() == 0
        &&& self.bullets@.len() == 0
        &&& self.aliens@.len() == n
        &&& forall|k: int| 0 <= k < n ==> (#[trigger] self.aliens@[k]).id_spec() == k + 1
    }

    /// Whether enemy `k` of a grid wave stands where the formation puts it.
    pub open spec fn grid_placed(self, tanks: bool, k: int) -> bool {
        let row = k / ROW_LEN as int;
        let x = grid_x(k % ROW_LEN as int);
        self.aliens@[k].is_invander_at(grid_kind(tanks, row), x, line_y(row), x, x + 5)
    }

    /// Enemy `k` of wave 3: an assassin in echelon, one line lower and ten
    /// columns further left than the one before, patrolling ten columns
    /// further on each side.
    pub open spec fn echelon_placed(self, k: int) -> bool {
        self.aliens@[k].is_invander_at(InvanderKind::Assassin, -10 * k, line_y(k), -10 * k, SCREEN_WIDTH + 10 * k - 2)
    }

    /// The lone boss of wave 4, with its place and bounds, and the shape, hit
    /// points and fresh behaviour (a full salvo) of a boss.
    pub open spec fn boss_placed(self) -> bool {
        match self.aliens@[0] {
            Sprite::Boss(b) => {
                &&& b.state.pos.x == 32
                &&& b.state.pos.y == 25
                &&& b.behaves_as((-40i16, (SCREEN_WIDTH + 20) as i16), (20i16, 30i16))
            },
            _ => false,
        }
    }

    /// The enemies stand as wave `n` puts them.
    pub open spec fn formation(self, n: u16) -> bool {
        if n == 1 {
            forall|k: int| 0 <= k < 27 ==> self.grid_placed(false, k)
        } else if n == 2 {
            forall|k: int| 0 <= k < 27 ==> self.grid_placed(true, k)
        } else if n == 3 {
            forall|k: int| 0 <= k < 5 ==> self.echelon_placed(k)
        } else {
            self.boss_placed()
        }
    }

    /// Three lines of nine enemies: fighters, with tanks in the bottom line
    /// when `tanks`.
    fn grid_wave(number: u16, tanks: bool) -> (r: Level)
        ensures
            r.fresh(number, 27),
            forall|k: int| 0 <= k < 27 ==> r.grid_placed(tanks, k),
    {
        let mut level = Level::new(number);
        let mut k: usize = 0;
        while k < ROW_LEN * GRID_ROWS
            invariant
                k <= 27,
                level.fresh(number, k as int),
                forall|j: int| 0 <= j < k ==> level.grid_placed(tanks, j),
            decreases 27 - k,
        {
            let row = (k / ROW_LEN) as i16;
            let i = (k % ROW_LEN) as i16;
            let x: i16 = 10 * i + 2;
            let y: i16 = (SCREEN_HEIGHT - 2) as i16 - row * 5;
            let x_range = (x, x + 5);
            let e = if tanks && row == 2 {
                Sprite::Invander(Invander::new_tank(x, y, &x_range))
            } else {
                Sprite::Invander(Invander::new_fighter(x, y, &x_range))
            };
            let ghost before = level;
            level.add_sprite(e, SpriteCategory::Alien);
            assert(level.aliens@ == before.aliens@.push(e.with_id((k + 1) as u32)));
            assert forall|j: int| 0 <= j < k + 1 implies level.grid_placed(tanks, j) by {
                if j < k {
                    assert(level.aliens@[j] == before.aliens@[j]);
                    assert(before.grid_placed(tanks, j));
                }
            }
            k += 1;
        }
        level
    }

    /// Wave 1: three lines of nine fighters.
    pub fn one() -> (r: Level)
        ensures
            r.fresh(1, 27),
            r.formation(1),
    {
        Level::grid_wave(1, false)
    }

    /// Wave 2: as wave 1, with tanks in the bottom line.
    pub fn two() -> (r: Level)
        ensures
            r.fresh(2, 27),
            r.formation(2),
    {
        Level::grid_wave(2, true)
    }

    /// Wave 3: five assassins in echelon, each line further out to the left
    /// and patrolling a wider span.
    pub fn three() -> (r: Level)
        ensures
            r.fresh(3, 5),
            r.formation(3),
    {
        let mut level = Level::new(3);
        let mut row: i16 = 0;
        while row < 5
            invariant
                0 <= row <= 5,
                level.fresh(3, row as int),
                forall|k: int| 0 <= k < row ==> level.echelon_placed(k),
            decreases 5 - row,
        {
            let x: i16 = 0 - 10 * row;
            let y: i16 = (SCREEN_HEIGHT - 2) as i16 - row * 5;
            let x_range = (x, SCREEN_WIDTH as i16 + 10 * row - 2);
            let e = Sprite::Invander(Invander::new_assasin(x, y, &x_range));
            let ghost before = level;
            level.add_sprite(e, SpriteCategory::Alien);
            assert(level.aliens@ == before.aliens@.push(e.with_id((row + 1) as u32)));
            assert forall|k: int| 0 <= k < row + 1 implies level.echelon_placed(k) by {
                if k < row {
                    assert(level.aliens@[k] == before.aliens@[k]);
                    assert(before.echelon_placed(k));
                }
            }
            row += 1;
        }
        level
    }

    /// Wave 4: the boss alone.
    pub fn four() -> (r: Level)
        ensures
            r.fresh(4, 1),
            r.formation(4),
    {
        let mut level = Level::new(4);
        let x_range = (-40, SCREEN_WIDTH as i16 + 20);
        let y_range = (20, 30);
        let e = Sprite::Boss(Boss::new_boss(32, 25, &x_range, &y_range));
        level.add_sprite(e, SpriteCategory::Alien);
        level
    }
}

} // verus!

verus! {

/// After removal no entity with that identifier is left.
pub proof fn lemma_without_id_gone(s: Seq<Sprite>, id: u32)
    ensures
        !holds_id(without_id(s, id), id),
    decreases s.len(),
{
    if s.len() > 0 {
        lemma_without_id_gone(s.drop_last(), id);
        let r = without_id(s.drop_last(), id);
        if s.last().id_spec() != id {
            assert forall|i: int| 0 <= i < r.len() + 1 implies (#[trigger] r.push(s.last())[i]).id_spec() != id by {
                if i < r.len() {
                    assert(r.push(s.last())[i] == r[i]);
                }
            }
        }
    }
}

/// Once a removal command for a bullet is applied, no bullet of either side
/// carries its identifier, so a bullet is removed once and never acts again.
pub proof fn lemma_remove_bullet_gone(v: LevelView, id: u32)
    ensures
        !holds_id(v.apply(UpdateCommand::RemoveBullet(id)).bullets, id),
        !holds_id(v.apply(UpdateCommand::RemoveBullet(id)).player_bullets, id),
{
    lemma_without_id_gone(v.bullets, id);
    lemma_without_id_gone(v.player_bullets, id);
}

} // verus!
