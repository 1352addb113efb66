use vstd::prelude::*;
use crate::ai::{bullet_step, in_field_y};
use crate::entity::{Bullet, Player, Sprite, UpdateCommand};
use crate::level::{
    all_ready, apart, holds_id, lemma_without_id_kept, remove_by_id, shapes_ok, well_kept, without_id, Level, LevelView, SpriteCategory,
    SCREEN_WIDTH,
};
use crate::point::Point;
use crate::sprite::Direction;

verus! {

impl LevelView {
    /// No identifier appears in two collections.
    pub open spec fn apart_ok(self) -> bool {
        &&& apart(self.player_bullets, self.bullets)
        &&& apart(self.player_bullets, self.aliens)
        &&& apart(self.bullets, self.aliens)
    }
}

/// Entities drawn from `s` stay apart from what `s` was apart from.
proof fn lemma_subset_apart(s: Seq<Sprite>, r: Seq<Sprite>, t: Seq<Sprite>)
    requires
        apart(s, t) || apart(t, s),
        forall|k: int| 0 <= k < r.len() ==> exists|j: int| 0 <= j < s.len() && #[trigger] r[k] == s[j],
    ensures
        apart(r, t),
        apart(t, r),
{
    assert forall|i: int, j: int| 0 <= i < r.len() && 0 <= j < t.len() implies (#[trigger] r[i]).id_spec() != (#[trigger] t[j]).id_spec() by {
        let k = choose|k: int| 0 <= k < s.len() && r[i] == s[k];
        if apart(s, t) {
            assert(s[k].id_spec() != t[j].id_spec());
        } else {
            assert(t[j].id_spec() != s[k].id_spec());
        }
    }
    assert forall|i: int, j: int| 0 <= i < t.len() && 0 <= j < r.len() implies (#[trigger] t[i]).id_spec() != (#[trigger] r[j]).id_spec() by {
        assert(r[j].id_spec() != t[i].id_spec());
    }
}

/// A level whose collections are those of `v` after `cmds` is still well kept.
pub proof fn lemma_apply_kept(v: LevelView, cmds: Seq<UpdateCommand>)
    requires
        well_kept(v.player_bullets, v.counter),
        well_kept(v.bullets, v.counter),
        well_kept(v.aliens, v.counter),
        shapes_ok(v.aliens),
        all_ready(v.player_bullets),
        all_ready(v.bullets),
        v.apart_ok(),
    ensures
        v.apply_all(cmds).apart_ok(),
        all_ready(v.apply_all(cmds).player_bullets),
        all_ready(v.apply_all(cmds).bullets),
        well_kept(v.apply_all(cmds).player_bullets, v.apply_all(cmds).counter),
        well_kept(v.apply_all(cmds).bullets, v.apply_all(cmds).counter),
        well_kept(v.apply_all(cmds).aliens, v.apply_all(cmds).counter),
        shapes_ok(v.apply_all(cmds).aliens),
        v.apply_all(cmds).number == v.number,
        v.apply_all(cmds).counter >= v.counter,
    decreases cmds.len(),
{
    if cmds.len() > 0 {
        lemma_apply_kept(v, cmds.drop_last());
        let w = v.apply_all(cmds.drop_last());
        lemma_apply_one_kept(w, cmds.last());
    }
}

proof fn lemma_well_kept_grow(s: Seq<Sprite>, top: u32, top2: u32)
    requires
        well_kept(s, top),
        top <= top2,
    ensures
        well_kept(s, top2),
{
}

proof fn lemma_apply_one_kept(w: LevelView, c: UpdateCommand)
    requires
        well_kept(w.player_bullets, w.counter),
        well_kept(w.bullets, w.counter),
        well_kept(w.aliens, w.counter),
        shapes_ok(w.aliens),
        all_ready(w.player_bullets),
        all_ready(w.bullets),
        w.apart_ok(),
    ensures
        w.apply(c).apart_ok(),
        all_ready(w.apply(c).player_bullets),
        all_ready(w.apply(c).bullets),
        well_kept(w.apply(c).player_bullets, w.apply(c).counter),
        well_kept(w.apply(c).bullets, w.apply(c).counter),
        well_kept(w.apply(c).aliens, w.apply(c).counter),
        shapes_ok(w.apply(c).aliens),
        w.apply(c).number == w.number,
        w.apply(c).counter >= w.counter,
{
    match c {
        UpdateCommand::RemoveBullet(id) => {
            lemma_without_id_kept(w.bullets, id, w.counter);
            lemma_without_id_kept(w.player_bullets, id, w.counter);
            let r = without_id(w.bullets, id);
            assert forall|i: int| 0 <= i < r.len() implies (#[trigger] r[i]).ready() by {
                let j = choose|j: int| 0 <= j < w.bullets.len() && r[i] == w.bullets[j];
            }
            let q = without_id(w.player_bullets, id);
            assert forall|i: int| 0 <= i < q.len() implies (#[trigger] q[i]).ready() by {
                let j = choose|j: int| 0 <= j < w.player_bullets.len() && q[i] == w.player_bullets[j];
            }
            lemma_subset_apart(w.player_bullets, q, w.aliens);
            lemma_subset_apart(w.bullets, r, w.aliens);
            lemma_subset_apart(w.player_bullets, q, w.bullets);
            lemma_subset_apart(w.bullets, r, q);
        },
        UpdateCommand::RemoveInvander(id) => {
            lemma_without_id_kept(w.aliens, id, w.counter);
            let r = without_id(w.aliens, id);
            assert forall|i: int| 0 <= i < r.len() implies (#[trigger] r[i]).state_spec().shape_ok() by {
                let j = choose|j: int| 0 <= j < w.aliens.len() && r[i] == w.aliens[j];
            }
            lemma_subset_apart(w.aliens, r, w.player_bullets);
            lemma_subset_apart(w.aliens, r, w.bullets);
        },
        _ => {
            let n = w.apply(c);
            lemma_well_kept_grow(w.player_bullets, w.counter, n.counter);
            lemma_well_kept_grow(w.bullets, w.counter, n.counter);
            lemma_well_kept_grow(w.aliens, w.counter, n.counter);
        },
    }
}

/// The commands of `parts`, one part after another.
pub open spec fn concat(parts: Seq<Seq<UpdateCommand>>) -> Seq<UpdateCommand>
    decreases parts.len(),
{
    if parts.len() == 0 {
        Seq::empty()
    } else {
        concat(parts.drop_last()) + parts.last()
    }
}

/// `next` is `prev` with each entity run once by its behaviour, entity `i`
/// emitting `parts[i]`.
pub open spec fn each_updated(prev: Seq<Sprite>, next: Seq<Sprite>, parts: Seq<Seq<UpdateCommand>>) -> bool {
    &&& next.len() == prev.len()
    &&& parts.len() == prev.len()
    &&& forall|i: int| 0 <= i < prev.len() ==> (#[trigger] prev[i]).updated(next[i], parts[i])
    &&& forall|i: int| 0 <= i < prev.len() ==> (#[trigger] next[i]).state_spec().same_but_pos(prev[i].state_spec())
}

proof fn lemma_updated_kept(prev: Seq<Sprite>, next: Seq<Sprite>, parts: Seq<Seq<UpdateCommand>>, top: u32)
    requires
        each_updated(prev, next, parts),
    ensures
        well_kept(prev, top) ==> well_kept(next, top),
        shapes_ok(prev) ==> shapes_ok(next),
        all_ready(prev) ==> all_ready(next),
{
    assert forall|i: int| 0 <= i < next.len() implies (#[trigger] next[i]).id_spec() == prev[i].id_spec() by {
        assert(next[i].state_spec().same_but_pos(prev[i].state_spec()));
    }
    assert forall|i: int| 0 <= i < next.len() implies (#[trigger] next[i]).state_spec().cells@ == prev[i].state_spec().cells@ by {
        assert(next[i].state_spec().same_but_pos(prev[i].state_spec()));
    }
    if all_ready(prev) {
        assert forall|i: int| 0 <= i < next.len() implies (#[trigger] next[i]).ready() by {
            assert(prev[i].ready());
            assert(prev[i].updated(next[i], parts[i]));
        }
    }
}

proof fn lemma_shapes_ready(s: Seq<Sprite>)
    requires
        shapes_ok(s),
    ensures
        all_ready(s),
{
    assert forall|i: int| 0 <= i < s.len() implies (#[trigger] s[i]).ready() by {
        assert(s[i].state_spec().shape_ok());
    }
}

/// Runs every entity of `v` once, in order, and gathers their commands in
/// the same order.
pub fn update_sprites(v: &mut Vec<Sprite>) -> (cmds: Vec<UpdateCommand>)
    requires
        all_ready(old(v)@),
    ensures
        exists|parts: Seq<Seq<UpdateCommand>>| each_updated(old(v)@, final(v)@, parts) && cmds@ == concat(parts),
{
    let ghost s = v@;
    let n = v.len();
    let mut done: Vec<Sprite> = Vec::new();
    let mut cmds: Vec<UpdateCommand> = Vec::new();
    let ghost mut parts: Seq<Seq<UpdateCommand>> = Seq::empty();
    let mut i: usize = 0;
    while v.len() > 0
        invariant
            s.len() == n,
            i <= n,
            v@ == s.subrange(i as int, n as int),
            v@.len() == n - i,
            all_ready(s),
            each_updated(s.take(i as int), done@, parts),
            cmds@ == concat(parts),
        decreases v@.len(),
    {
        let mut e = v.remove(0);
        assert(e == s[i as int]);
        let c = e.update();
        let ghost old_parts = parts;
        proof {
            parts = parts.push(c@);
        }
        assert(parts.drop_last() == old_parts);
        let mut c = c;
        cmds.append(&mut c);
        done.push(e);
        i += 1;
        assert(v@ =~= s.subrange(i as int, n as int));
        assert(each_updated(s.take(i as int), done@, parts)) by {
            assert forall|j: int| 0 <= j < i implies (#[trigger] s.take(i as int)[j]).updated(done@[j], parts[j]) by {
                if j < i - 1 {
                    assert(s.take(i as int)[j] == s.take(i - 1)[j]);
                }
            }
            assert forall|j: int| 0 <= j < i implies (#[trigger] done@[j]).state_spec().same_but_pos(s.take(i as int)[j].state_spec()) by {
                if j < i - 1 {
                    assert(s.take(i as int)[j] == s.take(i - 1)[j]);
                }
            }
        }
    }
    assert(s.take(n as int) =~= s);
    *v = done;
    cmds
}

/// Whether entity `i` is the first of `a` whose footprint holds `p`.
pub open spec fn first_hit(a: Seq<Sprite>, p: Point, i: int) -> bool {
    &&& 0 <= i < a.len()
    &&& a[i].state_spec().covers(p)
    &&& forall|j: int| 0 <= j < i ==> !(#[trigger] a[j].state_spec().covers(p))
}

/// The first entity is the only one.
pub proof fn lemma_first_hit_unique(a: Seq<Sprite>, p: Point, i: int, j: int)
    requires
        first_hit(a, p, i),
        first_hit(a, p, j),
    ensures
        i == j,
{
    if i < j {
        assert(!a[i].state_spec().covers(p));
    } else if j < i {
        assert(!a[j].state_spec().covers(p));
    }
}

/// Bullet `b` against the enemies `a`: the first enemy hit loses one hit
/// point; the bullet goes, and the enemy too once it has none left.
pub open spec fn strike(a: Seq<Sprite>, b: Sprite) -> (Seq<Sprite>, Seq<UpdateCommand>) {
    let p = b.state_spec().pos;
    if exists|i: int| first_hit(a, p, i) {
        let i = choose|i: int| first_hit(a, p, i);
        let hurt = a[i].with_hp_change(-1i16);
        (
            a.update(i, hurt),
            if hurt.state_spec().hp == 0 {
                seq![UpdateCommand::RemoveBullet(b.id_spec()), UpdateCommand::RemoveInvander(a[i].id_spec())]
            } else {
                seq![UpdateCommand::RemoveBullet(b.id_spec())]
            },
        )
    } else {
        (a, Seq::empty())
    }
}

/// Every bullet of `bullets`, in order, against the enemies `a`.
pub open spec fn collide_all(a: Seq<Sprite>, bullets: Seq<Sprite>) -> (Seq<Sprite>, Seq<UpdateCommand>)
    decreases bullets.len(),
{
    if bullets.len() == 0 {
        (a, Seq::empty())
    } else {
        let prev = collide_all(a, bullets.drop_last());
        let last = strike(prev.0, bullets.last());
        (last.0, prev.1 + last.1)
    }
}

/// Where some entity's footprint holds `p`, a first one does.
pub proof fn lemma_first_hit_exists(a: Seq<Sprite>, p: Point, i: int)
    requires
        0 <= i < a.len(),
        a[i].state_spec().covers(p),
    ensures
        exists|f: int| f <= i && first_hit(a, p, f),
    decreases i,
{
    if exists|j: int| 0 <= j < i && (#[trigger] a[j].state_spec().covers(p)) {
        let j = choose|j: int| 0 <= j < i && (#[trigger] a[j].state_spec().covers(p));
        lemma_first_hit_exists(a, p, j);
    } else {
        assert(first_hit(a, p, i));
    }
}

/// A player bullet over two enemies damages only one of them, the one met
/// first in collection order, and is removed.
pub proof fn lemma_tie_break(a: Seq<Sprite>, b: Sprite, i: int, j: int)
    requires
        0 <= i < j < a.len(),
        a[i].state_spec().covers(b.state_spec().pos),
        a[j].state_spec().covers(b.state_spec().pos),
    ensures
        exists|f: int| #![trigger first_hit(a, b.state_spec().pos, f)]
            f <= i && first_hit(a, b.state_spec().pos, f)
            && strike(a, b).0 == a.update(f, a[f].with_hp_change(-1i16)),
        strike(a, b).0[j] == a[j],
        strike(a, b).1.len() >= 1,
        strike(a, b).1[0] == UpdateCommand::RemoveBullet(b.id_spec()),
{
    let p = b.state_spec().pos;
    lemma_first_hit_exists(a, p, i);
    let f = choose|f: int| f <= i && first_hit(a, p, f);
    let g = choose|g: int| first_hit(a, p, g);
    lemma_first_hit_unique(a, p, f, g);
}

/// `next` is `prev` with at most hit points changed.
pub open spec fn only_hp_changed(prev: Seq<Sprite>, next: Seq<Sprite>) -> bool {
    &&& next.len() == prev.len()
    &&& forall|i: int| 0 <= i < prev.len() ==> (#[trigger] next[i]).id_spec() == prev[i].id_spec()
    &&& forall|i: int| 0 <= i < prev.len() ==> (#[trigger] next[i]).state_spec().cells == prev[i].state_spec().cells
}

proof fn lemma_only_hp_kept(prev: Seq<Sprite>, next: Seq<Sprite>, top: u32)
    requires
        only_hp_changed(prev, next),
    ensures
        well_kept(prev, top) ==> well_kept(next, top),
        shapes_ok(prev) ==> shapes_ok(next),
{
    assert forall|i: int| 0 <= i < next.len() implies (#[trigger] next[i]).state_spec().cells@ == prev[i].state_spec().cells@ by {
        assert(next[i].state_spec().cells == prev[i].state_spec().cells);
    }
}

proof fn lemma_hp_change_keeps(e: Sprite, d: i16)
    ensures
        e.with_hp_change(d).id_spec() == e.id_spec(),
        e.with_hp_change(d).state_spec().cells == e.state_spec().cells,
        e.with_hp_change(d).state_spec().pos == e.state_spec().pos,
{
}

/// The collection of `v` that `category` names.
pub open spec fn group(v: LevelView, category: SpriteCategory) -> Seq<Sprite> {
    match category {
        SpriteCategory::PlayerBullet => v.player_bullets,
        SpriteCategory::AlienBullet => v.bullets,
        SpriteCategory::Alien => v.aliens,
    }
}

/// `v` with the collection that `category` names replaced by `s`.
pub open spec fn with_group(v: LevelView, category: SpriteCategory, s: Seq<Sprite>) -> LevelView {
    match category {
        SpriteCategory::PlayerBullet => LevelView { player_bullets: s, ..v },
        SpriteCategory::AlienBullet => LevelView { bullets: s, ..v },
        SpriteCategory::Alien => LevelView { aliens: s, ..v },
    }
}

/// `w` is `v` after every entity of one collection ran once and the
/// commands they emitted were applied.
pub open spec fn group_phase(v: LevelView, category: SpriteCategory, w: LevelView) -> bool {
    exists|s: Seq<Sprite>, parts: Seq<Seq<UpdateCommand>>|
        each_updated(group(v, category), s, parts) && w == with_group(v, category, s).apply_all(concat(parts))
}

/// `w` is `v` after the player ran once, becoming `next`, and its commands
/// were applied.
pub open spec fn player_phase(player: Player, v: LevelView, next: Player, w: LevelView) -> bool {
    exists|cmds: Seq<UpdateCommand>|
        player.ai.stepped(player.state, next.ai, next.state, cmds) && w == v.apply_all(cmds)
}

/// `v` after the player bullets met the enemies and the removals were applied.
pub open spec fn collision_phase(v: LevelView) -> LevelView {
    let (aliens, cmds) = collide_all(v.aliens, v.player_bullets);
    LevelView { aliens, ..v }.apply_all(cmds)
}

/// The number of the wave that follows wave `n`; after the last comes the first.
pub open spec fn next_wave(n: u16) -> u16 {
    if n == 1 {
        2
    } else if n == 2 {
        3
    } else if n == 3 {
        4
    } else {
        1
    }
}

/// The number of enemies wave `n` starts with.
pub open spec fn wave_size(n: u16) -> int {
    if n == 1 || n == 2 {
        27
    } else if n == 3 {
        5
    } else {
        1
    }
}

/// The game: the player, the current wave and whether the player was hit.
pub struct Board {
    pub player: Player,
    pub level: Level,
    pub game_over: bool,
}

impl Board {
    pub open spec fn wf(self) -> bool {
        &&& self.level.wf()
        &&& self.player.state.shape_ok()
    }

    pub fn new() -> (r: Board)
        ensures
            r.wf(),
            !r.game_over,
            r.level.fresh(1, 27),
            r.level.formation(1),
            r.player.spawned((SCREEN_WIDTH / 2) as i16, 1),
    {
        Board { game_over: false, player: Player::new((SCREEN_WIDTH / 2) as i16, 1), level: Level::one() }
    }

    /// Sets the direction the player holds to move in.
    pub fn move_player(&mut self, dir: Direction)
        ensures
            final(self).player.ai.do_move == dir,
            final(self).player.ai.do_fire == old(self).player.ai.do_fire,
            final(self).player.ai.ticks_to_fire == old(self).player.ai.ticks_to_fire,
            final(self).player.state == old(self).player.state,
            final(self).level == old(self).level,
            final(self).game_over == old(self).game_over,
    {
        self.player.ai.do_move = dir;
    }

    /// Asks the player to fire once the cooldown allows.
    pub fn player_fire(&mut self)
        ensures
            final(self).player.ai.do_fire,
            final(self).player.ai.do_move == old(self).player.ai.do_move,
            final(self).player.ai.ticks_to_fire == old(self).player.ai.ticks_to_fire,
            final(self).player.state == old(self).player.state,
            final(self).level == old(self).level,
            final(self).game_over == old(self).game_over,
    {
        self.player.ai.do_fire = true;
    }

    fn reset_game_with_level(&mut self, level: Level)
        ensures
            final(self).level == level,
            !final(self).game_over,
            final(self).player == old(self).player,
    {
        self.level = level;
        self.game_over = false;
    }

    /// Moves on: to the next wave once this one is cleared, or back to wave 1
    /// after the player was hit; otherwise nothing changes.
    pub fn next_level(&mut self)
        requires
            old(self).wf(),
        ensures
            final(self).wf(),
            final(self).player == old(self).player,
            old(self).level.aliens@.len() == 0 ==> {
                let n = next_wave(old(self).level.number);
                !final(self).game_over && final(self).level.fresh(n, wave_size(n)) && final(self).level.formation(n)
            },
            old(self).level.aliens@.len() != 0 && old(self).game_over ==>
                !final(self).game_over && final(self).level.fresh(1, 27) && final(self).level.formation(1),
            old(self).level.aliens@.len() != 0 && !old(self).game_over ==> *final(self) == *old(self),
    {
        if self.level.is_finished() {
            if self.level.number == 1 {
                self.reset_game_with_level(Level::two());
            } else if self.level.number == 2 {
                self.reset_game_with_level(Level::three());
            } else if self.level.number == 3 {
                self.reset_game_with_level(Level::four());
            } else {
                self.reset_game_with_level(Level::one());
            }
        } else if self.game_over {
            self.reset_game_with_level(Level::one());
        }
    }

    /// One tick. Nothing happens once the game is over or the wave cleared.
    /// Otherwise enemy bullets, player bullets, enemies and then the player
    /// run once, each collection's commands applied right after it; then
    /// player bullets meet the enemies. If enemies are left and an enemy
    /// bullet lies on the player, the game ends; a cleared wave is won, so
    /// the two outcomes never come together.
    pub fn update(&mut self)
        requires
            old(self).wf(),
        ensures
            final(self).wf(),
            old(self).game_over || old(self).level.aliens@.len() == 0 ==> *final(self) == *old(self),
            !old(self).game_over && old(self).level.aliens@.len() != 0 ==> exists|v1: LevelView, v2: LevelView, v3: LevelView, v4: LevelView|
                #[trigger] group_phase(old(self).level.view(), SpriteCategory::AlienBullet, v1)
                && #[trigger] group_phase(v1, SpriteCategory::PlayerBullet, v2)
                && #[trigger] group_phase(v2, SpriteCategory::Alien, v3)
                && #[trigger] player_phase(old(self).player, v3, final(self).player, v4)
                && final(self).level.view() == collision_phase(v4),
            !old(self).game_over && old(self).level.aliens@.len() != 0 ==>
                final(self).game_over == (final(self).level.aliens@.len() != 0 && final(self).player_hit(final(self).level.bullets@)),
            !old(self).game_over && old(self).level.aliens@.len() != 0 ==>
                !(final(self).game_over && final(self).level.aliens@.len() == 0),
    {
        if self.game_over || self.level.is_finished() {
            return;
        }
        let ghost v0 = self.level.view();
        let ghost p0 = self.player;
        let c1 = update_sprites(&mut self.level.bullets);
        let ghost v0u = self.level.view();
        let ghost parts_c1 = choose|parts: Seq<Seq<UpdateCommand>>| each_updated(v0.bullets, v0u.bullets, parts) && c1@ == concat(parts);
        proof {
            lemma_updated_kept(v0.bullets, v0u.bullets, parts_c1, v0.counter);
        }
        self.execute_update_commands(c1);
        let ghost v1 = self.level.view();
        assert(v0u == with_group(v0, SpriteCategory::AlienBullet, v0u.bullets));
        assert(each_updated(group(v0, SpriteCategory::AlienBullet), v0u.bullets, parts_c1));
        assert(group_phase(v0, SpriteCategory::AlienBullet, v1));
        let c2 = update_sprites(&mut self.level.player_bullets);
        let ghost v1u = self.level.view();
        let ghost parts_c2 = choose|parts: Seq<Seq<UpdateCommand>>| each_updated(v1.player_bullets, v1u.player_bullets, parts) && c2@ == concat(parts);
        proof {
            lemma_updated_kept(v1.player_bullets, v1u.player_bullets, parts_c2, v1.counter);
        }
        self.execute_update_commands(c2);
        let ghost v2 = self.level.view();
        assert(v1u == with_group(v1, SpriteCategory::PlayerBullet, v1u.player_bullets));
        assert(each_updated(group(v1, SpriteCategory::PlayerBullet), v1u.player_bullets, parts_c2));
        assert(group_phase(v1, SpriteCategory::PlayerBullet, v2));
        proof {
            lemma_shapes_ready(self.level.aliens@);
        }
        let c3 = update_sprites(&mut self.level.aliens);
        let ghost v2u = self.level.view();
        let ghost parts_c3 = choose|parts: Seq<Seq<UpdateCommand>>| each_updated(v2.aliens, v2u.aliens, parts) && c3@ == concat(parts);
        proof {
            lemma_updated_kept(v2.aliens, v2u.aliens, parts_c3, v2.counter);
        }
        self.execute_update_commands(c3);
        let ghost v3 = self.level.view();
        assert(v2u == with_group(v2, SpriteCategory::Alien, v2u.aliens));
        assert(each_updated(group(v2, SpriteCategory::Alien), v2u.aliens, parts_c3));
        assert(group_phase(v2, SpriteCategory::Alien, v3));
        let c4 = self.player.ai.update(&mut self.player.state);
        self.execute_update_commands(c4);
        let ghost v4 = self.level.view();
        assert(player_phase(p0, v3, self.player, v4));
        let c5 = self.collide_player_bullets();
        let ghost v4c = self.level.view();
        assert(v4c == LevelView { aliens: collide_all(v4.aliens, v4.player_bullets).0, ..v4 });
        self.execute_update_commands(c5);
        assert(self.level.view() == collision_phase(v4));
        if !self.level.is_finished() {
            self.check_player_hit();
        }
    }

    /// Each player bullet, in order, against the enemies in collection order:
    /// the first enemy whose footprint holds the bullet loses a hit point, and
    /// removal of the bullet, and of the enemy once it has no hit points left,
    /// is returned. Nothing else changes.
    pub fn collide_player_bullets(&mut self) -> (cmds: Vec<UpdateCommand>)
        requires
            old(self).wf(),
        ensures
            final(self).wf(),
            (final(self).level.aliens@, cmds@) == collide_all(old(self).level.aliens@, old(self).level.player_bullets@),
            final(self).level.player_bullets == old(self).level.player_bullets,
            final(self).level.bullets == old(self).level.bullets,
            final(self).level.number == old(self).level.number,
            final(self).level.entity_id_counter == old(self).level.entity_id_counter,
            final(self).player == old(self).player,
            final(self).game_over == old(self).game_over,
    {
        let ghost a0 = self.level.aliens@;
        let ghost bs = self.level.player_bullets@;
        let mut cmds: Vec<UpdateCommand> = Vec::new();
        let mut i: usize = 0;
        while i < self.level.player_bullets.len()
            invariant
                self.wf(),
                bs == self.level.player_bullets@,
                i <= bs.len(),
                (self.level.aliens@, cmds@) == collide_all(a0, bs.take(i as int)),
                only_hp_changed(a0, self.level.aliens@),
                self.level.player_bullets == old(self).level.player_bullets,
                self.level.bullets == old(self).level.bullets,
                self.level.number == old(self).level.number,
                self.level.entity_id_counter == old(self).level.entity_id_counter,
                self.player == old(self).player,
                self.game_over == old(self).game_over,
            decreases bs.len() - i,
        {
            let p = self.level.player_bullets[i].state().pos;
            let bid = self.level.player_bullets[i].id();
            assert(bs.take(i + 1).drop_last() == bs.take(i as int));
            assert(bs.take(i + 1).last() == bs[i as int]);
            let ghost a1 = self.level.aliens@;
            let ghost c1 = cmds@;
            let mut j: usize = 0;
            let mut found = false;
            while j < self.level.aliens.len() && !found
                invariant
                    self.wf(),
                    j <= self.level.aliens@.len(),
                    !found ==> self.level.aliens@ == a1 && cmds@ == c1,
                    !found ==> forall|k: int| 0 <= k < j ==> !(#[trigger] a1[k].state_spec().covers(p)),
                    found ==> (self.level.aliens@, cmds@) == (strike(a1, bs[i as int]).0, c1 + strike(a1, bs[i as int]).1),
                    only_hp_changed(a0, a1),
                    a1.len() == self.level.aliens@.len(),
                    p == bs[i as int].state_spec().pos,
                    bid == bs[i as int].id_spec(),
                    only_hp_changed(a0, self.level.aliens@),
                    self.level.player_bullets == old(self).level.player_bullets,
                    self.level.bullets == old(self).level.bullets,
                    self.level.number == old(self).level.number,
                    self.level.entity_id_counter == old(self).level.entity_id_counter,
                    self.player == old(self).player,
                    self.game_over == old(self).game_over,
                decreases self.level.aliens@.len() - j + (if found { 0int } else { 1 }),
            {
                if self.level.aliens[j].collides(&p) {
                    assert(first_hit(a1, p, j as int));
                    assert forall|k: int| first_hit(a1, p, k) implies k == j by {
                        lemma_first_hit_unique(a1, p, k, j as int);
                    }
                    let mut e = self.level.aliens.remove(j);
                    e.modify_hp(-1);
                    proof {
                        lemma_hp_change_keeps(a1[j as int], -1i16);
                    }
                    let hp = e.state().hp;
                    let aid = e.id();
                    self.level.aliens.insert(j, e);
                    assert(self.level.aliens@ =~= a1.update(j as int, a1[j as int].with_hp_change(-1i16)));
                    cmds.push(UpdateCommand::RemoveBullet(bid));
                    if hp == 0 {
                        cmds.push(UpdateCommand::RemoveInvander(aid));
                    }
                    proof {
                        lemma_only_hp_kept(a0, self.level.aliens@, self.level.entity_id_counter);
                    }
                    found = true;
                } else {
                    j += 1;
                }
            }
            if !found {
                assert(!exists|k: int| first_hit(a1, p, k));
                assert(cmds@ =~= c1 + strike(a1, bs[i as int]).1);
            }
            i += 1;
        }
        assert(bs.take(bs.len() as int) =~= bs);
        cmds
    }

    /// Whether the player's footprint holds some enemy bullet of `bullets`.
    pub open spec fn player_hit(self, bullets: Seq<Sprite>) -> bool {
        exists|i: int| 0 <= i < bullets.len() && self.player.state.covers(#[trigger] bullets[i].state_spec().pos)
    }

    /// Ends the game when an enemy bullet lies on the player's footprint.
    pub fn check_player_hit(&mut self)
        ensures
            final(self).game_over == (old(self).game_over || old(self).player_hit(old(self).level.bullets@)),
            final(self).player == old(self).player,
            final(self).level == old(self).level,
    {
        let mut i: usize = 0;
        while i < self.level.bullets.len()
            invariant
                i <= self.level.bullets@.len(),
                self.player == old(self).player,
                self.level == old(self).level,
                self.game_over == (old(self).game_over || exists|k: int| 0 <= k < i
                    && self.player.state.covers(#[trigger] self.level.bullets@[k].state_spec().pos)),
            decreases self.level.bullets@.len() - i,
        {
            if self.player.state.collides(&self.level.bullets[i].state().pos) {
                self.game_over = true;
            }
            i += 1;
        }
    }

    /// Applies `commands` in order: spawns name the entity and add it to its
    /// collection, removals take out the entity with that identifier if it
    /// is still there.
    pub fn execute_update_commands(&mut self, commands: Vec<UpdateCommand>)
        requires
            old(self).wf(),
        ensures
            final(self).wf(),
            final(self).level.view() == old(self).level.view().apply_all(commands@),
            final(self).player == old(self).player,
            final(self).game_over == old(self).game_over,
    {
        let ghost cs = commands@;
        let mut commands = commands;
        let n = commands.len();
        let mut i: usize = 0;
        while commands.len() > 0
            invariant
                cs.len() == n,
                i <= n,
                commands@ == cs.subrange(i as int, n as int),
                commands@.len() == n - i,
                self.wf(),
                self.level.view() == old(self).level.view().apply_all(cs.take(i as int)),
                self.player == old(self).player,
                self.game_over == old(self).game_over,
            decreases commands@.len(),
        {
            let cmd = commands.remove(0);
            assert(cmd == cs[i as int]);
            assert(cs.take(i + 1).drop_last() == cs.take(i as int));
            let ghost before = self.level.view();
            proof {
                lemma_apply_one_kept(before, cmd);
            }
            match cmd {
                UpdateCommand::SpawnBullet(b) => self.level.add_sprite(Sprite::Bullet(b), SpriteCategory::AlienBullet),
                UpdateCommand::SpawnPlayerBullet(b) => self.level.add_sprite(Sprite::Bullet(b), SpriteCategory::PlayerBullet),
                UpdateCommand::RemoveBullet(id) => {
                    remove_by_id(&mut self.level.bullets, id);
                    remove_by_id(&mut self.level.player_bullets, id);
                },
                UpdateCommand::RemoveInvander(id) => {
                    remove_by_id(&mut self.level.aliens, id);
                },
            }
            assert(self.level.view() == before.apply(cmd));
            i += 1;
            assert(commands@ =~= cs.subrange(i as int, n as int));
        }
        assert(cs.take(n as int) =~= cs);
    }
}

} // verus!

verus! {

/// Whether no bullet of either side carries identifier `id` in `v`.
pub open spec fn bullet_gone(v: LevelView, id: u32) -> bool {
    !holds_id(v.bullets, id) && !holds_id(v.player_bullets, id)
}

proof fn lemma_without_id_from(s: Seq<Sprite>, id: u32)
    ensures
        forall|k: int| 0 <= k < without_id(s, id).len() ==> exists|j: int| 0 <= j < s.len() && #[trigger] without_id(s, id)[k] == s[j],
    decreases s.len(),
{
    if s.len() > 0 {
        lemma_without_id_from(s.drop_last(), id);
        let r = without_id(s.drop_last(), id);
        let w = without_id(s, id);
        assert forall|k: int| 0 <= k < w.len() implies exists|j: int| 0 <= j < s.len() && #[trigger] w[k] == s[j] by {
            if k < r.len() {
                let j = choose|j: int| 0 <= j < s.drop_last().len() && r[k] == s.drop_last()[j];
                assert(w[k] == s[j]);
            } else {
                assert(w[k] == s[s.len() - 1]);
            }
        }
    }
}

proof fn lemma_without_id_stays_gone(s: Seq<Sprite>, id: u32, other: u32)
    requires
        !holds_id(s, id),
    ensures
        !holds_id(without_id(s, other), id),
{
    lemma_without_id_from(s, other);
    let w = without_id(s, other);
    if holds_id(w, id) {
        let k = choose|k: int| 0 <= k < w.len() && (#[trigger] w[k]).id_spec() == id;
        let j = choose|j: int| 0 <= j < s.len() && #[trigger] w[k] == s[j];
        assert(s[j].id_spec() == id);
    }
}

proof fn lemma_push_stays_gone(s: Seq<Sprite>, e: Sprite, id: u32)
    requires
        !holds_id(s, id),
        e.id_spec() != id,
    ensures
        !holds_id(s.push(e), id),
{
    if holds_id(s.push(e), id) {
        let k = choose|k: int| 0 <= k < s.push(e).len() && (#[trigger] s.push(e)[k]).id_spec() == id;
        if k < s.len() {
            assert(s.push(e)[k] == s[k]);
        }
    }
}

/// A bullet identifier at most the counter, once gone, stays gone whatever
/// commands follow: later spawns take fresh identifiers.
pub proof fn lemma_gone_after_commands(v: LevelView, cmds: Seq<UpdateCommand>, id: u32)
    requires
        bullet_gone(v, id),
        id <= v.counter,
    ensures
        bullet_gone(v.apply_all(cmds), id),
        id <= v.apply_all(cmds).counter,
    decreases cmds.len(),
{
    if cmds.len() > 0 {
        lemma_gone_after_commands(v, cmds.drop_last(), id);
        let w = v.apply_all(cmds.drop_last());
        match cmds.last() {
            UpdateCommand::SpawnBullet(b) => {
                if w.counter < u32::MAX {
                    lemma_push_stays_gone(w.bullets, Sprite::Bullet(b).with_id((w.counter + 1) as u32), id);
                }
            },
            UpdateCommand::SpawnPlayerBullet(b) => {
                if w.counter < u32::MAX {
                    lemma_push_stays_gone(w.player_bullets, Sprite::Bullet(b).with_id((w.counter + 1) as u32), id);
                }
            },
            UpdateCommand::RemoveBullet(other) => {
                lemma_without_id_stays_gone(w.bullets, id, other);
                lemma_without_id_stays_gone(w.player_bullets, id, other);
            },
            UpdateCommand::RemoveInvander(_) => {},
        }
    }
}

proof fn lemma_counter_grows(v: LevelView, cmds: Seq<UpdateCommand>)
    ensures
        v.counter <= v.apply_all(cmds).counter,
    decreases cmds.len(),
{
    if cmds.len() > 0 {
        lemma_counter_grows(v, cmds.drop_last());
    }
}

proof fn lemma_apply_all_append(v: LevelView, a: Seq<UpdateCommand>, b: Seq<UpdateCommand>)
    ensures
        v.apply_all(a + b) == v.apply_all(a).apply_all(b),
    decreases b.len(),
{
    if b.len() > 0 {
        lemma_apply_all_append(v, a, b.drop_last());
        assert((a + b).drop_last() == a + b.drop_last());
        assert((a + b).last() == b.last());
    }
}

proof fn lemma_concat_append(p: Seq<Seq<UpdateCommand>>, q: Seq<Seq<UpdateCommand>>)
    ensures
        concat(p + q) == concat(p) + concat(q),
    decreases q.len(),
{
    if q.len() == 0 {
        assert(p + q == p);
        assert(concat(p) + concat(q) == concat(p));
    } else {
        lemma_concat_append(p, q.drop_last());
        assert((p + q).drop_last() == p + q.drop_last());
        assert((p + q).last() == q.last());
    }
}

/// Applying commands that include the removal of bullet `id` leaves no
/// bullet with that identifier, where `id` is at most the counter.
pub proof fn lemma_removal_in_commands(v: LevelView, parts: Seq<Seq<UpdateCommand>>, i: int, id: u32)
    requires
        0 <= i < parts.len(),
        parts[i] == seq![UpdateCommand::RemoveBullet(id)],
        id <= v.counter,
    ensures
        bullet_gone(v.apply_all(concat(parts)), id),
{
    let before = parts.take(i);
    let after = parts.skip(i + 1);
    assert(parts =~= before + seq![parts[i]] + after);
    lemma_concat_append(before + seq![parts[i]], after);
    lemma_concat_append(before, seq![parts[i]]);
    assert(concat(seq![parts[i]]) == parts[i]) by {
        assert(seq![parts[i]].drop_last() =~= Seq::<Seq<UpdateCommand>>::empty());
        assert(concat(Seq::<Seq<UpdateCommand>>::empty()) == Seq::<UpdateCommand>::empty());
        assert(Seq::<UpdateCommand>::empty() + parts[i] =~= parts[i]);
    }
    let c1 = concat(before);
    lemma_apply_all_append(v, c1 + parts[i], concat(after));
    lemma_apply_all_append(v, c1, parts[i]);
    let u = v.apply_all(c1);
    lemma_counter_grows(v, c1);
    assert(parts[i].drop_last() =~= Seq::<UpdateCommand>::empty());
    assert(u.apply_all(Seq::<UpdateCommand>::empty()) == u);
    assert(parts[i].last() == UpdateCommand::RemoveBullet(id));
    let r = u.apply_all(parts[i]);
    assert(r == u.apply(UpdateCommand::RemoveBullet(id)));
    lemma_without_id_gone_here(u.bullets, id);
    lemma_without_id_gone_here(u.player_bullets, id);
    lemma_gone_after_commands(r, concat(after), id);
}

proof fn lemma_without_id_gone_here(s: Seq<Sprite>, id: u32)
    ensures
        !holds_id(without_id(s, id), id),
{
    crate::level::lemma_without_id_gone(s, id);
}

} // verus!

verus! {

/// Whether bullet `b` moves this tick and its row leaves the playfield.
pub open spec fn leaves_field(b: Bullet) -> bool {
    &&& b.ai.moves()
    &&& !in_field_y(b.state.pos.plus_spec(bullet_step(b.state.direction)).y as int)
}

/// Whether `s` holds a bullet with identifier `id` that leaves the playfield this tick.
pub open spec fn leaving_in(s: Seq<Sprite>, id: u32) -> bool {
    exists|i: int| 0 <= i < s.len() && match #[trigger] s[i] {
        Sprite::Bullet(b) => leaves_field(b) && b.state.id == id,
        _ => false,
    }
}

/// A bullet gone before a collection runs is still gone after it.
proof fn lemma_gone_through_group(v: LevelView, category: SpriteCategory, w: LevelView, id: u32)
    requires
        group_phase(v, category, w),
        bullet_gone(v, id),
        id <= v.counter,
    ensures
        bullet_gone(w, id),
        id <= w.counter,
{
    let (s, parts) = choose|s: Seq<Sprite>, parts: Seq<Seq<UpdateCommand>>|
        each_updated(group(v, category), s, parts) && w == with_group(v, category, s).apply_all(concat(parts));
    let g = group(v, category);
    if holds_id(s, id) {
        let k = choose|k: int| 0 <= k < s.len() && (#[trigger] s[k]).id_spec() == id;
        assert(s[k].state_spec().same_but_pos(g[k].state_spec()));
        assert(holds_id(g, id));
    }
    lemma_gone_after_commands(with_group(v, category, s), concat(parts), id);
}

/// A bullet that leaves the playfield while its collection runs is gone
/// once that collection's commands are applied.
proof fn lemma_leaving_in_group(v: LevelView, category: SpriteCategory, w: LevelView, id: u32)
    requires
        group_phase(v, category, w),
        leaving_in(group(v, category), id),
        id <= v.counter,
    ensures
        bullet_gone(w, id),
        id <= w.counter,
{
    let (s, parts) = choose|s: Seq<Sprite>, parts: Seq<Seq<UpdateCommand>>|
        each_updated(group(v, category), s, parts) && w == with_group(v, category, s).apply_all(concat(parts));
    let g = group(v, category);
    let i = choose|i: int| 0 <= i < g.len() && match #[trigger] g[i] {
        Sprite::Bullet(b) => leaves_field(b) && b.state.id == id,
        _ => false,
    };
    assert(g[i].updated(s[i], parts[i]));
    assert(parts[i] =~= seq![UpdateCommand::RemoveBullet(id)]);
    lemma_removal_in_commands(with_group(v, category, s), parts, i, id);
    lemma_counter_grows(with_group(v, category, s), concat(parts));
}

/// A bullet that leaves the playfield during a tick asks for its removal
/// that tick and is in neither bullet collection once the tick is over, so
/// it is never run again and its removal is asked for exactly once. The
/// level views are those `Board::update` passes through: `v0` at the start,
/// `v1` once enemy bullets ran, and so on.
pub proof fn lemma_tick_removes_leaving_bullet(
    v0: LevelView,
    v1: LevelView,
    v2: LevelView,
    v3: LevelView,
    v4: LevelView,
    player: Player,
    next: Player,
    id: u32,
)
    requires
        group_phase(v0, SpriteCategory::AlienBullet, v1),
        group_phase(v1, SpriteCategory::PlayerBullet, v2),
        group_phase(v2, SpriteCategory::Alien, v3),
        player_phase(player, v3, next, v4),
        (leaving_in(v0.bullets, id) && id <= v0.counter) || (leaving_in(v1.player_bullets, id) && id <= v1.counter),
    ensures
        bullet_gone(collision_phase(v4), id),
{
    if leaving_in(v0.bullets, id) && id <= v0.counter {
        lemma_leaving_in_group(v0, SpriteCategory::AlienBullet, v1, id);
        lemma_gone_through_group(v1, SpriteCategory::PlayerBullet, v2, id);
    } else {
        lemma_leaving_in_group(v1, SpriteCategory::PlayerBullet, v2, id);
    }
    lemma_gone_through_group(v2, SpriteCategory::Alien, v3, id);
    let cmds = choose|cmds: Seq<UpdateCommand>|
        player.ai.stepped(player.state, next.ai, next.state, cmds) && v4 == v3.apply_all(cmds);
    lemma_gone_after_commands(v3, cmds, id);
    let (aliens, hits) = collide_all(v4.aliens, v4.player_bullets);
    lemma_gone_after_commands(LevelView { aliens, ..v4 }, hits, id);
}

} // verus!

verus! {

/// `a` and `b` hold the same entities in the same places, up to hit points.
pub open spec fn same_places(a: Seq<Sprite>, b: Seq<Sprite>) -> bool {
    &&& b.len() == a.len()
    &&& forall|m: int| 0 <= m < a.len() ==> (#[trigger] b[m]).state_spec().pos == a[m].state_spec().pos
        && b[m].state_spec().cells == a[m].state_spec().cells
}

proof fn lemma_strike_keeps_places(a: Seq<Sprite>, b: Sprite, m: int)
    requires
        0 <= m < a.len(),
        !a[m].state_spec().covers(b.state_spec().pos),
    ensures
        same_places(a, strike(a, b).0),
        strike(a, b).0[m] == a[m],
{
    let p = b.state_spec().pos;
    if exists|i: int| first_hit(a, p, i) {
        let i = choose|i: int| first_hit(a, p, i);
        lemma_hp_change_keeps(a[i], -1i16);
        assert(i != m);
    }
}

proof fn lemma_strike_places(a: Seq<Sprite>, b: Sprite)
    ensures
        same_places(a, strike(a, b).0),
{
    let p = b.state_spec().pos;
    if exists|i: int| first_hit(a, p, i) {
        let i = choose|i: int| first_hit(a, p, i);
        lemma_hp_change_keeps(a[i], -1i16);
    }
}

proof fn lemma_first_hit_same_places(a: Seq<Sprite>, a2: Seq<Sprite>, p: Point, i: int)
    requires
        same_places(a, a2),
        first_hit(a, p, i),
    ensures
        first_hit(a2, p, i),
{
    assert(a2[i].state_spec().pos == a[i].state_spec().pos);
    assert forall|j: int| 0 <= j < i implies !(#[trigger] a2[j].state_spec().covers(p)) by {
        assert(a2[j].state_spec().pos == a[j].state_spec().pos);
        assert(!a[j].state_spec().covers(p));
    }
}

proof fn lemma_collide_places(a: Seq<Sprite>, bullets: Seq<Sprite>)
    ensures
        same_places(a, collide_all(a, bullets).0),
    decreases bullets.len(),
{
    if bullets.len() > 0 {
        lemma_collide_places(a, bullets.drop_last());
        let prev = collide_all(a, bullets.drop_last()).0;
        lemma_strike_places(prev, bullets.last());
    }
}

/// The whole collision pass: where bullet `k` lies first on enemy `i`, enemy
/// `j` after it lies under the same bullet, and no other bullet lies on
/// either, enemy `i` alone loses one hit point, enemy `j` is untouched and
/// bullet `k` is removed.
pub proof fn lemma_collision_pass_tie_break(a: Seq<Sprite>, bullets: Seq<Sprite>, k: int, i: int, j: int)
    requires
        0 <= k < bullets.len(),
        first_hit(a, bullets[k].state_spec().pos, i),
        i < j < a.len(),
        a[j].state_spec().covers(bullets[k].state_spec().pos),
        forall|m: int| 0 <= m < bullets.len() && m != k ==>
            !a[i].state_spec().covers(#[trigger] bullets[m].state_spec().pos) && !a[j].state_spec().covers(bullets[m].state_spec().pos),
    ensures
        collide_all(a, bullets).0[i] == a[i].with_hp_change(-1i16),
        collide_all(a, bullets).0[j] == a[j],
        collide_all(a, bullets).1.contains(UpdateCommand::RemoveBullet(bullets[k].id_spec())),
    decreases bullets.len(),
{
    let n = bullets.len();
    let prev = collide_all(a, bullets.drop_last());
    lemma_collide_places(a, bullets.drop_last());
    let last = bullets.last();
    if k == n - 1 {
        lemma_collide_untouched(a, bullets.drop_last(), i);
        lemma_collide_untouched(a, bullets.drop_last(), j);
        let p = last.state_spec().pos;
        lemma_first_hit_same_places(a, prev.0, p, i);
        assert forall|f: int| first_hit(prev.0, p, f) implies f == i by {
            lemma_first_hit_unique(prev.0, p, f, i);
        }
        let r = strike(prev.0, last);
        assert(r.1[0] == UpdateCommand::RemoveBullet(last.id_spec()));
        assert((prev.1 + r.1)[prev.1.len() as int] == r.1[0]);
    } else {
        assert forall|m: int| 0 <= m < bullets.drop_last().len() && m != k implies
            !a[i].state_spec().covers(#[trigger] bullets.drop_last()[m].state_spec().pos)
            && !a[j].state_spec().covers(bullets.drop_last()[m].state_spec().pos) by {
            assert(bullets.drop_last()[m] == bullets[m]);
        }
        lemma_collision_pass_tie_break(a, bullets.drop_last(), k, i, j);
        assert(!prev.0[i].state_spec().covers(last.state_spec().pos)) by {
            assert(prev.0[i].state_spec().pos == a[i].state_spec().pos);
            assert(!a[i].state_spec().covers(bullets[n - 1].state_spec().pos));
        }
        lemma_strike_keeps_places(prev.0, last, i);
        assert(!prev.0[j].state_spec().covers(last.state_spec().pos)) by {
            assert(prev.0[j].state_spec().pos == a[j].state_spec().pos);
            assert(!a[j].state_spec().covers(bullets[n - 1].state_spec().pos));
        }
        lemma_strike_keeps_places(prev.0, last, j);
        let r = strike(prev.0, last);
        let c = choose|x: int| 0 <= x < prev.1.len() && prev.1[x] == UpdateCommand::RemoveBullet(bullets[k].id_spec());
        assert((prev.1 + r.1)[c] == prev.1[c]);
    }
}

/// An enemy on which no bullet lies comes out of the pass untouched.
proof fn lemma_collide_untouched(a: Seq<Sprite>, bullets: Seq<Sprite>, m: int)
    requires
        0 <= m < a.len(),
        forall|q: int| 0 <= q < bullets.len() ==> !a[m].state_spec().covers(#[trigger] bullets[q].state_spec().pos),
    ensures
        collide_all(a, bullets).0[m] == a[m],
    decreases bullets.len(),
{
    if bullets.len() > 0 {
        assert forall|q: int| 0 <= q < bullets.drop_last().len() implies !a[m].state_spec().covers(#[trigger] bullets.drop_last()[q].state_spec().pos) by {
            assert(bullets.drop_last()[q] == bullets[q]);
        }
        lemma_collide_untouched(a, bullets.drop_last(), m);
        lemma_collide_places(a, bullets.drop_last());
        let prev = collide_all(a, bullets.drop_last()).0;
        assert(!a[m].state_spec().covers(bullets[bullets.len() - 1].state_spec().pos));
        lemma_strike_keeps_places(prev, bullets.last(), m);
    }
}

} // verus!

verus! {

/// The collision phase with one enemy and one player bullet on it: the
/// enemy loses one hit point and stays while it has some left, and the
/// bullet is gone. With two hit points, as a tank has, the first hit leaves
/// it with one and the second removes it, clearing a wave where it was last.
pub proof fn lemma_lone_enemy_hit(v: LevelView, e: Sprite, b: Sprite)
    requires
        v.aliens == seq![e],
        v.player_bullets == seq![b],
        e is Invander,
        e.state_spec().hp >= 1,
        e.state_spec().covers(b.state_spec().pos),
    ensures
        e.state_spec().hp > 1 ==> collision_phase(v).aliens.len() == 1
            && collision_phase(v).aliens[0].state_spec().hp == e.state_spec().hp - 1,
        e.state_spec().hp == 1 ==> collision_phase(v).aliens.len() == 0,
        !holds_id(collision_phase(v).player_bullets, b.id_spec()),
{
    let p = b.state_spec().pos;
    assert(first_hit(v.aliens, p, 0));
    assert forall|f: int| first_hit(v.aliens, p, f) implies f == 0 by {
        lemma_first_hit_unique(v.aliens, p, f, 0);
    }
    let bs = v.player_bullets;
    assert(bs.drop_last() =~= Seq::<Sprite>::empty());
    assert(collide_all(v.aliens, bs.drop_last()) == (v.aliens, Seq::<UpdateCommand>::empty()));
    let hurt = e.with_hp_change(-1i16);
    let r = collide_all(v.aliens, bs);
    assert(r.0 == seq![e].update(0, hurt));
    let w = LevelView { aliens: r.0, ..v };
    let remove_b = UpdateCommand::RemoveBullet(b.id_spec());
    if hurt.state_spec().hp == 0 {
        let cmds = seq![remove_b, UpdateCommand::RemoveInvander(e.id_spec())];
        assert(r.1 =~= cmds);
        assert(cmds.drop_last() =~= seq![remove_b]);
        assert(seq![remove_b].drop_last() =~= Seq::<UpdateCommand>::empty());
        assert(w.apply_all(Seq::<UpdateCommand>::empty()) == w);
        let w1 = w.apply(remove_b);
        assert(w.apply_all(seq![remove_b]) == w1);
        crate::level::lemma_without_id_gone(w.player_bullets, b.id_spec());
        assert(w1.aliens == seq![hurt]);
        assert(seq![hurt].drop_last() =~= Seq::<Sprite>::empty());
        assert(without_id(Seq::<Sprite>::empty(), e.id_spec()) == Seq::<Sprite>::empty());
        assert(without_id(seq![hurt], e.id_spec()) =~= Seq::<Sprite>::empty());
    } else {
        assert(r.1 =~= seq![remove_b]);
        assert(seq![remove_b].drop_last() =~= Seq::<UpdateCommand>::empty());
        assert(w.apply_all(Seq::<UpdateCommand>::empty()) == w);
        crate::level::lemma_without_id_gone(w.player_bullets, b.id_spec());
    }
}

} // verus!
