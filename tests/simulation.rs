use rustivanders::ai::{draw_reload, BossAi, BulletAi, InvanderAi, PlayerAi};
use rustivanders::board::Board;
use rustivanders::entity::{change_hp, Boss, Bullet, Invander, InvanderKind, Player, Sprite, UpdateCommand};
use rustivanders::level::{remove_by_id, Level, SpriteCategory, SCREEN_HEIGHT, SCREEN_WIDTH};
use rustivanders::point::{clamp_to_coord, Point};
use rustivanders::sprite::{Color, Direction};

fn empty_board(number: u16) -> Board {
    let mut board = Board::new();
    board.level = Level::new(number);
    board
}

fn player_bullet(x: i16, y: i16) -> Sprite {
    Sprite::Bullet(Bullet::new(x, y, Direction::Up, Color::LightBlue, 1))
}

fn alien_hp(board: &Board, i: usize) -> u16 {
    board.level.aliens[i].state().hp
}

#[test]
fn tank_takes_two_hits_then_wave_is_cleared() {
    let mut board = empty_board(2);
    board.level.add_sprite(Sprite::Invander(Invander::new_tank(40, 20, &(40, 45))), SpriteCategory::Alien);
    assert_eq!(alien_hp(&board, 0), 2);

    board.level.add_sprite(player_bullet(41, 19), SpriteCategory::PlayerBullet);
    board.update();
    assert_eq!(board.level.aliens.len(), 1);
    assert_eq!(alien_hp(&board, 0), 1);
    assert!(board.level.player_bullets.is_empty());
    assert!(!board.level.is_finished());

    board.level.add_sprite(player_bullet(41, 19), SpriteCategory::PlayerBullet);
    board.update();
    assert!(board.level.aliens.is_empty());
    assert!(board.level.player_bullets.is_empty());
    assert!(board.level.is_finished());
    assert!(!board.game_over);
}

#[test]
fn wave_three_is_five_assassins_in_echelon() {
    let level = Level::three();
    assert_eq!(level.number, 3);
    assert_eq!(level.aliens.len(), 5);
    let mut prev: Option<(i16, i16)> = None;
    for (k, alien) in level.aliens.iter().enumerate() {
        match alien {
            Sprite::Invander(e) => {
                assert_eq!(e.kind, InvanderKind::Assassin);
                let k = k as i16;
                assert_eq!(e.ai.x_range, (-10 * k, SCREEN_WIDTH as i16 + 10 * k - 2));
                assert_eq!(e.state.pos, Point::new(-10 * k, SCREEN_HEIGHT as i16 - 2 - 5 * k));
                assert_eq!(e.state.id, k as u32 + 1);
                if let Some((lo, hi)) = prev {
                    assert!(e.ai.x_range.0 < lo);
                    assert!(e.ai.x_range.1 > hi);
                }
                prev = Some(e.ai.x_range);
            }
            _ => panic!("wave three holds only invaders"),
        }
    }
}

#[test]
fn boss_volley_fires_from_each_cannon_once() {
    let mut boss = Boss::new_boss(30, 25, &(-40, 114), &(20, 30));
    boss.ai = BossAi::with_reload(&(-40, 114), &(20, 30), 5, 300, 0);
    assert_eq!(boss.ai.bullet_count, 10);
    assert_eq!(boss.state.find_char_pos('V').len(), 3);
    let cmds = boss.ai.step(&mut boss.state, 7, false, 0);
    assert_eq!(cmds.len(), 3);
    assert_eq!(boss.ai.bullet_count, 9);
    let mut xs = Vec::new();
    for c in cmds.iter() {
        match c {
            UpdateCommand::SpawnBullet(b) => {
                assert_eq!(b.state.direction, Direction::Down);
                assert_eq!(b.state.pos.y, 25 - 3);
                xs.push(b.state.pos.x);
            }
            _ => panic!("a volley only spawns bullets"),
        }
    }
    assert_eq!(xs, vec![32, 35, 38]);
}

#[test]
fn boss_volley_through_sprite_update() {
    let mut boss = Boss::new_boss(30, 25, &(-40, 114), &(20, 30));
    boss.ai.ticks_to_spawn_bullet = 0;
    let mut sprite = Sprite::Boss(boss);
    let cmds = sprite.update();
    assert_eq!(cmds.len(), 3);
    match sprite {
        Sprite::Boss(b) => assert_eq!(b.ai.bullet_count, 9),
        _ => panic!("kind changed"),
    }
}

#[test]
fn boss_reloads_after_salvo() {
    let mut boss = Boss::new_boss(30, 25, &(-40, 114), &(20, 30));
    boss.ai = BossAi::with_reload(&(-40, 114), &(20, 30), 5, 300, 0);
    boss.ai.bullet_count = 0;
    let cmds = boss.ai.step(&mut boss.state, 42, false, 0);
    assert!(cmds.is_empty());
    assert_eq!(boss.ai.bullet_count, 10);
    assert_eq!(boss.ai.ticks_to_spawn_bullet, 42);
}

#[test]
fn boss_drifts_only_at_a_turn() {
    let mut boss = Boss::new_boss(-40, 25, &(-40, 114), &(20, 30));
    boss.ai = BossAi::with_reload(&(-40, 114), &(20, 30), 1, 0, 0);
    boss.ai.step(&mut boss.state, 0, true, 3);
    assert_eq!(boss.state.pos, Point::new(-41, 28));
    assert_eq!(boss.ai.move_dir, Direction::Right);
    boss.ai.step(&mut boss.state, 0, false, 4);
    assert_eq!(boss.state.pos, Point::new(-40, 28));
}

#[test]
fn collides_follows_solid_cells() {
    let mut p = Player::new(10, 10);
    assert!(p.state.collides(&Point::new(11, 10)));
    assert!(!p.state.collides(&Point::new(10, 10)));
    assert!(p.state.collides(&Point::new(10, 9)));
    assert!(p.state.collides(&Point::new(12, 9)));
    assert!(!p.state.collides(&Point::new(13, 9)));
    assert!(!p.state.collides(&Point::new(11, 11)));
    assert!(!p.state.collides(&Point::new(9, 9)));
    p.state.cells[0][0].symbol = '#';
    assert!(p.state.collides(&Point::new(10, 10)));
    p.state.cells[0][1].symbol = ' ';
    assert!(!p.state.collides(&Point::new(11, 10)));
}

#[test]
fn fire_point_depends_on_facing() {
    let f = Invander::new_fighter(2, 28, &(2, 7));
    assert_eq!(f.state.fire_point(), Point::new(5, 25));
    let p = Player::new(47, 1);
    assert_eq!(p.state.fire_point(), Point::new(48, 1));
    let b = p.state.fire(Direction::Up, Color::LightBlue, 1);
    assert_eq!(b.state.pos, Point::new(48, 1));
    assert_eq!(b.ai.speed, 1);
}

#[test]
fn find_char_pos_lists_cells_in_row_order() {
    let t = Invander::new_tank(0, 0, &(0, 5));
    assert_eq!(t.state.find_char_pos('V'), vec![Point::new(1, 2), Point::new(2, 2), Point::new(3, 2)]);
    assert_eq!(t.state.find_char_pos('{'), vec![Point::new(0, 1)]);
    assert!(t.state.find_char_pos(' ').is_empty());
    assert!(t.state.find_char_pos('x').is_empty());
}

#[test]
fn bullet_removed_when_leaving_top() {
    let mut b = Bullet::new(5, SCREEN_HEIGHT as i16, Direction::Up, Color::Red, 1);
    b.state.id = 7;
    let cmds = b.ai.update(&mut b.state);
    assert_eq!(b.state.pos.y, SCREEN_HEIGHT as i16 + 1);
    assert_eq!(cmds.len(), 1);
    assert!(matches!(cmds[0], UpdateCommand::RemoveBullet(7)));
}

#[test]
fn bullet_removed_when_leaving_bottom() {
    let mut b = Bullet::new(5, 0, Direction::Down, Color::Red, 1);
    b.state.id = 3;
    let cmds = b.ai.update(&mut b.state);
    assert_eq!(b.state.pos.y, -1);
    assert!(matches!(cmds[..], [UpdateCommand::RemoveBullet(3)]));
}

#[test]
fn bullet_in_field_is_kept() {
    let mut b = Bullet::new(5, 10, Direction::Left, Color::Red, 1);
    let cmds = b.ai.update(&mut b.state);
    assert_eq!(b.state.pos, Point::new(5, 9));
    assert!(cmds.is_empty());
}

#[test]
fn bullet_moves_every_speed_ticks() {
    let mut b = Bullet::new(5, 10, Direction::Up, Color::Red, 3);
    b.ai.update(&mut b.state);
    b.ai.update(&mut b.state);
    assert_eq!(b.state.pos.y, 10);
    b.ai.update(&mut b.state);
    assert_eq!(b.state.pos.y, 11);
    assert_eq!(b.ai.tick, 0);
}

#[test]
fn bullet_removal_happens_once_on_board() {
    let mut board = empty_board(1);
    board.level.add_sprite(Sprite::Invander(Invander::new_tank(0, 28, &(0, 5))), SpriteCategory::Alien);
    board.level.add_sprite(player_bullet(80, SCREEN_HEIGHT as i16), SpriteCategory::PlayerBullet);
    board.update();
    assert!(board.level.player_bullets.is_empty());
    board.update();
    assert!(board.level.player_bullets.is_empty());
}

#[test]
fn player_pinned_at_left_edge() {
    let mut p = Player::new(1, 1);
    p.ai.do_move = Direction::Left;
    p.ai.update(&mut p.state);
    assert_eq!(p.state.pos.x, 1);
    assert_eq!(p.ai.do_move, Direction::Still);
}

#[test]
fn player_pinned_at_right_edge() {
    let right = SCREEN_WIDTH as i16 - 2;
    let mut p = Player::new(right - 1, 1);
    p.ai.do_move = Direction::Right;
    p.ai.update(&mut p.state);
    assert_eq!(p.state.pos.x, right);
    assert_eq!(p.ai.do_move, Direction::Right);
    p.ai.update(&mut p.state);
    assert_eq!(p.state.pos.x, right);
    assert_eq!(p.ai.do_move, Direction::Still);
}

#[test]
fn player_holds_to_move() {
    let mut p = Player::new(10, 1);
    p.ai.do_move = Direction::Left;
    for _ in 0..3 {
        p.ai.update(&mut p.state);
    }
    assert_eq!(p.state.pos.x, 7);
    for _ in 0..20 {
        p.ai.update(&mut p.state);
        assert!(p.state.pos.x >= 1);
    }
    assert_eq!(p.state.pos.x, 1);
}

#[test]
fn player_fire_cooldown_is_fifteen_ticks() {
    let mut p = Player::new(10, 1);
    let mut shots = Vec::new();
    for t in 0..100 {
        p.ai.do_fire = true;
        let cmds = p.ai.update(&mut p.state);
        if !cmds.is_empty() {
            assert!(matches!(cmds[0], UpdateCommand::SpawnPlayerBullet(_)));
            shots.push(t);
        }
    }
    assert_eq!(shots[0], 15);
    for w in shots.windows(2) {
        assert_eq!(w[1] - w[0], 15);
    }
}

#[test]
fn player_ai_starts_ready_to_count_down() {
    let ai = PlayerAi::new();
    assert_eq!(ai.ticks_to_fire, 15);
    assert!(!ai.do_fire);
    assert_eq!(ai.do_move, Direction::Still);
    let b = BulletAi::new(4);
    assert_eq!((b.speed, b.tick), (4, 0));
}

#[test]
fn invander_turns_only_past_bound() {
    let mut e = Invander::new_tank(6, 10, &(5, 7));
    e.ai = InvanderAi::with_reload(&(5, 7), 1, 0, 1, 0);
    e.ai.step(&mut e.state, 0);
    assert_eq!(e.state.pos.x, 5);
    assert_eq!(e.ai.move_dir, Direction::Left);
    e.ai.step(&mut e.state, 0);
    assert_eq!(e.state.pos.x, 4);
    assert_eq!(e.ai.move_dir, Direction::Right);
    for _ in 0..3 {
        e.ai.step(&mut e.state, 0);
        assert_eq!(e.ai.move_dir, Direction::Right);
    }
    assert_eq!(e.state.pos.x, 7);
    e.ai.step(&mut e.state, 0);
    assert_eq!(e.state.pos.x, 8);
    assert_eq!(e.ai.move_dir, Direction::Left);
}

#[test]
fn invander_moves_every_move_speed_ticks() {
    let mut e = Invander::new_tank(20, 10, &(0, 40));
    for _ in 0..3 {
        e.ai.update(&mut e.state);
    }
    assert_eq!(e.state.pos.x, 20);
    e.ai.update(&mut e.state);
    assert_eq!(e.state.pos.x, 19);
    assert_eq!(e.ai.ticks_to_move, 4);
}

#[test]
fn invander_fires_when_reload_runs_out() {
    let mut e = Invander::new_fighter(20, 10, &(0, 40));
    e.ai = InvanderAi::with_reload(&(0, 40), 10, 1000, 8, 2);
    assert!(e.ai.step(&mut e.state, 50).is_empty());
    let cmds = e.ai.step(&mut e.state, 50);
    assert_eq!(cmds.len(), 1);
    match &cmds[0] {
        UpdateCommand::SpawnBullet(b) => {
            assert_eq!(b.state.pos, Point::new(23, 7));
            assert_eq!(b.state.direction, Direction::Down);
            assert_eq!(b.ai.speed, 8);
        }
        _ => panic!("expected a bullet"),
    }
    assert_eq!(e.ai.ticks_to_spawn_bullet, 50);
}

#[test]
fn silent_invander_never_fires() {
    let mut e = Invander::new_tank(20, 10, &(0, 40));
    for _ in 0..50 {
        assert!(e.ai.update(&mut e.state).is_empty());
    }
}

#[test]
fn draw_reload_stays_below_scale() {
    for _ in 0..200 {
        assert!(draw_reload(5) < 5);
        assert!(draw_reload(1) == 0);
    }
    assert_eq!(draw_reload(0), 0);
    let ai = InvanderAi::new(&(0, 5), 3, 80, 2);
    assert!(ai.ticks_to_spawn_bullet < 80);
    assert_eq!(ai.ticks_to_move, 3);
}

#[test]
fn collision_tie_break_damages_first_only() {
    let mut board = empty_board(2);
    board.level.add_sprite(Sprite::Invander(Invander::new_tank(40, 20, &(40, 45))), SpriteCategory::Alien);
    board.level.add_sprite(Sprite::Invander(Invander::new_tank(41, 20, &(41, 46))), SpriteCategory::Alien);
    board.level.add_sprite(player_bullet(42, 20), SpriteCategory::PlayerBullet);
    let cmds = board.collide_player_bullets();
    assert_eq!(alien_hp(&board, 0), 1);
    assert_eq!(alien_hp(&board, 1), 2);
    assert_eq!(cmds.len(), 1);
    assert!(matches!(cmds[0], UpdateCommand::RemoveBullet(3)));
}

#[test]
fn last_hit_removes_alien() {
    let mut board = empty_board(1);
    board.level.add_sprite(Sprite::Invander(Invander::new_fighter(40, 20, &(40, 45))), SpriteCategory::Alien);
    board.level.add_sprite(player_bullet(41, 20), SpriteCategory::PlayerBullet);
    let cmds = board.collide_player_bullets();
    assert_eq!(cmds.len(), 2);
    assert!(matches!(cmds[0], UpdateCommand::RemoveBullet(2)));
    assert!(matches!(cmds[1], UpdateCommand::RemoveInvander(1)));
    board.execute_update_commands(cmds);
    assert!(board.level.is_finished());
}

#[test]
fn remove_commands_are_idempotent() {
    let mut board = empty_board(1);
    board.level.add_sprite(player_bullet(1, 1), SpriteCategory::PlayerBullet);
    board.execute_update_commands(vec![UpdateCommand::RemoveBullet(1), UpdateCommand::RemoveBullet(1)]);
    assert!(board.level.player_bullets.is_empty());
    board.execute_update_commands(vec![UpdateCommand::RemoveInvander(9), UpdateCommand::RemoveBullet(9)]);
    assert!(board.level.aliens.is_empty());
}

#[test]
fn spawn_commands_get_fresh_ids() {
    let mut board = empty_board(1);
    board.execute_update_commands(vec![
        UpdateCommand::SpawnBullet(Bullet::new(1, 1, Direction::Down, Color::Red, 1)),
        UpdateCommand::SpawnPlayerBullet(Bullet::new(2, 2, Direction::Up, Color::Blue, 1)),
        UpdateCommand::SpawnBullet(Bullet::new(3, 3, Direction::Down, Color::Red, 1)),
    ]);
    assert_eq!(board.level.bullets.len(), 2);
    assert_eq!(board.level.player_bullets.len(), 1);
    assert_eq!(board.level.bullets[0].id(), 1);
    assert_eq!(board.level.player_bullets[0].id(), 2);
    assert_eq!(board.level.bullets[1].id(), 3);
    assert_eq!(board.level.entity_id_counter, 3);
}

#[test]
fn add_sprite_stops_when_ids_run_out() {
    let mut level = Level::new(1);
    level.entity_id_counter = u32::MAX;
    level.add_sprite(player_bullet(1, 1), SpriteCategory::PlayerBullet);
    assert!(level.player_bullets.is_empty());
    assert_eq!(level.entity_id_counter, u32::MAX);
}

#[test]
fn remove_by_id_keeps_order() {
    let mut level = Level::new(1);
    for x in 0..4 {
        level.add_sprite(player_bullet(x, 1), SpriteCategory::PlayerBullet);
    }
    remove_by_id(&mut level.player_bullets, 2);
    let ids: Vec<u32> = level.player_bullets.iter().map(|s| s.id()).collect();
    assert_eq!(ids, vec![1, 3, 4]);
}

#[test]
fn alien_bullet_on_player_ends_game() {
    let mut board = empty_board(1);
    board.level.add_sprite(Sprite::Invander(Invander::new_tank(0, 28, &(0, 5))), SpriteCategory::Alien);
    let p = board.player.state.pos;
    board.level.add_sprite(
        Sprite::Bullet(Bullet::new(p.x + 1, p.y, Direction::Down, Color::Red, 100)),
        SpriteCategory::AlienBullet,
    );
    board.update();
    assert!(board.game_over);
    let before = board.level.bullets[0].state().pos;
    board.update();
    assert_eq!(board.level.bullets[0].state().pos, before);
}

#[test]
fn board_starts_on_wave_one() {
    let board = Board::new();
    assert_eq!(board.level.number, 1);
    assert_eq!(board.level.aliens.len(), 27);
    assert_eq!(board.player.state.pos, Point::new(47, 1));
    assert!(!board.game_over);
}

#[test]
fn waves_one_and_two_formation() {
    let one = Level::one();
    assert_eq!(one.aliens.len(), 27);
    match &one.aliens[10] {
        Sprite::Invander(e) => {
            assert_eq!(e.kind, InvanderKind::Fighter);
            assert_eq!(e.state.pos, Point::new(12, 23));
            assert_eq!(e.ai.x_range, (12, 17));
            assert_eq!(e.state.id, 11);
        }
        _ => panic!("expected an invader"),
    }
    let two = Level::two();
    for (k, a) in two.aliens.iter().enumerate() {
        match a {
            Sprite::Invander(e) => {
                let tank = k >= 18;
                assert_eq!(e.kind == InvanderKind::Tank, tank);
                assert_eq!(e.state.hp, if tank { 2 } else { 1 });
            }
            _ => panic!("expected an invader"),
        }
    }
    let four = Level::four();
    assert_eq!(four.aliens.len(), 1);
    assert!(matches!(four.aliens[0], Sprite::Boss(_)));
}

#[test]
fn next_level_walks_waves_and_wraps() {
    let mut board = empty_board(1);
    board.next_level();
    assert_eq!(board.level.number, 2);
    board.level.aliens.clear();
    board.next_level();
    assert_eq!(board.level.number, 3);
    board.level.aliens.clear();
    board.next_level();
    assert_eq!(board.level.number, 4);
    board.level.aliens.clear();
    board.next_level();
    assert_eq!(board.level.number, 1);
    assert_eq!(board.level.aliens.len(), 27);
}

#[test]
fn next_level_after_game_over_restarts() {
    let mut board = Board::new();
    board.level = Level::three();
    board.next_level();
    assert_eq!(board.level.number, 3);
    board.game_over = true;
    board.next_level();
    assert_eq!(board.level.number, 1);
    assert!(!board.game_over);
}

#[test]
fn board_inputs_set_intent() {
    let mut board = Board::new();
    board.move_player(Direction::Left);
    board.player_fire();
    assert_eq!(board.player.ai.do_move, Direction::Left);
    assert!(board.player.ai.do_fire);
}

#[test]
fn hp_changes_clamp_at_zero() {
    assert_eq!(change_hp(1, -1), 0);
    assert_eq!(change_hp(0, -1), 0);
    assert_eq!(change_hp(2, -5), 0);
    assert_eq!(change_hp(65535, 1), 65535);
    let mut s = Sprite::Invander(Invander::new_tank(0, 0, &(0, 1)));
    s.modify_hp(-3);
    assert_eq!(s.state().hp, 0);
    let mut b = player_bullet(0, 0);
    b.modify_hp(-1);
    assert_eq!(b.state().hp, 1);
}

#[test]
fn points_add_and_clamp() {
    let a = Point::new(3, -4);
    assert_eq!(a.plus(Point::new(2, 2)), Point::new(5, -2));
    assert_eq!(a.minus(Point::new(2, 2)), Point::new(1, -6));
    assert_eq!(Point::new(i16::MAX, 0).plus(Point::new(1, 0)), Point::new(i16::MAX, 0));
    let mut b = a;
    b.add_assign(Point::new(-3, 4));
    assert_eq!(b, Point::new(0, 0));
    assert_eq!(clamp_to_coord(100_000), i16::MAX);
    assert_eq!(clamp_to_coord(-100_000), i16::MIN);
}

#[test]
fn sprite_ids_and_collides() {
    let mut s = Sprite::Player(Player::new(5, 5));
    s.set_id(9);
    assert_eq!(s.id(), 9);
    assert!(s.collides(&Point::new(6, 5)));
    assert!(!s.collides(&Point::new(5, 5)));
}

#[test]
fn clearing_the_wave_wins_even_when_hit() {
    let mut board = empty_board(1);
    board.level.add_sprite(Sprite::Invander(Invander::new_fighter(40, 20, &(40, 45))), SpriteCategory::Alien);
    board.level.add_sprite(player_bullet(41, 19), SpriteCategory::PlayerBullet);
    let p = board.player.state.pos;
    board.level.add_sprite(
        Sprite::Bullet(Bullet::new(p.x + 1, p.y, Direction::Down, Color::Red, 100)),
        SpriteCategory::AlienBullet,
    );
    board.update();
    assert!(board.level.is_finished());
    assert!(!board.game_over);
}

#[test]
fn shapes_match_their_kind() {
    let a = Invander::new_assasin(0, 0, &(0, 5));
    assert_eq!(a.state.cells.len(), 3);
    assert!(a.state.cells.iter().all(|row| row.len() == 9));
    assert_eq!(a.state.cells[1][4].symbol, '&');
    let t = Invander::new_tank(0, 0, &(0, 5));
    assert_eq!((t.ai.move_speed, t.ai.fire_rate, t.ai.bullet_speed), (4, 0, 1));
    let f = Invander::new_fighter(0, 0, &(0, 5));
    assert_eq!((f.ai.move_speed, f.ai.fire_rate, f.ai.bullet_speed), (10, 1000, 8));
    let b = Boss::new_boss(0, 0, &(0, 5), &(0, 5));
    assert_eq!(b.ai.bullet_count, 10);
}
