use stm32wba_tftdisplay::doom::controls::Controls;
use stm32wba_tftdisplay::doom::game::{Aim, FireballAt, Game, FIREBALLS, IMP, SPRITES};
use stm32wba_tftdisplay::doom::level::{
    next_waypoint, try_move, try_move_on_map, Moved, MAP, MAP_SIZE,
};

const NONE: Controls = Controls {
    turn_right: false,
    turn_left: false,
    forward: false,
    backward: false,
    shoot: false,
};
const SHOOT: Controls = Controls { shoot: true, ..NONE };
const AWAY: [FireballAt; FIREBALLS] = [FireballAt::Cell { x: 1, y: 1 }; FIREBALLS];
const NOWHERE: [bool; SPRITES] = [false; SPRITES];
const UNSEEN: [Option<Aim>; SPRITES] = [None; SPRITES];

fn aim(screen_x: i32, width: i32) -> [Option<Aim>; SPRITES] {
    [Some(Aim { screen_x, width }); SPRITES]
}

#[test]
fn game_starts() {
    let game = Game::new();
    assert_eq!((game.ammo, game.health), (50, 80));
    let kinds: Vec<u8> = game.sprites.iter().map(|s| s.kind).collect();
    assert_eq!(kinds, vec![1, 2, 3, 3, 3, 1, 2, 4, 4]);
    let waits: Vec<u8> = game.sprites.iter().map(|s| s.cooldown).collect();
    assert_eq!(waits, vec![0, 0, 20, 30, 40, 0, 0, 0, 0]);
    assert!(game.sprites.iter().all(|s| s.active && s.hit_flash == 0));
    assert!(game.fireballs.iter().all(|f| !f));
    assert!(!game.is_manual());
}

#[test]
fn two_hits_defeat_an_imp() {
    let mut game = Game::new();
    game.act(&SHOOT, &aim(120, 10));
    assert_eq!(game.ammo, 49);
    for s in game.sprites {
        assert!(s.active);
        assert_eq!(s.hp, 1);
        assert_eq!(s.hit_flash, if s.kind == IMP { 5 } else { 0 });
    }
    for _ in 0..4 {
        game.act(&SHOOT, &aim(120, 10));
    }
    game.act(&SHOOT, &aim(120, 10));
    assert_eq!(game.ammo, 48);
    for s in game.sprites {
        assert_eq!(s.active, s.kind != IMP);
    }
}

#[test]
fn shot_hits_near_the_crosshair() {
    for (x, width, hit) in [
        (120, 0, true),
        (131, 0, true),
        (132, 0, false),
        (109, 0, true),
        (108, 0, false),
        (136, 10, true),
        (137, 11, false),
    ] {
        let mut game = Game::new();
        game.fire(true, &aim(x, width));
        assert_eq!(game.sprites[2].hp, if hit { 1 } else { 2 });
    }
    let mut game = Game::new();
    game.fire(true, &UNSEEN);
    assert_eq!(game.sprites[2].hp, 2);
}

#[test]
fn held_trigger_fires_once_in_five_frames() {
    let mut game = Game::new();
    let mut shots = Vec::new();
    for frame in 0..11 {
        let before = game.ammo;
        game.act(&SHOOT, &UNSEEN);
        if game.ammo < before {
            shots.push(frame);
        }
    }
    assert_eq!(shots, vec![0, 5, 10]);
    assert_eq!(game.ammo, 47);
}

#[test]
fn empty_weapon_does_not_fire() {
    let mut game = Game::new();
    game.ammo = 0;
    game.act(&SHOOT, &aim(120, 10));
    assert_eq!((game.ammo, game.muzzle_flash, game.sprites[2].hp), (0, 0, 2));
}

#[test]
fn player_keeps_control_for_300_frames() {
    let mut game = Game::new();
    game.act(&Controls { forward: true, ..NONE }, &UNSEEN);
    for _ in 0..299 {
        game.act(&NONE, &UNSEEN);
        assert!(game.is_manual());
    }
    game.act(&NONE, &UNSEEN);
    assert!(!game.is_manual());
    game.act(&NONE, &UNSEEN);
    assert_eq!(game.manual_timer, 0);
}

#[test]
fn imp_waits_and_throws() {
    let mut game = Game::new();
    let mut in_sight = NOWHERE;
    in_sight[2] = true;
    for _ in 0..20 {
        let turn = game.enemy_turn(&NONE, &AWAY, &in_sight);
        assert!(turn.thrown.iter().all(|t| t.is_none()));
    }
    let turn = game.enemy_turn(&NONE, &AWAY, &in_sight);
    assert_eq!(turn.thrown[2], Some(0));
    assert_eq!(game.fireballs, [true, false, false, false]);
    assert_eq!(game.sprites[2].cooldown, 35);
    assert_eq!(game.sprites[3].cooldown, 30);
}

#[test]
fn imps_throw_different_fireballs_while_there_are_any() {
    let mut game = Game::new();
    for s in game.sprites.iter_mut() {
        s.cooldown = 0;
    }
    let turn = game.enemy_turn(&NONE, &AWAY, &[true; SPRITES]);
    assert_eq!(turn.thrown[2..5], [Some(0), Some(1), Some(2)]);
    assert_eq!(game.fireballs, [true, true, true, false]);
    for s in game.sprites.iter_mut() {
        s.cooldown = 0;
    }
    let turn = game.enemy_turn(&NONE, &AWAY, &[true; SPRITES]);
    assert_eq!(turn.thrown[2..5], [Some(3), None, None]);
    assert!(game.sprites[2..5].iter().all(|s| s.cooldown == 35));
}

#[test]
fn fireballs_strike() {
    let mut game = Game::new();
    game.fireballs = [true, true, true, true];
    let at = [
        FireballAt::Player,
        FireballAt::Outside,
        FireballAt::Cell { x: 10, y: 1 },
        FireballAt::Cell { x: 9, y: 1 },
    ];
    let turn = game.enemy_turn(&NONE, &at, &NOWHERE);
    assert!(!turn.dead && !turn.respawned);
    assert_eq!((game.health, game.damage_flash), (62, 8));
    assert_eq!(game.fireballs, [false, false, false, true]);
}

#[test]
fn health_does_not_fall_below_zero() {
    let mut game = Game::new();
    game.health = 17;
    game.fireballs = [true, true, false, false];
    game.enemy_turn(&NONE, &[FireballAt::Player; FIREBALLS], &NOWHERE);
    assert_eq!(game.health, 0);
}

#[test]
fn dead_player_starts_anew_when_asking_for_anything() {
    let mut game = Game::new();
    game.health = 0;
    game.ammo = 3;
    game.sprites[2].active = false;
    game.fireballs = [true; FIREBALLS];
    let turn = game.enemy_turn(&NONE, &AWAY, &[true; SPRITES]);
    assert!(turn.dead && !turn.respawned);
    assert_eq!((game.health, game.sprites[3].cooldown), (0, 30));
    let turn = game.enemy_turn(&SHOOT, &AWAY, &NOWHERE);
    assert!(turn.dead && turn.respawned);
    assert_eq!((game.health, game.ammo), (100, 50));
    assert!(game.sprites.iter().all(|s| s.active));
    assert!(game.fireballs.iter().all(|f| !f));
}

#[test]
fn pickups_help_up_to_the_limit() {
    let mut in_reach = NOWHERE;
    in_reach[1] = true;
    in_reach[7] = true;
    let mut game = Game::new();
    game.item_turn(&in_reach);
    assert_eq!((game.health, game.ammo, game.pickup_flash), (100, 70, 5));
    assert!(!game.sprites[1].active && !game.sprites[7].active);
    // Taken ones are gone.
    game.health = 10;
    game.item_turn(&in_reach);
    assert_eq!((game.health, game.ammo), (10, 70));
    let mut low = Game::new();
    low.health = 10;
    low.ammo = 990;
    low.item_turn(&in_reach);
    assert_eq!((low.health, low.ammo), (35, 999));
    let mut full = Game::new();
    full.health = 100;
    full.ammo = 999;
    full.item_turn(&in_reach);
    assert!(full.sprites[1].active && full.sprites[7].active);
    assert_eq!(full.pickup_flash, 0);
}

#[test]
fn cleared_level_comes_back() {
    let mut game = Game::new();
    for i in 2..5 {
        game.sprites[i].active = false;
        game.sprites[i].hp = 0;
    }
    for n in 1..=500 {
        game.item_turn(&NOWHERE);
        assert_eq!(game.respawn_timer, n);
        assert!(!game.sprites[2].active);
    }
    game.item_turn(&NOWHERE);
    assert_eq!(game.respawn_timer, 0);
    for i in 2..5 {
        let s = game.sprites[i];
        assert!(s.active);
        assert_eq!((s.hp, s.cooldown), (2, 40));
    }
    game.item_turn(&NOWHERE);
    assert_eq!(game.respawn_timer, 0);
}

#[test]
fn flashes_fade() {
    let mut game = Game::new();
    game.damage_flash = 2;
    game.sprites[2].hit_flash = 2;
    game.enemy_turn(&NONE, &AWAY, &NOWHERE);
    game.item_turn(&NOWHERE);
    assert_eq!((game.damage_flash, game.sprites[2].hit_flash), (1, 1));
    game.enemy_turn(&NONE, &AWAY, &NOWHERE);
    game.item_turn(&NOWHERE);
    game.enemy_turn(&NONE, &AWAY, &NOWHERE);
    game.item_turn(&NOWHERE);
    assert_eq!((game.damage_flash, game.sprites[2].hit_flash), (0, 0));
}

#[test]
fn moves_stop_at_walls() {
    assert_eq!(try_move(2, 2, 3, 3, &MAP, MAP_SIZE), Moved { x: true, y: true });
    // A wall above, and none to the right.
    assert_eq!(try_move(2, 1, 3, 0, &MAP, MAP_SIZE), Moved { x: true, y: false });
    // A wall to the left, and none below.
    assert_eq!(try_move(1, 2, 0, 3, &MAP, MAP_SIZE), Moved { x: false, y: true });
    assert_eq!(try_move(1, 1, 0, 0, &MAP, MAP_SIZE), Moved { x: false, y: false });
    // The step along x is taken in the row that was reached.
    assert_eq!(try_move(5, 1, 6, 2, &MAP, MAP_SIZE), Moved { x: false, y: true });
}

#[test]
fn level_is_walled_in() {
    assert_eq!(MAP.len(), MAP_SIZE * MAP_SIZE);
    for i in 0..16 {
        assert!(MAP[i] > 0 && MAP[15 * 16 + i] > 0 && MAP[i * 16] > 0 && MAP[i * 16 + 15] > 0);
    }
}

#[test]
fn patrol_goes_round() {
    let mut at = 0;
    let mut seen = Vec::new();
    for _ in 0..9 {
        seen.push(at);
        at = next_waypoint(at);
    }
    assert_eq!(seen, vec![0, 1, 2, 3, 4, 5, 6, 7, 0]);
}

#[test]
fn imp_throws_every_36_turns() {
    let mut game = Game::new();
    game.sprites[2].cooldown = 0;
    let mut in_sight = NOWHERE;
    in_sight[2] = true;
    let mut thrown = Vec::new();
    for turn in 0..80 {
        let came = game.enemy_turn(&NONE, &[FireballAt::Outside; FIREBALLS], &in_sight);
        if came.thrown[2].is_some() {
            thrown.push(turn);
        }
        // A turn out of sight does not shorten the wait.
        let wait = game.sprites[2].cooldown;
        game.enemy_turn(&NONE, &[FireballAt::Outside; FIREBALLS], &NOWHERE);
        assert_eq!(game.sprites[2].cooldown, wait);
    }
    assert_eq!(thrown, vec![0, 36, 72]);
}

#[test]
fn moves_beyond_the_map_are_told() {
    let on_map = try_move_on_map(2, 2, 3, 3, &MAP, MAP_SIZE);
    assert_eq!(on_map, Some(try_move(2, 2, 3, 3, &MAP, MAP_SIZE)));
    assert_eq!(try_move_on_map(2, 2, 2, 16, &MAP, MAP_SIZE), None);
    assert_eq!(try_move_on_map(2, 2, 250, 2, &MAP, MAP_SIZE), None);
    assert_eq!(try_move_on_map(2, 2, usize::MAX, usize::MAX, &MAP, MAP_SIZE), None);
}
