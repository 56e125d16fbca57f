//! The rules of the game: shots, fireballs, enemies, pickups and respawning.

use vstd::prelude::*;

use crate::doom::controls::Controls;
use crate::doom::level::MAP;

verus! {

/// Things in the level.
pub const SPRITES: usize = 9;

/// Fireballs in flight at most.
pub const FIREBALLS: usize = 4;

/// Kind of a health pack.
pub const HEALTH_PACK: u8 = 2;

/// Kind of an imp, the enemy.
pub const IMP: u8 = 3;

/// Kind of an ammo crate.
pub const AMMO_CRATE: u8 = 4;

/// A barrel, a health pack, an imp or an ammo crate. Where it stands is fixed.
#[derive(Clone, Copy, Debug, PartialEq, Eq, Structural)]
pub struct Sprite {
    pub kind: u8,
    pub active: bool,
    pub hp: i8,
    pub cooldown: u8,
    pub hit_flash: u8,
}

/// Where a sprite in front of the player appears on the screen.
#[derive(Clone, Copy, Debug, PartialEq, Eq, Structural)]
pub struct Aim {
    pub screen_x: i32,
    pub width: i32,
}

/// Where a fireball has got to.
#[derive(Clone, Copy, Debug, PartialEq, Eq, Structural)]
pub enum FireballAt {
    /// At the player.
    Player,
    /// Beyond the level's edge.
    Outside,
    /// In this cell.
    Cell { x: usize, y: usize },
}

/// What came of the enemies' turn.
#[derive(Clone, Copy)]
pub struct EnemyTurn {
    /// The player was dead when the turn began.
    pub dead: bool,
    /// The player starts anew.
    pub respawned: bool,
    /// The fireball that each sprite has thrown.
    pub thrown: [Option<usize>; SPRITES],
}

/// The state of the game.
#[verifier::ext_equal]
pub struct GameState {
    pub ammo: u16,
    pub health: u16,
    pub muzzle_flash: u8,
    pub pickup_flash: u8,
    pub damage_flash: u8,
    pub manual_timer: u32,
    pub respawn_timer: u16,
    pub sprites: Seq<Sprite>,
    pub fireballs: Seq<bool>,
}

/// A sprite as it stands at the start.
pub open spec fn fresh(kind: u8, hp: i8, cooldown: u8) -> Sprite {
    Sprite { kind, active: true, hp, cooldown, hit_flash: 0 }
}

/// The sprites at the start.
pub open spec fn first_sprites() -> Seq<Sprite> {
    seq![
        fresh(1, 1, 0),
        fresh(HEALTH_PACK, 1, 0),
        fresh(IMP, 2, 20),
        fresh(IMP, 2, 30),
        fresh(IMP, 2, 40),
        fresh(1, 1, 0),
        fresh(HEALTH_PACK, 1, 0),
        fresh(AMMO_CRATE, 1, 0),
        fresh(AMMO_CRATE, 1, 0),
    ]
}

/// The shot hits a sprite that appears there: it is wide enough to reach the
/// crosshair, with twelve pixels to spare.
pub open spec fn hits(aim: Option<Aim>) -> bool {
    match aim {
        Some(a) => {
            let off = if a.screen_x <= 120 {
                120 - a.screen_x
            } else {
                a.screen_x - 120
            };
            off < a.width / 2 + 12
        },
        None => false,
    }
}

/// The numbers can be worked with.
pub open spec fn aims_fit(aims: Seq<Option<Aim>>) -> bool {
    forall|i: int|
        0 <= i < aims.len() ==> (#[trigger] aims[i] matches Some(a) ==> a.width >= 0 && 120
            - a.screen_x <= i32::MAX)
}

impl Sprite {
    /// After a shot: an imp in the line of fire loses a point, flashes, and is
    /// gone with its last.
    pub open spec fn shot(self, aim: Option<Aim>) -> Sprite {
        if self.active && self.kind == IMP && hits(aim) {
            Sprite {
                hp: (self.hp - 1) as i8,
                hit_flash: 5,
                active: self.hp - 1 > 0,
                ..self
            }
        } else {
            self
        }
    }

    /// A step of an imp that sees the player and a living player: it waits, and
    /// then throws a fireball.
    pub open spec fn attacks(self, dead: bool, in_sight: bool) -> bool {
        self.active && self.kind == IMP && !dead && in_sight
    }

    /// After the enemies' turn.
    pub open spec fn after_turn(self, dead: bool, in_sight: bool) -> Sprite {
        Sprite {
            hit_flash: if self.hit_flash > 0 {
                (self.hit_flash - 1) as u8
            } else {
                0
            },
            cooldown: if !self.attacks(dead, in_sight) {
                self.cooldown
            } else if self.cooldown > 0 {
                (self.cooldown - 1) as u8
            } else {
                35
            },
            ..self
        }
    }

    /// The imp throws a fireball in this turn, if there is one left to throw.
    pub open spec fn throws(self, dead: bool, in_sight: bool) -> bool {
        self.attacks(dead, in_sight) && self.cooldown == 0
    }

    /// Brought back: an imp with its points and a wait before its first fireball.
    pub open spec fn revived(self) -> Sprite {
        if self.kind == IMP {
            Sprite { active: true, hp: 2, cooldown: 40, ..self }
        } else {
            Sprite { active: true, ..self }
        }
    }

    /// Something to pick up.
    pub open spec fn is_pickup(self) -> bool {
        self.kind == HEALTH_PACK || self.kind == AMMO_CRATE
    }
}

/// The first fireball that is not in flight, `None` where all are.
pub open spec fn free_slot(fireballs: Seq<bool>, from: int) -> Option<usize>
    decreases fireballs.len() - from,
{
    if from < 0 || from >= fireballs.len() {
        None
    } else if !fireballs[from] {
        Some(from as usize)
    } else {
        free_slot(fireballs, from + 1)
    }
}

/// What the fireballs have done once the first `n` were looked at.
pub open spec fn impacts(state: GameState, at: Seq<FireballAt>, n: nat) -> GameState
    decreases n,
{
    if n == 0 {
        state
    } else {
        let s = impacts(state, at, (n - 1) as nat);
        if !s.fireballs[n - 1] {
            s
        } else {
            match at[n - 1] {
                FireballAt::Player => GameState {
                    health: if s.health < 18 {
                        0
                    } else {
                        (s.health - 18) as u16
                    },
                    damage_flash: 8,
                    fireballs: s.fireballs.update(n - 1, false),
                    ..s
                },
                FireballAt::Outside => GameState {
                    fireballs: s.fireballs.update(n - 1, false),
                    ..s
                },
                FireballAt::Cell { x, y } => if MAP@[y * 16 + x] > 0 {
                    GameState { fireballs: s.fireballs.update(n - 1, false), ..s }
                } else {
                    s
                },
            }
        }
    }
}

/// The cells of the fireballs are cells of the map.
pub open spec fn cells_fit(at: Seq<FireballAt>) -> bool {
    forall|i: int|
        0 <= i < at.len() ==> (#[trigger] at[i] matches FireballAt::Cell { x, y } ==> y * 16 + x
            < 256)
}

/// The state and the fireballs thrown so far, by the imps that throw them, once
/// the first `n` sprites have had their turn.
pub open spec fn attacked(
    state: GameState,
    dead: bool,
    in_sight: Seq<bool>,
    n: nat,
) -> (GameState, Seq<Option<usize>>)
    decreases n,
{
    if n == 0 {
        (state, Seq::empty())
    } else {
        let (s, thrown) = attacked(state, dead, in_sight, (n - 1) as nat);
        let sprite = s.sprites[n - 1];
        let slot = if sprite.throws(dead, in_sight[n - 1]) {
            free_slot(s.fireballs, 0)
        } else {
            None
        };
        (
            GameState {
                sprites: s.sprites.update(n - 1, sprite.after_turn(dead, in_sight[n - 1])),
                fireballs: match slot {
                    Some(k) => s.fireballs.update(k as int, true),
                    None => s.fireballs,
                },
                ..s
            },
            thrown.push(slot),
        )
    }
}

/// The state once the player has walked over the first `n` sprites that are in
/// reach. A health pack is taken below full health, an ammo crate below full
/// ammo.
pub open spec fn collected(state: GameState, in_reach: Seq<bool>, n: nat) -> GameState
    decreases n,
{
    if n == 0 {
        state
    } else {
        let s = collected(state, in_reach, (n - 1) as nat);
        let sprite = s.sprites[n - 1];
        if !(sprite.active && in_reach[n - 1]) {
            s
        } else if sprite.kind == HEALTH_PACK && s.health < 100 {
            GameState {
                health: if s.health + 25 < 100 {
                    (s.health + 25) as u16
                } else {
                    100
                },
                pickup_flash: 6,
                sprites: s.sprites.update(n - 1, Sprite { active: false, ..sprite }),
                ..s
            }
        } else if sprite.kind == AMMO_CRATE && s.ammo < 999 {
            GameState {
                ammo: if s.ammo + 20 < 999 {
                    (s.ammo + 20) as u16
                } else {
                    999
                },
                pickup_flash: 6,
                sprites: s.sprites.update(n - 1, Sprite { active: false, ..sprite }),
                ..s
            }
        } else {
            s
        }
    }
}

/// A counter a frame later.
pub open spec fn down(counter: u8) -> u8 {
    if counter > 0 {
        (counter - 1) as u8
    } else {
        0
    }
}

impl GameState {
    /// The game's bounds: health up to 100, ammo up to 999, every timer within its
    /// range, each sprite of its kind, and an imp that is there with one or two
    /// points left.
    pub open spec fn wf(self) -> bool {
        &&& self.ammo <= 999
        &&& self.health <= 100
        &&& self.muzzle_flash <= 4
        &&& self.pickup_flash <= 6
        &&& self.damage_flash <= 8
        &&& self.manual_timer <= 300
        &&& self.respawn_timer <= 500
        &&& self.sprites.len() == SPRITES
        &&& self.fireballs.len() == FIREBALLS
        &&& forall|i: int| 0 <= i < SPRITES ==> sprite_fits(#[trigger] self.sprites[i], i)
    }

    /// The start of the game.
    pub open spec fn start() -> GameState {
        GameState {
            ammo: 50,
            health: 80,
            muzzle_flash: 0,
            pickup_flash: 0,
            damage_flash: 0,
            manual_timer: 0,
            respawn_timer: 0,
            sprites: first_sprites(),
            fireballs: seq![false, false, false, false],
        }
    }

    /// After the trigger: a shot where the weapon is ready and loaded.
    pub open spec fn fired(self, shoot: bool, aims: Seq<Option<Aim>>) -> GameState {
        if shoot && self.muzzle_flash == 0 {
            if self.ammo > 0 {
                GameState {
                    ammo: (self.ammo - 1) as u16,
                    muzzle_flash: 4,
                    sprites: Seq::new(
                        self.sprites.len(),
                        |i: int| self.sprites[i].shot(aims[i]),
                    ),
                    ..self
                }
            } else {
                self
            }
        } else {
            GameState { muzzle_flash: down(self.muzzle_flash), ..self }
        }
    }

    /// After the player's turn: the trigger, and the frames for which the player
    /// keeps control.
    pub open spec fn acted(self, controls: Controls, aims: Seq<Option<Aim>>) -> GameState {
        GameState {
            manual_timer: if controls.any() {
                300
            } else if self.manual_timer > 0 {
                (self.manual_timer - 1) as u32
            } else {
                0
            },
            ..self.fired(controls.shoot, aims)
        }
    }

    /// A dead player who asks for anything starts anew.
    pub open spec fn restarted(self) -> GameState {
        GameState {
            health: 100,
            ammo: 50,
            sprites: first_sprites(),
            fireballs: Seq::new(self.fireballs.len(), |i: int| false),
            ..self
        }
    }

    /// After the enemies' turn: the fireballs fly, the imps throw, and a dead
    /// player who asks for anything starts anew.
    pub open spec fn endured(
        self,
        controls: Controls,
        at: Seq<FireballAt>,
        in_sight: Seq<bool>,
    ) -> GameState {
        let dead = self.health == 0;
        let s = attacked(impacts(self, at, FIREBALLS as nat), dead, in_sight, SPRITES as nat).0;
        if dead && controls.any() {
            s.restarted()
        } else {
            s
        }
    }

    /// The fireballs thrown in the enemies' turn, by the imps that throw them.
    pub open spec fn thrown(self, at: Seq<FireballAt>, in_sight: Seq<bool>) -> Seq<Option<usize>> {
        attacked(
            impacts(self, at, FIREBALLS as nat),
            self.health == 0,
            in_sight,
            SPRITES as nat,
        ).1
    }

    /// An enemy is there.
    pub open spec fn has_enemy(self) -> bool {
        exists|i: int|
            0 <= i < self.sprites.len() && #[trigger] self.sprites[i].active && self.sprites[i].kind
                == IMP
    }

    /// Something to pick up is there.
    pub open spec fn has_pickup(self) -> bool {
        exists|i: int|
            0 <= i < self.sprites.len() && #[trigger] self.sprites[i].active
                && self.sprites[i].is_pickup()
    }

    /// The wait for everything to come back, where enemies or pickups are all
    /// gone.
    pub open spec fn respawn_step(self, cleared: bool) -> GameState {
        if !cleared {
            self
        } else if self.respawn_timer + 1 > 500 {
            GameState {
                respawn_timer: 0,
                sprites: Seq::new(self.sprites.len(), |i: int| self.sprites[i].revived()),
                ..self
            }
        } else {
            GameState { respawn_timer: (self.respawn_timer + 1) as u16, ..self }
        }
    }

    /// After the pickups: they are collected, what is cleared comes back after a
    /// while, and the flashes fade.
    pub open spec fn gathered(self, in_reach: Seq<bool>) -> GameState {
        let s = collected(self, in_reach, SPRITES as nat).respawn_step(
            !self.has_pickup() || !self.has_enemy(),
        );
        GameState {
            pickup_flash: down(s.pickup_flash),
            damage_flash: down(s.damage_flash),
            ..s
        }
    }
}

/// The sprite at place `i` is of its kind and within its bounds.
pub open spec fn sprite_fits(sprite: Sprite, i: int) -> bool {
    &&& sprite.kind == first_sprites()[i].kind
    &&& sprite.cooldown <= 40
    &&& sprite.hit_flash <= 5
    &&& sprite.kind == IMP ==> 0 <= sprite.hp <= 2
    &&& sprite.kind == IMP && sprite.active ==> sprite.hp >= 1
}

/// The game.
#[derive(Clone, Copy)]
pub struct Game {
    pub ammo: u16,
    pub health: u16,
    pub muzzle_flash: u8,
    pub pickup_flash: u8,
    pub damage_flash: u8,
    pub manual_timer: u32,
    pub respawn_timer: u16,
    pub sprites: [Sprite; SPRITES],
    pub fireballs: [bool; FIREBALLS],
}

impl View for Game {
    type V = GameState;

    open spec fn view(&self) -> GameState {
        GameState {
            ammo: self.ammo,
            health: self.health,
            muzzle_flash: self.muzzle_flash,
            pickup_flash: self.pickup_flash,
            damage_flash: self.damage_flash,
            manual_timer: self.manual_timer,
            respawn_timer: self.respawn_timer,
            sprites: self.sprites@,
            fireballs: self.fireballs@,
        }
    }
}

fn sprite(kind: u8, hp: i8, cooldown: u8) -> (s: Sprite)
    ensures
        s == fresh(kind, hp, cooldown),
{
    Sprite { kind, active: true, hp, cooldown, hit_flash: 0 }
}

/// The sprites at the start.
pub fn initial_sprites() -> (sprites: [Sprite; SPRITES])
    ensures
        sprites@ == first_sprites(),
{
    [
        sprite(1, 1, 0),
        sprite(HEALTH_PACK, 1, 0),
        sprite(IMP, 2, 20),
        sprite(IMP, 2, 30),
        sprite(IMP, 2, 40),
        sprite(1, 1, 0),
        sprite(HEALTH_PACK, 1, 0),
        sprite(AMMO_CRATE, 1, 0),
        sprite(AMMO_CRATE, 1, 0),
    ]
}

fn is_hit(aim: Option<Aim>) -> (yes: bool)
    requires
        aim matches Some(a) ==> a.width >= 0 && 120 - a.screen_x <= i32::MAX,
    ensures
        yes == hits(aim),
{
    match aim {
        Some(a) => {
            let off: i32 = 120 - a.screen_x;
            let distance: i32 = if off < 0 {
                -off
            } else {
                off
            };
            distance < a.width / 2 + 12
        },
        None => false,
    }
}

impl Game {
    /// A new game.
    pub fn new() -> (game: Self)
        ensures
            game@ == GameState::start(),
            game@.wf(),
    {
        let game = Game {
            ammo: 50,
            health: 80,
            muzzle_flash: 0,
            pickup_flash: 0,
            damage_flash: 0,
            manual_timer: 0,
            respawn_timer: 0,
            sprites: initial_sprites(),
            fireballs: [false; FIREBALLS],
        };
        assert(game.fireballs@ =~= seq![false, false, false, false]);
        game
    }

    /// Pulls the trigger, or lets the weapon cool down. `aims` says where each
    /// sprite appears, with nothing for one that is not in front of the player.
    pub fn fire(&mut self, shoot: bool, aims: &[Option<Aim>; SPRITES])
        requires
            old(self)@.wf(),
            aims_fit(aims@),
        ensures
            final(self)@ == old(self)@.fired(shoot, aims@),
            final(self)@.wf(),
    {
        if shoot && self.muzzle_flash == 0 {
            if self.ammo > 0 {
                self.ammo -= 1;
                self.muzzle_flash = 4;
                let mut i: usize = 0;
                while i < SPRITES
                    invariant
                        i <= SPRITES,
                        old(self)@.wf(),
                        aims_fit(aims@),
                        self@ == (GameState {
                            ammo: (old(self)@.ammo - 1) as u16,
                            muzzle_flash: 4,
                            sprites: self.sprites@,
                            ..old(self)@
                        }),
                        forall|j: int|
                            0 <= j < SPRITES ==> #[trigger] self.sprites@[j] == if j < i {
                                old(self)@.sprites[j].shot(aims@[j])
                            } else {
                                old(self)@.sprites[j]
                            },
                    decreases SPRITES - i,
                {
                    let s = self.sprites[i];
                    assert(sprite_fits(old(self)@.sprites[i as int], i as int));
                    assert(aims@[i as int] == aims[i as int]);
                    if s.active && s.kind == IMP && is_hit(aims[i]) {
                        let hp: i8 = s.hp - 1;
                        self.sprites[i] = Sprite { hp, hit_flash: 5, active: hp > 0, ..s };
                    }
                    i += 1;
                }
                assert(self@ =~= old(self)@.fired(shoot, aims@));
                assert forall|j: int| 0 <= j < SPRITES implies sprite_fits(
                    #[trigger] self@.sprites[j],
                    j,
                ) by {
                    assert(sprite_fits(old(self)@.sprites[j], j));
                }
            }
        } else if self.muzzle_flash > 0 {
            self.muzzle_flash -= 1;
        }
    }

    /// The player's turn.
    pub fn act(&mut self, controls: &Controls, aims: &[Option<Aim>; SPRITES])
        requires
            old(self)@.wf(),
            aims_fit(aims@),
        ensures
            final(self)@ == old(self)@.acted(*controls, aims@),
            final(self)@.wf(),
    {
        self.fire(controls.shoot, aims);
        if controls.is_any() {
            self.manual_timer = 300;
        } else if self.manual_timer > 0 {
            self.manual_timer -= 1;
        }
    }

    /// The player has control, and the patrol does not walk.
    pub fn is_manual(&self) -> (yes: bool)
        ensures
            yes == (self@.manual_timer > 0),
    {
        self.manual_timer > 0
    }

    /// Lets each fireball in flight strike what it has got to.
    pub fn resolve_fireballs(&mut self, at: &[FireballAt; FIREBALLS])
        requires
            old(self)@.wf(),
            cells_fit(at@),
        ensures
            final(self)@ == impacts(old(self)@, at@, FIREBALLS as nat),
            final(self)@.wf(),
    {
        let mut i: usize = 0;
        while i < FIREBALLS
            invariant
                i <= FIREBALLS,
                self@.wf(),
                cells_fit(at@),
                self@ == impacts(old(self)@, at@, i as nat),
            decreases FIREBALLS - i,
        {
            let ghost before = self@;
            if self.fireballs[i] {
                assert(at@[i as int] == at[i as int]);
                match at[i] {
                    FireballAt::Player => {
                        self.health = if self.health < 18 {
                            0
                        } else {
                            self.health - 18
                        };
                        self.damage_flash = 8;
                        self.fireballs[i] = false;
                    },
                    FireballAt::Outside => {
                        self.fireballs[i] = false;
                    },
                    FireballAt::Cell { x, y } => {
                        if MAP[y * 16 + x] > 0 {
                            self.fireballs[i] = false;
                        }
                    },
                }
            }
            i += 1;
            assert(self@ =~= impacts(old(self)@, at@, i as nat));
            assert(self@.sprites == before.sprites);
        }
    }

    fn first_free(&self) -> (slot: Option<usize>)
        ensures
            slot == free_slot(self@.fireballs, 0),
            slot matches Some(k) ==> k < FIREBALLS && !self@.fireballs[k as int],
    {
        let mut i: usize = 0;
        while i < FIREBALLS
            invariant
                i <= FIREBALLS,
                free_slot(self@.fireballs, 0) == free_slot(self@.fireballs, i as int),
            decreases FIREBALLS - i,
        {
            if !self.fireballs[i] {
                return Some(i);
            }
            i += 1;
        }
        None
    }

    /// Lets each imp that sees a living player wait or throw. The result holds,
    /// for each sprite, the fireball that it has thrown.
    pub fn attack(&mut self, dead: bool, in_sight: &[bool; SPRITES]) -> (thrown: [Option<
        usize,
    >; SPRITES])
        requires
            old(self)@.wf(),
        ensures
            (final(self)@, thrown@) == attacked(old(self)@, dead, in_sight@, SPRITES as nat),
            final(self)@.wf(),
    {
        let mut thrown: [Option<usize>; SPRITES] = [None; SPRITES];
        let mut i: usize = 0;
        while i < SPRITES
            invariant
                i <= SPRITES,
                self@.wf(),
                self@ == attacked(old(self)@, dead, in_sight@, i as nat).0,
                thrown@.take(i as int) == attacked(old(self)@, dead, in_sight@, i as nat).1,
                forall|j: int| i <= j < SPRITES ==> #[trigger] thrown@[j] is None,
            decreases SPRITES - i,
        {
            let ghost before = self@;
            let ghost thrown_before = thrown@;
            let mut s = self.sprites[i];
            assert(sprite_fits(before.sprites[i as int], i as int));
            assert(in_sight@[i as int] == in_sight[i as int]);
            if s.hit_flash > 0 {
                s.hit_flash -= 1;
            }
            if s.active && s.kind == IMP && !dead && in_sight[i] {
                if s.cooldown > 0 {
                    s.cooldown -= 1;
                } else {
                    let slot = self.first_free();
                    if let Some(k) = slot {
                        self.fireballs[k] = true;
                    }
                    thrown[i] = slot;
                    s.cooldown = 35;
                }
            }
            self.sprites[i] = s;
            i += 1;
            assert(self@ =~= attacked(old(self)@, dead, in_sight@, i as nat).0);
            assert(thrown@.take(i as int) =~= thrown_before.take(i - 1).push(thrown@[i - 1]));
            assert forall|j: int| 0 <= j < SPRITES implies sprite_fits(
                #[trigger] self@.sprites[j],
                j,
            ) by {
                assert(sprite_fits(before.sprites[j], j));
            }
        }
        assert(thrown@.take(SPRITES as int) =~= thrown@);
        thrown
    }

    /// Starts anew after death.
    pub fn restart(&mut self)
        requires
            old(self)@.wf(),
        ensures
            final(self)@ == old(self)@.restarted(),
            final(self)@.wf(),
    {
        self.health = 100;
        self.ammo = 50;
        self.sprites = initial_sprites();
        self.fireballs = [false; FIREBALLS];
        assert(self@ =~= old(self)@.restarted());
    }

    /// The enemies' turn: the fireballs fly, the imps throw, and a dead player who
    /// asks for anything starts anew.
    pub fn enemy_turn(
        &mut self,
        controls: &Controls,
        at: &[FireballAt; FIREBALLS],
        in_sight: &[bool; SPRITES],
    ) -> (turn: EnemyTurn)
        requires
            old(self)@.wf(),
            cells_fit(at@),
        ensures
            final(self)@ == old(self)@.endured(*controls, at@, in_sight@),
            turn.dead == (old(self)@.health == 0),
            turn.respawned == (old(self)@.health == 0 && controls.any()),
            turn.thrown@ == old(self)@.thrown(at@, in_sight@),
            final(self)@.wf(),
    {
        let dead = self.health == 0;
        self.resolve_fireballs(at);
        let thrown = self.attack(dead, in_sight);
        let respawned = dead && controls.is_any();
        if respawned {
            self.restart();
        }
        EnemyTurn { dead, respawned, thrown }
    }

    /// Picks up what the player has walked over. The result says whether, before
    /// that, enemies or pickups were all gone.
    pub fn collect(&mut self, in_reach: &[bool; SPRITES]) -> (cleared: bool)
        requires
            old(self)@.wf(),
        ensures
            final(self)@ == collected(old(self)@, in_reach@, SPRITES as nat),
            cleared == (!old(self)@.has_pickup() || !old(self)@.has_enemy()),
            final(self)@.wf(),
    {
        let mut any_pickup = false;
        let mut any_enemy = false;
        let mut i: usize = 0;
        while i < SPRITES
            invariant
                i <= SPRITES,
                old(self)@.sprites.len() == SPRITES,
                self@.wf(),
                self@ == collected(old(self)@, in_reach@, i as nat),
                forall|j: int|
                    i <= j < SPRITES ==> #[trigger] self@.sprites[j] == old(self)@.sprites[j],
                any_pickup == exists|j: int|
                    0 <= j < i && #[trigger] old(self)@.sprites[j].active
                        && old(self)@.sprites[j].is_pickup(),
                any_enemy == exists|j: int|
                    0 <= j < i && #[trigger] old(self)@.sprites[j].active
                        && old(self)@.sprites[j].kind == IMP,
            decreases SPRITES - i,
        {
            let ghost before = self@;
            let s = self.sprites[i];
            assert(before.sprites[i as int] == old(self)@.sprites[i as int]);
            assert(sprite_fits(before.sprites[i as int], i as int));
            assert(in_reach@[i as int] == in_reach[i as int]);
            if s.kind == IMP && s.active {
                any_enemy = true;
            }
            if s.kind == HEALTH_PACK || s.kind == AMMO_CRATE {
                if s.active {
                    any_pickup = true;
                    if in_reach[i] {
                        if s.kind == HEALTH_PACK && self.health < 100 {
                            self.health = if self.health + 25 < 100 {
                                self.health + 25
                            } else {
                                100
                            };
                            self.sprites[i] = Sprite { active: false, ..s };
                            self.pickup_flash = 6;
                        } else if s.kind == AMMO_CRATE && self.ammo < 999 {
                            self.ammo = if self.ammo + 20 < 999 {
                                self.ammo + 20
                            } else {
                                999
                            };
                            self.sprites[i] = Sprite { active: false, ..s };
                            self.pickup_flash = 6;
                        }
                    }
                }
            }
            assert(old(self)@.sprites[i as int].active == s.active);
            i += 1;
            assert(self@ =~= collected(old(self)@, in_reach@, i as nat));
            assert forall|j: int| 0 <= j < SPRITES implies sprite_fits(
                #[trigger] self@.sprites[j],
                j,
            ) by {
                assert(sprite_fits(before.sprites[j], j));
            }
        }
        !any_pickup || !any_enemy
    }

    /// Waits for what is cleared to come back, and brings it back.
    pub fn step_respawn(&mut self, cleared: bool)
        requires
            old(self)@.wf(),
        ensures
            final(self)@ == old(self)@.respawn_step(cleared),
            final(self)@.wf(),
    {
        if cleared {
            self.respawn_timer += 1;
            if self.respawn_timer > 500 {
                let mut i: usize = 0;
                while i < SPRITES
                    invariant
                        i <= SPRITES,
                        old(self)@.wf(),
                        self.respawn_timer == 501,
                        self@ == (GameState {
                            respawn_timer: 501,
                            sprites: self.sprites@,
                            ..old(self)@
                        }),
                        forall|j: int|
                            0 <= j < SPRITES ==> #[trigger] self.sprites@[j] == if j < i {
                                old(self)@.sprites[j].revived()
                            } else {
                                old(self)@.sprites[j]
                            },
                    decreases SPRITES - i,
                {
                    self.sprites[i].active = true;
                    if self.sprites[i].kind == IMP {
                        self.sprites[i].hp = 2;
                        self.sprites[i].cooldown = 40;
                    }
                    i += 1;
                }
                self.respawn_timer = 0;
                assert(self@ =~= old(self)@.respawn_step(cleared));
                assert forall|j: int| 0 <= j < SPRITES implies sprite_fits(
                    #[trigger] self@.sprites[j],
                    j,
                ) by {
                    assert(sprite_fits(old(self)@.sprites[j], j));
                }
            }
        }
    }

    /// The pickups: they are collected, what is cleared comes back after a while,
    /// and the flashes fade.
    pub fn item_turn(&mut self, in_reach: &[bool; SPRITES])
        requires
            old(self)@.wf(),
        ensures
            final(self)@ == old(self)@.gathered(in_reach@),
            final(self)@.wf(),
    {
        let cleared = self.collect(in_reach);
        self.step_respawn(cleared);
        if self.pickup_flash > 0 {
            self.pickup_flash -= 1;
        }
        if self.damage_flash > 0 {
            self.damage_flash -= 1;
        }
        assert(self@ =~= old(self)@.gathered(in_reach@));
    }
}

proof fn lemma_impacts(state: GameState, at: Seq<FireballAt>, n: nat)
    requires
        state.wf(),
        n <= FIREBALLS,
    ensures
        impacts(state, at, n).wf(),
        impacts(state, at, n).health <= state.health,
        impacts(state, at, n).sprites == state.sprites,
        impacts(state, at, n).ammo == state.ammo,
        forall|k: int|
            0 <= k < FIREBALLS && #[trigger] impacts(state, at, n).fireballs[k]
                ==> state.fireballs[k],
    decreases n,
{
    if n > 0 {
        lemma_impacts(state, at, (n - 1) as nat);
    }
}

proof fn lemma_free_slot(fireballs: Seq<bool>, from: int)
    requires
        fireballs.len() == FIREBALLS,
        0 <= from <= FIREBALLS,
    ensures
        free_slot(fireballs, from) matches Some(k) ==> from <= k < FIREBALLS && !fireballs[k as int],
        free_slot(fireballs, from) is None ==> forall|k: int| from <= k < FIREBALLS
            ==> #[trigger] fireballs[k],
    decreases FIREBALLS - from,
{
    if from < FIREBALLS {
        lemma_free_slot(fireballs, from + 1);
        assert forall|k: int| from <= k < FIREBALLS && free_slot(fireballs, from) is None implies
            #[trigger] fireballs[k] by {
            if k > from {
                assert(fireballs[k]);
            }
        }
    }
}

/// What the imps throw: each throws a fireball that was not in flight, no two
/// throw the same, and the fireballs in flight afterwards are those that were and
/// those that are thrown.
pub proof fn law_fireballs_are_distinct(
    state: GameState,
    dead: bool,
    in_sight: Seq<bool>,
    n: nat,
)
    requires
        state.wf(),
        n <= SPRITES,
    ensures
        ({
            let (after, thrown) = attacked(state, dead, in_sight, n);
            &&& after.wf()
            &&& thrown.len() == n
            &&& forall|i: int|
                0 <= i < n ==> (#[trigger] thrown[i] matches Some(k) ==> k < FIREBALLS
                    && !state.fireballs[k as int] && after.fireballs[k as int])
            &&& forall|i: int, j: int|
                0 <= i < j < n && #[trigger] thrown[i] is Some ==> thrown[i]
                    != #[trigger] thrown[j]
            &&& forall|k: int|
                0 <= k < FIREBALLS ==> (#[trigger] after.fireballs[k] <==> state.fireballs[k]
                    || thrown.contains(Some(k as usize)))
            &&& after.health == state.health && after.ammo == state.ammo
        }),
    decreases n,
{
    if n > 0 {
        law_fireballs_are_distinct(state, dead, in_sight, (n - 1) as nat);
        let (s, t) = attacked(state, dead, in_sight, (n - 1) as nat);
        let (after, thrown) = attacked(state, dead, in_sight, n);
        let slot = thrown[n - 1];
        lemma_free_slot(s.fireballs, 0);
        assert(sprite_fits(s.sprites[n - 1], n - 1));
        assert forall|i: int| 0 <= i < SPRITES implies sprite_fits(
            #[trigger] after.sprites[i],
            i,
        ) by {
            assert(sprite_fits(s.sprites[i], i));
        }
        assert(forall|i: int| 0 <= i < n - 1 ==> #[trigger] thrown[i] == t[i]);
        assert forall|i: int, j: int|
            0 <= i < j < n && #[trigger] thrown[i] is Some implies thrown[i]
            != #[trigger] thrown[j] by {
            assert(thrown[i] == t[i]);
            if j < n - 1 {
                assert(thrown[j] == t[j]);
            }
        }
        assert forall|k: int| 0 <= k < FIREBALLS implies (#[trigger] after.fireballs[k]
            <==> state.fireballs[k] || thrown.contains(Some(k as usize))) by {
            assert(s.fireballs[k] <==> state.fireballs[k] || t.contains(Some(k as usize)));
            if t.contains(Some(k as usize)) {
                let i = choose|i: int| 0 <= i < t.len() && t[i] == Some(k as usize);
                assert(thrown[i] == Some(k as usize));
            }
            if thrown.contains(Some(k as usize)) {
                let i = choose|i: int| 0 <= i < thrown.len() && thrown[i] == Some(k as usize);
                if i < n - 1 {
                    assert(t[i] == Some(k as usize));
                }
            }
            if slot == Some(k as usize) {
                assert(thrown[n - 1] == Some(k as usize));
            }
        }
    }
}

proof fn lemma_collected(state: GameState, in_reach: Seq<bool>, n: nat)
    requires
        state.wf(),
        n <= SPRITES,
    ensures
        collected(state, in_reach, n).wf(),
        collected(state, in_reach, n).health >= state.health,
        collected(state, in_reach, n).ammo >= state.ammo,
        collected(state, in_reach, n).respawn_timer == state.respawn_timer,
    decreases n,
{
    if n > 0 {
        lemma_collected(state, in_reach, (n - 1) as nat);
        let s = collected(state, in_reach, (n - 1) as nat);
        let after = collected(state, in_reach, n);
        assert forall|i: int| 0 <= i < SPRITES implies sprite_fits(
            #[trigger] after.sprites[i],
            i,
        ) by {
            assert(sprite_fits(s.sprites[i], i));
        }
    }
}

/// The game keeps its bounds, whatever the player does and wherever things are.
pub proof fn law_bounds_are_kept(
    state: GameState,
    controls: Controls,
    aims: Seq<Option<Aim>>,
    at: Seq<FireballAt>,
    in_sight: Seq<bool>,
    in_reach: Seq<bool>,
)
    requires
        state.wf(),
    ensures
        GameState::start().wf(),
        state.acted(controls, aims).wf(),
        state.endured(controls, at, in_sight).wf(),
        state.gathered(in_reach).wf(),
{
    let acted = state.acted(controls, aims);
    assert forall|i: int| 0 <= i < SPRITES implies sprite_fits(#[trigger] acted.sprites[i], i) by {
        assert(sprite_fits(state.sprites[i], i));
    }
    lemma_impacts(state, at, FIREBALLS as nat);
    law_fireballs_are_distinct(
        impacts(state, at, FIREBALLS as nat),
        state.health == 0,
        in_sight,
        SPRITES as nat,
    );
    lemma_collected(state, in_reach, SPRITES as nat);
    let s = collected(state, in_reach, SPRITES as nat);
    let gathered = state.gathered(in_reach);
    assert forall|i: int| 0 <= i < SPRITES implies sprite_fits(
        #[trigger] gathered.sprites[i],
        i,
    ) by {
        assert(sprite_fits(s.sprites[i], i));
    }
}

/// The weapon: a shot takes one round, and none is fired without one. After a
/// shot the weapon does nothing but cool down for four frames, however the trigger
/// is held.
pub proof fn law_rate_of_fire(state: GameState, shoot: bool, aims: Seq<Option<Aim>>)
    requires
        state.wf(),
    ensures
        ({
            let after = state.fired(shoot, aims);
            let shot = shoot && state.muzzle_flash == 0 && state.ammo > 0;
            &&& after.ammo == state.ammo - (if shot {
                1int
            } else {
                0
            })
            &&& shot ==> after.muzzle_flash == 4
            &&& !shot ==> after == (GameState { muzzle_flash: down(state.muzzle_flash), ..state })
        }),
{
}

/// A shot takes one point from each imp in the line of fire, so that an imp that
/// was hit with two points left is there with one, and one with its last is gone.
/// It harms nothing else. The line of fire is the crosshair's column: it lies less
/// than twelve pixels beyond half the imp's width from the imp's middle, to either
/// side.
pub proof fn law_imp_falls(state: GameState, aims: Seq<Option<Aim>>, i: int)
    requires
        state.wf(),
        state.muzzle_flash == 0,
        state.ammo > 0,
        0 <= i < SPRITES,
    ensures
        ({
            let before = state.sprites[i];
            let after = state.fired(true, aims).sprites[i];
            let in_line = match aims[i] {
                Some(a) => a.screen_x - (a.width / 2 + 12) < 120 < a.screen_x + (a.width / 2 + 12),
                None => false,
            };
            if before.active && before.kind == IMP && in_line {
                &&& after.hp == before.hp - 1
                &&& after.active == (before.hp == 2)
                &&& after.hit_flash == 5
                &&& after.kind == before.kind && after.cooldown == before.cooldown
            } else {
                after == before
            }
        }),
{
    assert(sprite_fits(state.sprites[i], i));
}

/// The line of fire has two sides: an imp as far to the left of the crosshair as
/// another is to the right of it is hit where the other is, a wider imp at the same
/// place is hit where a narrower one is, and an imp that covers the crosshair is
/// always hit.
pub proof fn law_line_of_fire(
    state: GameState,
    left: Seq<Option<Aim>>,
    right: Seq<Option<Aim>>,
    wider: Seq<Option<Aim>>,
    i: int,
)
    requires
        state.wf(),
        state.muzzle_flash == 0,
        state.ammo > 0,
        0 <= i < SPRITES,
        state.sprites[i].active,
        state.sprites[i].kind == IMP,
        left[i] is Some && right[i] is Some && wider[i] is Some,
        120 - left[i]->0.screen_x == right[i]->0.screen_x - 120,
        left[i]->0.width == right[i]->0.width,
        wider[i]->0.screen_x == left[i]->0.screen_x,
        wider[i]->0.width >= left[i]->0.width >= 0,
    ensures
        ({
            let hp = state.sprites[i].hp;
            let by_left = state.fired(true, left).sprites[i];
            let by_right = state.fired(true, right).sprites[i];
            let by_wider = state.fired(true, wider).sprites[i];
            let a = left[i]->0;
            &&& by_left == by_right
            &&& by_left.hp < hp ==> by_wider.hp < hp
            &&& a.screen_x - a.width / 2 <= 120 <= a.screen_x + a.width / 2 ==> by_left.hp == hp - 1
        }),
{
    assert(sprite_fits(state.sprites[i], i));
    law_imp_falls(state, left, i);
    law_imp_falls(state, right, i);
    law_imp_falls(state, wider, i);
}

/// A sprite that is not in front of the player is not hit, and what one sprite
/// suffers depends on no other.
pub proof fn law_shots_are_apart(
    state: GameState,
    shoot: bool,
    aims: Seq<Option<Aim>>,
    others: Seq<Option<Aim>>,
    i: int,
)
    requires
        state.wf(),
        0 <= i < SPRITES,
    ensures
        aims[i] is None ==> state.fired(shoot, aims).sprites[i] == state.sprites[i],
        aims[i] == others[i] ==> state.fired(shoot, aims).sprites[i] == state.fired(
            shoot,
            others,
        ).sprites[i],
{
}

/// The player's turn touches the ammo, the muzzle, the imps that are hit and the
/// frames of control, and nothing else. Without the trigger nothing is shot at.
pub proof fn law_player_turn_spares_the_rest(
    state: GameState,
    controls: Controls,
    aims: Seq<Option<Aim>>,
    i: int,
)
    requires
        state.wf(),
        0 <= i < SPRITES,
    ensures
        ({
            let after = state.acted(controls, aims);
            &&& after.health == state.health
            &&& after.pickup_flash == state.pickup_flash
            &&& after.damage_flash == state.damage_flash
            &&& after.respawn_timer == state.respawn_timer
            &&& after.fireballs == state.fireballs
            &&& after.sprites.len() == SPRITES
            &&& after.sprites[i].kind == state.sprites[i].kind
            &&& after.sprites[i].cooldown == state.sprites[i].cooldown
            &&& !controls.shoot ==> after.ammo == state.ammo && after.sprites[i]
                == state.sprites[i] && after.muzzle_flash <= state.muzzle_flash
            &&& after.ammo == state.ammo ==> after.sprites[i] == state.sprites[i]
            &&& after.ammo < state.ammo <==> controls.shoot && state.muzzle_flash == 0
                && state.ammo > 0
            &&& after.ammo < state.ammo ==> after.ammo == state.ammo - 1 && after.muzzle_flash == 4
        }),
{
}

/// The state after `n` of the player's turns in which nothing is asked for.
pub open spec fn after_idle(state: GameState, aims: Seq<Option<Aim>>, n: nat) -> GameState
    decreases n,
{
    if n == 0 {
        state
    } else {
        after_idle(state, aims, (n - 1) as nat).acted(
            Controls {
                turn_right: false,
                turn_left: false,
                forward: false,
                backward: false,
                shoot: false,
            },
            aims,
        )
    }
}

/// A player who asks for any of the five things has control for 300 turns, and the
/// weapon is ready again after the four turns that follow a shot.
pub proof fn law_control_lasts(
    state: GameState,
    controls: Controls,
    aims: Seq<Option<Aim>>,
    n: nat,
)
    requires
        controls.turn_right || controls.turn_left || controls.forward || controls.backward
            || controls.shoot,
    ensures
        ({
            let first = state.acted(controls, aims);
            let later = after_idle(first, aims, n);
            &&& later.manual_timer == if n < 300 {
                300 - n
            } else {
                0
            }
            &&& later.muzzle_flash == if n < first.muzzle_flash {
                first.muzzle_flash - n
            } else {
                0
            }
        }),
    decreases n,
{
    if n > 0 {
        law_control_lasts(state, controls, aims, (n - 1) as nat);
    }
}

/// Of the first `n` fireballs, those that are in flight and have got to the player.
pub open spec fn strikes(fireballs: Seq<bool>, at: Seq<FireballAt>, n: nat) -> nat
    decreases n,
{
    if n == 0 {
        0
    } else {
        strikes(fireballs, at, (n - 1) as nat) + if fireballs[n - 1] && at[n - 1] is Player {
            1nat
        } else {
            0
        }
    }
}

/// Every fireball in flight that has got to the player takes 18 points of health,
/// down to none, and lets the screen flash for eight frames. It is then gone, and so
/// is one that has left the level or is in a wall; one in a free cell flies on. No
/// other fireball counts, and nothing else changes.
pub proof fn law_fireballs_strike(state: GameState, at: Seq<FireballAt>, n: nat)
    requires
        state.wf(),
        n <= FIREBALLS,
    ensures
        ({
            let after = impacts(state, at, n);
            let hits = strikes(state.fireballs, at, n);
            &&& after.health == if 18 * hits < state.health {
                state.health - 18 * hits
            } else {
                0
            }
            &&& after.damage_flash == if hits > 0 {
                8
            } else {
                state.damage_flash
            }
            &&& after.fireballs.len() == FIREBALLS
            &&& forall|k: int|
                0 <= k < FIREBALLS ==> (#[trigger] after.fireballs[k] <==> state.fireballs[k] && (k
                    >= n || (at[k] matches FireballAt::Cell { x, y } && MAP@[y * 16 + x] == 0)))
            &&& after == (GameState {
                health: after.health,
                damage_flash: after.damage_flash,
                fireballs: after.fireballs,
                ..state
            })
        }),
    decreases n,
{
    if n > 0 {
        law_fireballs_strike(state, at, (n - 1) as nat);
        let s = impacts(state, at, (n - 1) as nat);
        assert(s.fireballs[n - 1] <==> state.fireballs[n - 1]);
    }
}

/// Only an imp that is still there attacks, only a living player, and only one that
/// it sees. It then waits a turn of its wait, or throws a fireball and waits for 35
/// turns; it stays without a fireball only where all are in flight. Whatever it does,
/// the flash of its last hit fades, and nothing else of it changes.
pub proof fn law_only_imps_attack(
    state: GameState,
    dead: bool,
    in_sight: Seq<bool>,
    n: nat,
    i: int,
)
    requires
        state.wf(),
        n <= SPRITES,
        0 <= i < SPRITES,
    ensures
        ({
            let (after, thrown) = attacked(state, dead, in_sight, n);
            let s = state.sprites[i];
            let t = after.sprites[i];
            &&& thrown.len() == n
            &&& i >= n ==> t == s
            &&& i < n && !s.active ==> thrown[i] is None && t.cooldown == s.cooldown
            &&& i < n && s.kind != IMP ==> thrown[i] is None && t.cooldown == s.cooldown
            &&& i < n && dead ==> thrown[i] is None && t.cooldown == s.cooldown
            &&& i < n && !in_sight[i] ==> thrown[i] is None && t.cooldown == s.cooldown
            &&& i < n && s.active && s.kind == IMP && !dead && in_sight[i] ==> {
                &&& s.cooldown > 0 ==> thrown[i] is None && t.cooldown == s.cooldown - 1
                &&& s.cooldown == 0 ==> t.cooldown == 35
                &&& s.cooldown == 0 && thrown[i] is None ==> forall|k: int|
                    0 <= k < FIREBALLS ==> #[trigger] after.fireballs[k]
            }
            &&& i < n ==> (thrown[i] matches Some(k) ==> k < FIREBALLS && forall|j: int|
                0 <= j <= k ==> #[trigger] after.fireballs[j])
            &&& i < n && s.hit_flash > 0 ==> t.hit_flash == s.hit_flash - 1
            &&& i < n && s.hit_flash == 0 ==> t.hit_flash == 0
            &&& t.kind == s.kind && t.active == s.active && t.hp == s.hp
            &&& after == (GameState {
                sprites: after.sprites,
                fireballs: after.fireballs,
                ..state
            })
            &&& after.sprites.len() == SPRITES && after.fireballs.len() == FIREBALLS
        }),
    decreases n,
{
    if n > 0 {
        law_only_imps_attack(state, dead, in_sight, (n - 1) as nat, i);
        law_only_imps_attack(state, dead, in_sight, (n - 1) as nat, n - 1);
        let (s, t) = attacked(state, dead, in_sight, (n - 1) as nat);
        let (after, thrown) = attacked(state, dead, in_sight, n);
        lemma_free_slot(s.fireballs, 0);
        lemma_first_free(s.fireballs, 0);
        assert(forall|k: int|
            0 <= k < FIREBALLS && s.fireballs[k] ==> #[trigger] after.fireballs[k]);
        if i < n - 1 {
            assert(thrown[i] == t[i]);
        }
    }
}

/// The first fireball that is not in flight comes after those that are.
proof fn lemma_first_free(fireballs: Seq<bool>, from: int)
    requires
        fireballs.len() == FIREBALLS,
        0 <= from <= FIREBALLS,
    ensures
        free_slot(fireballs, from) matches Some(k) ==> forall|j: int|
            from <= j < k ==> #[trigger] fireballs[j],
    decreases FIREBALLS - from,
{
    if from < FIREBALLS {
        lemma_first_free(fireballs, from + 1);
        if let Some(k) = free_slot(fireballs, from) {
            assert forall|j: int| from <= j < k implies #[trigger] fireballs[j] by {
                if j > from {
                    assert(fireballs[j]);
                }
            }
        }
    }
}

/// The enemies' turn, for a player who was alive when it began or asks for nothing:
/// health falls by 18 points for each fireball that strikes, down to none, and the
/// imps attack as if no fireball had struck. A dead player suffers no attack.
pub proof fn law_enemy_turn(
    state: GameState,
    controls: Controls,
    at: Seq<FireballAt>,
    in_sight: Seq<bool>,
    i: int,
)
    requires
        state.wf(),
        0 <= i < SPRITES,
        state.health > 0 || controls == (Controls {
            turn_right: false,
            turn_left: false,
            forward: false,
            backward: false,
            shoot: false,
        }),
    ensures
        ({
            let after = state.endured(controls, at, in_sight);
            let thrown = state.thrown(at, in_sight);
            let hits = strikes(state.fireballs, at, FIREBALLS as nat);
            let s = state.sprites[i];
            let t = after.sprites[i];
            let sees = state.health > 0 && in_sight[i];
            &&& after.health == if 18 * hits < state.health {
                state.health - 18 * hits
            } else {
                0
            }
            &&& after.damage_flash == if hits > 0 {
                8
            } else {
                state.damage_flash
            }
            &&& thrown.len() == SPRITES
            &&& !(s.active && s.kind == IMP && sees) ==> thrown[i] is None && t.cooldown
                == s.cooldown
            &&& s.active && s.kind == IMP && sees && s.cooldown > 0 ==> thrown[i] is None
                && t.cooldown == s.cooldown - 1
            &&& s.active && s.kind == IMP && sees && s.cooldown == 0 ==> t.cooldown == 35
            &&& thrown[i] matches Some(k) ==> k < FIREBALLS && after.fireballs[k as int]
            &&& forall|k: int|
                0 <= k < FIREBALLS ==> (#[trigger] after.fireballs[k] <==> thrown.contains(
                    Some(k as usize),
                ) || state.fireballs[k] && (at[k] matches FireballAt::Cell { x, y } && MAP@[y * 16
                    + x] == 0))
            &&& t.kind == s.kind && t.active == s.active && t.hp == s.hp
            &&& t.hit_flash == if s.hit_flash > 0 {
                s.hit_flash - 1
            } else {
                0
            }
            &&& after.ammo == state.ammo && after.muzzle_flash == state.muzzle_flash
            &&& after.pickup_flash == state.pickup_flash
            &&& after.manual_timer == state.manual_timer
            &&& after.respawn_timer == state.respawn_timer
        }),
{
    law_fireballs_strike(state, at, FIREBALLS as nat);
    lemma_impacts(state, at, FIREBALLS as nat);
    let flown = impacts(state, at, FIREBALLS as nat);
    law_only_imps_attack(flown, state.health == 0, in_sight, SPRITES as nat, i);
    law_fireballs_are_distinct(flown, state.health == 0, in_sight, SPRITES as nat);
    if let Some(k) = state.thrown(at, in_sight)[i] {
        let after = attacked(flown, state.health == 0, in_sight, SPRITES as nat).0;
        assert(after.fireballs[k as int]);
    }
}

/// A dead player who asks for any of the five things starts anew: with full health
/// and 50 rounds, against everything that was there at the start, and with no
/// fireball in flight.
pub proof fn law_dead_player_starts_anew(
    state: GameState,
    controls: Controls,
    at: Seq<FireballAt>,
    in_sight: Seq<bool>,
)
    requires
        state.wf(),
        state.health == 0,
        controls.turn_right || controls.turn_left || controls.forward || controls.backward
            || controls.shoot,
    ensures
        ({
            let after = state.endured(controls, at, in_sight);
            &&& after.health == 100
            &&& after.ammo == 50
            &&& after.sprites == GameState::start().sprites
            &&& after.fireballs == seq![false, false, false, false]
            &&& after.muzzle_flash == state.muzzle_flash
            &&& after.pickup_flash == state.pickup_flash
            &&& after.manual_timer == state.manual_timer
            &&& after.respawn_timer == state.respawn_timer
        }),
{
    lemma_impacts(state, at, FIREBALLS as nat);
    law_fireballs_strike(state, at, FIREBALLS as nat);
    let flown = impacts(state, at, FIREBALLS as nat);
    law_only_imps_attack(flown, true, in_sight, SPRITES as nat, 0);
    assert(state.endured(controls, at, in_sight).fireballs =~= seq![false, false, false, false]);
}

/// Of the first `n` sprites, those of a kind that are there and in reach.
pub open spec fn offered(sprites: Seq<Sprite>, in_reach: Seq<bool>, kind: u8, n: nat) -> nat
    decreases n,
{
    if n == 0 {
        0
    } else {
        offered(sprites, in_reach, kind, (n - 1) as nat) + if sprites[n - 1].active && sprites[n
            - 1].kind == kind && in_reach[n - 1] {
            1nat
        } else {
            0
        }
    }
}

/// Of the first `n` sprites, those of a kind that were there before and are not
/// after.
pub open spec fn gone(before: Seq<Sprite>, after: Seq<Sprite>, kind: u8, n: nat) -> nat
    decreases n,
{
    if n == 0 {
        0
    } else {
        gone(before, after, kind, (n - 1) as nat) + if before[n - 1].active && !after[n - 1].active
            && before[n - 1].kind == kind {
            1nat
        } else {
            0
        }
    }
}

/// What pickups give: each health pack in reach 25 points of health up to 100, each
/// ammo crate in reach 20 rounds up to 999. A pickup is gone exactly where it still
/// gave something, and nothing else changes but the flash of a pickup.
pub proof fn law_pickups_add_up(state: GameState, in_reach: Seq<bool>, n: nat, i: int)
    requires
        state.wf(),
        n <= SPRITES,
        0 <= i < SPRITES,
    ensures
        ({
            let after = collected(state, in_reach, n);
            let health = state.health + 25 * offered(state.sprites, in_reach, HEALTH_PACK, n);
            let ammo = state.ammo + 20 * offered(state.sprites, in_reach, AMMO_CRATE, n);
            let s = state.sprites[i];
            let t = after.sprites[i];
            &&& after.health == if health < 100 {
                health
            } else {
                100
            }
            &&& after.ammo == if ammo < 999 {
                ammo
            } else {
                999
            }
            &&& s.active && !t.active <==> {
                &&& i < n && s.active && in_reach[i]
                &&& {
                    ||| s.kind == HEALTH_PACK && state.health + 25 * offered(
                        state.sprites,
                        in_reach,
                        HEALTH_PACK,
                        i as nat,
                    ) < 100
                    ||| s.kind == AMMO_CRATE && state.ammo + 20 * offered(
                        state.sprites,
                        in_reach,
                        AMMO_CRATE,
                        i as nat,
                    ) < 999
                }
            }
            &&& t == (Sprite { active: t.active, ..s })
            &&& t.active ==> s.active
            &&& after.pickup_flash == if after.health > state.health || after.ammo > state.ammo {
                6
            } else {
                state.pickup_flash
            }
            &&& after == (GameState {
                health: after.health,
                ammo: after.ammo,
                pickup_flash: after.pickup_flash,
                sprites: after.sprites,
                ..state
            })
            &&& after.sprites.len() == SPRITES
        }),
    decreases n,
{
    if n > 0 {
        law_pickups_add_up(state, in_reach, (n - 1) as nat, i);
        law_pickups_add_up(state, in_reach, (n - 1) as nat, n - 1);
    }
}

/// Sprites beyond those that were looked at do not count.
proof fn lemma_gone_before(before: Seq<Sprite>, a: Seq<Sprite>, b: Seq<Sprite>, kind: u8, n: nat)
    requires
        forall|j: int| 0 <= j < n ==> a[j] == b[j],
    ensures
        gone(before, a, kind, n) == gone(before, b, kind, n),
    decreases n,
{
    if n > 0 {
        lemma_gone_before(before, a, b, kind, (n - 1) as nat);
    }
}

/// Health and ammo rise by no more than 25 and 20 for each pickup that is taken, and
/// by that much for each that is taken while there is room for it.
pub proof fn law_pickups_give_no_more(state: GameState, in_reach: Seq<bool>, n: nat)
    requires
        state.wf(),
        n <= SPRITES,
    ensures
        ({
            let after = collected(state, in_reach, n);
            let packs = gone(state.sprites, after.sprites, HEALTH_PACK, n);
            let crates = gone(state.sprites, after.sprites, AMMO_CRATE, n);
            &&& after.health <= state.health + 25 * packs
            &&& after.ammo <= state.ammo + 20 * crates
            &&& state.health + 25 * packs <= 100 ==> after.health == state.health + 25 * packs
            &&& state.ammo + 20 * crates <= 999 ==> after.ammo == state.ammo + 20 * crates
        }),
    decreases n,
{
    if n > 0 {
        law_pickups_give_no_more(state, in_reach, (n - 1) as nat);
        let before = collected(state, in_reach, (n - 1) as nat);
        let after = collected(state, in_reach, n);
        law_pickups_add_up(state, in_reach, (n - 1) as nat, n - 1);
        lemma_collected(state, in_reach, (n - 1) as nat);
        assert(forall|j: int| 0 <= j < n - 1 ==> before.sprites[j] == after.sprites[j]);
        lemma_gone_before(
            state.sprites,
            before.sprites,
            after.sprites,
            HEALTH_PACK,
            (n - 1) as nat,
        );
        lemma_gone_before(
            state.sprites,
            before.sprites,
            after.sprites,
            AMMO_CRATE,
            (n - 1) as nat,
        );
    }
}

/// Where only the sprite `i` is offered, it is the only one that counts.
proof fn lemma_offered_once(sprites: Seq<Sprite>, in_reach: Seq<bool>, kind: u8, n: nat, i: int)
    requires
        forall|j: int|
            0 <= j < n && j != i && #[trigger] sprites[j].active && in_reach[j] ==> sprites[j].kind
                != kind,
    ensures
        offered(sprites, in_reach, kind, n) == if 0 <= i < n && sprites[i].active && sprites[i].kind
            == kind && in_reach[i] {
            1nat
        } else {
            0
        },
    decreases n,
{
    if n > 0 {
        lemma_offered_once(sprites, in_reach, kind, (n - 1) as nat, i);
        if n - 1 != i {
            assert(!(sprites[n - 1].active && in_reach[n - 1]) || sprites[n - 1].kind != kind);
        }
    }
}

/// A single pickup: where the only pickup in reach is a health pack, it gives 25
/// points of health up to 100 and no rounds, and where it is an ammo crate, it gives
/// 20 rounds up to 999 and no health.
pub proof fn law_single_pickup(state: GameState, in_reach: Seq<bool>, i: int)
    requires
        state.wf(),
        0 <= i < SPRITES,
        state.sprites[i].active,
        in_reach[i],
        forall|j: int|
            0 <= j < SPRITES && j != i && #[trigger] state.sprites[j].active && in_reach[j]
                ==> state.sprites[j].kind != HEALTH_PACK && state.sprites[j].kind != AMMO_CRATE,
    ensures
        ({
            let after = state.gathered(in_reach);
            &&& state.sprites[i].kind == HEALTH_PACK ==> {
                &&& after.ammo == state.ammo
                &&& state.health <= 75 ==> after.health == state.health + 25
                &&& state.health > 75 ==> after.health == 100
            }
            &&& state.sprites[i].kind == AMMO_CRATE ==> {
                &&& after.health == state.health
                &&& state.ammo <= 979 ==> after.ammo == state.ammo + 20
                &&& state.ammo > 979 ==> after.ammo == 999
            }
            &&& state.sprites[i].kind == IMP || state.sprites[i].kind == 1 ==> after.health
                == state.health && after.ammo == state.ammo
        }),
{
    law_pickups_add_up(state, in_reach, SPRITES as nat, i);
    lemma_offered_once(state.sprites, in_reach, HEALTH_PACK, SPRITES as nat, i);
    lemma_offered_once(state.sprites, in_reach, AMMO_CRATE, SPRITES as nat, i);
}

/// The turn of the pickups takes what [`law_pickups_add_up`] says, lets both flashes
/// fade by a frame, and leaves the weapon, the frames of control and the fireballs
/// alone.
pub proof fn law_item_turn(state: GameState, in_reach: Seq<bool>)
    requires
        state.wf(),
    ensures
        ({
            let after = state.gathered(in_reach);
            let health = state.health + 25 * offered(
                state.sprites,
                in_reach,
                HEALTH_PACK,
                SPRITES as nat,
            );
            let ammo = state.ammo + 20 * offered(
                state.sprites,
                in_reach,
                AMMO_CRATE,
                SPRITES as nat,
            );
            &&& after.health == if health < 100 {
                health
            } else {
                100
            }
            &&& after.ammo == if ammo < 999 {
                ammo
            } else {
                999
            }
            &&& after.health > state.health || after.ammo > state.ammo ==> after.pickup_flash == 5
            &&& after.health == state.health && after.ammo == state.ammo ==> after.pickup_flash
                == if state.pickup_flash > 0 {
                state.pickup_flash - 1
            } else {
                0
            }
            &&& state.damage_flash > 0 ==> after.damage_flash == state.damage_flash - 1
            &&& state.damage_flash == 0 ==> after.damage_flash == 0
            &&& after.muzzle_flash == state.muzzle_flash
            &&& after.manual_timer == state.manual_timer
            &&& after.fireballs == state.fireballs
        }),
{
    law_pickups_add_up(state, in_reach, SPRITES as nat, 0);
}

/// Health falls only to fireballs, and rises only by pickups and a new start:
/// the player's turn leaves it, the enemies' turn does not raise it unless the
/// player starts anew, and the pickups take neither health nor ammo.
pub proof fn law_health_moves(
    state: GameState,
    controls: Controls,
    aims: Seq<Option<Aim>>,
    at: Seq<FireballAt>,
    in_sight: Seq<bool>,
    in_reach: Seq<bool>,
)
    requires
        state.wf(),
    ensures
        state.acted(controls, aims).health == state.health,
        !(state.health == 0 && controls.any()) ==> state.endured(
            controls,
            at,
            in_sight,
        ).health <= state.health,
        state.health == 0 && controls.any() ==> state.endured(controls, at, in_sight).health == 100,
        state.gathered(in_reach).health >= state.health,
        state.gathered(in_reach).ammo >= state.ammo,
{
    lemma_impacts(state, at, FIREBALLS as nat);
    law_fireballs_are_distinct(
        impacts(state, at, FIREBALLS as nat),
        state.health == 0,
        in_sight,
        SPRITES as nat,
    );
    lemma_collected(state, in_reach, SPRITES as nat);
}

/// The level comes back: while no imp is there, or neither a health pack nor an ammo
/// crate is, the wait goes on, and at its end everything is there again, each imp
/// with two points and a wait of 40 turns.
pub proof fn law_level_comes_back(state: GameState, in_reach: Seq<bool>)
    requires
        state.wf(),
        (forall|i: int|
            0 <= i < SPRITES && #[trigger] state.sprites[i].active ==> state.sprites[i].kind != IMP)
            || (forall|i: int|
            0 <= i < SPRITES && #[trigger] state.sprites[i].active ==> state.sprites[i].kind
                != HEALTH_PACK && state.sprites[i].kind != AMMO_CRATE),
    ensures
        ({
            let after = state.gathered(in_reach);
            &&& state.respawn_timer < 500 ==> after.respawn_timer == state.respawn_timer + 1
            &&& state.respawn_timer < 500 ==> forall|i: int|
                0 <= i < SPRITES && #[trigger] after.sprites[i].active ==> state.sprites[i].active
            &&& state.respawn_timer == 500 ==> after.respawn_timer == 0
            &&& state.respawn_timer == 500 ==> forall|i: int|
                0 <= i < SPRITES ==> {
                    let s = state.sprites[i];
                    let t = #[trigger] after.sprites[i];
                    &&& t.active
                    &&& t.kind == s.kind && t.hit_flash == s.hit_flash
                    &&& s.kind == IMP ==> t.hp == 2 && t.cooldown == 40
                    &&& s.kind != IMP ==> t.hp == s.hp && t.cooldown == s.cooldown
                }
        }),
{
    lemma_collected(state, in_reach, SPRITES as nat);
    assert forall|i: int| 0 <= i < SPRITES implies {
        let s = state.sprites[i];
        let t = #[trigger] collected(state, in_reach, SPRITES as nat).sprites[i];
        t == (Sprite { active: t.active, ..s }) && (t.active ==> s.active)
    } by {
        law_pickups_add_up(state, in_reach, SPRITES as nat, i);
    }
}

/// A level with an imp and a pickup in it stays as it is: the wait does not go on,
/// and nothing comes back.
pub proof fn law_level_waits(state: GameState, in_reach: Seq<bool>, imp: int, pickup: int, i: int)
    requires
        state.wf(),
        0 <= imp < SPRITES && 0 <= pickup < SPRITES && 0 <= i < SPRITES,
        state.sprites[imp].active && state.sprites[imp].kind == IMP,
        state.sprites[pickup].active,
        state.sprites[pickup].kind == HEALTH_PACK || state.sprites[pickup].kind == AMMO_CRATE,
    ensures
        ({
            let after = state.gathered(in_reach);
            let t = after.sprites[i];
            &&& after.respawn_timer == state.respawn_timer
            &&& t == (Sprite { active: t.active, ..state.sprites[i] })
            &&& t.active ==> state.sprites[i].active
            &&& state.sprites[i].active && !in_reach[i] ==> t.active
        }),
{
    law_pickups_add_up(state, in_reach, SPRITES as nat, i);
    assert(state.has_enemy());
    assert(state.has_pickup());
}

/// The sprite after `n` of the enemies' turns in which it sees a living player.
pub open spec fn after_turns(sprite: Sprite, n: nat) -> Sprite
    decreases n,
{
    if n == 0 {
        sprite
    } else {
        after_turns(sprite, (n - 1) as nat).after_turn(false, true)
    }
}

/// An imp that has thrown waits for 35 of the turns in which it sees the player,
/// and throws in the next. A turn in which it does not see the player, or the
/// player is dead, does not shorten its wait.
pub proof fn law_imp_throws_in_turn(sprite: Sprite, n: nat)
    requires
        sprite.active,
        sprite.kind == IMP,
        sprite.cooldown == 0,
    ensures
        sprite.throws(false, true),
        0 < n <= 36 ==> after_turns(sprite, n).cooldown == 36 - n,
        0 < n <= 36 ==> (after_turns(sprite, n).throws(false, true) <==> n == 36),
        after_turns(sprite, n).after_turn(true, true).cooldown == after_turns(sprite, n).cooldown,
        after_turns(sprite, n).after_turn(false, false).cooldown == after_turns(
            sprite,
            n,
        ).cooldown,
        after_turns(sprite, n).active,
        after_turns(sprite, n).kind == IMP,
    decreases n,
{
    if n > 0 {
        law_imp_throws_in_turn(sprite, (n - 1) as nat);
    }
}

} // verus!
