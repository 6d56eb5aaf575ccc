//! Plain data carried by the surrounding simulation layer: entity tags,
//! team and AI markers, input bindings, and the coarse game states. The
//! generation core does not read these; they are part of the crate's data
//! contract with the systems that call it.

use vstd::prelude::*;

verus! {

/// Which side an actor fights for.
#[derive(Clone, Copy, Debug, PartialEq, Eq, Structural)]
pub enum Team {
    Neutral,
    Player,
    Enemy,
}

/// An actor's team, as a component.
#[derive(Clone, Copy, Debug)]
pub struct TeamFlag(pub Team);

impl Default for TeamFlag {
    /// Actors start neutral.
    fn default() -> (t: TeamFlag)
        ensures
            t.0 == Team::Neutral,
    {
        TeamFlag(Team::Neutral)
    }
}

/// Marker for anything that acts in the world.
#[derive(Clone, Copy, Debug)]
pub struct Actor;

/// Marker for an actor's floating health bar.
#[derive(Clone, Copy, Debug)]
pub struct HealthBar;

/// Marker telling the camera which entity to follow; the flag switches
/// following off without removing the marker.
#[derive(Clone, Copy, Debug)]
pub struct CameraFocus(pub bool);

impl Default for CameraFocus {
    /// A fresh focus is active.
    fn default() -> (c: CameraFocus)
        ensures
            c.0 == true,
    {
        CameraFocus(true)
    }
}

/// The behavior an enemy runs.
#[derive(Clone, Copy, Debug, PartialEq, Eq, Structural)]
pub enum EnemyAiType {
    Basic,
}

/// An enemy's selected behavior, as a component.
#[derive(Clone, Copy, Debug)]
pub struct EnemyAi(pub EnemyAiType);

impl Default for EnemyAi {
    /// Enemies start with the basic chase behavior.
    fn default() -> (a: EnemyAi)
        ensures
            a.0 == EnemyAiType::Basic,
    {
        EnemyAi(EnemyAiType::Basic)
    }
}

/// Marker for every gameplay entity.
#[derive(Clone, Copy, Debug)]
pub struct GameEntity;

/// The player's abstract input actions.
#[derive(Clone, Copy, Debug, PartialEq, Eq, Structural)]
pub enum Action {
    Move,
}

/// A dual-axis key binding for one action.
#[derive(Clone, Copy, Debug)]
pub struct InputMap {
    pub action: Action,
    pub up: char,
    pub left: char,
    pub down: char,
    pub right: char,
}

impl Action {
    /// The stock binding: movement on a WASD virtual d-pad.
    pub fn default_input_map() -> (m: InputMap)
        ensures
            m.action == Action::Move,
            m.up == 'w',
            m.left == 'a',
            m.down == 's',
            m.right == 'd',
    {
        InputMap { action: Action::Move, up: 'w', left: 'a', down: 's', right: 'd' }
    }
}

/// Marker for the input plugin of the surrounding layer.
#[derive(Clone, Copy, Debug)]
pub struct InputPlugin;

/// The coarse phases the game moves through.
#[derive(Clone, Copy, Debug, PartialEq, Eq, Structural)]
pub enum GameState {
    Loading,
    GeneratingMap,
    InGame,
}

impl Default for GameState {
    /// The game starts loading.
    fn default() -> (s: GameState)
        ensures
            s == GameState::Loading,
    {
        GameState::Loading
    }
}

/// The phases of the initial loading screen.
#[derive(Clone, Copy, Debug, PartialEq, Eq, Structural)]
pub enum MainLoadingState {
    Assets,
    WorldData,
    Done,
}

impl Default for MainLoadingState {
    /// Loading begins with assets.
    fn default() -> (s: MainLoadingState)
        ensures
            s == MainLoadingState::Assets,
    {
        MainLoadingState::Assets
    }
}

/// Marker for the root plugin of the surrounding layer.
#[derive(Clone, Copy, Debug)]
pub struct Core;

/// Marker for the player entity.
#[derive(Clone, Copy, Debug)]
pub struct Player;

/// Marker for a weapon entity.
#[derive(Clone, Copy, Debug)]
pub struct Weapon;

/// The weapons an actor carries, by entity id.
#[derive(Debug)]
pub struct EquippedWeapons(pub Vec<u64>);

impl Default for EquippedWeapons {
    /// Actors start unarmed.
    fn default() -> (e: EquippedWeapons)
        ensures
            e.0@.len() == 0,
    {
        EquippedWeapons(Vec::new())
    }
}

/// Marker for the weapons plugin of the surrounding layer.
#[derive(Clone, Copy, Debug)]
pub struct WeaponPlugin;

/// The phases of a lunging satellite.
#[derive(Clone, Copy, Debug, PartialEq, Eq, Structural)]
pub enum LungeState {
    Idle,
    LungingOut,
    Returning,
}

/// One satellite of an orbiting weapon: its slot and its owning weapon's
/// entity id.
#[derive(Clone, Copy, Debug)]
pub struct OrbitWeaponSatellite {
    pub index: usize,
    pub weapon: u64,
}

/// Marker for the world of the running game.
#[derive(Clone, Copy, Debug)]
pub struct World;

} // verus!
