use ebonshire::color::{tile_id_to_color, Rgba, TileId};
use ebonshire::game::{
    Action, CameraFocus, EnemyAi, EnemyAiType, EquippedWeapons, GameState, MainLoadingState, Team,
    TeamFlag,
};

#[test]
fn defaults_of_entity_tags() {
    assert_eq!(TeamFlag::default().0, Team::Neutral);
    assert_eq!(EnemyAi::default().0, EnemyAiType::Basic);
    assert!(CameraFocus::default().0);
    assert!(EquippedWeapons::default().0.is_empty());
}

#[test]
fn game_state_defaults() {
    assert_eq!(GameState::default(), GameState::Loading);
    assert_eq!(MainLoadingState::default(), MainLoadingState::Assets);
}

#[test]
fn default_input_map_is_wasd() {
    let m = Action::default_input_map();
    assert_eq!(m.action, Action::Move);
    assert_eq!(m.up, 'w');
    assert_eq!(m.left, 'a');
    assert_eq!(m.down, 's');
    assert_eq!(m.right, 'd');
}

#[test]
fn ecozone_palette_spot_checks() {
    assert_eq!(tile_id_to_color(TileId::River), Rgba([30, 144, 255, 255]));
    assert_eq!(tile_id_to_color(TileId::DeepOcean), Rgba([0, 0, 255, 255]));
    assert_eq!(tile_id_to_color(TileId::Snow), Rgba([255, 250, 250, 255]));
    assert_eq!(tile_id_to_color(TileId::Grassland), Rgba([124, 252, 0, 255]));
}
