use batting_sim::game_state::BattingSceneGameState;
use batting_sim::scenes::{SceneManager, SceneType};

#[test]
fn scene_manager_switches_scene() {
    let mut m = SceneManager { type_: SceneType::Batting };
    m.set_scene(SceneType::Test);
    assert_eq!(m.type_, SceneType::Test);
}

#[test]
fn game_state_owns_both_machines() {
    let mut g = BattingSceneGameState::new(1u32, 2u32);
    *g.batting_mut() += 10;
    *g.pitching_mut() += 20;
    assert_eq!(*g.batting(), 11);
    assert_eq!(*g.pitching(), 22);
}
