use tank_arena::entity::{Brain, TANK_ROTATION_SPEED, TANK_SPEED};
use tank_arena::game::{Effect, Game, GameState, GameStateKind, ImageEffect};
use tank_arena::input::{Action, Bindings, Command, InputKind, submit_input_command};
use tank_arena::ui::{Menu, UIState};

const KEY_W: i32 = 87;
const KEY_ESCAPE: i32 = 256;

fn playing_bindings() -> Bindings {
    let mut b = Bindings::new();
    b.bind((InputKind::Key(KEY_ESCAPE), Action::Press), Command::PauseGame);
    b.bind((InputKind::Key(KEY_W), Action::Press), Command::MovePlayerTank(-TANK_SPEED));
    b.bind((InputKind::Key(KEY_W), Action::Release), Command::MovePlayerTank(TANK_SPEED));
    b.bind((InputKind::Mouse(0), Action::Press), Command::Fire);
    b
}

fn paused_bindings() -> Bindings {
    let mut b = Bindings::new();
    b.bind((InputKind::Key(KEY_ESCAPE), Action::Press), Command::UnPauseGame);
    b
}

// Menus: 0 main, 1 pause, 2 settings; chain 0 is the main chain.
fn game() -> Game<(), ()> {
    let mut ui = UIState::new();
    ui.add_menu(Menu::new());
    ui.add_menu(Menu::new());
    ui.add_menu(Menu::new());
    let chain = ui.create_menu_chain();
    ui.append_to_chain(chain, 0);
    let maps = vec![
        (GameStateKind::Playing, playing_bindings()),
        (GameStateKind::Paused, paused_bindings()),
    ];
    let state = GameState::new(GameStateKind::MainMenu, maps);
    Game::new(state, ui, (), (), chain, 0, 1)
}

fn player_speed(g: &Game<(), ()>) -> (i64, i64) {
    let t = g.world.tanks.get(g.world.player.unwrap()).unwrap();
    (t.speed, t.rotating)
}

#[test]
fn start_playing_spawns_tanks_and_resets_clock() {
    let mut g = game();
    assert!(g.ui.is_menu_active(0));
    let fx = g.process_command(Command::StartPlaying);
    assert_eq!(fx, vec![Effect::StartMusic]);
    assert_eq!(g.state.kind, GameStateKind::Playing);
    assert_eq!(g.world.tanks.count(), 2);
    assert_eq!(g.world.elapsed_time, 0);
    assert!(!g.ui.is_menu_active(0));
    assert!(!g.title_shown());
    assert_eq!(g.image_effect, ImageEffect::Plain);
}

#[test]
fn move_press_then_release_restores_speed() {
    let mut g = game();
    g.process_command(Command::StartPlaying);
    let before = player_speed(&g);
    g.process_command(Command::MovePlayerTank(-TANK_SPEED));
    assert_eq!(player_speed(&g).0, -TANK_SPEED);
    g.process_command(Command::RotatePlayerTank(TANK_ROTATION_SPEED));
    g.process_command(Command::MovePlayerTank(-TANK_SPEED));
    g.process_command(Command::MovePlayerTank(TANK_SPEED));
    g.process_command(Command::MovePlayerTank(TANK_SPEED));
    g.process_command(Command::RotatePlayerTank(-TANK_ROTATION_SPEED));
    assert_eq!(player_speed(&g), before);
}

#[test]
fn pause_zeroes_player_motion_and_freezes_clock() {
    let mut g = game();
    g.process_command(Command::StartPlaying);
    g.tick(16_000);
    g.process_command(Command::MovePlayerTank(-TANK_SPEED));
    g.process_command(Command::RotatePlayerTank(TANK_ROTATION_SPEED));
    let fx = g.process_command(Command::PauseGame);
    assert_eq!(fx, vec![Effect::RefreshSnapshot, Effect::DuckMusic]);
    assert_eq!(g.state.kind, GameStateKind::Paused);
    assert_eq!(player_speed(&g), (0, 0));
    assert_eq!(g.image_effect, ImageEffect::Blur);
    assert!(g.ui.is_menu_active(1));
    assert!(g.title_shown());
    let t = g.world.elapsed_time;
    g.tick(16_000);
    g.tick(500_000);
    assert_eq!(g.world.elapsed_time, t);
    let fx = g.process_command(Command::UnPauseGame);
    assert_eq!(fx, vec![Effect::RestoreMusic]);
    assert!(!g.ui.is_menu_active(1));
    assert_eq!(g.image_effect, ImageEffect::Plain);
    g.tick(16_000);
    assert_eq!(g.world.elapsed_time, t + 16_000);
}

#[test]
fn return_to_main_menu_clears_the_arena() {
    let mut g = game();
    g.process_command(Command::StartPlaying);
    g.process_command(Command::SpawnEnemy);
    assert_eq!(g.world.tanks.count(), 3);
    let fx = g.process_command(Command::ReturnToMainMenu);
    assert_eq!(fx, vec![Effect::RefreshSnapshot, Effect::StopMusic]);
    assert_eq!(g.world.tanks.len(), 0);
    assert_eq!(g.world.shells.len(), 0);
    assert_eq!(g.state.kind, GameStateKind::MainMenu);
    assert!(g.ui.is_menu_active(0));
    assert!(!g.ui.is_menu_active(1));
}

#[test]
fn spawn_enemy_adds_an_ai_tank() {
    let mut g = game();
    g.process_command(Command::StartPlaying);
    g.process_command(Command::SpawnEnemy);
    assert_eq!(g.world.tanks.get(2).unwrap().brain, Brain::DumbAI);
}

#[test]
fn collaborator_only_commands_pass_through() {
    let mut g = game();
    assert_eq!(g.process_command(Command::Quit), vec![Effect::Quit]);
    assert_eq!(g.process_command(Command::ToggleWireframe), vec![Effect::ToggleWireframe]);
    assert_eq!(g.process_command(Command::ToggleCollisionVolumes), vec![Effect::ToggleCollisionVolumes]);
    assert_eq!(
        g.process_command(Command::ToggleFullScreen),
        vec![Effect::RefreshSnapshot, Effect::ToggleFullScreen]
    );
    assert_eq!(g.process_command(Command::ToggleBlur), vec![]);
    assert_eq!(g.image_effect, ImageEffect::Blur);
    g.process_command(Command::ToggleBlur);
    assert_eq!(g.image_effect, ImageEffect::Plain);
}

#[test]
fn menu_commands_with_bad_indices_are_dropped() {
    let mut g = game();
    g.process_command(Command::AppendToMenuChain(5, 0));
    g.process_command(Command::AppendToMenuChain(0, 9));
    g.process_command(Command::MenuChainRollback(3));
    g.process_command(Command::ToggleMenu(0, 9));
    assert_eq!(g.ui.chain(0), vec![0]);
    g.process_command(Command::AppendToMenuChain(0, 2));
    assert_eq!(g.ui.chain(0), vec![0, 2]);
    assert!(!g.ui.is_menu_active(0));
    g.process_command(Command::MenuChainRollback(0));
    assert_eq!(g.ui.chain(0), vec![0]);
    assert!(g.ui.is_menu_active(0));
}

#[test]
fn bindings_follow_the_mode() {
    let mut g = game();
    let escape = (InputKind::Key(KEY_ESCAPE), Action::Press);
    let mut buffer = Vec::new();
    submit_input_command(&escape, &mut buffer, &g.state.get_input_map());
    assert!(buffer.is_empty());
    g.process_command(Command::StartPlaying);
    submit_input_command(&escape, &mut buffer, &g.state.get_input_map());
    assert_eq!(buffer, vec![Command::PauseGame]);
    g.process_command(Command::PauseGame);
    submit_input_command(&escape, &mut buffer, &g.state.get_input_map());
    assert_eq!(buffer, vec![Command::PauseGame, Command::UnPauseGame]);
    let fire = (InputKind::Mouse(0), Action::Press);
    submit_input_command(&fire, &mut buffer, &g.state.get_input_map());
    assert_eq!(buffer.len(), 2);
}

#[test]
fn later_binding_replaces_earlier() {
    let mut b = Bindings::new();
    let w = (InputKind::Key(KEY_W), Action::Press);
    b.bind(w, Command::Fire);
    b.bind(w, Command::Quit);
    assert_eq!(b.get(&w), Some(Command::Quit));
    assert_eq!(b.get(&(InputKind::Key(KEY_W), Action::Repeat)), None);
    let copy = b.duplicate();
    assert_eq!(copy.get(&w), Some(Command::Quit));
}

#[test]
fn fire_command_raises_player_intent() {
    let mut g = game();
    g.process_command(Command::StartPlaying);
    g.process_command(Command::Fire);
    let p = g.world.player.unwrap();
    assert!(g.world.tanks.get(p).unwrap().firing);
}
