use tank_arena::ui::{Menu, UIState};

fn ui_with(menus: usize, chains: usize) -> UIState {
    let mut ui = UIState::new();
    for _ in 0..menus {
        ui.add_menu(Menu::new());
    }
    for _ in 0..chains {
        ui.create_menu_chain();
    }
    ui
}

#[test]
fn append_append_rollback_shows_first_menu() {
    let mut ui = ui_with(3, 1);
    ui.append_to_chain(0, 1);
    ui.append_to_chain(0, 2);
    assert!(!ui.is_menu_active(1));
    assert!(ui.is_menu_active(2));
    ui.rollback_chain(0);
    assert!(ui.is_menu_active(1));
    assert!(!ui.is_menu_active(2));
    assert_eq!(ui.chain(0), vec![1]);
}

#[test]
fn rollback_of_last_menu_leaves_nothing_shown() {
    let mut ui = ui_with(2, 1);
    ui.append_to_chain(0, 1);
    ui.rollback_chain(0);
    assert!(!ui.is_menu_active(1));
    assert_eq!(ui.chain(0), Vec::<usize>::new());
    ui.rollback_chain(0);
    assert_eq!(ui.chain(0), Vec::<usize>::new());
}

#[test]
fn toggle_opens_then_closes() {
    let mut ui = ui_with(2, 2);
    ui.append_to_chain(0, 0);
    ui.toggle_menu(1, 1);
    assert!(ui.is_menu_active(0));
    assert!(ui.is_menu_active(1));
    ui.toggle_menu(1, 1);
    assert!(!ui.is_menu_active(1));
    assert!(ui.is_menu_active(0));
    assert_eq!(ui.chain(0), vec![0]);
}

#[test]
fn reset_hides_all_and_empties_chains() {
    let mut ui = ui_with(2, 2);
    ui.append_to_chain(0, 0);
    ui.append_to_chain(1, 1);
    ui.reset();
    assert!(!ui.is_menu_active(0));
    assert!(!ui.is_menu_active(1));
    assert_eq!(ui.chain(0), Vec::<usize>::new());
    assert_eq!(ui.chain_count(), 2);
    assert_eq!(ui.menu_count(), 2);
}

#[test]
fn hide_all_menus_keeps_chains() {
    let mut ui = ui_with(2, 1);
    ui.append_to_chain(0, 0);
    ui.hide_all_menus();
    assert!(!ui.is_menu_active(0));
    assert_eq!(ui.chain(0), vec![0]);
}

#[test]
fn set_menus_replaces_menus_and_empties_chains() {
    let mut ui = ui_with(1, 1);
    ui.append_to_chain(0, 0);
    let mut shown = Menu::new();
    shown.show();
    ui.set_menus(vec![Menu::new(), shown]);
    assert_eq!(ui.menu_count(), 2);
    assert!(ui.is_menu_active(1));
    assert!(!ui.is_menu_active(0));
    assert_eq!(ui.chain(0), Vec::<usize>::new());
}

#[test]
fn menu_flag_operations() {
    let mut m = Menu::new();
    assert!(!m.is_active());
    m.toggle();
    assert!(m.is_active());
    m.conceal();
    assert!(!m.is_active());
    m.show();
    assert!(m.is_active());
}

use tank_arena::input::Command;
use tank_arena::ui::{ButtonColor, ButtonState, insert_index_buffer_quad, update_button, update_buttons};

#[test]
fn hovering_highlights_and_release_clicks() {
    assert_eq!(
        update_button(ButtonState::Normal, true, false, false),
        (ButtonState::Highlighted, false, Some(ButtonColor::Hover))
    );
    assert_eq!(
        update_button(ButtonState::Highlighted, true, true, false),
        (ButtonState::Highlighted, false, None)
    );
    assert_eq!(
        update_button(ButtonState::Highlighted, true, true, true),
        (ButtonState::Highlighted, false, Some(ButtonColor::Pressed))
    );
    assert_eq!(
        update_button(ButtonState::Highlighted, true, false, true),
        (ButtonState::Highlighted, true, None)
    );
    assert_eq!(
        update_button(ButtonState::Highlighted, false, false, true),
        (ButtonState::Normal, false, Some(ButtonColor::Idle))
    );
    assert_eq!(update_button(ButtonState::Normal, false, true, false), (ButtonState::Normal, false, None));
}

#[test]
fn clicked_buttons_issue_commands_in_order() {
    let mut states = vec![ButtonState::Highlighted, ButtonState::Normal, ButtonState::Highlighted, ButtonState::Highlighted];
    let hovered = vec![true, false, true, true];
    let commands = vec![Some(Command::StartPlaying), Some(Command::Quit), None, Some(Command::ToggleBlur)];
    let mut buffer = vec![Command::Fire];
    let repaint = update_buttons(&mut states, &hovered, &commands, false, true, &mut buffer);
    assert_eq!(buffer, vec![Command::Fire, Command::StartPlaying, Command::ToggleBlur]);
    assert_eq!(repaint, vec![]);
    let repaint = update_buttons(&mut states, &vec![false, true, true, true], &commands, false, false, &mut buffer);
    assert_eq!(repaint, vec![(0, ButtonColor::Idle), (1, ButtonColor::Hover), (2, ButtonColor::Hover), (3, ButtonColor::Hover)]);
    assert_eq!(states, vec![ButtonState::Normal, ButtonState::Highlighted, ButtonState::Highlighted, ButtonState::Highlighted]);
    assert_eq!(buffer.len(), 3);
}

#[test]
fn quad_indices_form_two_triangles() {
    let mut buffer = vec![0u16; 18];
    insert_index_buffer_quad(&mut buffer, 1);
    insert_index_buffer_quad(&mut buffer, 2);
    assert_eq!(buffer, vec![0, 0, 0, 0, 0, 0, 4, 5, 6, 7, 6, 5, 8, 9, 10, 11, 10, 9]);
}
