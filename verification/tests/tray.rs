use phonemic::tray::{menu_action, pause_label, MenuAction, ID_QUIT, ID_RESTART, ID_SHOW, ID_TOGGLE_PAUSE};

#[test]
fn ids_are_stable() {
    assert_eq!(ID_SHOW, "phonemic.tray.show");
    assert_eq!(ID_TOGGLE_PAUSE, "phonemic.tray.toggle_pause");
    assert_eq!(ID_RESTART, "phonemic.tray.restart");
    assert_eq!(ID_QUIT, "phonemic.tray.quit");
}

#[test]
fn menu_ids_map_to_actions() {
    assert_eq!(menu_action(ID_SHOW, false), MenuAction::ShowWindow);
    assert_eq!(menu_action(ID_TOGGLE_PAUSE, false), MenuAction::SetPaused { paused: true });
    assert_eq!(menu_action(ID_TOGGLE_PAUSE, true), MenuAction::SetPaused { paused: false });
    assert_eq!(menu_action(ID_RESTART, true), MenuAction::RequestRestart);
    assert_eq!(menu_action(ID_QUIT, false), MenuAction::Quit);
    assert_eq!(menu_action("phonemic.tray.other", false), MenuAction::Ignore);
}

#[test]
fn pause_label_names_the_next_action() {
    assert_eq!(pause_label(false), "Pause injection");
    assert_eq!(pause_label(true), "Resume injection");
}
