use em_cockpit::system::tray::{
    StateChange, TrayError, TrayManager, TrayMenuAction, TrayState, TrayStatus,
};

#[test]
fn test_tray_state_priority() {
    assert!(TrayState::Red.priority() > TrayState::Amber.priority());
    assert!(TrayState::Amber.priority() > TrayState::Green.priority());
    assert!(TrayState::Green.priority() > TrayState::Neutral.priority());
}

#[test]
fn test_tray_state_combine_takes_higher_priority() {
    assert_eq!(TrayState::Red.combine(&TrayState::Green), TrayState::Red);
    assert_eq!(TrayState::Green.combine(&TrayState::Red), TrayState::Red);
    assert_eq!(TrayState::Amber.combine(&TrayState::Neutral), TrayState::Amber);
}

#[test]
fn test_tray_state_should_alert() {
    assert!(TrayState::Red.should_alert());
    assert!(!TrayState::Amber.should_alert());
    assert!(!TrayState::Green.should_alert());
    assert!(!TrayState::Neutral.should_alert());
}

#[test]
fn test_tray_state_color_hex() {
    assert_eq!(TrayState::Red.color_hex(), "#EF4444");
    assert_eq!(TrayState::Amber.color_hex(), "#F59E0B");
    assert_eq!(TrayState::Green.color_hex(), "#10B981");
    assert_eq!(TrayState::Neutral.color_hex(), "#6B7280");
}

#[test]
fn test_tray_status_default() {
    let status = TrayStatus::new();
    assert_eq!(status.state, TrayState::Neutral);
    assert_eq!(status.pending_prs, 0);
    assert_eq!(status.active_incidents, 0);
}

#[test]
fn test_tray_status_with_incidents_is_red() {
    let status = TrayStatus::new().with_incidents(1);
    assert_eq!(status.state, TrayState::Red);
}

#[test]
fn test_tray_status_with_stale_prs_is_amber() {
    let status = TrayStatus::new().with_prs(5, 2);
    assert_eq!(status.state, TrayState::Amber);
}

#[test]
fn test_tray_status_no_pending_is_green() {
    let status = TrayStatus::new().with_prs(0, 0);
    assert_eq!(status.state, TrayState::Green);
}

#[test]
fn test_tray_status_pending_but_not_stale_is_neutral() {
    let status = TrayStatus::new().with_prs(3, 0);
    assert_eq!(status.state, TrayState::Neutral);
}

#[test]
fn test_tray_status_incidents_override_prs() {
    let status = TrayStatus::new().with_prs(0, 0).with_incidents(1);
    assert_eq!(status.state, TrayState::Red);
}

#[test]
fn test_tooltip_with_prs() {
    let status = TrayStatus::new().with_prs(3, 1);
    let tooltip = status.tooltip();
    assert!(tooltip.contains("3 PRs waiting"));
    assert!(tooltip.contains("1 stale PR"));
}

#[test]
fn test_tooltip_with_incidents() {
    let status = TrayStatus::new().with_incidents(2);
    let tooltip = status.tooltip();
    assert!(tooltip.contains("2 active incidents"));
}

#[test]
fn test_tooltip_all_clear() {
    let status = TrayStatus::new().with_prs(0, 0).with_incidents(0);
    let tooltip = status.tooltip();
    assert_eq!(tooltip, "All systems nominal.");
}

#[test]
fn test_tooltip_singular_forms() {
    let status = TrayStatus::new().with_prs(1, 1).with_incidents(1);
    let tooltip = status.tooltip();
    assert!(tooltip.contains("1 PR waiting"));
    assert!(tooltip.contains("1 stale PR"));
    assert!(tooltip.contains("1 active incident"));
}

#[test]
fn test_tray_manager_initialization() {
    let mut manager = TrayManager::new();
    assert!(!manager.is_initialized());

    manager.initialize().unwrap();
    assert!(manager.is_initialized());
}

#[test]
fn test_tray_manager_initial_state() {
    let manager = TrayManager::new();
    let state = manager.get_state().unwrap();
    assert_eq!(state, TrayState::Neutral);
}

#[test]
fn test_tray_manager_update_status() {
    let mut manager = TrayManager::new();

    let status = TrayStatus::new().with_incidents(1);
    let change = manager.update_status(status).unwrap();

    assert_eq!(change.from, TrayState::Neutral);
    assert_eq!(change.to, TrayState::Red);
    assert!(change.should_animate);
    assert!(change.should_alert);
}

#[test]
fn test_tray_manager_update_prs() {
    let mut manager = TrayManager::new();

    let change = manager.update_prs(5, 2).unwrap();

    assert_eq!(change.to, TrayState::Amber);
    assert!(change.should_animate);
}

#[test]
fn test_tray_manager_update_incidents() {
    let mut manager = TrayManager::new();

    let change = manager.update_incidents(1).unwrap();

    assert_eq!(change.to, TrayState::Red);
    assert!(change.should_alert);
}

#[test]
fn test_tray_manager_get_tooltip() {
    let mut manager = TrayManager::new();

    manager.update_prs(3, 1).unwrap();
    let tooltip = manager.get_tooltip().unwrap();

    assert!(tooltip.contains("3 PRs"));
}

#[test]
fn test_tray_manager_reset() {
    let mut manager = TrayManager::new();

    manager.update_incidents(1).unwrap();
    assert_eq!(manager.get_state().unwrap(), TrayState::Red);

    manager.reset().unwrap();
    assert_eq!(manager.get_state().unwrap(), TrayState::Neutral);
}

#[test]
fn test_state_change_escalation() {
    let change = StateChange {
        from: TrayState::Green,
        to: TrayState::Red,
        should_animate: true,
        should_alert: true,
    };

    assert!(change.is_escalation());
    assert!(!change.is_de_escalation());
}

#[test]
fn test_state_change_de_escalation() {
    let change = StateChange {
        from: TrayState::Red,
        to: TrayState::Green,
        should_animate: true,
        should_alert: false,
    };

    assert!(!change.is_escalation());
    assert!(change.is_de_escalation());
}

#[test]
fn test_tray_menu_action_labels() {
    assert_eq!(TrayMenuAction::OpenFlightConsole.label(), "Open Flight Console");
    assert_eq!(TrayMenuAction::Quit.label(), "Quit");
}

#[test]
fn test_tray_menu_action_all() {
    let actions = TrayMenuAction::all();
    assert_eq!(actions.len(), 5);
    assert!(actions.contains(&TrayMenuAction::OpenFlightConsole));
    assert!(actions.contains(&TrayMenuAction::Quit));
}

#[test]
fn alert_level_follows_the_first_rule_that_applies() {
    assert_eq!(TrayState::from_counts(1, 0, 0), TrayState::Red);
    assert_eq!(TrayState::from_counts(0, 1, 0), TrayState::Amber);
    assert_eq!(TrayState::from_counts(0, 0, 0), TrayState::Green);
    assert_eq!(TrayState::from_counts(0, 0, 3), TrayState::Neutral);
    assert_eq!(TrayState::from_counts(2, 5, 7), TrayState::Red);
    assert_eq!(TrayState::from_counts(0, 5, 7), TrayState::Amber);
}

#[test]
fn combine_is_the_maximum_of_the_order() {
    let all = [TrayState::Neutral, TrayState::Green, TrayState::Amber, TrayState::Red];
    for a in all {
        for b in all {
            let c = a.combine(&b);
            assert_eq!(c.priority(), a.priority().max(b.priority()));
            assert_eq!(c, b.combine(&a));
        }
        assert_eq!(a.combine(&a), a);
    }
}

#[test]
fn tooltip_is_exact() {
    assert_eq!(
        TrayStatus::new().with_prs(12, 1).with_incidents(3).tooltip(),
        "12 PRs waiting. 1 stale PR. 3 active incidents."
    );
    assert_eq!(TrayStatus::new().with_prs(1, 0).tooltip(), "1 PR waiting.");
    assert_eq!(TrayStatus::new().with_prs(0, 2).tooltip(), "2 stale PRs.");
    assert_eq!(TrayStatus::new().with_incidents(100).tooltip(), "100 active incidents.");
    assert_eq!(TrayStatus::new().with_message("Paused").tooltip(), "Paused");
    assert_eq!(TrayStatus::new().with_message("Paused").with_prs(2, 0).tooltip(), "2 PRs waiting.");
}

#[test]
fn state_words_and_error_messages() {
    assert_eq!(TrayState::Neutral.to_string(), "Neutral");
    assert_eq!(TrayState::Green.to_string(), "All Clear");
    assert_eq!(TrayState::Amber.to_string(), "Attention Needed");
    assert_eq!(TrayState::Red.to_string(), "Critical");
    assert_eq!(TrayState::default(), TrayState::Neutral);
    assert_eq!(TrayError::NotInitialized.to_string(), "Tray not initialized");
    assert_eq!(TrayError::LockError("poisoned".to_string()).to_string(), "Lock error: poisoned");
    assert_eq!(
        TrayError::CreationFailed("x".to_string()).to_string(),
        "Failed to create tray icon: x"
    );
    assert_eq!(TrayError::UpdateFailed("y".to_string()).to_string(), "Failed to update tray icon: y");
}

#[test]
fn a_transition_is_recorded_only_on_change() {
    let mut manager = TrayManager::new();
    let first = manager.update_incidents(2).unwrap();
    assert!(first.should_animate && first.should_alert && first.is_escalation());
    let second = manager.update_incidents(3).unwrap();
    assert_eq!(second.from, TrayState::Red);
    assert_eq!(second.to, TrayState::Red);
    assert!(!second.should_animate);
    assert!(!second.should_alert);
    let third = manager.update_incidents(0).unwrap();
    assert_eq!(third.to, TrayState::Green);
    assert!(third.should_animate && !third.should_alert && third.is_de_escalation());
    assert_eq!(manager.get_status().unwrap().active_incidents, 0);
}
