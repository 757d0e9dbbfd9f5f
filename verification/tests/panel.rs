use debug_session::debugger_panel::{
    CommandVisibility, DebugPanel, DockPosition, PaneEvent, PanelAction, PanelEvent, PanelItem,
};
use debug_session::events::Capabilities;

fn item(client_id: u64, thread_id: u64) -> PanelItem {
    PanelItem { client_id, thread_id }
}

fn panel_with(items: &[PanelItem]) -> DebugPanel {
    let mut panel = DebugPanel::new(true);
    for i in items {
        panel.handle_pane_event(PaneEvent::AddItem { item: *i });
    }
    panel
}

#[test]
fn new_panel_has_no_views() {
    let panel = DebugPanel::new(true);
    assert_eq!(panel.active_debug_panel_item(), None);
    assert!(panel.debug_panel_items_by_client(1).is_empty());
    assert_eq!(panel.debug_panel_item_by_client(1, 1), None);
}

#[test]
fn added_views_are_found_by_client_in_pane_order() {
    let panel = panel_with(&[item(1, 5), item(2, 1), item(1, 3), item(1, 4)]);
    assert_eq!(panel.debug_panel_items_by_client(1), vec![item(1, 5), item(1, 3), item(1, 4)]);
    assert_eq!(panel.debug_panel_items_by_client(2), vec![item(2, 1)]);
    assert!(panel.debug_panel_items_by_client(3).is_empty());
}

#[test]
fn view_is_found_by_client_and_thread() {
    let panel = panel_with(&[item(1, 5), item(2, 1)]);
    assert_eq!(panel.debug_panel_item_by_client(2, 1), Some(item(2, 1)));
    assert_eq!(panel.debug_panel_item_by_client(1, 1), None);
    assert_eq!(panel.debug_panel_item_by_client(2, 5), None);
}

#[test]
fn adding_a_view_attaches_it() {
    let mut panel = DebugPanel::new(true);
    assert_eq!(
        panel.handle_pane_event(PaneEvent::AddItem { item: item(1, 1) }),
        PanelAction::AddedToPane { item: item(1, 1) }
    );
}

#[test]
fn closing_a_view_closes_its_thread() {
    let mut panel = panel_with(&[item(1, 5), item(2, 1)]);
    panel.handle_pane_event(PaneEvent::ActivateItem { item: item(1, 5), local: true });
    assert_eq!(
        panel.handle_pane_event(PaneEvent::RemovedItem { item: item(1, 5) }),
        PanelAction::CloseThread { client_id: 1, thread_id: 5 }
    );
    assert_eq!(panel.debug_panel_item_by_client(1, 5), None);
    assert_eq!(panel.active_debug_panel_item(), None);
    assert_eq!(panel.debug_panel_item_by_client(2, 1), Some(item(2, 1)));
}

#[test]
fn closing_one_of_two_equal_views_keeps_the_other() {
    let mut panel = panel_with(&[item(1, 5), item(1, 6), item(1, 5)]);
    panel.handle_pane_event(PaneEvent::RemovedItem { item: item(1, 5) });
    assert_eq!(panel.debug_panel_items_by_client(1), vec![item(1, 6), item(1, 5)]);
}

#[test]
fn local_activation_goes_to_the_current_frame() {
    let mut panel = panel_with(&[item(1, 5), item(2, 1)]);
    assert_eq!(
        panel.handle_pane_event(PaneEvent::ActivateItem { item: item(2, 1), local: true }),
        PanelAction::GoToCurrentStackFrame { item: item(2, 1) }
    );
    assert_eq!(panel.active_debug_panel_item(), Some(item(2, 1)));
    assert!(panel.is_active(2, 1));
    assert!(!panel.is_active(1, 5));
}

#[test]
fn remote_activation_only_changes_the_front() {
    let mut panel = panel_with(&[item(1, 5), item(2, 1)]);
    assert_eq!(
        panel.handle_pane_event(PaneEvent::ActivateItem { item: item(1, 5), local: false }),
        PanelAction::Nothing
    );
    assert_eq!(panel.active_debug_panel_item(), Some(item(1, 5)));
}

#[test]
fn activation_of_what_is_no_thread_view_leaves_no_view_in_front() {
    let mut panel = panel_with(&[item(1, 5)]);
    panel.handle_pane_event(PaneEvent::ActivateItem { item: item(1, 5), local: true });
    assert_eq!(
        panel.handle_pane_event(PaneEvent::ActivateItem { item: item(9, 9), local: true }),
        PanelAction::Nothing
    );
    assert_eq!(panel.active_debug_panel_item(), None);
}

#[test]
fn pane_events_are_passed_to_the_dock() {
    let mut panel = DebugPanel::new(true);
    assert_eq!(panel.handle_pane_event(PaneEvent::Remove), PanelAction::Emit(PanelEvent::Close));
    assert_eq!(panel.handle_pane_event(PaneEvent::ZoomIn), PanelAction::Emit(PanelEvent::ZoomIn));
    assert_eq!(panel.handle_pane_event(PaneEvent::ZoomOut), PanelAction::Emit(PanelEvent::ZoomOut));
    assert_eq!(panel.handle_pane_event(PaneEvent::Other), PanelAction::Nothing);
}

#[test]
fn commands_are_offered_while_a_view_is_in_front() {
    let mut panel = panel_with(&[item(1, 5)]);
    let can = Capabilities { supports_step_back: Some(true) };
    let cannot = Capabilities { supports_step_back: Some(false) };
    let silent = Capabilities { supports_step_back: None };
    assert_eq!(
        panel.command_visibility(can),
        CommandVisibility { debugger_actions: false, step_back: false }
    );
    panel.handle_pane_event(PaneEvent::ActivateItem { item: item(1, 5), local: true });
    assert_eq!(
        panel.command_visibility(can),
        CommandVisibility { debugger_actions: true, step_back: true }
    );
    assert_eq!(
        panel.command_visibility(cannot),
        CommandVisibility { debugger_actions: true, step_back: false }
    );
    assert_eq!(
        panel.command_visibility(silent),
        CommandVisibility { debugger_actions: true, step_back: false }
    );
}

#[test]
fn panel_sits_at_the_bottom() {
    let panel = DebugPanel::new(false);
    assert_eq!(DebugPanel::persistent_name(), "DebugPanel");
    assert_eq!(panel.position(), DockPosition::Bottom);
    assert!(panel.position_is_valid(DockPosition::Bottom));
    assert!(!panel.position_is_valid(DockPosition::Left));
    assert!(!panel.position_is_valid(DockPosition::Right));
    assert_eq!(panel.activation_priority(), 9);
}

#[test]
fn tooltip_follows_the_button_setting() {
    assert_eq!(DebugPanel::new(true).icon_tooltip(), Some("Debug Panel"));
    assert_eq!(DebugPanel::new(false).icon_tooltip(), None);
}

#[test]
fn panel_without_views_shows_the_start_hint() {
    let mut panel = DebugPanel::new(true);
    assert!(panel.shows_start_hint());
    panel.handle_pane_event(PaneEvent::AddItem { item: item(1, 1) });
    assert!(!panel.shows_start_hint());
    panel.handle_pane_event(PaneEvent::RemovedItem { item: item(1, 1) });
    assert!(panel.shows_start_hint());
}
