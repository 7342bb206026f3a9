use zode::session::{AppPhase, ProfileMeta, Tab, TabView, UnlockNext, VaultUnlock, ZodeApp};

fn profile(id: &str) -> ProfileMeta {
    ProfileMeta { id: id.to_string(), name: format!("name-{id}"), peer_id: format!("peer-{id}") }
}

fn unlock_phase(app: &ZodeApp) -> Option<String> {
    match &app.phase {
        AppPhase::Unlock { profile_id } => Some(profile_id.clone()),
        _ => None,
    }
}

#[test]
fn new_without_profiles_is_setup() {
    let app = ZodeApp::new(vec![]);
    assert!(matches!(app.phase, AppPhase::Setup));
    assert!(app.tab == Tab::Status);
    assert!(!app.zode_running);
}

#[test]
fn new_with_one_profile_unlocks_it() {
    let app = ZodeApp::new(vec![profile("a")]);
    assert_eq!(unlock_phase(&app), Some("a".to_string()));
}

#[test]
fn new_with_profiles_selects() {
    let app = ZodeApp::new(vec![profile("a"), profile("b")]);
    assert!(matches!(app.phase, AppPhase::ProfileSelect));
}

#[test]
fn unlock_success_boots_and_reveals() {
    let mut app = ZodeApp::new(vec![profile("a")]);
    app.unlock_password = "pw".to_string();
    let next = app.attempt_unlock(
        &"a".to_string(),
        Ok(VaultUnlock { has_node_keypair: true, machine_key_derived: true }),
    );
    assert!(matches!(next, UnlockNext::Boot { with_vault_keypair: true }));
    assert!(matches!(app.phase, AppPhase::Revealing));
    assert_eq!(app.session_password.as_deref(), Some("pw"));
    assert_eq!(app.unlock_password, "");
    assert_eq!(app.active_profile_id.as_deref(), Some("a"));
    assert!(app.has_machine_key);
    app.finish_reveal();
    assert!(matches!(app.phase, AppPhase::Running));
}

#[test]
fn unlock_success_resumes_running_node() {
    let mut app = ZodeApp::new(vec![profile("a")]);
    app.zode_running = true;
    let next = app.attempt_unlock(
        &"a".to_string(),
        Ok(VaultUnlock { has_node_keypair: false, machine_key_derived: false }),
    );
    assert!(matches!(next, UnlockNext::Resume));
    assert!(matches!(app.phase, AppPhase::Running));
    assert!(!app.has_machine_key);
}

#[test]
fn unlock_without_vault_keypair_boots_fresh() {
    let mut app = ZodeApp::new(vec![profile("a")]);
    let next = app.attempt_unlock(
        &"a".to_string(),
        Ok(VaultUnlock { has_node_keypair: false, machine_key_derived: false }),
    );
    assert!(matches!(next, UnlockNext::Boot { with_vault_keypair: false }));
}

#[test]
fn unlock_failure_shows_error() {
    let mut app = ZodeApp::new(vec![profile("a"), profile("b")]);
    app.unlock_password = "bad".to_string();
    let next = app.attempt_unlock(&"b".to_string(), Err("wrong password".to_string()));
    assert!(matches!(next, UnlockNext::Retry));
    assert_eq!(app.unlock_error.as_deref(), Some("wrong password"));
    assert_eq!(unlock_phase(&app), Some("b".to_string()));
    assert_eq!(app.unlock_password, "bad");
    assert_eq!(app.active_profile_id, None);
}

#[test]
fn boot_with_bad_config_shows_error() {
    let mut app = ZodeApp::new(vec![]);
    app.keypair_auto_persisted = true;
    assert!(!app.boot_zode_with_keypair(Err("bad port".to_string())));
    assert_eq!(app.settings_error.as_deref(), Some("bad port"));
    assert!(!app.keypair_auto_persisted);
    assert!(app.boot_zode_with_keypair(Ok(())));
    assert_eq!(app.settings_error, None);
}

#[test]
fn start_failure_message() {
    let mut app = ZodeApp::new(vec![]);
    app.zode_started(Err("address in use".to_string()));
    assert_eq!(app.settings_error.as_deref(), Some("Start failed: address in use"));
    assert!(!app.zode_running);
    app.zode_started(Ok(()));
    assert!(app.zode_running);
    app.stop_zode();
    assert!(!app.zode_running);
}

#[test]
fn delete_profile_keeps_others() {
    let mut app = ZodeApp::new(vec![profile("a"), profile("b"), profile("c")]);
    app.confirm_delete_profile = Some("b".to_string());
    app.do_delete_profile(&"b".to_string(), Ok(()));
    let ids: Vec<&str> = app.profiles.iter().map(|p| p.id.as_str()).collect();
    assert_eq!(ids, vec!["a", "c"]);
    assert!(matches!(app.phase, AppPhase::ProfileSelect));
    assert_eq!(app.confirm_delete_profile, None);
}

#[test]
fn delete_to_one_profile_unlocks_it() {
    let mut app = ZodeApp::new(vec![profile("a"), profile("b")]);
    app.do_delete_profile(&"a".to_string(), Ok(()));
    assert_eq!(unlock_phase(&app), Some("b".to_string()));
}

#[test]
fn delete_last_profile_resets_identity() {
    let mut app = ZodeApp::new(vec![profile("a")]);
    app.has_machine_key = true;
    app.do_delete_profile(&"a".to_string(), Ok(()));
    assert!(app.profiles.is_empty());
    assert!(matches!(app.phase, AppPhase::Setup));
    assert!(!app.has_machine_key);
}

#[test]
fn delete_failure_only_reports() {
    let mut app = ZodeApp::new(vec![profile("a"), profile("b")]);
    app.do_delete_profile(&"a".to_string(), Err("busy".to_string()));
    assert_eq!(app.profiles.len(), 2);
    assert_eq!(app.unlock_error.as_deref(), Some("busy"));
}

#[test]
fn delete_removes_duplicates_of_id() {
    let mut app = ZodeApp::new(vec![profile("a"), profile("b"), profile("a")]);
    app.do_delete_profile(&"a".to_string(), Ok(()));
    assert_eq!(app.profiles.len(), 1);
    assert_eq!(app.profiles[0].id, "b");
}

#[test]
fn lock_after_unlock_returns_to_profile() {
    let mut app = ZodeApp::new(vec![profile("a"), profile("b")]);
    app.attempt_unlock(&"b".to_string(), Ok(VaultUnlock { has_node_keypair: true, machine_key_derived: true }));
    app.zode_started(Ok(()));
    app.tab = Tab::Peers;
    app.lock_session();
    assert_eq!(unlock_phase(&app), Some("b".to_string()));
    assert!(app.tab == Tab::Status);
    assert_eq!(app.session_password, None);
    assert!(!app.zode_running);
    assert!(!app.has_machine_key);
}

#[test]
fn lock_without_session_uses_first_profile() {
    let mut app = ZodeApp::new(vec![profile("x"), profile("y")]);
    app.lock_session();
    assert_eq!(unlock_phase(&app), Some("x".to_string()));
}

#[test]
fn select_and_back() {
    let mut app = ZodeApp::new(vec![profile("x"), profile("y")]);
    app.select_profile(1);
    assert_eq!(unlock_phase(&app), Some("y".to_string()));
    app.unlock_password = "typed".to_string();
    app.unlock_error = Some("e".to_string());
    app.back_to_profiles();
    assert!(matches!(app.phase, AppPhase::ProfileSelect));
    assert_eq!(app.unlock_password, "");
    assert_eq!(app.unlock_error, None);
}

#[test]
fn profile_lookup() {
    let app = ZodeApp::new(vec![profile("x"), profile("y")]);
    assert_eq!(app.find_profile(&"y".to_string()), Some(1));
    assert_eq!(app.find_profile(&"z".to_string()), None);
    assert_eq!(app.profile_name(&"x".to_string()), "name-x");
    assert_eq!(app.profile_name(&"z".to_string()), "z");
    assert_eq!(app.profile_peer_id(&"y".to_string()).as_deref(), Some("peer-y"));
    assert_eq!(app.profile_peer_id(&"z".to_string()), None);
}

#[test]
fn sync_tab_node_stopped() {
    let mut app = ZodeApp::new(vec![]);
    app.tab = Tab::Log;
    assert!(matches!(app.sync_tab(true), TabView::NodeStopped));
    assert!(app.prev_tab == Tab::Status);
    app.tab = Tab::Settings;
    assert!(matches!(app.sync_tab(false), TabView::Content { focus_interlink_compose: false }));
    assert!(app.prev_tab == Tab::Settings);
}

#[test]
fn sync_tab_entering_log_and_interlink() {
    let mut app = ZodeApp::new(vec![]);
    app.zode_running = true;
    app.tab = Tab::Log;
    assert!(matches!(app.sync_tab(true), TabView::Content { focus_interlink_compose: false }));
    assert!(app.log_scroll_to_bottom);
    assert!(app.detail_closing);
    app.tab = Tab::Interlink;
    assert!(matches!(app.sync_tab(false), TabView::Content { focus_interlink_compose: true }));
    assert!(matches!(app.sync_tab(false), TabView::Content { focus_interlink_compose: false }));
    assert!(app.prev_tab == Tab::Interlink);
}

#[test]
fn detail_panel_closing() {
    let mut app = ZodeApp::new(vec![]);
    assert!(app.detail_target_open(true));
    app.close_detail_on_escape(true, true);
    assert!(app.detail_closing);
    assert!(!app.detail_target_open(true));
    assert!(!app.finish_detail_close(true));
    assert!(app.detail_closing);
    assert!(app.finish_detail_close(false));
    assert!(!app.detail_closing);
    app.close_detail_on_escape(false, true);
    assert!(!app.detail_closing);
}

#[test]
fn auto_persist_once() {
    let mut app = ZodeApp::new(vec![profile("a")]);
    app.attempt_unlock(&"a".to_string(), Ok(VaultUnlock { has_node_keypair: true, machine_key_derived: true }));
    app.zode_started(Ok(()));
    assert!(app.should_auto_persist(true));
    assert!(!app.should_auto_persist(false));
    app.keypair_persist_done(false);
    assert!(app.should_auto_persist(true));
    app.keypair_persist_done(true);
    assert!(!app.should_auto_persist(true));
    app.boot_zode_with_keypair(Ok(()));
    assert!(app.should_auto_persist(true));
}

#[test]
fn finish_reveal_only_from_revealing() {
    let mut app = ZodeApp::new(vec![]);
    app.finish_reveal();
    assert!(matches!(app.phase, AppPhase::Setup));
}
