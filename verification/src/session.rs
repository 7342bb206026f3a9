//! The desktop session: which screen is shown (profile setup, selection,
//! unlock, reveal, running), the unlocked profile, the selected tab and the
//! node's lifecycle as the session sees it.
//!
//! Every method here is a decision on plain values; the caller performs the
//! disk, vault, network and rendering work around it and reports outcomes.

use vstd::prelude::*;

verus! {

/// The tabs of the main window.
#[derive(Debug, PartialEq, Eq, Structural, Clone, Copy)]
pub enum Tab {
    Status,
    Services,
    Programs,
    Storage,
    Peers,
    Log,
    Interlink,
    Settings,
    Identity,
}

/// Which screen the application is on.
#[derive(Debug, Clone)]
pub enum AppPhase {
    /// No profile exists yet: first-run setup.
    Setup,
    /// Several profiles exist: the user picks one.
    ProfileSelect,
    /// The given profile waits for its password.
    Unlock { profile_id: String },
    /// The vault was unlocked and the main window is being revealed.
    Revealing,
    /// The main window is shown.
    Running,
}

/// A profile as listed on disk.
#[derive(Debug, Clone)]
pub struct ProfileMeta {
    pub id: String,
    pub name: String,
    pub peer_id: String,
}

/// The screen to show for a list of profiles: setup when there is none,
/// the unlock screen of the only one, and the selection otherwise.
pub open spec fn phase_for(profiles: Seq<ProfileMeta>) -> AppPhase {
    if profiles.len() == 0 {
        AppPhase::Setup
    } else if profiles.len() == 1 {
        AppPhase::Unlock { profile_id: profiles[0].id }
    } else {
        AppPhase::ProfileSelect
    }
}

/// The screen for a list of profiles (see [`phase_for`]).
pub fn phase_for_profiles(profiles: &Vec<ProfileMeta>) -> (p: AppPhase)
    ensures
        p == phase_for(profiles@),
{
    if profiles.len() == 0 {
        AppPhase::Setup
    } else if profiles.len() == 1 {
        AppPhase::Unlock { profile_id: profiles[0].id.clone() }
    } else {
        AppPhase::ProfileSelect
    }
}

/// What the vault revealed when it was opened.
#[derive(Debug, Clone, Copy, PartialEq, Eq, Structural)]
pub struct VaultUnlock {
    /// The vault holds the node's network keypair.
    pub has_node_keypair: bool,
    /// A machine key was derived from the vault's shares.
    pub machine_key_derived: bool,
}

/// What the caller does after an unlock attempt.
#[derive(Debug, Clone, Copy, PartialEq, Eq, Structural)]
pub enum UnlockNext {
    /// The password was refused: stay on the unlock screen.
    Retry,
    /// The node is already running: nothing to start.
    Resume,
    /// Start the node, with the vault's keypair where it holds one.
    Boot { with_vault_keypair: bool },
}

/// What the central panel shows after the tab bookkeeping.
#[derive(Debug, Clone, Copy, PartialEq, Eq, Structural)]
pub enum TabView {
    /// The node is stopped and the tab needs it: show the stopped notice.
    NodeStopped,
    /// Show the tab's content; focus the Interlink composer when asked.
    Content { focus_interlink_compose: bool },
}

/// The state of the desktop session.
pub struct ZodeApp {
    pub phase: AppPhase,
    pub profiles: Vec<ProfileMeta>,
    pub tab: Tab,
    pub prev_tab: Tab,
    /// A node is running.
    pub zode_running: bool,
    pub settings_error: Option<String>,
    /// The identity holds at least one derived machine key.
    pub has_machine_key: bool,
    pub unlock_password: String,
    pub unlock_error: Option<String>,
    pub confirm_delete_profile: Option<String>,
    pub log_scroll_to_bottom: bool,
    pub active_profile_id: Option<String>,
    pub session_password: Option<String>,
    /// The detail side panel is animating closed.
    pub detail_closing: bool,
    /// The node keypair was written to the vault for this run.
    pub keypair_auto_persisted: bool,
}

/// The tab bookkeeping of one frame of the central panel.
pub open spec fn tab_synced(a: ZodeApp, has_detail: bool) -> (ZodeApp, TabView) {
    if a.tab != Tab::Settings && a.tab != Tab::Identity && !a.zode_running {
        (a, TabView::NodeStopped)
    } else {
        let entering = a.tab != a.prev_tab;
        (
            ZodeApp {
                log_scroll_to_bottom: a.log_scroll_to_bottom || (a.tab == Tab::Log && entering),
                detail_closing: a.detail_closing || (entering && has_detail),
                prev_tab: a.tab,
                ..a
            },
            TabView::Content { focus_interlink_compose: a.tab == Tab::Interlink && entering },
        )
    }
}

/// The session after the vault of `profile_id` opened: the profile and the
/// typed password become the session's, the input field is left `cleared`,
/// a derived machine key joins the identity, and the main window is resumed
/// when a node runs or else revealed while one boots.
pub open spec fn unlocked(a: ZodeApp, profile_id: String, vault: VaultUnlock, cleared: String) -> ZodeApp {
    ZodeApp {
        phase: if a.zode_running {
            AppPhase::Running
        } else {
            AppPhase::Revealing
        },
        unlock_error: None,
        active_profile_id: Some(profile_id),
        session_password: Some(a.unlock_password),
        unlock_password: cleared,
        has_machine_key: a.has_machine_key || vault.machine_key_derived,
        ..a
    }
}

/// The session after the vault of `profile_id` refused the password.
pub open spec fn unlock_refused(a: ZodeApp, profile_id: String, error: String) -> ZodeApp {
    ZodeApp { unlock_error: Some(error), phase: AppPhase::Unlock { profile_id }, ..a }
}

/// The session after it was locked, its node stopped and the password
/// field left `cleared`: back on the unlock screen of the session's profile
/// (or of the first profile), on the Status tab, with no password, errors
/// or identity.
pub open spec fn locked(a: ZodeApp, cleared: String) -> ZodeApp {
    ZodeApp {
        zode_running: false,
        unlock_password: cleared,
        unlock_error: None,
        confirm_delete_profile: None,
        session_password: None,
        has_machine_key: false,
        tab: Tab::Status,
        phase: AppPhase::Unlock {
            profile_id: match a.active_profile_id {
                Some(id) => id,
                None => a.profiles@[0].id,
            },
        },
        ..a
    }
}

/// The session once the reveal animation is over.
pub open spec fn revealed(a: ZodeApp) -> ZodeApp {
    if a.phase is Revealing {
        ZodeApp { phase: AppPhase::Running, ..a }
    } else {
        a
    }
}

/// Whether the node keypair is due to be written to the vault.
pub open spec fn auto_persist_due(a: ZodeApp, node_keypair_nonempty: bool) -> bool {
    &&& a.phase is Revealing || a.phase is Running
    &&& !a.keypair_auto_persisted
    &&& a.zode_running
    &&& node_keypair_nonempty
    &&& a.active_profile_id is Some
    &&& a.session_password is Some
    &&& a.has_machine_key
}

/// Whether `i` is the first position of a profile with id `id`.
pub open spec fn is_first_match(profiles: Seq<ProfileMeta>, id: Seq<char>, i: int) -> bool {
    &&& 0 <= i < profiles.len()
    &&& profiles[i].id@ == id
    &&& forall|j: int| 0 <= j < i ==> profiles[j].id@ != id
}

/// No profile has id `id`.
pub open spec fn no_match(profiles: Seq<ProfileMeta>, id: Seq<char>) -> bool {
    forall|j: int| 0 <= j < profiles.len() ==> profiles[j].id@ != id
}

/// The profiles that remain once those with id `id` are deleted.
pub open spec fn without_profile(profiles: Seq<ProfileMeta>, id: Seq<char>) -> Seq<ProfileMeta> {
    profiles.filter(other_than(id))
}

/// Whether a profile's id is not `id`.
pub open spec fn other_than(id: Seq<char>) -> spec_fn(ProfileMeta) -> bool {
    |p: ProfileMeta| p.id@ != id
}


/// Removes, in place, every profile whose id is `id`, keeping the others in order.
fn remove_profiles_with_id(profiles: &mut Vec<ProfileMeta>, id: &String)
    ensures
        final(profiles)@ == without_profile(old(profiles)@, id@),
{
    let ghost orig = profiles@;
    let ghost keep = other_than(id@);
    let ghost mut j: int = 0;
    let mut i: usize = 0;
    assert(orig.subrange(0, 0).filter(keep) =~= Seq::<ProfileMeta>::empty()) by {
        reveal_with_fuel(Seq::<_>::filter, 1);
    }
    assert(profiles@ =~= orig.subrange(0, 0).filter(keep) + orig.subrange(0, orig.len() as int));
    while i < profiles.len()
        invariant
            0 <= j <= orig.len(),
            keep == other_than(id@),
            profiles@ == orig.subrange(0, j).filter(keep) + orig.subrange(j, orig.len() as int),
            i == orig.subrange(0, j).filter(keep).len(),
        decreases profiles.len() - i,
    {
        let ghost kept = orig.subrange(0, j).filter(keep);
        let ghost next = orig.subrange(0, j + 1);
        assert(profiles@[i as int] == orig[j]);
        assert(next.drop_last() =~= orig.subrange(0, j));
        assert(next.last() == orig[j]);
        assert(next.filter(keep) == if keep(orig[j]) {
            kept.push(orig[j])
        } else {
            kept
        }) by {
            reveal_with_fuel(Seq::<_>::filter, 1);
        }
        if profiles[i].id == *id {
            profiles.remove(i);
            assert(profiles@ =~= next.filter(keep) + orig.subrange(j + 1, orig.len() as int));
        } else {
            i += 1;
            assert(profiles@ =~= next.filter(keep) + orig.subrange(j + 1, orig.len() as int));
        }
        proof {
            j = j + 1;
        }
    }
    assert(orig.subrange(0, j) =~= orig) by {
        assert(j == orig.len());
    }
    assert(profiles@ =~= without_profile(orig, id@));
}

/// The screen for the profiles on disk is setup exactly when there is
/// none, the unlock screen of the only profile when there is one, and the
/// selection when there are several.
pub proof fn lemma_phase_for_profiles(profiles: Seq<ProfileMeta>)
    ensures
        phase_for(profiles) is Setup <==> profiles.len() == 0,
        phase_for(profiles) is ProfileSelect <==> profiles.len() > 1,
        phase_for(profiles) is Unlock <==> profiles.len() == 1,
        profiles.len() == 1 ==> phase_for(profiles) == (AppPhase::Unlock {
            profile_id: profiles[0].id,
        }),
{
}

/// Locking a session that was unlocked for `profile_id` returns to the
/// unlock screen of that profile, with the node stopped and the session's
/// password and identity forgotten.
pub proof fn lemma_lock_after_unlock(
    a: ZodeApp,
    profile_id: String,
    vault: VaultUnlock,
    cleared: String,
    cleared_again: String,
)
    ensures
        locked(unlocked(a, profile_id, vault, cleared), cleared_again).phase == (AppPhase::Unlock {
            profile_id,
        }),
        locked(unlocked(a, profile_id, vault, cleared), cleared_again).session_password is None,
        !locked(unlocked(a, profile_id, vault, cleared), cleared_again).zode_running,
        !locked(unlocked(a, profile_id, vault, cleared), cleared_again).has_machine_key,
        locked(unlocked(a, profile_id, vault, cleared), cleared_again).active_profile_id == Some(
            profile_id,
        ),
{
}

/// A refused password keeps the session as it was but for the error and
/// the unlock screen of the profile tried: no profile becomes the
/// session's and no password is taken.
pub proof fn lemma_refused_unlock_keeps_session(a: ZodeApp, profile_id: String, error: String)
    ensures
        unlock_refused(a, profile_id, error).active_profile_id == a.active_profile_id,
        unlock_refused(a, profile_id, error).session_password == a.session_password,
        unlock_refused(a, profile_id, error).unlock_password == a.unlock_password,
        unlock_refused(a, profile_id, error).zode_running == a.zode_running,
        unlock_refused(a, profile_id, error).phase == (AppPhase::Unlock { profile_id }),
        unlock_refused(a, profile_id, error).unlock_error == Some(error),
{
}

/// A successful unlock leads to the main window: at once when the node
/// runs, and once the reveal is over otherwise.
pub proof fn lemma_unlock_reaches_main_window(
    a: ZodeApp,
    profile_id: String,
    vault: VaultUnlock,
    cleared: String,
)
    ensures
        revealed(unlocked(a, profile_id, vault, cleared)).phase is Running,
        revealed(unlocked(a, profile_id, vault, cleared)).session_password == Some(a.unlock_password),
{
}

/// The node keypair is written to the vault at most once per boot: once a
/// write succeeded it is not due again until the next boot resets it.
pub proof fn lemma_auto_persist_once(a: ZodeApp, node_keypair_nonempty: bool)
    ensures
        !auto_persist_due(
            ZodeApp { keypair_auto_persisted: true, ..a },
            node_keypair_nonempty,
        ),
{
}

/// The Settings and Identity tabs never need a node, and the stopped
/// notice is shown only while no node runs, on the other tabs; whenever
/// content is shown the tab is remembered.
pub proof fn lemma_tab_needs_node(a: ZodeApp, has_detail: bool)
    ensures
        (a.tab == Tab::Settings || a.tab == Tab::Identity) ==> tab_synced(a, has_detail).1 is Content,
        a.zode_running ==> tab_synced(a, has_detail).1 is Content,
        tab_synced(a, has_detail).1 is NodeStopped <==> (!a.zode_running && a.tab != Tab::Settings
            && a.tab != Tab::Identity),
        tab_synced(a, has_detail).1 is Content ==> tab_synced(a, has_detail).0.prev_tab == a.tab
            && tab_synced(a, has_detail).0.tab == a.tab,
        tab_synced(a, has_detail).1 matches TabView::Content { focus_interlink_compose }
            ==> (focus_interlink_compose <==> (a.tab == Tab::Interlink && a.prev_tab
            != Tab::Interlink)),
{
}

/// The keypair is written to the vault only from the main window of an
/// unlocked session whose identity holds a machine key, with a running
/// node that has a keypair, and not twice in one run; and it is due
/// whenever all that holds.
pub proof fn lemma_auto_persist_conditions(a: ZodeApp, node_keypair_nonempty: bool)
    ensures
        auto_persist_due(a, node_keypair_nonempty) ==> {
            &&& a.has_machine_key
            &&& a.zode_running
            &&& node_keypair_nonempty
            &&& a.active_profile_id is Some
            &&& a.session_password is Some
            &&& !a.keypair_auto_persisted
            &&& (a.phase is Revealing || a.phase is Running)
        },
        !a.has_machine_key ==> !auto_persist_due(a, node_keypair_nonempty),
        ((a.phase is Revealing || a.phase is Running) && !a.keypair_auto_persisted && a.zode_running
            && node_keypair_nonempty && a.active_profile_id is Some && a.session_password is Some
            && a.has_machine_key) ==> auto_persist_due(a, node_keypair_nonempty),
{
}

/// The tab bookkeeping settles in one frame: once content was shown, the
/// next frame on the same tab changes nothing and focuses nothing.
pub proof fn lemma_tab_sync_settles(a: ZodeApp, has_detail: bool)
    ensures
        tab_synced(a, has_detail).1 is Content ==> {
            &&& tab_synced(a, has_detail).0.prev_tab == a.tab
            &&& tab_synced(tab_synced(a, has_detail).0, has_detail) == (
                tab_synced(a, has_detail).0,
                TabView::Content { focus_interlink_compose: false },
            )
        },
        tab_synced(a, has_detail).1 is NodeStopped ==> tab_synced(a, has_detail).0 == a,
{
}

/// Deleting a profile removes every profile with its id and keeps all
/// others, in order; deleting it again changes nothing.
pub proof fn lemma_delete_profile(profiles: Seq<ProfileMeta>, id: Seq<char>)
    ensures
        no_match(without_profile(profiles, id), id),
        forall|i: int|
            0 <= i < profiles.len() && profiles[i].id@ != id ==> without_profile(
                profiles,
                id,
            ).contains(#[trigger] profiles[i]),
        without_profile(profiles, id).len() <= profiles.len(),
        no_match(profiles, id) ==> without_profile(profiles, id) == profiles,
        without_profile(without_profile(profiles, id), id) == without_profile(profiles, id),
    decreases profiles.len(),
{
    let keep = other_than(id);
    let w = without_profile(profiles, id);
    profiles.lemma_filter_len(keep);
    assert forall|j: int| 0 <= j < w.len() implies w[j].id@ != id by {
        profiles.lemma_filter_pred(keep, j);
    }
    assert forall|i: int| 0 <= i < profiles.len() && profiles[i].id@ != id implies w.contains(
        #[trigger] profiles[i],
    ) by {
        profiles.lemma_filter_contains(keep, i);
    }
    if profiles.len() > 0 {
        lemma_delete_profile(profiles.drop_last(), id);
        reveal_with_fuel(Seq::<_>::filter, 1);
        if no_match(profiles, id) {
            assert(no_match(profiles.drop_last(), id));
            assert(w =~= profiles.drop_last().push(profiles.last()));
            assert(profiles.drop_last().push(profiles.last()) =~= profiles);
        }
    } else {
        reveal_with_fuel(Seq::<_>::filter, 1);
    }
    lemma_filter_all_kept(w, id);
}

/// A list none of whose profiles has id `id` loses nothing.
proof fn lemma_filter_all_kept(profiles: Seq<ProfileMeta>, id: Seq<char>)
    requires
        no_match(profiles, id),
    ensures
        without_profile(profiles, id) == profiles,
    decreases profiles.len(),
{
    reveal_with_fuel(Seq::<_>::filter, 1);
    if profiles.len() > 0 {
        lemma_filter_all_kept(profiles.drop_last(), id);
        assert(profiles.drop_last().push(profiles.last()) =~= profiles);
    }
}

impl ZodeApp {
    /// A fresh session over the profiles found on disk: on the screen that
    /// [`phase_for`] gives, with no node, no unlocked profile and the Status tab.
    pub fn new(profiles: Vec<ProfileMeta>) -> (app: ZodeApp)
        ensures
            app.phase == phase_for(profiles@),
            app.profiles@ == profiles@,
            app.tab == Tab::Status,
            app.prev_tab == Tab::Status,
            !app.zode_running,
            app.settings_error is None,
            !app.has_machine_key,
            app.unlock_password@ == Seq::<char>::empty(),
            app.unlock_error is None,
            app.confirm_delete_profile is None,
            !app.log_scroll_to_bottom,
            app.active_profile_id is None,
            app.session_password is None,
            !app.detail_closing,
            !app.keypair_auto_persisted,
    {
        let phase = phase_for_profiles(&profiles);
        ZodeApp {
            phase,
            profiles,
            tab: Tab::Status,
            prev_tab: Tab::Status,
            zode_running: false,
            settings_error: None,
            has_machine_key: false,
            unlock_password: String::new(),
            unlock_error: None,
            confirm_delete_profile: None,
            log_scroll_to_bottom: false,
            active_profile_id: None,
            session_password: None,
            detail_closing: false,
            keypair_auto_persisted: false,
        }
    }

    /// Applies the outcome of opening the vault of `profile_id` with the
    /// typed password.
    ///
    /// On success the profile becomes the session's, the password moves from
    /// the input field to the session, and the node is resumed when it runs
    /// or else booted while the main window is revealed. On failure the
    /// error is shown on that profile's unlock screen.
    pub fn attempt_unlock(&mut self, profile_id: &String, outcome: Result<VaultUnlock, String>) -> (next: UnlockNext)
        ensures
            match outcome {
                Ok(vault) => {
                    &&& *final(self) == unlocked(
                        *old(self),
                        *profile_id,
                        vault,
                        final(self).unlock_password,
                    )
                    &&& final(self).unlock_password@ == Seq::<char>::empty()
                    &&& next == if old(self).zode_running {
                        UnlockNext::Resume
                    } else {
                        UnlockNext::Boot { with_vault_keypair: vault.has_node_keypair }
                    }
                },
                Err(e) => {
                    &&& *final(self) == unlock_refused(*old(self), *profile_id, e)
                    &&& next == UnlockNext::Retry
                },
            },
    {
        match outcome {
            Ok(vault) => {
                self.unlock_error = None;
                self.active_profile_id = Some(profile_id.clone());
                let mut password = String::new();
                std::mem::swap(&mut password, &mut self.unlock_password);
                self.session_password = Some(password);
                if vault.machine_key_derived {
                    self.has_machine_key = true;
                }
                if self.zode_running {
                    self.phase = AppPhase::Running;
                    UnlockNext::Resume
                } else {
                    self.phase = AppPhase::Revealing;
                    UnlockNext::Boot { with_vault_keypair: vault.has_node_keypair }
                }
            },
            Err(e) => {
                self.unlock_error = Some(e);
                self.phase = AppPhase::Unlock { profile_id: profile_id.clone() };
                UnlockNext::Retry
            },
        }
    }

    /// First step of starting the node, given whether the settings yield a
    /// node configuration: an error is shown and nothing starts; otherwise the
    /// error is cleared and the caller stops the old node and starts a new one.
    pub fn boot_zode_with_keypair(&mut self, config: Result<(), String>) -> (proceed: bool)
        ensures
            proceed == config is Ok,
            *final(self) == (ZodeApp {
                keypair_auto_persisted: false,
                settings_error: match config {
                    Ok(_) => None,
                    Err(e) => Some(e),
                },
                ..*old(self)
            }),
    {
        self.keypair_auto_persisted = false;
        match config {
            Ok(_) => {
                self.settings_error = None;
                true
            },
            Err(e) => {
                self.settings_error = Some(e);
                false
            },
        }
    }

    /// Last step of starting the node: it runs, or the start error is shown
    /// as `Start failed: <error>`.
    pub fn zode_started(&mut self, started: Result<(), String>)
        ensures
            match started {
                Ok(_) => *final(self) == (ZodeApp { zode_running: true, ..*old(self) }),
                Err(e) => {
                    &&& *final(self) == (ZodeApp {
                        settings_error: final(self).settings_error,
                        ..*old(self)
                    })
                    &&& final(self).settings_error matches Some(msg) && msg@ == "Start failed: "@
                        + e@
                },
            },
    {
        match started {
            Ok(_) => {
                self.zode_running = true;
            },
            Err(e) => {
                let msg = String::from_str("Start failed: ").concat(e.as_str());
                self.settings_error = Some(msg);
            },
        }
    }

    /// The node was shut down.
    pub fn stop_zode(&mut self)
        ensures
            *final(self) == (ZodeApp { zode_running: false, ..*old(self) }),
    {
        self.zode_running = false;
    }

    /// Applies the outcome of deleting the profile `profile_id` from disk.
    ///
    /// On success the profile leaves the list, the confirmation, password
    /// and error are cleared, and the screen follows [`phase_for`] on the
    /// profiles left (the identity is forgotten when none is left). On
    /// failure only the error is shown.
    pub fn do_delete_profile(&mut self, profile_id: &String, deleted: Result<(), String>)
        ensures
            match deleted {
                Ok(_) => {
                    &&& final(self).profiles@ == without_profile(old(self).profiles@, profile_id@)
                    &&& *final(self) == (ZodeApp {
                        profiles: final(self).profiles,
                        confirm_delete_profile: None,
                        unlock_password: final(self).unlock_password,
                        unlock_error: None,
                        phase: phase_for(final(self).profiles@),
                        has_machine_key: old(self).has_machine_key && final(self).profiles.len()
                            > 0,
                        ..*old(self)
                    })
                    &&& final(self).unlock_password@ == Seq::<char>::empty()
                },
                Err(e) => *final(self) == (ZodeApp { unlock_error: Some(e), ..*old(self) }),
            },
    {
        match deleted {
            Err(e) => {
                self.unlock_error = Some(e);
            },
            Ok(_) => {
                remove_profiles_with_id(&mut self.profiles, profile_id);
                self.confirm_delete_profile = None;
                self.unlock_password = String::new();
                self.unlock_error = None;
                if self.profiles.len() == 0 {
                    self.has_machine_key = false;
                }
                self.phase = phase_for_profiles(&self.profiles);
            },
        }
    }

    /// Locks the session after the node was shut down: the password, errors
    /// and identity are forgotten and the unlock screen of the session's
    /// profile (or else of the first profile) is shown on the Status tab.
    pub fn lock_session(&mut self)
        requires
            old(self).active_profile_id is Some || old(self).profiles.len() > 0,
        ensures
            *final(self) == locked(*old(self), final(self).unlock_password),
            final(self).unlock_password@ == Seq::<char>::empty(),
    {
        self.stop_zode();
        self.unlock_password = String::new();
        self.unlock_error = None;
        self.confirm_delete_profile = None;
        self.session_password = None;
        self.has_machine_key = false;
        self.tab = Tab::Status;
        let profile_id = match &self.active_profile_id {
            Some(id) => id.clone(),
            None => self.profiles[0].id.clone(),
        };
        self.phase = AppPhase::Unlock { profile_id };
    }

    /// The user picked the profile at `index` on the selection screen.
    pub fn select_profile(&mut self, index: usize)
        requires
            index < old(self).profiles.len(),
        ensures
            *final(self) == (ZodeApp {
                phase: AppPhase::Unlock { profile_id: old(self).profiles@[index as int].id },
                ..*old(self)
            }),
    {
        self.phase = AppPhase::Unlock { profile_id: self.profiles[index].id.clone() };
    }

    /// The user left the unlock screen for the profile selection.
    pub fn back_to_profiles(&mut self)
        ensures
            *final(self) == (ZodeApp {
                unlock_password: final(self).unlock_password,
                unlock_error: None,
                phase: AppPhase::ProfileSelect,
                ..*old(self)
            }),
            final(self).unlock_password@ == Seq::<char>::empty(),
    {
        self.unlock_password = String::new();
        self.unlock_error = None;
        self.phase = AppPhase::ProfileSelect;
    }

    /// Position of the first profile whose id is `id`.
    pub fn find_profile(&self, id: &String) -> (found: Option<usize>)
        ensures
            match found {
                Some(i) => is_first_match(self.profiles@, id@, i as int),
                None => no_match(self.profiles@, id@),
            },
    {
        let mut i: usize = 0;
        while i < self.profiles.len()
            invariant
                i <= self.profiles.len(),
                forall|j: int| 0 <= j < i ==> self.profiles@[j].id@ != id@,
            decreases self.profiles.len() - i,
        {
            if self.profiles[i].id == *id {
                return Some(i);
            }
            i += 1;
        }
        None
    }

    /// The name shown for profile `id`: the name of the first profile with
    /// that id, or the id itself when there is none.
    pub fn profile_name(&self, id: &String) -> (name: String)
        ensures
            (exists|i: int| is_first_match(self.profiles@, id@, i) && name@ == self.profiles@[i].name@)
                || (no_match(self.profiles@, id@) && name@ == id@),
    {
        match self.find_profile(id) {
            Some(i) => self.profiles[i].name.clone(),
            None => id.clone(),
        }
    }

    /// The peer id shown for profile `id`: that of the first profile with
    /// that id, if any.
    pub fn profile_peer_id(&self, id: &String) -> (peer: Option<String>)
        ensures
            match peer {
                Some(p) => exists|i: int|
                    is_first_match(self.profiles@, id@, i) && p@ == self.profiles@[i].peer_id@,
                None => no_match(self.profiles@, id@),
            },
    {
        match self.find_profile(id) {
            Some(i) => Some(self.profiles[i].peer_id.clone()),
            None => None,
        }
    }

    /// The tab bookkeeping of one frame of the central panel (see
    /// [`tab_synced`]): entering the Log tab scrolls it to the end, entering
    /// the Interlink tab focuses its composer, leaving a tab closes the
    /// detail panel, and the tab is remembered. Tabs other than Settings and
    /// Identity show the stopped notice, with nothing changed, while no node runs.
    pub fn sync_tab(&mut self, has_detail: bool) -> (view: TabView)
        ensures
            (*final(self), view) == tab_synced(*old(self), has_detail),
    {
        if self.tab != Tab::Settings && self.tab != Tab::Identity && !self.zode_running {
            return TabView::NodeStopped;
        }
        let entering = self.tab != self.prev_tab;
        if self.tab == Tab::Log && entering {
            self.log_scroll_to_bottom = true;
        }
        let focus = self.tab == Tab::Interlink && entering;
        if entering && has_detail {
            self.detail_closing = true;
        }
        self.prev_tab = self.tab;
        TabView::Content { focus_interlink_compose: focus }
    }

    /// Whether the detail panel should be open (its target width non-zero).
    pub fn detail_target_open(&self, has_detail: bool) -> (open: bool)
        ensures
            open == (has_detail && !self.detail_closing),
    {
        has_detail && !self.detail_closing
    }

    /// Once the closing animation is over, the closing ends and the caller
    /// drops the selection (the result says so).
    pub fn finish_detail_close(&mut self, animating: bool) -> (clear_selection: bool)
        ensures
            clear_selection == (old(self).detail_closing && !animating),
            *final(self) == (ZodeApp {
                detail_closing: old(self).detail_closing && animating,
                ..*old(self)
            }),
    {
        if self.detail_closing && !animating {
            self.detail_closing = false;
            true
        } else {
            false
        }
    }

    /// Escape closes an open detail panel.
    pub fn close_detail_on_escape(&mut self, had_detail: bool, escape_pressed: bool)
        ensures
            *final(self) == (ZodeApp {
                detail_closing: old(self).detail_closing || (escape_pressed && had_detail),
                ..*old(self)
            }),
    {
        if escape_pressed && had_detail && !self.detail_closing {
            self.detail_closing = true;
        }
    }

    /// Whether to write the node keypair to the vault now: once per run,
    /// while the main window is up, a node with a keypair runs, and the
    /// session has a profile, a password and a machine key.
    pub fn should_auto_persist(&self, node_keypair_nonempty: bool) -> (persist: bool)
        ensures
            persist == auto_persist_due(*self, node_keypair_nonempty),
    {
        let main_window = match self.phase {
            AppPhase::Revealing | AppPhase::Running => true,
            _ => false,
        };
        main_window && !self.keypair_auto_persisted && self.zode_running && node_keypair_nonempty
            && self.active_profile_id.is_some() && self.session_password.is_some()
            && self.has_machine_key
    }

    /// Records the outcome of writing the keypair to the vault; a failed
    /// write is tried again on a later frame.
    pub fn keypair_persist_done(&mut self, succeeded: bool)
        ensures
            *final(self) == (ZodeApp {
                keypair_auto_persisted: old(self).keypair_auto_persisted || succeeded,
                ..*old(self)
            }),
    {
        if succeeded {
            self.keypair_auto_persisted = true;
        }
    }

    /// The reveal animation has run its course: the main window is shown.
    pub fn finish_reveal(&mut self)
        ensures
            *final(self) == revealed(*old(self)),
    {
        if let AppPhase::Revealing = self.phase {
            self.phase = AppPhase::Running;
        }
    }
}

} // verus!
