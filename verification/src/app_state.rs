//! The shared platform state: the configuration store, the scheduler, the
//! authorization store, and the table of running apps (running in the
//! foreground or kept in the background), keyed by app id.
use vstd::prelude::*;
use crate::auth::AuthStore;
use crate::keyed::StrMap;
use crate::scheduler::Scheduler;
use crate::store::AppStore;
use crate::text::{owned, str_eq};
use crate::types::{App, AppView, AppStatus, HookConfig, HookOptions, Injections, UiControls, default_hook_options, default_injections, default_ui_controls};
use crate::util::{is_timestamp, now_iso};

verus! {

#[verifier::external_type_specification]
#[verifier::external_body]
pub struct ExInstant(std::time::Instant);

/// The current instant of std's monotonic clock (`Instant::now`). Nothing is
/// promised of it.
#[verifier::external_body]
fn instant_now() -> (t: std::time::Instant) {
    std::time::Instant::now()
}

/// One running app: its window's label, its state ("running" in the
/// foreground or "background" when its window is hidden) and when it started.
#[derive(Debug)]
pub struct RunningApp {
    pub app_id: String,
    pub window_label: String,
    pub status: String,
    pub started_at: std::time::Instant,
}

/// The platform state shared by the API server, the scheduler and the tray.
pub struct AppState {
    pub store: AppStore,
    pub scheduler: Scheduler,
    pub auth: AuthStore,
    running: StrMap<RunningApp>,
}

/// The state reported for an app that is not in the table.
pub open spec fn stopped() -> Seq<char> {
    "stopped"@
}

/// The state of an app in a running table.
pub open spec fn status_in(t: Map<Seq<char>, RunningApp>, app_id: Seq<char>) -> Seq<char> {
    if t.contains_key(app_id) {
        t[app_id].status@
    } else {
        stopped()
    }
}

/// The snapshot reported for a table entry.
pub open spec fn reports_entry(s: AppStatus, t: Map<Seq<char>, RunningApp>) -> bool {
    &&& t.contains_key(s.id@)
    &&& s.status@ == t[s.id@].status@
    &&& s.window_id matches Some(w) && w@ == t[s.id@].window_label@
    &&& s.memory_kb is None
    &&& s.started_at is None
}

impl AppState {
    /// The running table: app id to its entry.
    pub closed spec fn table(&self) -> Map<Seq<char>, RunningApp> {
        self.running@
    }

    /// The remembered authorization decisions.
    pub closed spec fn grants(&self) -> Map<Seq<char>, crate::auth::Grant> {
        self.auth@
    }

    /// The state is well formed: the table's entries are filed under their
    /// own app ids, and the authorization store is well formed.
    pub closed spec fn wf(&self) -> bool {
        &&& self.running.wf()
        &&& self.auth.wf()
        &&& forall|k: Seq<char>| #[trigger] self.running@.contains_key(k) ==> self.running@[k].app_id@ == k
    }

    /// The configuration store held.
    pub closed spec fn config_store(&self) -> AppStore {
        self.store
    }

    /// The authorization store held.
    pub closed spec fn auth_store(&self) -> AuthStore {
        self.auth
    }

    /// The state with the given stores, a new scheduler and no running app.
    pub fn with_stores(store: AppStore, auth: AuthStore) -> (r: AppState)
        requires
            auth.wf(),
        ensures
            r.wf(),
            r.table() == Map::<Seq<char>, RunningApp>::empty(),
            r.grants() == auth@,
            r.config_store() == store,
            r.auth_store() == auth,
    {
        AppState { store, scheduler: Scheduler::new(), auth, running: StrMap::new() }
    }

    /// Marks an app as running: its entry becomes (or replaces) one with the
    /// given window label and state, started now.
    pub fn mark_running(&mut self, app_id: &str, window_label: &str, status: &str)
        requires
            old(self).wf(),
        ensures
            final(self).wf(),
            final(self).table().dom() == old(self).table().dom().insert(app_id@),
            final(self).table()[app_id@].app_id@ == app_id@,
            final(self).table()[app_id@].window_label@ == window_label@,
            final(self).table()[app_id@].status@ == status@,
            forall|k: Seq<char>|
                k != app_id@ && old(self).table().contains_key(k) ==> final(self).table()[k]
                    == old(self).table()[k],
            final(self).grants() == old(self).grants(),
            final(self).config_store() == old(self).config_store(),
            final(self).auth_store() == old(self).auth_store(),
    {
        let entry = RunningApp {
            app_id: owned(app_id),
            window_label: owned(window_label),
            status: owned(status),
            started_at: instant_now(),
        };
        self.running.insert(owned(app_id), entry);
        proof {
            assert(self.running@.dom() =~= old(self).running@.dom().insert(app_id@));
        }
    }

    /// Marks a running app as kept in the background; an app that is not in
    /// the table is left out of it.
    pub fn mark_background(&mut self, app_id: &str)
        requires
            old(self).wf(),
        ensures
            final(self).wf(),
            final(self).table().dom() == old(self).table().dom(),
            old(self).table().contains_key(app_id@) ==> {
                &&& final(self).table()[app_id@].status@ == "background"@
                &&& final(self).table()[app_id@].app_id@ == app_id@
                &&& final(self).table()[app_id@].window_label@ == old(self).table()[app_id@].window_label@
            },
            forall|k: Seq<char>|
                k != app_id@ && old(self).table().contains_key(k) ==> final(self).table()[k]
                    == old(self).table()[k],
            final(self).grants() == old(self).grants(),
            final(self).config_store() == old(self).config_store(),
            final(self).auth_store() == old(self).auth_store(),
    {
        match self.running.remove(app_id) {
            Some(entry) => {
                let updated = RunningApp {
                    app_id: entry.app_id,
                    window_label: entry.window_label,
                    status: owned("background"),
                    started_at: entry.started_at,
                };
                self.running.insert(owned(app_id), updated);
                proof {
                    assert(self.running@.dom() =~= old(self).running@.dom());
                }
            },
            None => {
                proof {
                    assert(self.running@ =~= old(self).running@);
                }
            },
        }
    }

    /// Marks an app as stopped: its entry leaves the table.
    pub fn mark_stopped(&mut self, app_id: &str)
        requires
            old(self).wf(),
        ensures
            final(self).wf(),
            final(self).table() == old(self).table().remove(app_id@),
            final(self).grants() == old(self).grants(),
            final(self).config_store() == old(self).config_store(),
            final(self).auth_store() == old(self).auth_store(),
    {
        let _ = self.running.remove(app_id);
    }

    /// Whether an app is in the table.
    pub fn is_running(&self, app_id: &str) -> (r: bool)
        requires
            self.wf(),
        ensures
            r == self.table().contains_key(app_id@),
    {
        self.running.contains_key(app_id)
    }

    /// The state of an app: its entry's state, or "stopped" when it has none.
    pub fn app_status(&self, app_id: &str) -> (r: String)
        requires
            self.wf(),
        ensures
            r@ == status_in(self.table(), app_id@),
    {
        match self.running.get(app_id) {
            Some(entry) => owned(entry.status.as_str()),
            None => owned("stopped"),
        }
    }

    /// A snapshot of every app in the table (one per app, in no particular
    /// order): its id, state and window label; memory and start time unset.
    pub fn list_running(&self) -> (r: Vec<AppStatus>)
        requires
            self.wf(),
        ensures
            r@.len() == self.table().len(),
            forall|i: int| 0 <= i < r@.len() ==> reports_entry(#[trigger] r@[i], self.table()),
            forall|i: int, j: int| 0 <= i < j < r@.len() ==> r@[i].id@ != r@[j].id@,
            forall|k: Seq<char>|
                #[trigger] self.table().contains_key(k) ==> exists|i: int|
                    0 <= i < r@.len() && r@[i].id@ == k,
    {
        proof {
            self.running.lemma_entries();
        }
        let mut out: Vec<AppStatus> = Vec::new();
        let n = self.running.len();
        let mut i: usize = 0;
        while i < n
            invariant
                self.wf(),
                n == self.running.entries().len(),
                i <= n,
                out@.len() == i,
                forall|j: int| 0 <= j < i ==> #[trigger] out@[j].id@ == self.running.entries()[j].0@,
                forall|j: int| 0 <= j < i ==> reports_entry(#[trigger] out@[j], self.table()),
            decreases n - i,
        {
            let (k, entry) = self.running.entry(i);
            proof {
                self.running.lemma_entries();
                assert(self.running@.contains_key(k@));
            }
            out.push(
                AppStatus {
                    id: owned(entry.app_id.as_str()),
                    status: owned(entry.status.as_str()),
                    window_id: Some(owned(entry.window_label.as_str())),
                    memory_kb: None,
                    started_at: None,
                },
            );
            i += 1;
        }
        proof {
            self.running.lemma_entries();
            assert forall|k: Seq<char>| #[trigger] self.table().contains_key(k) implies exists|j: int|
                0 <= j < out@.len() && out@[j].id@ == k by {
                let j = choose|j: int|
                    0 <= j < self.running.entries().len() && self.running.entries()[j].0@ == k;
                assert(out@[j].id@ == k);
            }
        }
        out
    }

    /// Whether any app is still running or kept in the background (the
    /// platform exits only when nothing is left).
    pub fn has_work(&self) -> (r: bool)
        requires
            self.wf(),
        ensures
            r == (self.table().len() > 0),
    {
        proof {
            self.running.lemma_entries();
        }
        self.running.len() > 0
    }

    /// The ids of the apps in the table (one each, in no particular order).
    pub fn running_ids(&self) -> (r: Vec<String>)
        requires
            self.wf(),
        ensures
            r@.len() == self.table().len(),
            forall|i: int| 0 <= i < r@.len() ==> self.table().contains_key(#[trigger] r@[i]@),
            forall|i: int, j: int| 0 <= i < j < r@.len() ==> r@[i]@ != r@[j]@,
            forall|k: Seq<char>|
                #[trigger] self.table().contains_key(k) ==> exists|i: int| 0 <= i < r@.len() && r@[i]@ == k,
    {
        proof {
            self.running.lemma_entries();
        }
        let mut out: Vec<String> = Vec::new();
        let n = self.running.len();
        let mut i: usize = 0;
        while i < n
            invariant
                self.wf(),
                n == self.running.entries().len(),
                i <= n,
                out@.len() == i,
                forall|j: int| 0 <= j < i ==> #[trigger] out@[j]@ == self.running.entries()[j].0@,
            decreases n - i,
        {
            let (k, _) = self.running.entry(i);
            out.push(owned(k.as_str()));
            i += 1;
        }
        proof {
            self.running.lemma_entries();
            assert forall|k: Seq<char>| #[trigger] self.table().contains_key(k) implies exists|j: int|
                0 <= j < out@.len() && out@[j]@ == k by {
                let j = choose|j: int|
                    0 <= j < self.running.entries().len() && self.running.entries()[j].0@ == k;
                assert(out@[j]@ == k);
            }
        }
        out
    }

    /// Whether any app is kept in the background.
    pub fn has_background(&self) -> (r: bool)
        requires
            self.wf(),
        ensures
            r == exists|k: Seq<char>|
                #[trigger] self.table().contains_key(k) && self.table()[k].status@ == "background"@,
    {
        proof {
            self.running.lemma_entries();
        }
        let n = self.running.len();
        let mut i: usize = 0;
        while i < n
            invariant
                self.wf(),
                n == self.running.entries().len(),
                i <= n,
                forall|j: int| 0 <= j < i ==> self.running.entries()[j].1.status@ != "background"@,
            decreases n - i,
        {
            let (_, entry) = self.running.entry(i);
            if str_eq(entry.status.as_str(), "background") {
                proof {
                    self.running.lemma_entries();
                    let k = self.running.entries()[i as int].0@;
                    assert(self.table().contains_key(k));
                }
                return true;
            }
            i += 1;
        }
        proof {
            self.running.lemma_entries();
            assert forall|k: Seq<char>| #[trigger] self.table().contains_key(k) implies self.table()[k].status@
                != "background"@ by {
                let j = choose|j: int|
                    0 <= j < self.running.entries().len() && self.running.entries()[j].0@ == k;
                assert(self.table()[k] == self.running.entries()[j].1);
            }
        }
        false
    }

    /// The entry for an app, if any.
    pub fn running_entry(&self, app_id: &str) -> (r: Option<&RunningApp>)
        requires
            self.wf(),
        ensures
            match r {
                Some(e) => self.table().contains_key(app_id@) && self.table()[app_id@] == *e,
                None => !self.table().contains_key(app_id@),
            },
    {
        self.running.get(app_id)
    }

    /// The number of entries, with access by position for the tray.
    pub fn running_count(&self) -> (n: usize)
        requires
            self.wf(),
        ensures
            n == self.table().len(),
    {
        proof {
            self.running.lemma_entries();
        }
        self.running.len()
    }
}

/// Law: the state reported for an app follows the last marking: running
/// with the given state after `mark_running`, "background" after
/// `mark_background` of a running app, "stopped" after `mark_stopped`.
pub proof fn law_marks_then_status(
    before: Map<Seq<char>, RunningApp>,
    after_running: Map<Seq<char>, RunningApp>,
    after_background: Map<Seq<char>, RunningApp>,
    after_stopped: Map<Seq<char>, RunningApp>,
    id: Seq<char>,
    status: Seq<char>,
)
    requires
        after_running.dom() == before.dom().insert(id),
        after_running[id].status@ == status,
        after_background.dom() == after_running.dom(),
        after_background[id].status@ == "background"@,
        after_stopped == after_background.remove(id),
    ensures
        status_in(after_running, id) == status,
        status_in(after_background, id) == "background"@,
        status_in(after_stopped, id) == stopped(),
{
    assert(after_running.contains_key(id));
    assert(after_background.contains_key(id));
    assert(!after_stopped.contains_key(id));
}

/// Law: there is work left exactly when some app id is listed as running.
pub proof fn law_has_work_iff_ids(t: Map<Seq<char>, RunningApp>, ids: Seq<String>)
    requires
        t.dom().finite(),
        ids.len() == t.len(),
    ensures
        (t.len() > 0) == (ids.len() > 0),
{
}

/// The fields of the console app that every installation starts with: a
/// system app named "WebDesk 控制台", id "console", whose URL port is filled
/// in once the API server listens, with default settings and the tag
/// "system".
pub open spec fn is_console_seed(v: AppView) -> bool {
    &&& v.id == "console"@
    &&& v.is_system
    &&& v.url == "http://127.0.0.1:0"@
    &&& v.name == "WebDesk 控制台"@
    &&& v.close_action == "background"@
    &&& v.runtime_profile == "system"@
    &&& v.hooks.pre_launch.len() == 0
    &&& v.hooks.post_exit.len() == 0
    &&& v.hook_options == default_hook_options()
    &&& v.ui_controls == default_ui_controls()
    &&& v.injections == default_injections()
    &&& v.icon.len() == 0
    &&& v.extensions.len() == 0
    &&& !v.launch_on_boot
    &&& v.tags == seq!["system"@]
    &&& is_timestamp(v.created_at)
    &&& is_timestamp(v.updated_at)
}

/// The console app that every installation starts with (see
/// [`is_console_seed`]).
pub fn console_app() -> (r: App)
    ensures
        is_console_seed(r@),
{
    let mut tags: Vec<String> = Vec::new();
    tags.push(owned("system"));
    let r = App {
        id: owned("console"),
        name: owned("WebDesk 控制台"),
        url: owned("http://127.0.0.1:0"),
        runtime_profile: owned("system"),
        close_action: owned("background"),
        hooks: HookConfig::default(),
        hook_options: HookOptions::default(),
        ui_controls: UiControls::default(),
        injections: Injections::default(),
        icon: String::new(),
        extensions: Vec::new(),
        is_system: true,
        launch_on_boot: false,
        tags,
        created_at: now_iso(),
        updated_at: now_iso(),
    };
    proof {
        assert(crate::json::views(r.tags@) =~= seq!["system"@]);
    }
    r
}

/// A store listing holds the console: a system app with the id "console".
pub open spec fn holds_console(apps: Seq<App>) -> bool {
    exists|i: int| 0 <= i < apps.len() && apps[i].is_system && #[trigger] apps[i].id@ == "console"@
}

/// Whether the stored apps already hold the console (see [`holds_console`]).
pub fn has_console(apps: &Vec<App>) -> (r: bool)
    ensures
        r == holds_console(apps@),
{
    let mut i: usize = 0;
    while i < apps.len()
        invariant
            i <= apps@.len(),
            forall|j: int| 0 <= j < i ==> !(apps@[j].is_system && apps@[j].id@ == "console"@),
        decreases apps.len() - i,
    {
        if apps[i].is_system && str_eq(apps[i].id.as_str(), "console") {
            return true;
        }
        i += 1;
    }
    false
}

/// The app to seed into a store listing: the console when the listing does
/// not hold it yet, nothing otherwise.
pub fn console_to_seed(apps: &Vec<App>) -> (r: Option<App>)
    ensures
        r is None <==> holds_console(apps@),
        r matches Some(c) ==> is_console_seed(c@),
{
    if has_console(apps) {
        None
    } else {
        Some(console_app())
    }
}

/// Law: seeding is idempotent: once the seeded console is in the listing
/// (or whenever the listing already held it, whatever else is added), the
/// listing holds the console and nothing more is seeded.
pub proof fn law_seeding_idempotent(apps: Seq<App>, added: App)
    ensures
        is_console_seed(added@) ==> holds_console(apps.push(added)),
        holds_console(apps) ==> holds_console(apps.push(added)),
{
    if is_console_seed(added@) {
        assert(apps.push(added)[apps.len() as int] == added);
    }
    if holds_console(apps) {
        let i = choose|i: int| 0 <= i < apps.len() && apps[i].is_system && #[trigger] apps[i].id@ == "console"@;
        assert(apps.push(added)[i] == apps[i]);
    }
}

/// Looks up an app by id in a store listing (the caller reads the store).
pub fn get_app(apps: &Vec<App>, id: &str) -> (r: Option<usize>)
    ensures
        match r {
            Some(i) => i < apps@.len() && apps@[i as int].id@ == id@,
            None => forall|j: int| 0 <= j < apps@.len() ==> apps@[j].id@ != id@,
        },
{
    let mut i: usize = 0;
    while i < apps.len()
        invariant
            i <= apps@.len(),
            forall|j: int| 0 <= j < i ==> apps@[j].id@ != id@,
        decreases apps.len() - i,
    {
        if str_eq(apps[i].id.as_str(), id) {
            return Some(i);
        }
        i += 1;
    }
    None
}

} // verus!
