//! The app configuration store: where configurations live, and the rules
//! by which a configuration is created, merged with a partial update, and
//! listed. Reading and writing the JSON files is done by the caller.
use vstd::prelude::*;
use vstd::multiset::Multiset;
use crate::json::views;
use crate::text::{concat3, push_str, lemma_seq_le_total, lemma_seq_le_trans, owned, seq_le, str_le};
use crate::types::{App, AppView, HookConfigView, HookOptionsView, InjectionsView};
use crate::util::{is_timestamp, now_iso};

verus! {

/// A hyphenated lowercase UUID text: 36 chars, `-` at positions 8, 13, 18
/// and 23, a lowercase hex digit everywhere else.
pub open spec fn is_uuid_text(s: Seq<char>) -> bool {
    &&& s.len() == 36
    &&& forall|i: int|
        0 <= i < 36 ==> if i == 8 || i == 13 || i == 18 || i == 23 {
            #[trigger] s[i] == '-'
        } else {
            ('0' <= s[i] && s[i] <= '9') || ('a' <= s[i] && s[i] <= 'f')
        }
}

/// A fresh random app id from the `uuid` crate: `Uuid::new_v4` written by
/// its `Display`, the hyphenated lowercase form. Which id comes out is left
/// open: it is random.
#[verifier::external_body]
fn fresh_id() -> (id: String)
    ensures
        is_uuid_text(id@),
{
    uuid::Uuid::new_v4().to_string()
}

/// The configuration store: one JSON file per app, named after the app's id,
/// in the directory `dir` (`<base>/WebDesk/config`).
#[derive(Clone, Debug)]
pub struct AppStore {
    dir: String,
}

/// `patch` when it is non-empty, `old` otherwise.
pub open spec fn keep_if_empty<T>(old: Seq<T>, patch: Seq<T>) -> Seq<T> {
    if patch.len() > 0 {
        patch
    } else {
        old
    }
}

/// `merged` is `patch` when `patch` is non-empty, and `old` otherwise.
pub open spec fn replaced_unless_empty<T>(merged: Seq<T>, old: Seq<T>, patch: Seq<T>) -> bool {
    &&& patch.len() > 0 ==> merged == patch
    &&& patch.len() == 0 ==> merged == old
}

/// `m` is the merge of the patch `p` into the existing app `e`: every text
/// and list field takes the patch's value when that is non-empty and keeps
/// the existing one otherwise; a zero timeout keeps the existing one; the
/// blocking flag, the window controls, the system flag and the start-on-boot
/// flag are the patch's; the id and the creation time are the existing
/// app's.
pub open spec fn merge_rules(m: AppView, e: AppView, p: AppView) -> bool {
    &&& m.id == e.id
    &&& m.created_at == e.created_at
    &&& replaced_unless_empty(m.name, e.name, p.name)
    &&& replaced_unless_empty(m.url, e.url, p.url)
    &&& replaced_unless_empty(m.runtime_profile, e.runtime_profile, p.runtime_profile)
    &&& replaced_unless_empty(m.close_action, e.close_action, p.close_action)
    &&& replaced_unless_empty(m.hooks.pre_launch, e.hooks.pre_launch, p.hooks.pre_launch)
    &&& replaced_unless_empty(m.hooks.post_exit, e.hooks.post_exit, p.hooks.post_exit)
    &&& replaced_unless_empty(m.hook_options.shell, e.hook_options.shell, p.hook_options.shell)
    &&& (p.hook_options.timeout_ms != 0 ==> m.hook_options.timeout_ms == p.hook_options.timeout_ms)
    &&& (p.hook_options.timeout_ms == 0 ==> m.hook_options.timeout_ms == e.hook_options.timeout_ms)
    &&& m.hook_options.blocking == p.hook_options.blocking
    &&& m.ui_controls == p.ui_controls
    &&& replaced_unless_empty(m.injections.css, e.injections.css, p.injections.css)
    &&& replaced_unless_empty(m.injections.js, e.injections.js, p.injections.js)
    &&& replaced_unless_empty(m.injections.timing, e.injections.timing, p.injections.timing)
    &&& replaced_unless_empty(m.icon, e.icon, p.icon)
    &&& replaced_unless_empty(m.extensions, e.extensions, p.extensions)
    &&& m.is_system == p.is_system
    &&& m.launch_on_boot == p.launch_on_boot
    &&& replaced_unless_empty(m.tags, e.tags, p.tags)
}

/// Law: merging a patch obeys the merge rules (see [`merge_rules`]): in
/// particular the start-on-boot and system flags are the patch's, so
/// turning start-on-boot off in an edit turns it off, and a non-empty
/// text of the patch replaces the stored one.
pub proof fn law_merge_rules(e: AppView, p: AppView, now: Seq<char>)
    ensures
        merge_rules(merged_app(e, p, now), e, p),
        merged_app(e, p, now).updated_at == now,
{
}

/// An existing app merged with a patch: a text or list field of the patch
/// replaces the existing one only when it is non-empty, a zero timeout keeps
/// the existing one, and the flags and window controls are taken from the
/// patch. The id and creation time stay; `now` becomes the update time.
pub open spec fn merged_app(e: AppView, p: AppView, now: Seq<char>) -> AppView {
    AppView {
        id: e.id,
        name: keep_if_empty(e.name, p.name),
        url: keep_if_empty(e.url, p.url),
        runtime_profile: keep_if_empty(e.runtime_profile, p.runtime_profile),
        close_action: keep_if_empty(e.close_action, p.close_action),
        hooks: HookConfigView {
            pre_launch: keep_if_empty(e.hooks.pre_launch, p.hooks.pre_launch),
            post_exit: keep_if_empty(e.hooks.post_exit, p.hooks.post_exit),
        },
        hook_options: HookOptionsView {
            shell: keep_if_empty(e.hook_options.shell, p.hook_options.shell),
            timeout_ms: if p.hook_options.timeout_ms != 0 {
                p.hook_options.timeout_ms
            } else {
                e.hook_options.timeout_ms
            },
            blocking: p.hook_options.blocking,
        },
        ui_controls: p.ui_controls,
        injections: InjectionsView {
            css: keep_if_empty(e.injections.css, p.injections.css),
            js: keep_if_empty(e.injections.js, p.injections.js),
            timing: keep_if_empty(e.injections.timing, p.injections.timing),
        },
        icon: keep_if_empty(e.icon, p.icon),
        extensions: keep_if_empty(e.extensions, p.extensions),
        is_system: p.is_system,
        launch_on_boot: p.launch_on_boot,
        tags: keep_if_empty(e.tags, p.tags),
        created_at: e.created_at,
        updated_at: now,
    }
}

/// The app as it is stored on creation: an empty id is replaced by a fresh
/// one (`new_id`), an empty creation time by `now`, and `now` becomes the
/// update time.
pub open spec fn created_app(a: AppView, new_id: Seq<char>, now: Seq<char>) -> AppView {
    AppView {
        id: if a.id.len() == 0 {
            new_id
        } else {
            a.id
        },
        created_at: if a.created_at.len() == 0 {
            now
        } else {
            a.created_at
        },
        updated_at: now,
        ..a
    }
}

/// Apps ordered by name (`String` order).
pub open spec fn sorted_by_name(s: Seq<App>) -> bool {
    forall|i: int, j: int| 0 <= i < j < s.len() ==> seq_le(s[i].name@, s[j].name@)
}

fn pick_string(old: String, patch: String) -> (r: String)
    ensures
        r@ == keep_if_empty(old@, patch@),
{
    if patch.as_str().is_empty() {
        old
    } else {
        patch
    }
}

fn pick_strings(old: Vec<String>, patch: Vec<String>) -> (r: Vec<String>)
    ensures
        views(r@) == keep_if_empty(views(old@), views(patch@)),
{
    if patch.len() == 0 {
        old
    } else {
        patch
    }
}

impl AppStore {
    /// The store kept in `dir` (the directory is created by the caller).
    pub fn with_dir(dir: String) -> (r: AppStore)
        ensures
            r.dir_view() == dir@,
    {
        AppStore { dir }
    }

    /// The configuration directory.
    pub fn dir(&self) -> (r: &str)
        ensures
            r@ == self.dir_view(),
    {
        self.dir.as_str()
    }

    /// The file of the app with id `id`: `{dir}/{id}.json`.
    pub fn path_for(&self, id: &str) -> (r: String)
        ensures
            r@ == self.dir_view() + "/"@ + id@ + ".json"@,
    {
        let mut r = concat3(self.dir.as_str(), "/", id);
        push_str(&mut r, ".json");
        r
    }

    /// The view of the configuration directory.
    pub closed spec fn dir_view(&self) -> Seq<char> {
        self.dir@
    }

    /// The app to store for a new configuration: an empty id gets a fresh
    /// random one, an empty creation time gets the current time, and the
    /// update time is the current time.
    pub fn create(&self, app: App) -> (r: App)
        ensures
            exists|new_id: Seq<char>, now: Seq<char>|
                is_uuid_text(new_id) && is_timestamp(now) && r@ == created_app(app@, new_id, now),
            r@.id.len() > 0,
    {
        let mut app = app;
        let ghost orig = app@;
        let ghost new_id: Seq<char>;
        if app.id.as_str().is_empty() {
            app.id = fresh_id();
            proof {
                new_id = app.id@;
            }
        } else {
            proof {
                new_id = Seq::new(36, |i: int| if i == 8 || i == 13 || i == 18 || i == 23 { '-' } else { '0' });
            }
        }
        let now = now_iso();
        if app.created_at.as_str().is_empty() {
            app.created_at = owned(now.as_str());
        }
        let ghost now_view = now@;
        app.updated_at = now;
        proof {
            assert(app@ == created_app(orig, new_id, now_view));
        }
        app
    }

    /// A partial update of a stored app: `None` when there is no existing
    /// app; otherwise the existing app merged with `patch` (see
    /// [`merged_app`]) with the current time as its update time.
    pub fn update(&self, existing: Option<App>, patch: App) -> (r: Option<App>)
        ensures
            existing is None ==> r is None,
            existing matches Some(e) ==> r matches Some(m) && is_timestamp(m.updated_at@)
                && m@ == merged_app(e@, patch@, m.updated_at@),
            existing matches Some(e) ==> r matches Some(m) && merge_rules(m@, e@, patch@),
    {
        let e = match existing {
            Some(e) => e,
            None => {
                return None;
            },
        };
        let p = patch;
        let merged = App {
            id: e.id,
            name: pick_string(e.name, p.name),
            url: pick_string(e.url, p.url),
            runtime_profile: pick_string(e.runtime_profile, p.runtime_profile),
            close_action: pick_string(e.close_action, p.close_action),
            hooks: crate::types::HookConfig {
                pre_launch: pick_strings(e.hooks.pre_launch, p.hooks.pre_launch),
                post_exit: pick_strings(e.hooks.post_exit, p.hooks.post_exit),
            },
            hook_options: crate::types::HookOptions {
                shell: pick_string(e.hook_options.shell, p.hook_options.shell),
                timeout_ms: if p.hook_options.timeout_ms != 0 {
                    p.hook_options.timeout_ms
                } else {
                    e.hook_options.timeout_ms
                },
                blocking: p.hook_options.blocking,
            },
            ui_controls: p.ui_controls,
            injections: crate::types::Injections {
                css: pick_string(e.injections.css, p.injections.css),
                js: pick_string(e.injections.js, p.injections.js),
                timing: pick_string(e.injections.timing, p.injections.timing),
            },
            icon: pick_string(e.icon, p.icon),
            extensions: pick_strings(e.extensions, p.extensions),
            is_system: p.is_system,
            launch_on_boot: p.launch_on_boot,
            tags: pick_strings(e.tags, p.tags),
            created_at: e.created_at,
            updated_at: now_iso(),
        };
        Some(merged)
    }

    /// The apps sorted by name, in `String` order.
    pub fn sort_by_name(apps: Vec<App>) -> (r: Vec<App>)
        ensures
            r@.to_multiset() == apps@.to_multiset(),
            sorted_by_name(r@),
    {
        let mut rest = apps;
        let mut out: Vec<App> = Vec::new();
        let ghost orig = rest@;
        proof {
            broadcast use vstd::multiset::group_multiset_axioms;
            vstd::seq_lib::to_multiset_len(out@);
            assert(out@.to_multiset() =~= Multiset::empty());
            assert(out@.to_multiset().add(rest@.to_multiset()) =~= rest@.to_multiset());
        }
        while rest.len() > 0
            invariant
                out@.to_multiset().add(rest@.to_multiset()) == orig.to_multiset(),
                sorted_by_name(out@),
            decreases rest.len(),
        {
            let ghost rest_before = rest@;
            let x = rest.remove(0);
            proof {
                vstd::seq_lib::to_multiset_remove(rest_before, 0);
                assert(rest_before.to_multiset().count(x) > 0) by {
                    vstd::seq_lib::to_multiset_contains(rest_before, x);
                    assert(rest_before.contains(x)) by {
                        assert(rest_before[0] == x);
                    }
                }
            }
            let mut p: usize = out.len();
            while p > 0 && !str_le(out[p - 1].name.as_str(), x.name.as_str())
                invariant
                    p <= out.len(),
                    sorted_by_name(out@),
                    forall|k: int| p <= k < out.len() ==> !seq_le(#[trigger] out@[k].name@, x.name@),
                decreases p,
            {
                p -= 1;
            }
            proof {
                if p > 0 {
                    assert(seq_le(out@[p - 1].name@, x.name@));
                }
                assert forall|k: int| 0 <= k < p implies seq_le(#[trigger] out@[k].name@, x.name@) by {
                    if k < p - 1 {
                        lemma_seq_le_trans(out@[k].name@, out@[p - 1].name@, x.name@);
                    }
                }
                assert forall|k: int| p <= k < out.len() implies seq_le(x.name@, #[trigger] out@[k].name@) by {
                    lemma_seq_le_total(x.name@, out@[k].name@);
                }
            }
            let ghost before = out@;
            out.insert(p, x);
            proof {
                assert forall|i: int, j: int| 0 <= i < j < out@.len() implies seq_le(
                    out@[i].name@,
                    out@[j].name@,
                ) by {
                    if j < p {
                        assert(out@[i] == before[i] && out@[j] == before[j]);
                    } else if j == p {
                        assert(out@[i] == before[i]);
                    } else if i < p {
                        assert(out@[i] == before[i] && out@[j] == before[j - 1]);
                        lemma_seq_le_trans(before[i].name@, out@[p as int].name@, before[j - 1].name@);
                    } else if i == p {
                        assert(out@[j] == before[j - 1]);
                    } else {
                        assert(out@[i] == before[i - 1] && out@[j] == before[j - 1]);
                    }
                }
                vstd::seq_lib::to_multiset_insert(before, p as int, x);
                broadcast use vstd::multiset::group_multiset_axioms;
                assert(out@.to_multiset().add(rest@.to_multiset()) =~= before.to_multiset().add(
                    rest_before.to_multiset(),
                ));
            }
        }
        proof {
            broadcast use vstd::multiset::group_multiset_axioms;
            vstd::seq_lib::to_multiset_len(rest@);
            assert(rest@.to_multiset() =~= Multiset::empty());
            assert(out@.to_multiset() =~= out@.to_multiset().add(Multiset::empty()));
        }
        out
    }
}

} // verus!
