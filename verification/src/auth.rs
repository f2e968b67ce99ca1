//! Command authorization: a web page may ask to run a local command; the
//! user's decision for an app and command can be remembered, after which
//! the same request is answered without asking again.
use vstd::prelude::*;
use crate::keyed::{StrMap, map_of};
use crate::text::{owned, push_char, push_str};
use crate::util::{is_timestamp, now_iso};

verus! {

/// One remembered decision for an app and a command.
#[derive(Clone, Debug)]
pub struct Grant {
    pub app_id: String,
    pub command: String,
    /// true: run the command; false: refuse it.
    pub allow: bool,
    pub remember: bool,
    pub granted_at: String,
}

/// A remembered decision as reported to the caller.
#[derive(Clone, Copy, Debug, PartialEq, Eq)]
pub struct AuthDecision {
    pub allowed: bool,
    pub remembered: bool,
}

/// The store of remembered decisions, keyed by app and command, with the
/// file it is persisted to (`<data>/WebDesk/auth/grants.json`).
pub struct AuthStore {
    grants: StrMap<Grant>,
    path: String,
}

/// The key of an app and a command: the two joined by a NUL char.
pub open spec fn grant_key(app_id: Seq<char>, command: Seq<char>) -> Seq<char> {
    app_id + seq!['\0'] + command
}

/// The decision remembered in `m` for an app and a command.
pub open spec fn decision_in(m: Map<Seq<char>, Grant>, app_id: Seq<char>, command: Seq<char>) -> Option<
    AuthDecision,
> {
    let k = grant_key(app_id, command);
    if m.contains_key(k) {
        Some(AuthDecision { allowed: m[k].allow, remembered: m[k].remember })
    } else {
        None
    }
}

/// `after` is `before` with a remembered decision `allow` for the app and
/// command, stamped at some time.
pub open spec fn recorded(
    before: Map<Seq<char>, Grant>,
    after: Map<Seq<char>, Grant>,
    app_id: Seq<char>,
    command: Seq<char>,
    allow: bool,
) -> bool {
    let k = grant_key(app_id, command);
    &&& after.dom() == before.dom().insert(k)
    &&& forall|o: Seq<char>| o != k && before.contains_key(o) ==> after[o] == before[o]
    &&& after[k].app_id@ == app_id
    &&& after[k].command@ == command
    &&& after[k].allow == allow
    &&& after[k].remember
    &&& is_timestamp(after[k].granted_at@)
}

/// No NUL char in a text.
pub open spec fn nul_free(s: Seq<char>) -> bool {
    forall|i: int| 0 <= i < s.len() ==> s[i] != '\0'
}

impl View for AuthStore {
    type V = Map<Seq<char>, Grant>;

    closed spec fn view(&self) -> Map<Seq<char>, Grant> {
        self.grants@
    }
}

impl AuthStore {
    /// The store is well formed.
    pub closed spec fn wf(&self) -> bool {
        self.grants.wf()
    }

    /// The persisted entries (key and grant) in the store's order.
    pub closed spec fn entries(&self) -> Seq<(String, Grant)> {
        self.grants.entries()
    }

    /// The path of the persisted file.
    pub closed spec fn path_view(&self) -> Seq<char> {
        self.path@
    }

    /// A store at `path` holding the loaded entries (a later entry with the
    /// same key replaces an earlier one).
    pub fn with_grants(path: String, loaded: Vec<(String, Grant)>) -> (r: AuthStore)
        ensures
            r.wf(),
            r@ == map_of(loaded@),
            r.path_view() == path@,
    {
        let mut grants: StrMap<Grant> = StrMap::new();
        let mut loaded = loaded;
        let ghost all = loaded@;
        let mut done: usize = 0;
        proof {
            assert(all.take(0) =~= Seq::<(String, Grant)>::empty());
            assert(all.skip(0) =~= all);
            assert(all.len() == loaded.len());
        }
        while loaded.len() > 0
            invariant
                grants.wf(),
                done + loaded@.len() == all.len(),
                all.len() <= usize::MAX,
                loaded@ == all.skip(done as int),
                grants@ == map_of(all.take(done as int)),
            decreases loaded.len(),
        {
            let (k, g) = loaded.remove(0);
            proof {
                assert(all.take(done + 1).drop_last() =~= all.take(done as int));
                assert(all.take(done + 1).last() == all[done as int]);
                assert(all.skip(done + 1) =~= all.skip(done as int).drop_first());
            }
            grants.insert(k, g);
            done += 1;
        }
        proof {
            assert(all.take(done as int) =~= all);
        }
        AuthStore { grants, path }
    }

    /// The path of the persisted file.
    pub fn path(&self) -> (r: &str)
        ensures
            r@ == self.path_view(),
    {
        self.path.as_str()
    }

    /// The number of persisted entries.
    pub fn grant_count(&self) -> (n: usize)
        ensures
            n == self.entries().len(),
    {
        self.grants.len()
    }

    /// The persisted entry at position `i`.
    pub fn grant_at(&self, i: usize) -> (e: &(String, Grant))
        requires
            i < self.entries().len(),
        ensures
            *e == self.entries()[i as int],
    {
        self.grants.entry(i)
    }

    /// The key of an app and a command: `app_id`, a NUL char, `command`.
    pub fn key(app_id: &str, command: &str) -> (k: String)
        ensures
            k@ == grant_key(app_id@, command@),
    {
        let mut k = owned(app_id);
        push_char(&mut k, '\0');
        push_str(&mut k, command);
        k
    }

    /// The remembered decision for an app and a command; `None` when none is
    /// remembered (the caller then asks the user).
    pub fn check(&self, app_id: &str, command: &str) -> (r: Option<AuthDecision>)
        requires
            self.wf(),
        ensures
            r == decision_in(self@, app_id@, command@),
    {
        let k = Self::key(app_id, command);
        match self.grants.get(k.as_str()) {
            Some(g) => Some(AuthDecision { allowed: g.allow, remembered: g.remember }),
            None => None,
        }
    }

    /// Remembers the user's decision for an app and a command (also a
    /// refusal, so that the same request is refused without asking). The
    /// caller persists the store afterwards.
    pub fn record(&mut self, app_id: &str, command: &str, allow: bool)
        requires
            old(self).wf(),
        ensures
            final(self).wf(),
            final(self).path_view() == old(self).path_view(),
            recorded(old(self)@, final(self)@, app_id@, command@, allow),
    {
        let k = Self::key(app_id, command);
        let g = Grant {
            app_id: owned(app_id),
            command: owned(command),
            allow,
            remember: true,
            granted_at: now_iso(),
        };
        self.grants.insert(k, g);
    }
}

/// Law: after a decision is remembered, checking the same app and command
/// reports it, remembered; checking any other app and command reports what
/// it reported before, as long as the texts hold no NUL char.
pub proof fn law_record_then_check(
    before: Map<Seq<char>, Grant>,
    after: Map<Seq<char>, Grant>,
    app_id: Seq<char>,
    command: Seq<char>,
    allow: bool,
    other_app: Seq<char>,
    other_command: Seq<char>,
)
    requires
        recorded(before, after, app_id, command, allow),
        nul_free(app_id),
        nul_free(other_app),
    ensures
        decision_in(after, app_id, command) == Some(AuthDecision { allowed: allow, remembered: true }),
        (other_app != app_id || other_command != command) ==> decision_in(
            after,
            other_app,
            other_command,
        ) == decision_in(before, other_app, other_command),
{
    let k = grant_key(app_id, command);
    assert(after.contains_key(k));
    if other_app != app_id || other_command != command {
        law_key_injective(app_id, command, other_app, other_command);
        let o = grant_key(other_app, other_command);
        assert(after.contains_key(o) == before.contains_key(o));
    }
}

/// The decision last recorded for an app and a command in a series of
/// records (each an app, a command and a decision), if any.
pub open spec fn last_recorded(
    ops: Seq<(Seq<char>, Seq<char>, bool)>,
    app_id: Seq<char>,
    command: Seq<char>,
) -> Option<bool>
    decreases ops.len(),
{
    if ops.len() == 0 {
        None
    } else if ops.last().0 == app_id && ops.last().1 == command {
        Some(ops.last().2)
    } else {
        last_recorded(ops.drop_last(), app_id, command)
    }
}

/// `stores` are the contents of a store before and after each record of the
/// series `ops`, in order.
pub open spec fn record_series(
    stores: Seq<Map<Seq<char>, Grant>>,
    ops: Seq<(Seq<char>, Seq<char>, bool)>,
) -> bool {
    &&& stores.len() == ops.len() + 1
    &&& forall|i: int|
        0 <= i < ops.len() ==> recorded(stores[i], #[trigger] stores[i + 1], ops[i].0, ops[i].1, ops[i].2)
}

/// Law: after a series of records, checking an app and a command reports
/// the decision last recorded for them, remembered; one never recorded
/// reports what it reported before the series (app ids without NUL chars).
pub proof fn law_record_series_then_check(
    stores: Seq<Map<Seq<char>, Grant>>,
    ops: Seq<(Seq<char>, Seq<char>, bool)>,
    app_id: Seq<char>,
    command: Seq<char>,
)
    requires
        record_series(stores, ops),
        nul_free(app_id),
        forall|i: int| 0 <= i < ops.len() ==> nul_free(#[trigger] ops[i].0),
    ensures
        decision_in(stores.last(), app_id, command) == match last_recorded(ops, app_id, command) {
            Some(a) => Some(AuthDecision { allowed: a, remembered: true }),
            None => decision_in(stores[0], app_id, command),
        },
    decreases ops.len(),
{
    if ops.len() > 0 {
        let n = ops.len() - 1;
        let s2 = stores.drop_last();
        let o2 = ops.drop_last();
        assert forall|i: int| 0 <= i < o2.len() implies recorded(s2[i], #[trigger] s2[i + 1], o2[i].0, o2[i].1, o2[i].2) by {
            assert(stores[i + 1] == s2[i + 1]);
        }
        assert forall|i: int| 0 <= i < o2.len() implies nul_free(#[trigger] o2[i].0) by {
            assert(o2[i] == ops[i]);
        }
        law_record_series_then_check(s2, o2, app_id, command);
        assert(recorded(stores[n], stores[n + 1], ops[n].0, ops[n].1, ops[n].2));
        assert(nul_free(ops[n].0));
        law_record_then_check(stores[n], stores[n + 1], ops[n].0, ops[n].1, ops[n].2, app_id, command);
        assert(stores.last() == stores[n + 1]);
        assert(s2.last() == stores[n]);
    }
}

/// Law: keys are scoped by app: two keys are equal only for the same app
/// and the same command, when the app ids hold no NUL char.
pub proof fn law_key_injective(a1: Seq<char>, c1: Seq<char>, a2: Seq<char>, c2: Seq<char>)
    requires
        nul_free(a1),
        nul_free(a2),
    ensures
        grant_key(a1, c1) == grant_key(a2, c2) ==> a1 == a2 && c1 == c2,
{
    let k1 = grant_key(a1, c1);
    let k2 = grant_key(a2, c2);
    if k1 == k2 {
        if a1.len() < a2.len() {
            assert(k1[a1.len() as int] == '\0');
            assert(k2[a1.len() as int] == a2[a1.len() as int]);
        } else if a2.len() < a1.len() {
            assert(k2[a2.len() as int] == '\0');
            assert(k1[a2.len() as int] == a1[a2.len() as int]);
        } else {
            assert(a1 =~= k1.take(a1.len() as int));
            assert(a2 =~= k2.take(a2.len() as int));
            assert(c1 =~= k1.skip(a1.len() as int + 1));
            assert(c2 =~= k2.skip(a2.len() as int + 1));
        }
    }
}

} // verus!
