//! Per-app identity data: where an app's cookies, extensions and secrets
//! live, which of its extensions are usable, how many cookie records it
//! has, and the identity summary. Looking at the disk is done by the
//! caller, which hands the directory listings and existence checks in.
use vstd::prelude::*;
use crate::json::views;
use crate::text::{chars_of, concat2, concat3, ends_with, has_prefix, has_suffix, owned};
use crate::types::{App, IdentitySummary};

verus! {

/// The identity root under a platform data directory:
/// `<data_dir>/WebDesk/identity`.
pub fn identity_root(data_dir: &str) -> (r: String)
    ensures
        r@ == data_dir@ + "/WebDesk/identity"@,
{
    concat2(data_dir, "/WebDesk/identity")
}

/// The identity manager: it resolves each app's identity directory under
/// one root (see [`identity_root`]).
pub struct IdentityManager {
    base: String,
}

/// The identity directory of the app with id `id` under `base`.
pub open spec fn app_dir(base: Seq<char>, id: Seq<char>) -> Seq<char> {
    base + "/"@ + id
}

/// The items of `items` whose flag in `present` is set, in order.
pub open spec fn present_items(items: Seq<Seq<char>>, present: Seq<bool>) -> Seq<Seq<char>>
    decreases items.len(),
{
    if items.len() == 0 || present.len() == 0 {
        Seq::empty()
    } else {
        let init = present_items(items.drop_last(), present.drop_last());
        if present.last() {
            init.push(items.last())
        } else {
            init
        }
    }
}

/// The number of set flags.
pub open spec fn flag_count(present: Seq<bool>) -> nat
    decreases present.len(),
{
    if present.len() == 0 {
        0
    } else {
        flag_count(present.drop_last()) + if present.last() {
            1nat
        } else {
            0nat
        }
    }
}

/// `x` is an item whose flag is set.
pub open spec fn flagged_item(items: Seq<Seq<char>>, present: Seq<bool>, x: Seq<char>) -> bool {
    exists|i: int| 0 <= i < items.len() && present[i] && #[trigger] items[i] == x
}

/// `out` lists the items whose flag is set: as many as there are set flags,
/// every flagged item among them, and each of them a flagged item.
pub open spec fn lists_flagged(items: Seq<Seq<char>>, present: Seq<bool>, out: Seq<Seq<char>>) -> bool {
    &&& out.len() == flag_count(present)
    &&& forall|i: int| 0 <= i < items.len() && present[i] ==> out.contains(#[trigger] items[i])
    &&& forall|k: int| 0 <= k < out.len() ==> flagged_item(items, present, #[trigger] out[k])
}

/// Law: the usable extensions of an app are exactly its extension paths
/// that exist, one per existing path (see [`lists_flagged`]).
pub proof fn law_present_items(items: Seq<Seq<char>>, present: Seq<bool>)
    requires
        items.len() == present.len(),
    ensures
        lists_flagged(items, present, present_items(items, present)),
    decreases items.len(),
{
    if items.len() > 0 {
        let n = items.len() - 1;
        let ii = items.drop_last();
        let pp = present.drop_last();
        law_present_items(ii, pp);
        let init = present_items(ii, pp);
        let out = present_items(items, present);
        assert(out == if present.last() { init.push(items.last()) } else { init });
        assert(flag_count(present) == flag_count(pp) + if present.last() { 1nat } else { 0nat });
        assert(out.len() == flag_count(present));
        assert forall|i: int| 0 <= i < items.len() && present[i] implies out.contains(#[trigger] items[i]) by {
            if i < n {
                assert(ii[i] == items[i] && pp[i] == present[i]);
                assert(init.contains(ii[i]));
                let k = choose|k: int| 0 <= k < init.len() && init[k] == ii[i];
                if present.last() {
                    assert(out[k] == init[k]);
                }
            } else {
                assert(out[out.len() - 1] == items.last());
            }
        }
        assert forall|k: int| 0 <= k < out.len() implies flagged_item(items, present, #[trigger] out[k]) by {
            if k < init.len() {
                assert(out[k] == init[k]);
                assert(flagged_item(ii, pp, init[k]));
                let i = choose|i: int| 0 <= i < ii.len() && pp[i] && #[trigger] ii[i] == init[k];
                assert(ii[i] == items[i] && pp[i] == present[i]);
            } else {
                assert(present.last());
                assert(out[k] == items[n]);
                assert(present[n]);
            }
        }
    }
}

/// Whether a directory entry named `name` is a cookie record: its
/// extension (the text after its last `.`, when that `.` is not its first
/// char) is `json`.
pub open spec fn is_json_name(name: Seq<char>) -> bool {
    name.len() > 5 && has_suffix(name, ".json"@)
}

/// The number of entries that are files with a `json` extension.
pub open spec fn json_file_count(entries: Seq<(String, bool)>) -> nat
    decreases entries.len(),
{
    if entries.len() == 0 {
        0
    } else {
        json_file_count(entries.drop_last()) + if entries.last().1 && is_json_name(
            entries.last().0@,
        ) {
            1nat
        } else {
            0nat
        }
    }
}

/// The number of cookie records among the entries of a cookie directory,
/// each given by its name and whether it is a file (see [`is_json_name`]).
pub fn cookie_count(entries: &Vec<(String, bool)>) -> (r: u64)
    ensures
        r == json_file_count(entries@),
{
    let mut n: u64 = 0;
    let mut i: usize = 0;
    while i < entries.len()
        invariant
            i <= entries@.len(),
            n <= i,
            n == json_file_count(entries@.take(i as int)),
        decreases entries.len() - i,
    {
        proof {
            assert(entries@.take(i + 1).drop_last() =~= entries@.take(i as int));
        }
        let (name, is_file) = &entries[i];
        proof {
            assert(entries@.take(i + 1).last() == entries@[i as int]);
        }
        if *is_file && chars_of(name.as_str()).len() > 5 && ends_with(name.as_str(), ".json") {
            n = n + 1;
        }
        i += 1;
    }
    proof {
        assert(entries@.take(entries@.len() as int) =~= entries@);
    }
    n
}

impl IdentityManager {
    /// A manager whose identity root is `base` (see [`identity_root`]).
    pub fn new(base: &str) -> (r: IdentityManager)
        ensures
            r.base_view() == base@,
    {
        IdentityManager { base: owned(base) }
    }

    /// The identity root.
    pub closed spec fn base_view(&self) -> Seq<char> {
        self.base@
    }

    /// The identity root, shared by all apps.
    pub fn base_dir(&self) -> (r: &str)
        ensures
            r@ == self.base_view(),
    {
        self.base.as_str()
    }

    /// The identity directory of an app: the root followed by the app's id.
    pub fn data_dir(&self, app: &App) -> (r: String)
        ensures
            r@ == app_dir(self.base_view(), app.id@),
    {
        concat3(self.base.as_str(), "/", app.id.as_str())
    }

    /// The app's usable extensions: those of its extension paths that exist
    /// (`present[i]` tells whether the i-th path exists), in order.
    pub fn list_extensions(&self, app: &App, present: &Vec<bool>) -> (r: Vec<String>)
        requires
            present@.len() == app.extensions@.len(),
        ensures
            views(r@) == present_items(views(app.extensions@), present@),
            lists_flagged(views(app.extensions@), present@, views(r@)),
    {
        let mut out: Vec<String> = Vec::new();
        let mut i: usize = 0;
        let ghost items = views(app.extensions@);
        proof {
            assert(views(out@) =~= Seq::<Seq<char>>::empty());
        }
        while i < app.extensions.len()
            invariant
                items == views(app.extensions@),
                present@.len() == app.extensions@.len(),
                i <= app.extensions@.len(),
                views(out@) == present_items(items.take(i as int), present@.take(i as int)),
            decreases app.extensions.len() - i,
        {
            proof {
                assert(items.take(i + 1).drop_last() =~= items.take(i as int));
                assert(present@.take(i + 1).drop_last() =~= present@.take(i as int));
            }
            if present[i] {
                let ghost before = out@;
                out.push(owned(app.extensions[i].as_str()));
                proof {
                    assert(views(out@) =~= views(before).push(items[i as int]));
                }
            }
            i += 1;
        }
        proof {
            assert(items.take(i as int) =~= items);
            assert(present@.take(i as int) =~= present@);
            law_present_items(items, present@);
        }
        out
    }

    /// The app's identity summary: its cookie record count, its usable
    /// extensions (see [`IdentityManager::list_extensions`]) and whether it
    /// has secrets.
    pub fn summary(&self, app: &App, cookies: u64, present: &Vec<bool>, has_secrets: bool) -> (r:
        IdentitySummary)
        requires
            present@.len() == app.extensions@.len(),
        ensures
            r.cookie_count == cookies,
            views(r.extensions@) == present_items(views(app.extensions@), present@),
            lists_flagged(views(app.extensions@), present@, views(r.extensions@)),
            r.has_secrets == has_secrets,
    {
        IdentitySummary {
            cookie_count: cookies,
            extensions: self.list_extensions(app, present),
            has_secrets,
        }
    }
}

/// Law: each app has its own identity directory under the root: apps with
/// different ids get different directories, and each lies under the root.
pub proof fn law_data_dir_per_app(base: Seq<char>, id1: Seq<char>, id2: Seq<char>)
    ensures
        id1 != id2 ==> app_dir(base, id1) != app_dir(base, id2),
        has_prefix(app_dir(base, id1), base),
{
    reveal_strlit("/");
    let d1 = app_dir(base, id1);
    let d2 = app_dir(base, id2);
    let k: int = base.len() as int + 1;
    assert(d1.skip(k) =~= id1);
    assert(d2.skip(k) =~= id2);
    assert(d1.take(base.len() as int) =~= base);
}

} // verus!
