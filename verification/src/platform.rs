//! Desktop-integration rules: the tray menu and its actions, shortcut file
//! names, the icon container format, and the icon URL rules. Building the
//! real tray, writing shortcuts and fetching icons is done by the caller.
use vstd::prelude::*;
use vstd::multiset::Multiset;
use crate::app_state::AppState;

use crate::text::{chars_of, concat2, has_prefix, lemma_seq_le_total, lemma_seq_le_trans, owned, push_char, seq_le, starts_with, str_eq, str_le, string_of_range, trim, trim_seq, lemma_trim_shape, lemma_trim_fixed, is_space_char, trim_start_seq};
use crate::types::App;

verus! {

/// The tray's fixed identifier.
pub const TRAY_ID: &'static str = "webdesk-tray";

/// The menu item id of "show the main panel".
pub const MENU_SHOW_MAIN: &'static str = "show-main";

/// The prefix of the menu item ids that show one background app.
pub const MENU_APP_PREFIX: &'static str = "show-app:";

/// The menu item id of "quit everything".
pub const MENU_QUIT_ALL: &'static str = "quit-all";

/// The tray that appears only while some app is kept in the background.
pub struct TrayController;

/// What a tray menu item does.
#[derive(Debug, Clone, PartialEq, Eq)]
pub enum TrayAction {
    ShowMain,
    ShowApp(String),
    QuitAll,
    Ignore,
}

/// The view of a tray action.
pub enum TrayActionView {
    ShowMain,
    ShowApp(Seq<char>),
    QuitAll,
    Ignore,
}

impl View for TrayAction {
    type V = TrayActionView;

    open spec fn view(&self) -> TrayActionView {
        match self {
            TrayAction::ShowMain => TrayActionView::ShowMain,
            TrayAction::ShowApp(id) => TrayActionView::ShowApp(id@),
            TrayAction::QuitAll => TrayActionView::QuitAll,
            TrayAction::Ignore => TrayActionView::Ignore,
        }
    }
}

/// The action of a menu item id: the two fixed ids, `show-app:` followed by
/// a non-empty app id, or nothing.
pub open spec fn menu_action(id: Seq<char>) -> TrayActionView {
    if id == MENU_SHOW_MAIN@ {
        TrayActionView::ShowMain
    } else if id == MENU_QUIT_ALL@ {
        TrayActionView::QuitAll
    } else if has_prefix(id, MENU_APP_PREFIX@) && id.len() > MENU_APP_PREFIX@.len() {
        TrayActionView::ShowApp(id.skip(MENU_APP_PREFIX@.len() as int))
    } else {
        TrayActionView::Ignore
    }
}

/// The menu item for one background app: id `show-app:{id}`, text
/// `显示 {name}`, enabled.
pub open spec fn app_item(id: Seq<char>, name: Seq<char>) -> (Seq<char>, Seq<char>, bool) {
    (MENU_APP_PREFIX@ + id, "显示 "@ + name, true)
}

/// The view of a menu item.
pub open spec fn item_view(item: (String, String, bool)) -> (Seq<char>, Seq<char>, bool) {
    (item.0@, item.1@, item.2)
}

/// The layout of the tray menu for the given background apps: "show main
/// panel", a separator, one item per app in the given order, a separator,
/// "quit everything".
pub open spec fn menu_layout(apps: Seq<(String, String)>, items: Seq<(String, String, bool)>) -> bool {
    &&& items.len() == apps.len() + 4
    &&& item_view(items[0]) == (MENU_SHOW_MAIN@, "显示主面板"@, true)
    &&& item_view(items[1]) == ("sep-1"@, "-"@, false)
    &&& forall|i: int| 0 <= i < apps.len() ==> item_view(#[trigger] items[i + 2]) == app_item(apps[i].0@, apps[i].1@)
    &&& item_view(items[apps.len() as int + 2]) == ("sep-2"@, "-"@, false)
    &&& item_view(items[apps.len() as int + 3]) == (MENU_QUIT_ALL@, "全部退出"@, true)
}

/// The items of a tray menu as shown: first "显示主面板" (show the main
/// panel, id `show-main`), then for each background app in order an enabled
/// item with id `show-app:` followed by the app's id and text "显示 "
/// followed by its display name, and last "全部退出" (quit everything, id
/// `quit-all`).
pub open spec fn menu_shows(apps: Seq<(String, String)>, items: Seq<(String, String, bool)>) -> bool {
    &&& items.len() == apps.len() + 4
    &&& items[0].0@ == "show-main"@ && items[0].1@ == "显示主面板"@ && items[0].2
    &&& forall|i: int|
        0 <= i < apps.len() ==> {
            &&& (#[trigger] items[i + 2]).0@ == "show-app:"@ + apps[i].0@
            &&& items[i + 2].1@ == "显示 "@ + apps[i].1@
            &&& items[i + 2].2
        }
    &&& items[apps.len() as int + 3].0@ == "quit-all"@ && items[apps.len() as int + 3].1@ == "全部退出"@
        && items[apps.len() as int + 3].2
}

/// Law: the tray menu's layout shows each background app's display name in
/// its item, under the app's own id (see [`menu_shows`]).
pub proof fn law_menu_shows_names(apps: Seq<(String, String)>, items: Seq<(String, String, bool)>)
    requires
        menu_layout(apps, items),
    ensures
        menu_shows(apps, items),
{
    assert forall|i: int| 0 <= i < apps.len() implies {
        &&& (#[trigger] items[i + 2]).0@ == "show-app:"@ + apps[i].0@
        &&& items[i + 2].1@ == "显示 "@ + apps[i].1@
        &&& items[i + 2].2
    } by {
        assert(item_view(items[i + 2]) == app_item(apps[i].0@, apps[i].1@));
    }
}

/// The display name of an app id: the name of the last listed app with that
/// id, or the id itself.
pub open spec fn display_name(apps: Option<Seq<App>>, id: Seq<char>) -> Seq<char>
    decreases (match apps {
        Some(s) => s.len(),
        None => 0,
    }),
{
    match apps {
        None => id,
        Some(s) => if s.len() == 0 {
            id
        } else if s.last().id@ == id {
            s.last().name@
        } else {
            display_name(Some(s.drop_last()), id)
        },
    }
}

/// Pairs ordered by their second text.
pub open spec fn sorted_by_second(s: Seq<(String, String)>) -> bool {
    forall|i: int, j: int| 0 <= i < j < s.len() ==> seq_le(s[i].1@, s[j].1@)
}

fn menu_item(id: &str, text: &str, enabled: bool) -> (r: (String, String, bool))
    ensures
        item_view(r) == (id@, text@, enabled),
{
    (owned(id), owned(text), enabled)
}

fn display_name_of(apps: Option<&Vec<App>>, id: &str) -> (r: String)
    ensures
        r@ == display_name(
            match apps {
                Some(v) => Some(v@),
                None => None,
            },
            id@,
        ),
{
    match apps {
        None => owned(id),
        Some(v) => {
            let mut i: usize = v.len();
            proof {
                assert(v@.take(v@.len() as int) =~= v@);
            }
            while i > 0
                invariant
                    i <= v@.len(),
                    (match apps {
                        Some(w) => Some(w@),
                        None => None,
                    }) == Some(v@),
                    display_name(Some(v@), id@) == display_name(Some(v@.take(i as int)), id@),
                decreases i,
            {
                proof {
                    assert(v@.take(i as int).drop_last() =~= v@.take(i - 1));
                    assert(v@.take(i as int).last() == v@[i - 1]);
                }
                if str_eq(v[i - 1].id.as_str(), id) {
                    return owned(v[i - 1].name.as_str());
                }
                i -= 1;
            }
            proof {
                assert(v@.take(0) =~= Seq::<App>::empty());
            }
            owned(id)
        },
    }
}

/// Pairs whose first texts are pairwise distinct.
pub open spec fn firsts_distinct(s: Seq<(String, String)>) -> bool {
    forall|i: int, j: int| 0 <= i < j < s.len() ==> #[trigger] s[i].0@ != #[trigger] s[j].0@
}

/// A stable insertion sort of pairs by their second text.
fn sort_by_second(v: Vec<(String, String)>) -> (r: Vec<(String, String)>)
    ensures
        r@.to_multiset() == v@.to_multiset(),
        sorted_by_second(r@),
        firsts_distinct(v@) ==> firsts_distinct(r@),
{
    let mut rest = v;
    let mut out: Vec<(String, String)> = Vec::new();
    let ghost orig = rest@;
    proof {
        assert(orig.skip(0) =~= orig);
    }
    proof {
        broadcast use vstd::multiset::group_multiset_axioms;
        vstd::seq_lib::to_multiset_len(out@);
        assert(out@.to_multiset() =~= Multiset::empty());
        assert(out@.to_multiset().add(rest@.to_multiset()) =~= rest@.to_multiset());
    }
    while rest.len() > 0
        invariant
            out@.to_multiset().add(rest@.to_multiset()) == orig.to_multiset(),
            sorted_by_second(out@),
            rest@.len() <= orig.len(),
            rest@ == orig.skip(orig.len() - rest@.len()),
            forall|i: int|
                0 <= i < out@.len() ==> exists|m: int|
                    0 <= m < orig.len() - rest@.len() && #[trigger] out@[i] == orig[m],
            firsts_distinct(orig) ==> firsts_distinct(out@),
        decreases rest.len(),
    {
        let ghost rest_before = rest@;
        let ghost n: int = orig.len() - rest@.len();
        let x = rest.remove(0);
        proof {
            vstd::seq_lib::to_multiset_remove(rest_before, 0);
            assert(rest_before.to_multiset().count(x) > 0) by {
                vstd::seq_lib::to_multiset_contains(rest_before, x);
                assert(rest_before.contains(x)) by {
                    assert(rest_before[0] == x);
                }
            }
        }
        let mut p: usize = out.len();
        while p > 0 && !str_le(out[p - 1].1.as_str(), x.1.as_str())
            invariant
                p <= out.len(),
                sorted_by_second(out@),
                forall|k: int| p <= k < out.len() ==> !seq_le(#[trigger] out@[k].1@, x.1@),
            decreases p,
        {
            p -= 1;
        }
        proof {
            assert forall|k: int| 0 <= k < p implies seq_le(#[trigger] out@[k].1@, x.1@) by {
                if k < p - 1 {
                    lemma_seq_le_trans(out@[k].1@, out@[p - 1].1@, x.1@);
                }
            }
            assert forall|k: int| p <= k < out.len() implies seq_le(x.1@, #[trigger] out@[k].1@) by {
                lemma_seq_le_total(x.1@, out@[k].1@);
            }
        }
        let ghost before = out@;
        out.insert(p, x);
        proof {
            assert forall|i: int, j: int| 0 <= i < j < out@.len() implies seq_le(
                out@[i].1@,
                out@[j].1@,
            ) by {
                if j < p {
                    assert(out@[i] == before[i] && out@[j] == before[j]);
                } else if j == p {
                    assert(out@[i] == before[i]);
                } else if i < p {
                    assert(out@[i] == before[i] && out@[j] == before[j - 1]);
                    lemma_seq_le_trans(before[i].1@, out@[p as int].1@, before[j - 1].1@);
                } else if i == p {
                    assert(out@[j] == before[j - 1]);
                } else {
                    assert(out@[i] == before[i - 1] && out@[j] == before[j - 1]);
                }
            }
            assert(x == orig[n]) by {
                assert(rest_before[0] == orig.skip(n)[0]);
            }
            assert(rest@ =~= orig.skip(n + 1));
            assert forall|i: int| 0 <= i < out@.len() implies exists|m: int|
                0 <= m < orig.len() - rest@.len() && #[trigger] out@[i] == orig[m] by {
                if i < p {
                    assert(out@[i] == before[i]);
                } else if i == p {
                    assert(out@[i] == orig[n]);
                } else {
                    assert(out@[i] == before[i - 1]);
                }
            }
            if firsts_distinct(orig) {
                assert forall|i: int, j: int| 0 <= i < j < out@.len() implies #[trigger] out@[i].0@
                    != #[trigger] out@[j].0@ by {
                    if i != p && j != p {
                        let bi = if i < p { i } else { i - 1 };
                        let bj = if j < p { j } else { j - 1 };
                        assert(out@[i] == before[bi] && out@[j] == before[bj]);
                    } else if i == p {
                        let bj = j - 1;
                        assert(out@[j] == before[bj]);
                        let m = choose|m: int| 0 <= m < n && #[trigger] before[bj] == orig[m];
                        assert(orig[m].0@ != orig[n].0@);
                    } else {
                        assert(out@[i] == before[i]);
                        let m = choose|m: int| 0 <= m < n && #[trigger] before[i] == orig[m];
                        assert(orig[m].0@ != orig[n].0@);
                    }
                }
            }
            vstd::seq_lib::to_multiset_insert(before, p as int, x);
            broadcast use vstd::multiset::group_multiset_axioms;
            assert(out@.to_multiset().add(rest@.to_multiset()) =~= before.to_multiset().add(
                rest_before.to_multiset(),
            ));
        }
    }
    proof {
        broadcast use vstd::multiset::group_multiset_axioms;
        vstd::seq_lib::to_multiset_len(rest@);
        assert(rest@.to_multiset() =~= Multiset::empty());
        assert(out@.to_multiset() =~= out@.to_multiset().add(Multiset::empty()));
    }
    out
}

impl TrayController {
    /// The tray menu for the given background apps (id, display name): see
    /// [`menu_layout`].
    pub fn build_menu_descriptor(apps: &Vec<(String, String)>) -> (r: Vec<(String, String, bool)>)
        requires
            apps@.len() + 4 <= usize::MAX,
        ensures
            menu_layout(apps@, r@),
            menu_shows(apps@, r@),
    {
        let mut items: Vec<(String, String, bool)> = Vec::new();
        items.push(menu_item(MENU_SHOW_MAIN, "显示主面板", true));
        items.push(menu_item("sep-1", "-", false));
        let mut i: usize = 0;
        while i < apps.len()
            invariant
                i <= apps@.len(),
                items@.len() == i + 2,
                item_view(items@[0]) == (MENU_SHOW_MAIN@, "显示主面板"@, true),
                item_view(items@[1]) == ("sep-1"@, "-"@, false),
                forall|j: int| 0 <= j < i ==> item_view(#[trigger] items@[j + 2]) == app_item(apps@[j].0@, apps@[j].1@),
            decreases apps.len() - i,
        {
            let id = concat2(MENU_APP_PREFIX, apps[i].0.as_str());
            let text = concat2("显示 ", apps[i].1.as_str());
            items.push((id, text, true));
            i += 1;
        }
        items.push(menu_item("sep-2", "-", false));
        items.push(menu_item(MENU_QUIT_ALL, "全部退出", true));
        proof {
            law_menu_shows_names(apps@, items@);
        }
        items
    }

    /// The action of a tray menu item id (see [`menu_action`]).
    pub fn parse_menu_id(id: &str) -> (r: TrayAction)
        ensures
            r@ == menu_action(id@),
    {
        if str_eq(id, MENU_SHOW_MAIN) {
            TrayAction::ShowMain
        } else if str_eq(id, MENU_QUIT_ALL) {
            TrayAction::QuitAll
        } else {
            let v = chars_of(id);
            let p = chars_of(MENU_APP_PREFIX);
            if starts_with(id, MENU_APP_PREFIX) && v.len() > p.len() {
                TrayAction::ShowApp(string_of_range(&v, p.len(), v.len()))
            } else {
                proof {
                    if has_prefix(id@, MENU_APP_PREFIX@) {
                        assert(v@.len() <= p@.len());
                    }
                }
                TrayAction::Ignore
            }
        }
    }

    /// Whether some app is kept in the background, which is when the tray
    /// is shown.
    pub fn has_background_apps(state: &AppState) -> (r: bool)
        requires
            state.wf(),
        ensures
            r == exists|k: Seq<char>|
                #[trigger] state.table().contains_key(k) && state.table()[k].status@ == "background"@,
    {
        state.has_background()
    }

    /// The apps kept in the background, as (id, display name) pairs sorted by
    /// display name; a name comes from the store listing when the caller
    /// could read it (`store_apps`), else the id stands for it.
    pub fn background_apps(state: &AppState, store_apps: Option<&Vec<App>>) -> (r: Vec<(String, String)>)
        requires
            state.wf(),
        ensures
            sorted_by_second(r@),
            forall|i: int|
                0 <= i < r@.len() ==> {
                    &&& state.table().contains_key(#[trigger] r@[i].0@)
                    &&& state.table()[r@[i].0@].status@ == "background"@
                    &&& r@[i].1@ == display_name(
                        match store_apps {
                            Some(v) => Some(v@),
                            None => None,
                        },
                        r@[i].0@,
                    )
                },
            forall|k: Seq<char>|
                #[trigger] state.table().contains_key(k) && state.table()[k].status@ == "background"@
                    ==> exists|i: int| 0 <= i < r@.len() && r@[i].0@ == k,
            firsts_distinct(r@),
    {
        let ids = state.running_ids();
        let ghost names_of = match store_apps {
            Some(v) => Some(v@),
            None => None,
        };
        let mut pairs: Vec<(String, String)> = Vec::new();
        let mut i: usize = 0;
        while i < ids.len()
            invariant
                state.wf(),
                i <= ids@.len(),
                forall|j: int| 0 <= j < ids@.len() ==> state.table().contains_key(#[trigger] ids@[j]@),
                forall|k: Seq<char>|
                    #[trigger] state.table().contains_key(k) ==> exists|j: int| 0 <= j < ids@.len() && ids@[j]@ == k,
                names_of == match store_apps {
                    Some(v) => Some(v@),
                    None => None,
                },
                forall|j: int|
                    0 <= j < pairs@.len() ==> {
                        &&& state.table().contains_key(#[trigger] pairs@[j].0@)
                        &&& state.table()[pairs@[j].0@].status@ == "background"@
                        &&& pairs@[j].1@ == display_name(names_of, pairs@[j].0@)
                    },
                forall|j: int|
                    0 <= j < i && state.table()[ids@[j]@].status@ == "background"@ ==> exists|m: int|
                        0 <= m < pairs@.len() && pairs@[m].0@ == #[trigger] ids@[j]@,
                forall|a: int, b: int| 0 <= a < b < ids@.len() ==> ids@[a]@ != ids@[b]@,
                forall|m: int|
                    0 <= m < pairs@.len() ==> exists|j: int| 0 <= j < i && #[trigger] pairs@[m].0@ == ids@[j]@,
                firsts_distinct(pairs@),
            decreases ids.len() - i,
        {
            let id = ids[i].as_str();
            let ghost pairs_before = pairs@;
            let entry = state.running_entry(id);
            match entry {
                Some(e) => {
                    if str_eq(e.status.as_str(), "background") {
                        let name = display_name_of(store_apps, id);
                        pairs.push((owned(id), name));
                        proof {
                            assert(pairs@[pairs@.len() - 1].0@ == ids@[i as int]@);
                            assert forall|m: int| 0 <= m < pairs_before.len() implies #[trigger] pairs@[m].0@
                                != ids@[i as int]@ by {
                                assert(pairs@[m] == pairs_before[m]);
                                let j = choose|j: int| 0 <= j < i && #[trigger] pairs_before[m].0@ == ids@[j]@;
                            }
                        }
                    }
                },
                None => {},
            }
            proof {
                assert forall|m: int|
                    0 <= m < pairs@.len() implies exists|j: int| 0 <= j < i + 1 && #[trigger] pairs@[m].0@ == ids@[j]@ by {
                    if m < pairs_before.len() {
                        assert(pairs@[m] == pairs_before[m]);
                        let j = choose|j: int| 0 <= j < i && #[trigger] pairs_before[m].0@ == ids@[j]@;
                        assert(pairs@[m].0@ == ids@[j]@);
                    } else {
                        assert(pairs@[m].0@ == ids@[i as int]@);
                    }
                }
                assert(firsts_distinct(pairs@)) by {
                    assert forall|a: int, b: int| 0 <= a < b < pairs@.len() implies #[trigger] pairs@[a].0@
                        != #[trigger] pairs@[b].0@ by {
                        if b < pairs_before.len() {
                            assert(pairs@[a] == pairs_before[a] && pairs@[b] == pairs_before[b]);
                        } else {
                            assert(pairs@[a] == pairs_before[a]);
                        }
                    }
                }
                assert forall|j: int|
                    0 <= j < i + 1 && state.table()[ids@[j]@].status@ == "background"@ implies exists|m: int|
                        0 <= m < pairs@.len() && pairs@[m].0@ == #[trigger] ids@[j]@ by {
                    if j < i {
                        let m = choose|m: int|
                            0 <= m < pairs_before.len() && pairs_before[m].0@ == ids@[j]@;
                        assert(pairs@[m] == pairs_before[m]);
                    } else {
                        assert(pairs@[pairs@.len() - 1].0@ == ids@[i as int]@);
                    }
                }
            }
            i += 1;
        }
        let sorted = sort_by_second(pairs);
        proof {
            assert forall|j: int| 0 <= j < sorted@.len() implies {
                &&& state.table().contains_key(#[trigger] sorted@[j].0@)
                &&& state.table()[sorted@[j].0@].status@ == "background"@
                &&& sorted@[j].1@ == display_name(names_of, sorted@[j].0@)
            } by {
                vstd::seq_lib::to_multiset_contains(sorted@, sorted@[j]);
                vstd::seq_lib::to_multiset_contains(pairs@, sorted@[j]);
                assert(sorted@.contains(sorted@[j]));
                let m = choose|m: int| 0 <= m < pairs@.len() && pairs@[m] == sorted@[j];
            }
            assert forall|k: Seq<char>|
                #[trigger] state.table().contains_key(k) && state.table()[k].status@ == "background"@
                implies exists|j: int| 0 <= j < sorted@.len() && sorted@[j].0@ == k by {
                let jj = choose|jj: int| 0 <= jj < ids@.len() && ids@[jj]@ == k;
                let m = choose|m: int| 0 <= m < pairs@.len() && pairs@[m].0@ == ids@[jj]@;
                vstd::seq_lib::to_multiset_contains(pairs@, pairs@[m]);
                vstd::seq_lib::to_multiset_contains(sorted@, pairs@[m]);
                assert(pairs@.contains(pairs@[m]));
                let j = choose|j: int| 0 <= j < sorted@.len() && sorted@[j] == pairs@[m];
                assert(sorted@[j].0@ == k);
            }
        }
        sorted
    }
}

/// Law: the tray's menu items dispatch to the actions they show: the first
/// item shows the main panel, the last quits everything, the separators do
/// nothing, and the item of a background app with a non-empty id shows that
/// app.
pub proof fn law_menu_items_dispatch(apps: Seq<(String, String)>, items: Seq<(String, String, bool)>)
    requires
        menu_layout(apps, items),
    ensures
        menu_action(items[0].0@) == TrayActionView::ShowMain,
        menu_action(items[apps.len() as int + 3].0@) == TrayActionView::QuitAll,
        menu_action(items[1].0@) == TrayActionView::Ignore,
        menu_action(items[apps.len() as int + 2].0@) == TrayActionView::Ignore,
        forall|i: int|
            0 <= i < apps.len() && apps[i].0@.len() > 0 ==> menu_action(#[trigger] items[i + 2].0@)
                == TrayActionView::ShowApp(apps[i].0@),
{
    reveal_strlit("show-main");
    reveal_strlit("quit-all");
    reveal_strlit("show-app:");
    reveal_strlit("sep-1");
    reveal_strlit("sep-2");
    assert(!has_prefix("sep-1"@, MENU_APP_PREFIX@)) by {
        assert("sep-1"@[1] != MENU_APP_PREFIX@[1]);
    }
    assert(!has_prefix("sep-2"@, MENU_APP_PREFIX@)) by {
        assert("sep-2"@[1] != MENU_APP_PREFIX@[1]);
    }
    assert(!has_prefix("show-main"@, MENU_APP_PREFIX@)) by {
        assert("show-main"@[5] != MENU_APP_PREFIX@[5]);
    }
    assert(!has_prefix("quit-all"@, MENU_APP_PREFIX@)) by {
        assert("quit-all"@[0] != MENU_APP_PREFIX@[0]);
    }
    assert forall|i: int| 0 <= i < apps.len() && apps[i].0@.len() > 0 implies menu_action(
        #[trigger] items[i + 2].0@,
    ) == TrayActionView::ShowApp(apps[i].0@) by {
        let id = items[i + 2].0@;
        assert(id == MENU_APP_PREFIX@ + apps[i].0@);
        assert(id.len() > 9);
        assert(id != MENU_SHOW_MAIN@) by {
            assert(id[5] == 'a');
            assert(MENU_SHOW_MAIN@[5] == 'm');
        }
        assert(id != MENU_QUIT_ALL@) by {
            assert(id[0] == 's');
        }
        assert(id.take(9) =~= MENU_APP_PREFIX@);
        assert(id.skip(9) =~= apps[i].0@);
    }
}


/// The desktop system a shortcut is made for.
#[derive(Debug, Clone, Copy, PartialEq, Eq)]
pub enum DesktopOs {
    /// A `.lnk` file.
    Windows,
    /// A Finder `.alias`.
    MacOs,
    /// A `.desktop` entry.
    Linux,
}

/// The name that std's `char::is_alphanumeric` gives a char beyond ASCII
/// (the Unicode Alphabetic or Numeric property).
pub uninterp spec fn unicode_alphanumeric(c: char) -> bool;

/// `char::is_alphanumeric` from std, believed: for an ASCII char it holds
/// exactly for the digits and the letters; beyond ASCII its result is named.
#[verifier::external_body]
fn char_is_alphanumeric(c: char) -> (r: bool)
    ensures
        (c as u32) < 128 ==> r == (('0' <= c && c <= '9') || ('a' <= c && c <= 'z') || ('A' <= c
            && c <= 'Z')),
        (c as u32) >= 128 ==> r == unicode_alphanumeric(c),
{
    c.is_alphanumeric()
}

/// Alphanumeric in std's sense.
pub open spec fn is_alnum(c: char) -> bool {
    if (c as u32) < 128 {
        ('0' <= c && c <= '9') || ('a' <= c && c <= 'z') || ('A' <= c && c <= 'Z')
    } else {
        unicode_alphanumeric(c)
    }
}

/// A char kept in a file name: alphanumeric, `-`, `_`, space or `.`.
pub open spec fn kept_in_filename(c: char) -> bool {
    is_alnum(c) || c == '-' || c == '_' || c == ' ' || c == '.'
}

/// A kept char, or `_` in place of any other.
pub open spec fn filename_char(c: char) -> char {
    if kept_in_filename(c) {
        c
    } else {
        '_'
    }
}

/// The fallback file name.
pub open spec fn default_stem() -> Seq<char> {
    "WebLaunch-App"@
}

/// A file name made from any text: every char that is not kept becomes `_`,
/// the result is trimmed, and an empty result becomes `WebLaunch-App`.
pub open spec fn sanitized(s: Seq<char>) -> Seq<char> {
    let t = trim_seq(s.map_values(|c: char| filename_char(c)));
    if t.len() == 0 {
        default_stem()
    } else {
        t
    }
}

/// The extension of a shortcut file on a desktop system.
pub open spec fn shortcut_extension(os: DesktopOs) -> Seq<char> {
    match os {
        DesktopOs::Windows => ".lnk"@,
        DesktopOs::MacOs => ".alias"@,
        DesktopOs::Linux => ".desktop"@,
    }
}

/// The char that stands for `c` in a file name, given whether `c` is
/// alphanumeric: `c` itself when alphanumeric or one of `-`, `_`, space and
/// `.`; `_` otherwise.
pub fn file_name_char(c: char, alphanumeric: bool) -> (r: char)
    ensures
        r == (if alphanumeric || c == '-' || c == '_' || c == ' ' || c == '.' {
            c
        } else {
            '_'
        }),
{
    if alphanumeric || c == '-' || c == '_' || c == ' ' || c == '.' {
        c
    } else {
        '_'
    }
}

/// Cleans a text into a file name (see [`sanitized`]).
pub fn sanitize_filename(s: &str) -> (r: String)
    ensures
        r@ == sanitized(s@),
{
    let v = chars_of(s);
    let mut out = String::new();
    let mut i: usize = 0;
    while i < v.len()
        invariant
            v@ == s@,
            i <= v@.len(),
            out@ == s@.take(i as int).map_values(|c: char| filename_char(c)),
        decreases v.len() - i,
    {
        let c = v[i];
        push_char(&mut out, file_name_char(c, char_is_alphanumeric(c)));
        proof {
            assert(s@.take(i + 1).map_values(|c: char| filename_char(c)) =~= s@.take(
                i as int,
            ).map_values(|c: char| filename_char(c)).push(filename_char(c)));
        }
        i += 1;
    }
    proof {
        assert(s@.take(v@.len() as int) =~= s@);
    }
    let t = trim(out.as_str());
    if t.as_str().is_empty() {
        owned("WebLaunch-App")
    } else {
        t
    }
}

/// The shortcut file name of an app on a desktop system: the cleaned app
/// name with the system's shortcut extension.
pub fn shortcut_filename(app_name: &str, os: DesktopOs) -> (r: String)
    ensures
        r@ == sanitized(app_name@) + shortcut_extension(os),
{
    let stem = sanitize_filename(app_name);
    match os {
        DesktopOs::Windows => concat2(stem.as_str(), ".lnk"),
        DesktopOs::MacOs => concat2(stem.as_str(), ".alias"),
        DesktopOs::Linux => concat2(stem.as_str(), ".desktop"),
    }
}

/// The Windows taskbar identity (AppUserModelID) of an app's window:
/// `WebLaunch.App.{app_id}`.
pub fn taskbar_app_id(app_id: &str) -> (r: String)
    ensures
        r@ == "WebLaunch.App."@ + app_id@,
{
    concat2("WebLaunch.App.", app_id)
}

/// The launch argument that a shortcut passes: `--launch={app_id}`.
pub fn launch_argument(app_id: &str) -> (r: String)
    ensures
        r@ == "--launch="@ + app_id@,
{
    concat2("--launch=", app_id)
}

/// Law: cleaning a file name twice gives what cleaning it once gives.
pub proof fn law_sanitize_idempotent(s: Seq<char>)
    ensures
        sanitized(sanitized(s)) == sanitized(s),
{
    let f = |c: char| filename_char(c);
    let m = s.map_values(f);
    let t = trim_seq(m);
    lemma_trim_shape(m);
    let u = sanitized(s);
    if t.len() == 0 {
        reveal_strlit("WebLaunch-App");
        assert(u == default_stem());
        assert(u.map_values(f) =~= u);
        lemma_trim_fixed(u);
    } else {
        let (a, b) = choose|a: int, b: int| 0 <= a <= b <= m.len() && t == m.subrange(a, b);
        assert(t.map_values(f) =~= t) by {
            assert forall|i: int| 0 <= i < t.len() implies f(t[i]) == t[i] by {
                assert(t[i] == m[a + i]);
                assert(m[a + i] == filename_char(s[a + i]));
            }
        }
        lemma_trim_fixed(t);
    }
}

/// Law: a cleaned file name is never empty, holds only kept chars
/// (alphanumeric, `-`, `_`, space, `.`), has no White_Space at its ends,
/// and is no longer than the text unless the text cleans to nothing, when
/// it is `WebLaunch-App`.
pub proof fn law_sanitized_shape(s: Seq<char>)
    ensures
        sanitized(s).len() > 0,
        forall|i: int| 0 <= i < sanitized(s).len() ==> kept_in_filename(#[trigger] sanitized(s)[i]),
        !is_space_char(sanitized(s)[0]),
        !is_space_char(sanitized(s).last()),
        trim_seq(s.map_values(|c: char| filename_char(c))).len() == 0 ==> sanitized(s) == default_stem(),
        trim_seq(s.map_values(|c: char| filename_char(c))).len() > 0 ==> sanitized(s).len() <= s.len(),
{
    let f = |c: char| filename_char(c);
    let m = s.map_values(f);
    let t = trim_seq(m);
    lemma_trim_shape(m);
    let u = sanitized(s);
    if t.len() == 0 {
        reveal_strlit("WebLaunch-App");
        assert(u == default_stem());
        assert forall|i: int| 0 <= i < u.len() implies kept_in_filename(#[trigger] u[i]) by {
            assert((u[i] as u32) < 128);
        }
    } else {
        let (a, b) = choose|a: int, b: int| 0 <= a <= b <= m.len() && t == m.subrange(a, b);
        assert forall|i: int| 0 <= i < u.len() implies kept_in_filename(#[trigger] u[i]) by {
            assert(u[i] == m[a + i]);
            assert(m[a + i] == filename_char(s[a + i]));
        }
    }
}

proof fn lemma_trim_all_spaces(s: Seq<char>)
    requires
        forall|i: int| 0 <= i < s.len() ==> s[i] == ' ',
    ensures
        trim_seq(s).len() == 0,
    decreases s.len(),
{
    if s.len() > 0 {
        assert(is_space_char(s[0]));
        assert forall|i: int| 0 <= i < s.drop_first().len() implies s.drop_first()[i] == ' ' by {
            assert(s.drop_first()[i] == s[i + 1]);
        }
        lemma_trim_all_spaces(s.drop_first());
        assert(trim_start_seq(s) == trim_start_seq(s.drop_first()));
    }
}

/// Law: a name made only of spaces (or no char at all) cleans to
/// `WebLaunch-App`.
pub proof fn law_blank_name_gets_default(s: Seq<char>)
    requires
        forall|i: int| 0 <= i < s.len() ==> s[i] == ' ',
    ensures
        sanitized(s) == default_stem(),
{
    let m = s.map_values(|c: char| filename_char(c));
    assert forall|i: int| 0 <= i < m.len() implies m[i] == ' ' by {
        assert(m[i] == filename_char(s[i]));
    }
    lemma_trim_all_spaces(m);
}

/// Law: a shortcut file name ends with the extension of its desktop system
/// and starts with the cleaned app name.
pub proof fn law_shortcut_filename_shape(app_name: Seq<char>, os: DesktopOs, name: Seq<char>)
    requires
        name == sanitized(app_name) + shortcut_extension(os),
    ensures
        crate::text::has_suffix(name, shortcut_extension(os)),
        has_prefix(name, sanitized(app_name)),
{
    assert(name.skip(name.len() - shortcut_extension(os).len()) =~= shortcut_extension(os));
    assert(name.take(sanitized(app_name).len() as int) =~= sanitized(app_name));
}

} // verus!
