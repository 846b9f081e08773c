//! The File Explorer's navigation: its tabs (the fixed categories and the folders
//! opened inside them, shown as a tree), the active tab, expanding and collapsing.
use vstd::prelude::*;

use crate::foundation::{
    display_name, display_name_text, first_match, lemma_first_match, lemma_first_match_at, FileId, FileKind, FileSystem,
    KindModel, Language,
};
use crate::icons::IconType;
use crate::listing::{
    all_valid, category_tabs, explorer_tabs, folder_items, items_of, lists_valid, tab_model, tabs_model, Item,
    ItemModel, Tab, TabModel,
};
use crate::recycle_bin::{selected_ids, selected_ids_of};
use crate::text::{str_eq, strings_contain, strings_model};

verus! {

broadcast use {FileSystem::lemma_node_at, FileSystem::lemma_nodes_fit};

/// Whether a tree item can be expanded into a tab: only plain folders (the recycle
/// bin opens as a program of its own).
pub fn tree_expandable(icon: &IconType) -> (r: bool)
    ensures
        r == (*icon == IconType::Folder),
{
    matches!(*icon, IconType::Folder)
}

/// A place in the File Explorer that survives a refresh.
#[derive(Clone, Debug, PartialEq)]
pub enum ExplorerLocation {
    /// A fixed category tab, by name.
    Category(String),
    /// A folder opened inside a category, by id.
    Folder(FileId),
}

/// The mathematical value of an `ExplorerLocation`.
pub enum LocationModel {
    Category(Seq<char>),
    Folder(FileId),
}

impl View for ExplorerLocation {
    type V = LocationModel;

    open spec fn view(&self) -> LocationModel {
        match self {
            ExplorerLocation::Category(n) => LocationModel::Category(n@),
            ExplorerLocation::Folder(id) => LocationModel::Folder(*id),
        }
    }
}

/// Where files dragged onto a tree row move to: the desktop and the Downloads tab
/// by name, a folder tab by its id.
#[derive(Clone, Copy, Debug, PartialEq, Eq, Structural)]
pub enum MoveDest {
    Desktop,
    Downloads,
    Folder(FileId),
}

/// Where a drop on tab `t` moves files: "Desktop" and "Downloads" by name, a
/// folder tab to its folder; nowhere for the kind-based categories.
pub open spec fn drop_dest_of(t: TabModel) -> Option<MoveDest> {
    if t.name == "Desktop"@ {
        Some(MoveDest::Desktop)
    } else if t.name == "Downloads"@ {
        Some(MoveDest::Downloads)
    } else {
        match t.folder {
            Some(id) => Some(MoveDest::Folder(id)),
            None => None,
        }
    }
}

/// Where released files go: the row under the pointer if it takes drops, else the
/// desktop when the pointer left the window, else nowhere.
pub open spec fn drop_target(hover: Option<MoveDest>, outside: bool) -> Option<MoveDest> {
    match hover {
        Some(d) => Some(d),
        None => if outside {
            Some(MoveDest::Desktop)
        } else {
            None
        },
    }
}

/// The move that releasing dragged files asks for: the chosen entries of `items`
/// (positions past the list skipped) to the drop target, when there is a target
/// and at least one file.
pub fn drop_move(hover: Option<MoveDest>, outside: bool, items: &Vec<Item>, selected: &Vec<usize>) -> (r: Option<
    (Vec<FileId>, MoveDest),
>)
    ensures
        match r {
            Some((ids, dest)) => drop_target(hover, outside) == Some(dest) && ids@ == selected_ids(
                crate::listing::items_model(items@),
                selected@,
            ) && ids@.len() > 0,
            None => drop_target(hover, outside) is None || selected_ids(
                crate::listing::items_model(items@),
                selected@,
            ).len() == 0,
        },
{
    let dest = match hover {
        Some(d) => Some(d),
        None => if outside {
            Some(MoveDest::Desktop)
        } else {
            None
        },
    };
    match dest {
        Some(d) => {
            let ids = selected_ids_of(items, selected);
            if ids.len() > 0 {
                Some((ids, d))
            } else {
                None
            }
        },
        None => None,
    }
}

/// The move that releasing the mouse asks for on this frame: none unless the
/// window has the focus (an unfocused frame's pointer position is not real), the
/// button was released this frame and files were being dragged; otherwise the
/// move `drop_move` gives.
pub fn drop_move_on_release(
    focused: bool,
    released: bool,
    dragging: bool,
    hover: Option<MoveDest>,
    outside: bool,
    items: &Vec<Item>,
    selected: &Vec<usize>,
) -> (r: Option<(Vec<FileId>, MoveDest)>)
    ensures
        !focused || !released || !dragging ==> r is None,
        focused && released && dragging ==> match r {
            Some((ids, dest)) => drop_target(hover, outside) == Some(dest) && ids@ == selected_ids(
                crate::listing::items_model(items@),
                selected@,
            ) && ids@.len() > 0,
            None => drop_target(hover, outside) is None || selected_ids(
                crate::listing::items_model(items@),
                selected@,
            ).len() == 0,
        },
{
    if focused && released && dragging {
        drop_move(hover, outside, items, selected)
    } else {
        None
    }
}

/// Whether entry `i` of `items` comes before entry `j` in the list view: newer
/// files (larger ids) first, equal ids in their order in `items`.
pub open spec fn listed_before(items: Seq<ItemModel>, i: int, j: int) -> bool {
    items[i].0 > items[j].0 || (items[i].0 == items[j].0 && i < j)
}

/// Whether `order` lists the entry positions `0..n` of `items` once each, in
/// list-view order.
pub open spec fn list_view_order(items: Seq<ItemModel>, order: Seq<usize>, n: nat) -> bool {
    &&& order.len() == n
    &&& forall|k: int| 0 <= k < order.len() ==> #[trigger] order[k] < n
    &&& forall|a: int, b: int| 0 <= a < b < order.len() ==> #[trigger] order[a] != #[trigger] order[b]
    &&& forall|a: int, b: int|
        0 <= a < b < order.len() ==> listed_before(items, #[trigger] order[a] as int, #[trigger] order[b] as int)
}

/// The order the list view shows the entries of `items` in, as positions into
/// `items`: newest file first.
pub fn list_order(items: &Vec<Item>) -> (r: Vec<usize>)
    ensures
        list_view_order(crate::listing::items_model(items@), r@, items@.len()),
{
    let ghost im = crate::listing::items_model(items@);
    let mut r: Vec<usize> = Vec::new();
    let mut i: usize = 0;
    while i < items.len()
        invariant
            i <= items.len(),
            im == crate::listing::items_model(items@),
            list_view_order(im, r@, i as nat),
        decreases items.len() - i,
    {
        let id = items[i].0;
        assert(im[i as int].0 == id);
        let mut p: usize = 0;
        while p < r.len() && items[r[p]].0 >= id
            invariant
                p <= r.len(),
                i < items.len(),
                im == crate::listing::items_model(items@),
                im[i as int].0 == id,
                list_view_order(im, r@, i as nat),
                forall|q: int| 0 <= q < p ==> listed_before(im, #[trigger] r@[q] as int, i as int),
            decreases r.len() - p,
        {
            assert(im[r@[p as int] as int].0 == items@[r@[p as int] as int].0);
            p = p + 1;
        }
        proof {
            if p < r.len() {
                assert(im[r@[p as int] as int].0 == items@[r@[p as int] as int].0);
                assert(listed_before(im, i as int, r@[p as int] as int));
            }
        }
        let ghost r0 = r@;
        r.insert(p, i);
        proof {
            assert(r@ == r0.insert(p as int, i));
            assert forall|a: int, b: int| 0 <= a < b < r@.len() implies listed_before(
                im,
                #[trigger] r@[a] as int,
                #[trigger] r@[b] as int,
            ) by {
                if a < p && b < p {
                    assert(r@[a] == r0[a] && r@[b] == r0[b]);
                } else if a < p && b == p {
                    assert(r@[a] == r0[a]);
                } else if a < p && b > p {
                    assert(r@[a] == r0[a] && r@[b] == r0[b - 1]);
                } else if a == p {
                    assert(r@[b] == r0[b - 1]);
                    if b - 1 > p {
                        assert(listed_before(im, r0[p as int] as int, r0[b - 1] as int));
                    }
                    assert(listed_before(im, i as int, r0[p as int] as int));
                } else {
                    assert(r@[a] == r0[a - 1] && r@[b] == r0[b - 1]);
                }
            }
            assert forall|a: int, b: int| 0 <= a < b < r@.len() implies #[trigger] r@[a] != #[trigger] r@[b] by {
                if a < p && b < p {
                    assert(r@[a] == r0[a] && r@[b] == r0[b]);
                } else if a < p && b == p {
                    assert(r@[a] == r0[a]);
                } else if a < p && b > p {
                    assert(r@[a] == r0[a] && r@[b] == r0[b - 1]);
                } else if a == p {
                    assert(r@[b] == r0[b - 1]);
                } else {
                    assert(r@[a] == r0[a - 1] && r@[b] == r0[b - 1]);
                }
            }
            assert forall|k: int| 0 <= k < r@.len() implies #[trigger] r@[k] < i + 1 by {
                if k < p {
                    assert(r@[k] == r0[k]);
                } else if k > p {
                    assert(r@[k] == r0[k - 1]);
                }
            }
        }
        i = i + 1;
    }
    r
}

/// The value of the navigation state.
pub struct ExplorerModel {
    pub tabs: Seq<TabModel>,
    pub tab: usize,
    /// The raw name of the window's root, which its title shows.
    pub title: Seq<char>,
}

/// Whether a tab is named `name`.
pub open spec fn tab_named(name: Seq<char>) -> spec_fn(TabModel) -> bool {
    |t: TabModel| t.name == name
}

/// Whether the parent category of tab `t` is `root` or one of `s`.
pub open spec fn parent_in(t: TabModel, root: Seq<char>, s: Set<Seq<char>>) -> bool {
    match t.parent {
        Some(p) => p == root || s.contains(p),
        None => false,
    }
}

/// The names of the tabs that lie under `root` at most `d` levels down.
pub open spec fn desc_within(tabs: Seq<TabModel>, root: Seq<char>, d: nat) -> Set<Seq<char>>
    decreases d,
{
    if d == 0 {
        Set::empty()
    } else {
        let prev = desc_within(tabs, root, (d - 1) as nat);
        prev.union(
            Set::new(
                |x: Seq<char>|
                    exists|i: int|
                        0 <= i < tabs.len() && #[trigger] tabs[i].name == x && parent_in(
                            tabs[i],
                            root,
                            prev,
                        ),
            ),
        )
    }
}

/// Whether `x` names a tab that lies under `root`, at any depth.
pub open spec fn is_descendant(tabs: Seq<TabModel>, root: Seq<char>, x: Seq<char>) -> bool {
    exists|d: nat| #[trigger] desc_within(tabs, root, d).contains(x)
}

/// Whether a tab stays when `root` is collapsed.
pub open spec fn stays(tabs: Seq<TabModel>, root: Seq<char>) -> spec_fn(TabModel) -> bool {
    |t: TabModel| !is_descendant(tabs, root, t.name)
}

/// The index of `r`, or 0.
pub open spec fn index_or(r: Option<int>, other: Option<int>) -> usize {
    match r {
        Some(i) => i as usize,
        None => match other {
            Some(j) => j as usize,
            None => 0,
        },
    }
}

impl ExplorerModel {
    /// The navigation after collapsing the tab `root`: every tab under it, at any
    /// depth, is gone; the active tab stays if it is left, else `root` becomes
    /// active (else the first tab).
    pub open spec fn collapsed(self, root: Seq<char>) -> ExplorerModel {
        let kept = self.tabs.filter(stays(self.tabs, root));
        let active = self.tabs[self.tab as int].name;
        ExplorerModel {
            tabs: kept,
            tab: index_or(first_match(kept, tab_named(active)), first_match(kept, tab_named(root))),
            title: self.title,
        }
    }

    /// Whether some tab sits under the category `name`.
    pub open spec fn expanded(self, name: Seq<char>) -> bool {
        exists|i: int| 0 <= i < self.tabs.len() && #[trigger] self.tabs[i].parent == Some(name)
    }

    /// Whether some tab shows the folder `id`.
    pub open spec fn has_folder_tab(self, id: FileId) -> bool {
        exists|i: int| 0 <= i < self.tabs.len() && #[trigger] self.tabs[i].folder == Some(id)
    }

    /// Whether an item of tab `i` is a folder without a tab of its own yet.
    pub open spec fn unexpanded(self) -> spec_fn(ItemModel) -> bool {
        |it: ItemModel| it.2 == IconType::Folder && !self.has_folder_tab(it.0)
    }

    /// The place the active tab shows.
    pub open spec fn location(self) -> Option<LocationModel> {
        if self.tab < self.tabs.len() {
            match self.tabs[self.tab as int].folder {
                Some(id) => Some(LocationModel::Folder(id)),
                None => Some(LocationModel::Category(self.tabs[self.tab as int].name)),
            }
        } else {
            None
        }
    }
}

/// How many of `tabs` carry a name that `names` holds.
pub open spec fn count_named(tabs: Seq<TabModel>, names: Seq<Seq<char>>) -> nat
    decreases tabs.len(),
{
    if tabs.len() == 0 {
        0
    } else {
        count_named(tabs.drop_last(), names) + if names.contains(tabs.last().name) {
            1nat
        } else {
            0nat
        }
    }
}

proof fn lemma_count_named(tabs: Seq<TabModel>, a: Seq<Seq<char>>, b: Seq<Seq<char>>, w: int)
    requires
        forall|x: Seq<char>| a.contains(x) ==> b.contains(x),
    ensures
        count_named(tabs, a) <= count_named(tabs, b),
        count_named(tabs, b) <= tabs.len(),
        0 <= w < tabs.len() && b.contains(tabs[w].name) && !a.contains(tabs[w].name) ==> count_named(
            tabs,
            a,
        ) < count_named(tabs, b),
    decreases tabs.len(),
{
    if tabs.len() > 0 {
        let t = tabs.drop_last();
        lemma_count_named(t, a, b, w);
        if 0 <= w < t.len() {
            assert(t[w] == tabs[w]);
        }
    }
}

proof fn lemma_desc_monotone(tabs: Seq<TabModel>, root: Seq<char>, d1: nat, d2: nat)
    requires
        d1 <= d2,
    ensures
        desc_within(tabs, root, d1).subset_of(desc_within(tabs, root, d2)),
    decreases d2,
{
    if d1 < d2 {
        lemma_desc_monotone(tabs, root, d1, (d2 - 1) as nat);
    }
}

/// A child of `root` or of a descendant is a descendant.
proof fn lemma_desc_step(tabs: Seq<TabModel>, root: Seq<char>, s: Seq<Seq<char>>, i: int)
    requires
        0 <= i < tabs.len(),
        forall|x: Seq<char>| s.contains(x) ==> is_descendant(tabs, root, x),
        match tabs[i].parent {
            Some(p) => p == root || s.contains(p),
            None => false,
        },
    ensures
        is_descendant(tabs, root, tabs[i].name),
{
    let p = tabs[i].parent.unwrap();
    if p == root {
        assert(parent_in(tabs[i], root, desc_within(tabs, root, 0)));
        assert(desc_within(tabs, root, 1).contains(tabs[i].name));
    } else {
        assert(is_descendant(tabs, root, p));
        let d = choose|d: nat| #[trigger] desc_within(tabs, root, d).contains(p);
        assert(parent_in(tabs[i], root, desc_within(tabs, root, d)));
        assert(desc_within(tabs, root, d + 1).contains(tabs[i].name));
    }
}

/// A set of names closed under "child of root or of a member" holds every
/// descendant.
proof fn lemma_closed_holds_desc(tabs: Seq<TabModel>, root: Seq<char>, s: Seq<Seq<char>>, d: nat)
    requires
        forall|i: int|
            0 <= i < tabs.len() && (match tabs[i].parent {
                Some(p) => p == root || s.contains(p),
                None => false,
            }) ==> s.contains(#[trigger] tabs[i].name),
    ensures
        forall|x: Seq<char>| desc_within(tabs, root, d).contains(x) ==> s.contains(x),
    decreases d,
{
    if d > 0 {
        lemma_closed_holds_desc(tabs, root, s, (d - 1) as nat);
        let prev = desc_within(tabs, root, (d - 1) as nat);
        assert forall|x: Seq<char>| desc_within(tabs, root, d).contains(x) implies s.contains(x) by {
            if !prev.contains(x) {
                let i = choose|i: int|
                    0 <= i < tabs.len() && #[trigger] tabs[i].name == x && parent_in(tabs[i], root, prev);
            }
        }
    }
}

/// The navigation state of a File Explorer window.
pub struct ExplorerApp {
    tabs: Vec<Tab>,
    tab: usize,
    raw_title: String,
}

impl View for ExplorerApp {
    type V = ExplorerModel;

    closed spec fn view(&self) -> ExplorerModel {
        ExplorerModel { tabs: tabs_model(self.tabs@), tab: self.tab, title: self.raw_title@ }
    }
}

/// The first tab named `name`.
fn tab_position(tabs: &Vec<Tab>, name: &str) -> (r: Option<usize>)
    ensures
        r == match first_match(tabs_model(tabs@), tab_named(name@)) {
            Some(i) => Some(i as usize),
            None => None::<usize>,
        },
{
    let mut i: usize = 0;
    while i < tabs.len()
        invariant
            i <= tabs.len(),
            forall|j: int| 0 <= j < i ==> !tab_named(name@)(#[trigger] tabs_model(tabs@)[j]),
        decreases tabs.len() - i,
    {
        assert(tabs_model(tabs@)[i as int] == tab_model(tabs@[i as int]));
        if str_eq(tabs[i].0.as_str(), name) {
            proof {
                lemma_first_match_at(tabs_model(tabs@), tab_named(name@), i as int);
            }
            return Some(i);
        }
        i = i + 1;
    }
    proof {
        lemma_first_match(tabs_model(tabs@), tab_named(name@));
    }
    None
}

impl ExplorerApp {
    /// A window with the given tabs and active tab, titled after the root named
    /// `raw_title`.
    pub fn from_tabs(tabs: Vec<Tab>, active: usize, raw_title: String) -> (r: ExplorerApp)
        ensures
            r@ == (ExplorerModel { tabs: tabs_model(tabs@), tab: active, title: raw_title@ }),
    {
        ExplorerApp { tabs, tab: active, raw_title }
    }

    /// The window's title in `lang`: its root's name as shown in that language.
    pub fn title(&self, lang: Language) -> (r: &str)
        ensures
            r@ == display_name_text(lang, self@.title),
    {
        display_name(lang, self.raw_title.as_str())
    }

    /// A window without tabs: one unnamed tab holding `items`.
    pub fn single(items: Vec<Item>, raw_title: String) -> (r: ExplorerApp)
        ensures
            r@.tab == 0,
            r@.title == raw_title@,
            r@.tabs == seq![
                TabModel {
                    name: Seq::<char>::empty(),
                    items: crate::listing::items_model(items@),
                    parent: None,
                    folder: None,
                },
            ],
    {
        let ghost im = crate::listing::items_model(items@);
        let tab: Tab = (String::new(), items, None, None);
        let tabs = vec![tab];
        proof {
            assert(tab_model(tab).name =~= Seq::<char>::empty());
            assert(tabs_model(tabs@) =~= seq![
                TabModel { name: Seq::<char>::empty(), items: im, parent: None, folder: None },
            ]);
        }
        ExplorerApp { tabs, tab: 0, raw_title }
    }

    /// The tabs.
    pub fn tabs(&self) -> (r: &Vec<Tab>)
        ensures
            tabs_model(r@) == self@.tabs,
    {
        &self.tabs
    }

    /// The index of the active tab.
    pub fn active(&self) -> (r: usize)
        ensures
            r == self@.tab,
    {
        self.tab
    }

    /// Where a drop on tab `i` of the tree moves files.
    pub fn drop_destination(&self, i: usize) -> (r: Option<MoveDest>)
        requires
            i < self@.tabs.len(),
        ensures
            r == drop_dest_of(self@.tabs[i as int]),
    {
        assert(self@.tabs[i as int] == tab_model(self.tabs@[i as int]));
        let t = &self.tabs[i];
        if str_eq(t.0.as_str(), "Desktop") {
            Some(MoveDest::Desktop)
        } else if str_eq(t.0.as_str(), "Downloads") {
            Some(MoveDest::Downloads)
        } else {
            match t.3 {
                Some(id) => Some(MoveDest::Folder(id)),
                None => None,
            }
        }
    }

    /// Makes tab `i` the active one.
    pub fn switch_tab(&mut self, i: usize)
        ensures
            final(self)@ == (ExplorerModel { tab: i, ..old(self)@ }),
    {
        self.tab = i;
    }

    /// Whether tab `i` holds a folder that could be expanded.
    pub fn has_expandable_children(&self, i: usize) -> (r: bool)
        requires
            i < self@.tabs.len(),
        ensures
            r == exists|k: int| 0 <= k < self@.tabs[i as int].items.len() && #[trigger] self@.tabs[i as int].items[k].2
                == IconType::Folder,
    {
        let items = &self.tabs[i].1;
        let ghost im = self@.tabs[i as int].items;
        assert(im == crate::listing::items_model(items@));
        let mut k: usize = 0;
        while k < items.len()
            invariant
                k <= items.len(),
                im == crate::listing::items_model(items@),
                im == self@.tabs[i as int].items,
                forall|j: int| 0 <= j < k ==> #[trigger] im[j].2 != IconType::Folder,
            decreases items.len() - k,
        {
            assert(im[k as int].2 == items@[k as int].2);
            if tree_expandable(&items[k].2) {
                assert(self@.tabs[i as int].items[k as int].2 == IconType::Folder);
                return true;
            }
            k = k + 1;
        }
        false
    }

    /// Whether the tab `name` is expanded: some tab sits under it.
    pub fn is_expanded(&self, name: &str) -> (r: bool)
        ensures
            r == self@.expanded(name@),
    {
        let mut i: usize = 0;
        while i < self.tabs.len()
            invariant
                i <= self.tabs.len(),
                forall|j: int| 0 <= j < i ==> #[trigger] self@.tabs[j].parent != Some(name@),
            decreases self.tabs.len() - i,
        {
            assert(self@.tabs[i as int] == tab_model(self.tabs@[i as int]));
            let hit = match &self.tabs[i].2 {
                Some(p) => str_eq(p.as_str(), name),
                None => false,
            };
            if hit {
                assert(self@.tabs[i as int].parent == Some(name@));
                return true;
            }
            i = i + 1;
        }
        false
    }

    /// Whether some tab shows the folder `id`.
    fn has_folder_tab(&self, id: FileId) -> (r: bool)
        ensures
            r == self@.has_folder_tab(id),
    {
        let mut i: usize = 0;
        while i < self.tabs.len()
            invariant
                i <= self.tabs.len(),
                forall|j: int| 0 <= j < i ==> #[trigger] self@.tabs[j].folder != Some(id),
            decreases self.tabs.len() - i,
        {
            assert(self@.tabs[i as int] == tab_model(self.tabs@[i as int]));
            if self.tabs[i].3 == Some(id) {
                assert(self@.tabs[i as int].folder == Some(id));
                return true;
            }
            i = i + 1;
        }
        false
    }

    /// The first folder of tab `i` that has no tab of its own yet.
    pub fn next_unexpanded_child(&self, i: usize) -> (r: Option<FileId>)
        requires
            i < self@.tabs.len(),
        ensures
            r == match first_match(self@.tabs[i as int].items, self@.unexpanded()) {
                Some(k) => Some(self@.tabs[i as int].items[k].0),
                None => None::<FileId>,
            },
    {
        let items = &self.tabs[i].1;
        let ghost im = self@.tabs[i as int].items;
        assert(im == crate::listing::items_model(items@));
        let mut k: usize = 0;
        while k < items.len()
            invariant
                k <= items.len(),
                im == crate::listing::items_model(items@),
                im == self@.tabs[i as int].items,
                forall|j: int| 0 <= j < k ==> !self@.unexpanded()(#[trigger] im[j]),
            decreases items.len() - k,
        {
            assert(im[k as int] == (items@[k as int].0, items@[k as int].1@, items@[k as int].2));
            let fid = items[k].0;
            if tree_expandable(&items[k].2) && !self.has_folder_tab(fid) {
                proof {
                    lemma_first_match_at(im, self@.unexpanded(), k as int);
                }
                return Some(fid);
            }
            k = k + 1;
        }
        proof {
            lemma_first_match(im, self@.unexpanded());
        }
        None
    }

    /// The place the active tab shows, to return to after a refresh.
    pub fn current_location(&self) -> (r: Option<ExplorerLocation>)
        ensures
            match r {
                Some(l) => self@.location() == Some(l@),
                None => self@.location() is None,
            },
    {
        if self.tab >= self.tabs.len() {
            return None;
        }
        assert(self@.tabs[self.tab as int] == tab_model(self.tabs@[self.tab as int]));
        let t = &self.tabs[self.tab];
        match t.3 {
            Some(id) => Some(ExplorerLocation::Folder(id)),
            None => Some(ExplorerLocation::Category(t.0.clone())),
        }
    }

    /// Collapses the tab `root`: removes every tab under it, at any depth. The
    /// active tab stays active if it is left; otherwise `root` becomes active, or
    /// the first tab when there is no tab named `root`.
    pub fn collapse(&mut self, root: &str)
        requires
            old(self)@.tab < old(self)@.tabs.len(),
        ensures
            final(self)@ == old(self)@.collapsed(root@),
    {
        let ghost m = self@.tabs;
        assert(m[self.tab as int] == tab_model(self.tabs@[self.tab as int]));
        let active_name = self.tabs[self.tab].0.clone();
        let mut removed: Vec<String> = Vec::new();
        let mut grew = true;
        proof {
            lemma_count_named(m, strings_model(removed@), strings_model(removed@), -1);
        }
        while grew
            invariant
                self.raw_title == old(self).raw_title,
                m == self@.tabs,
                self@ == old(self)@,
                active_name@ == m[old(self)@.tab as int].name,
                forall|x: Seq<char>| #[trigger] strings_model(removed@).contains(x) ==> is_descendant(m, root@, x),
                !grew ==> forall|i: int|
                    0 <= i < m.len() && (match m[i].parent {
                        Some(p) => p == root@ || strings_model(removed@).contains(p),
                        None => false,
                    }) ==> strings_model(removed@).contains(#[trigger] m[i].name),
                count_named(m, strings_model(removed@)) <= m.len(),
            decreases m.len() - count_named(m, strings_model(removed@)), if grew { 1int } else { 0int },
        {
            let ghost start = strings_model(removed@);
            let ghost mut w: int = -1;
            grew = false;
            let mut k: usize = 0;
            while k < self.tabs.len()
                invariant
                    self.raw_title == old(self).raw_title,
                    k <= self.tabs.len(),
                    m == self@.tabs,
                    m.len() == self.tabs.len(),
                    strings_model(removed@).len() >= start.len(),
                    strings_model(removed@).subrange(0, start.len() as int) == start,
                    grew == (strings_model(removed@).len() > start.len()),
                    grew ==> 0 <= w < m.len() && strings_model(removed@).contains(m[w].name) && !start.contains(m[w].name),
                    forall|x: Seq<char>| #[trigger] strings_model(removed@).contains(x) ==> is_descendant(m, root@, x),
                    forall|j: int|
                        0 <= j < k && (match m[j].parent {
                            Some(p) => p == root@ || start.contains(p),
                            None => false,
                        }) ==> strings_model(removed@).contains(#[trigger] m[j].name),
                decreases self.tabs.len() - k,
            {
                assert(m[k as int] == tab_model(self.tabs@[k as int]));
                let ghost before = strings_model(removed@);
                let under = match &self.tabs[k].2 {
                    Some(p) => str_eq(p.as_str(), root) || strings_contain(&removed, p.as_str()),
                    None => false,
                };
                if under {
                    proof {
                        assert forall|x: Seq<char>| start.contains(x) implies before.contains(x) by {
                            let a = choose|a: int| 0 <= a < start.len() && start[a] == x;
                            assert(before.subrange(0, start.len() as int)[a] == x);
                        }
                    }
                }
                if under && !strings_contain(&removed, self.tabs[k].0.as_str()) {
                    let name = self.tabs[k].0.clone();
                    removed.push(name);
                    proof {
                        let now = strings_model(removed@);
                        assert(now =~= before.push(m[k as int].name));
                        crate::ids::lemma_contains_push_any(before, m[k as int].name);
                        lemma_desc_step(m, root@, before, k as int);
                        assert(now.subrange(0, start.len() as int) =~= before.subrange(0, start.len() as int));
                        if !grew {
                            w = k as int;
                            assert(before =~= start);
                        }
                    }
                    grew = true;
                }
                proof {
                    let now = strings_model(removed@);
                    crate::ids::lemma_contains_push_any(before, m[k as int].name);
                    assert forall|x: Seq<char>| before.contains(x) implies now.contains(x) by {
                        if now != before {
                            assert(now =~= before.push(m[k as int].name));
                        }
                    }
                }
                k = k + 1;
            }
            proof {
                let now = strings_model(removed@);
                assert forall|x: Seq<char>| start.contains(x) implies now.contains(x) by {
                    let a = choose|a: int| 0 <= a < start.len() && start[a] == x;
                    assert(now.subrange(0, start.len() as int)[a] == x);
                }
                lemma_count_named(m, start, now, w);
                if !grew {
                    assert(now =~= start);
                }
            }
        }
        proof {
            let r = strings_model(removed@);
            assert forall|x: Seq<char>| r.contains(x) <==> is_descendant(m, root@, x) by {
                if is_descendant(m, root@, x) {
                    let d = choose|d: nat| #[trigger] desc_within(m, root@, d).contains(x);
                    lemma_closed_holds_desc(m, root@, r, d);
                }
            }
        }
        let ghost keep = |t: TabModel| !strings_model(removed@).contains(t.name);
        assert(keep =~= stays(m, root@));
        let mut k: usize = self.tabs.len();
        while k > 0
            invariant
                self.raw_title == old(self).raw_title,
                k <= self.tabs.len(),
                k <= m.len(),
                tabs_model(self.tabs@) == m.take(k as int) + m.skip(k as int).filter(keep),
                keep == (|t: TabModel| !strings_model(removed@).contains(t.name)),
            decreases k,
        {
            let ghost cur = tabs_model(self.tabs@);
            proof {
                assert(m.skip(k - 1) =~= seq![m[k - 1]] + m.skip(k as int));
                m.skip(k as int).lemma_filter_prepend(m[k - 1], keep);
                assert(cur[k - 1] == m[k - 1]);
                assert(cur[k - 1] == tab_model(self.tabs@[k - 1]));
            }
            if strings_contain(&removed, self.tabs[k - 1].0.as_str()) {
                let ghost old_tabs = self.tabs@;
                self.tabs.remove(k - 1);
                proof {
                    assert(self.tabs@ =~= old_tabs.remove(k - 1));
                    assert(tabs_model(self.tabs@) =~= cur.remove(k - 1));
                    assert(!keep(m[k - 1]));
                    assert(tabs_model(self.tabs@) =~= m.take(k - 1) + m.skip(k - 1).filter(keep));
                }
            } else {
                proof {
                    assert(tabs_model(self.tabs@) =~= m.take(k - 1) + m.skip(k - 1).filter(keep));
                }
            }
            k = k - 1;
        }
        proof {
            assert(m.take(0) =~= Seq::<TabModel>::empty());
            assert(m.skip(0) =~= m);
            assert(keep == stays(m, root@));
            assert(m.take(0) + m.skip(0).filter(keep) =~= m.filter(stays(m, root@)));
        }
        self.tab = match tab_position(&self.tabs, active_name.as_str()) {
            Some(i) => i,
            None => match tab_position(&self.tabs, root) {
                Some(i) => i,
                None => 0,
            },
        };
    }
}

/// The navigation that shows folder `folder_id` inside the File Explorer window
/// `explorer_id`: the folder becomes a tab right under the category that lists
/// it (at the end when none does) and is made active.
pub open spec fn folder_navigation(
    cats: Seq<TabModel>,
    folder_id: FileId,
    folder_name: Seq<char>,
    items: Seq<ItemModel>,
    title: Seq<char>,
) -> ExplorerModel {
    let parent = first_match(cats, lists_item(folder_id));
    let at = match parent {
        Some(i) => i + 1,
        None => cats.len() as int,
    };
    let tab = TabModel {
        name: folder_name,
        items,
        parent: match parent {
            Some(i) => Some(cats[i].name),
            None => None,
        },
        folder: Some(folder_id),
    };
    ExplorerModel { tabs: cats.insert(at, tab), tab: at as usize, title }
}

/// Whether a tab lists the file `id`.
pub open spec fn lists_item(id: FileId) -> spec_fn(TabModel) -> bool {
    |t: TabModel| exists|k: int| 0 <= k < t.items.len() && #[trigger] t.items[k].0 == id
}

/// The items of a folder, empty for any other kind.
pub open spec fn folder_listing(m: crate::foundation::FsModel, id: FileId) -> Seq<ItemModel> {
    match m.nodes[id as int].kind {
        KindModel::Folder { children } => items_of(m, children),
        _ => Seq::empty(),
    }
}

/// Whether tab `t` lists `id`.
fn tab_lists(t: &Tab, id: FileId) -> (r: bool)
    ensures
        r == lists_item(id)(tab_model(*t)),
{
    let ghost im = tab_model(*t).items;
    let mut k: usize = 0;
    while k < t.1.len()
        invariant
            k <= t.1.len(),
            im == crate::listing::items_model(t.1@),
            forall|j: int| 0 <= j < k ==> #[trigger] im[j].0 != id,
        decreases t.1.len() - k,
    {
        assert(im[k as int].0 == t.1@[k as int].0);
        if t.1[k].0 == id {
            assert(tab_model(*t).items[k as int].0 == id);
            return true;
        }
        k = k + 1;
    }
    false
}

/// The File Explorer window `explorer_id` showing folder `folder_id` inside it.
pub fn explorer_app_for_folder(fs: &FileSystem, explorer_id: FileId, folder_id: FileId) -> (r: ExplorerApp)
    requires
        lists_valid(fs@),
        explorer_id < fs@.nodes.len(),
        folder_id < fs@.nodes.len(),
        fs@.nodes[folder_id as int].kind matches KindModel::Folder { children } ==> all_valid(fs@, children),
    ensures
        r@ == folder_navigation(
            category_tabs(fs@, explorer_id),
            folder_id,
            fs@.nodes[folder_id as int].name,
            folder_listing(fs@, folder_id),
            fs@.nodes[explorer_id as int].name,
        ),
{
    let mut tabs = explorer_tabs(fs, explorer_id);
    let ghost cats = tabs_model(tabs@);
    let mut parent_idx: Option<usize> = None;
    let mut i: usize = 0;
    while parent_idx.is_none() && i < tabs.len()
        invariant
            i <= tabs.len(),
            cats == tabs_model(tabs@),
            parent_idx matches Some(p) ==> p < tabs.len() && first_match(cats, lists_item(folder_id)) == Some(p as int),
            parent_idx is None ==> forall|j: int| 0 <= j < i ==> !lists_item(folder_id)(#[trigger] cats[j]),
        decreases tabs.len() - i,
    {
        assert(cats[i as int] == tab_model(tabs@[i as int]));
        if tab_lists(&tabs[i], folder_id) {
            proof {
                lemma_first_match_at(cats, lists_item(folder_id), i as int);
            }
            parent_idx = Some(i);
        }
        i = i + 1;
    }
    proof {
        if parent_idx is None {
            lemma_first_match(cats, lists_item(folder_id));
        }
    }
    let parent_name = match parent_idx {
        Some(i) => {
            assert(cats[i as int] == tab_model(tabs@[i as int]));
            Some(tabs[i].0.clone())
        },
        None => None,
    };
    let node = fs.get(folder_id);
    let items = match &node.kind {
        FileKind::Folder { children } => folder_items(fs, children),
        _ => Vec::new(),
    };
    let insert_at = match parent_idx {
        Some(i) => i + 1,
        None => tabs.len(),
    };
    let tab: Tab = (node.name.clone(), items, parent_name, Some(folder_id));
    let ghost tm = tab_model(tab);
    tabs.insert(insert_at, tab);
    proof {
        assert(tabs_model(tabs@) =~= cats.insert(insert_at as int, tm));
        let parent = first_match(cats, lists_item(folder_id));
        assert(tm.name == fs@.nodes[folder_id as int].name);
        assert(tm.items == folder_listing(fs@, folder_id));
        assert(tm.folder == Some(folder_id));
        assert(tm.parent == match parent { Some(i) => Some(cats[i].name), None => None::<Seq<char>> });
        assert(insert_at as int == match parent { Some(i) => i + 1, None => cats.len() as int });
    }
    ExplorerApp::from_tabs(tabs, insert_at, fs.get(explorer_id).name.clone())
}

/// The navigation of the File Explorer window `explorer_id` rebuilt after the file
/// system changed, back at `loc`: the folder's tab, the category of that name (the
/// first tab when none), or the first tab without a place.
pub fn explorer_app_refreshed(fs: &FileSystem, explorer_id: FileId, loc: Option<ExplorerLocation>) -> (r: ExplorerApp)
    requires
        lists_valid(fs@),
        explorer_id < fs@.nodes.len(),
        loc matches Some(ExplorerLocation::Folder(folder_id)) ==> {
            &&& folder_id < fs@.nodes.len()
            &&& fs@.nodes[folder_id as int].kind matches KindModel::Folder { children } ==> all_valid(fs@, children)
        },
    ensures
        match loc {
            Some(ExplorerLocation::Folder(folder_id)) => r@ == folder_navigation(
                category_tabs(fs@, explorer_id),
                folder_id,
                fs@.nodes[folder_id as int].name,
                folder_listing(fs@, folder_id),
                fs@.nodes[explorer_id as int].name,
            ),
            Some(ExplorerLocation::Category(name)) => r@ == (ExplorerModel {
                tabs: category_tabs(fs@, explorer_id),
                title: fs@.nodes[explorer_id as int].name,
                tab: index_or(first_match(category_tabs(fs@, explorer_id), tab_named(name@)), None),
            }),
            None => r@ == (ExplorerModel { tabs: category_tabs(fs@, explorer_id), tab: 0, title: fs@.nodes[explorer_id as int].name }),
        },
{
    match loc {
        Some(ExplorerLocation::Folder(folder_id)) => explorer_app_for_folder(fs, explorer_id, folder_id),
        Some(ExplorerLocation::Category(name)) => {
            let tabs = explorer_tabs(fs, explorer_id);
            let active = match tab_position(&tabs, name.as_str()) {
                Some(i) => i,
                None => 0,
            };
            ExplorerApp::from_tabs(tabs, active, fs.get(explorer_id).name.clone())
        },
        None => ExplorerApp::from_tabs(explorer_tabs(fs, explorer_id), 0, fs.get(explorer_id).name.clone()),
    }
}

} // verus!

verus! {

/// The tabs left by a collapse hold nothing under the collapsed tab.
proof fn lemma_no_desc_after_collapse(tabs: Seq<TabModel>, root: Seq<char>, d: nat)
    ensures
        desc_within(tabs.filter(stays(tabs, root)), root, d) =~= Set::<Seq<char>>::empty(),
    decreases d,
{
    broadcast use vstd::seq_lib::group_filter_ensures;

    let kept = tabs.filter(stays(tabs, root));
    if d > 0 {
        lemma_no_desc_after_collapse(tabs, root, (d - 1) as nat);
        assert forall|x: Seq<char>| !desc_within(kept, root, d).contains(x) by {
            if desc_within(kept, root, d).contains(x) {
                let i = choose|i: int|
                    0 <= i < kept.len() && #[trigger] kept[i].name == x && parent_in(
                        kept[i],
                        root,
                        desc_within(kept, root, (d - 1) as nat),
                    );
                assert(stays(tabs, root)(kept[i]));
                assert(kept.contains(kept[i]));
                tabs.lemma_filter_contains_rev(stays(tabs, root), kept[i]);
                let j = choose|j: int| 0 <= j < tabs.len() && tabs[j] == kept[i];
                assert(parent_in(tabs[j], root, desc_within(tabs, root, 0)));
                assert(desc_within(tabs, root, 1).contains(tabs[j].name));
            }
        }
    }
}

proof fn lemma_filter_all<A>(s: Seq<A>, p: spec_fn(A) -> bool)
    requires
        forall|i: int| 0 <= i < s.len() ==> p(#[trigger] s[i]),
    ensures
        s.filter(p) == s,
    decreases s.len(),
{
    reveal_with_fuel(Seq::<_>::filter, 1);
    if s.len() > 0 {
        let t = s.drop_last();
        assert forall|i: int| 0 <= i < t.len() implies p(#[trigger] t[i]) by {
            assert(t[i] == s[i]);
        }
        lemma_filter_all(t, p);
        assert(p(s[s.len() - 1]));
        assert(t.push(s.last()) =~= s);
    }
}

/// After a tab is collapsed no tab sits under it any more, and every other tab
/// that was not under it is still there.
pub proof fn law_collapse_removes_children(m: ExplorerModel, root: Seq<char>)
    requires
        m.tab < m.tabs.len(),
    ensures
        !m.collapsed(root).expanded(root),
        forall|i: int|
            0 <= i < m.tabs.len() && !is_descendant(m.tabs, root, m.tabs[i].name) ==> m.collapsed(
                root,
            ).tabs.contains(#[trigger] m.tabs[i]),
{
    broadcast use vstd::seq_lib::group_filter_ensures;

    let kept = m.collapsed(root).tabs;
    if m.collapsed(root).expanded(root) {
        let i = choose|i: int| 0 <= i < kept.len() && #[trigger] kept[i].parent == Some(root);
        assert(stays(m.tabs, root)(kept[i]));
        assert(kept.contains(kept[i]));
        m.tabs.lemma_filter_contains_rev(stays(m.tabs, root), kept[i]);
        let j = choose|j: int| 0 <= j < m.tabs.len() && m.tabs[j] == kept[i];
        assert(parent_in(m.tabs[j], root, desc_within(m.tabs, root, 0)));
        assert(desc_within(m.tabs, root, 1).contains(m.tabs[j].name));
    }
    assert forall|i: int|
        0 <= i < m.tabs.len() && !is_descendant(m.tabs, root, m.tabs[i].name) implies kept.contains(
        #[trigger] m.tabs[i],
    ) by {
        m.tabs.lemma_filter_contains(stays(m.tabs, root), i);
    }
}

/// Collapsing keeps the tab the user was looking at when it survives: the new
/// active tab has the old active tab's name; only when that tab was removed
/// does the collapsed tab itself become active.
pub proof fn law_collapse_keeps_active(m: ExplorerModel, root: Seq<char>)
    requires
        m.tab < m.tabs.len(),
        m.tabs.len() <= usize::MAX,
    ensures
        ({
            let c = m.collapsed(root);
            let active = m.tabs[m.tab as int].name;
            &&& (exists|i: int| 0 <= i < c.tabs.len() && #[trigger] c.tabs[i].name == active) ==> c.tab < c.tabs.len()
                && c.tabs[c.tab as int].name == active
            &&& !(exists|i: int| 0 <= i < c.tabs.len() && #[trigger] c.tabs[i].name == active) && (exists|i: int|
                0 <= i < c.tabs.len() && #[trigger] c.tabs[i].name == root) ==> c.tab < c.tabs.len()
                && c.tabs[c.tab as int].name == root
        }),
{
    let kept = m.tabs.filter(stays(m.tabs, root));
    let active = m.tabs[m.tab as int].name;
    m.tabs.lemma_filter_len(stays(m.tabs, root));
    lemma_first_match(kept, tab_named(active));
    lemma_first_match(kept, tab_named(root));
    if exists|i: int| 0 <= i < kept.len() && #[trigger] kept[i].name == active {
        let i = choose|i: int| 0 <= i < kept.len() && #[trigger] kept[i].name == active;
        assert(tab_named(active)(kept[i]));
    } else if exists|i: int| 0 <= i < kept.len() && #[trigger] kept[i].name == root {
        let i = choose|i: int| 0 <= i < kept.len() && #[trigger] kept[i].name == root;
        assert(tab_named(root)(kept[i]));
        assert forall|j: int| 0 <= j < kept.len() implies !tab_named(active)(kept[j]) by {}
    }
}

/// Collapsing the same tab twice is the same as once (while a tab is left).
pub proof fn law_collapse_idempotent(m: ExplorerModel, root: Seq<char>)
    requires
        m.tabs.len() <= usize::MAX,
        m.tab < m.tabs.len(),
        m.collapsed(root).tab < m.collapsed(root).tabs.len(),
    ensures
        m.collapsed(root).collapsed(root) == m.collapsed(root),
{
    broadcast use vstd::seq_lib::group_filter_ensures;

    let c = m.collapsed(root);
    let kept = c.tabs;
    assert forall|i: int| 0 <= i < kept.len() implies stays(kept, root)(#[trigger] kept[i]) by {
        if is_descendant(kept, root, kept[i].name) {
            let d = choose|d: nat| #[trigger] desc_within(kept, root, d).contains(kept[i].name);
            lemma_no_desc_after_collapse(m.tabs, root, d);
        }
    }
    lemma_filter_all(kept, stays(kept, root));
    let active = m.tabs[m.tab as int].name;
    lemma_first_match(kept, tab_named(active));
    lemma_first_match(kept, tab_named(root));
    let a2 = kept[c.tab as int].name;
    match first_match(kept, tab_named(active)) {
        Some(i) => {
            lemma_first_match_at(kept, tab_named(a2), i);
        },
        None => match first_match(kept, tab_named(root)) {
            Some(j) => {
                lemma_first_match_at(kept, tab_named(a2), j);
            },
            None => {
                lemma_first_match_at(kept, tab_named(a2), 0);
            },
        },
    }
}

/// Showing a folder inside the File Explorer makes its tab the active one, so the
/// place the window remembers is that folder.
pub proof fn law_folder_navigation_location(
    cats: Seq<TabModel>,
    folder_id: FileId,
    folder_name: Seq<char>,
    items: Seq<ItemModel>,
    title: Seq<char>,
)
    requires
        cats.len() < usize::MAX,
    ensures
        folder_navigation(cats, folder_id, folder_name, items, title).location() == Some(
            LocationModel::Folder(folder_id),
        ),
{
    lemma_first_match(cats, lists_item(folder_id));
}

/// A window rebuilt at one of its fixed categories shows that category again.
pub proof fn law_refresh_category_location(
    m: crate::foundation::FsModel,
    explorer_id: FileId,
    name: Seq<char>,
    title: Seq<char>,
)
    requires
        name == "Downloads"@ || name == "Desktop"@ || name == "Videos"@ || name == "Images"@,
    ensures
        ({
            let cats = category_tabs(m, explorer_id);
            let nav = ExplorerModel {
                tabs: cats,
                tab: index_or(first_match(cats, tab_named(name)), None),
                title,
            };
            nav.location() == Some(LocationModel::Category(name))
        }),
{
    let cats = category_tabs(m, explorer_id);
    lemma_first_match(cats, tab_named(name));
    if name == "Downloads"@ {
        lemma_first_match_at(cats, tab_named(name), 0);
    } else if name == "Desktop"@ {
        lemma_first_match_at(cats, tab_named(name), 1);
    } else if name == "Videos"@ {
        lemma_first_match_at(cats, tab_named(name), 2);
    } else {
        lemma_first_match_at(cats, tab_named(name), 3);
    }
}

} // verus!
