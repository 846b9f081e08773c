//! The file lists that the applications show: folder contents, the files a mail
//! can attach, the files the archive tool can review, and the File Explorer's
//! fixed category tabs.
use vstd::prelude::*;

use crate::foundation::{FileId, FileKind, FileSystem, FsModel, KindModel};
use crate::icons::{icon_for, icon_of, IconType};
use crate::ids::{increasing, lemma_increasing_unique, lemma_select, select, vec_contains, without, remove_all};

verus! {

broadcast use {FileSystem::lemma_node_at, FileSystem::lemma_nodes_fit};

/// One entry of a file list: id, raw name and icon.
pub type Item = (FileId, String, IconType);

/// The mathematical value of an `Item`.
pub type ItemModel = (FileId, Seq<char>, IconType);

/// A File Explorer tab: its name, its items, the category it sits under (for a
/// folder opened inside a category) and the folder's own id (for such a tab).
pub type Tab = (String, Vec<Item>, Option<String>, Option<FileId>);

/// The mathematical value of a `Tab`.
pub struct TabModel {
    pub name: Seq<char>,
    pub items: Seq<ItemModel>,
    pub parent: Option<Seq<char>>,
    pub folder: Option<FileId>,
}

/// The characters of an optional string.
pub open spec fn opt_string_model(o: Option<String>) -> Option<Seq<char>> {
    match o {
        Some(s) => Some(s@),
        None => None,
    }
}

/// The value of a list of items.
pub open spec fn items_model(v: Seq<Item>) -> Seq<ItemModel> {
    v.map_values(|x: Item| (x.0, x.1@, x.2))
}

/// The value of one tab.
pub open spec fn tab_model(t: Tab) -> TabModel {
    TabModel { name: t.0@, items: items_model(t.1@), parent: opt_string_model(t.2), folder: t.3 }
}

/// The value of a list of tabs.
pub open spec fn tabs_model(v: Seq<Tab>) -> Seq<TabModel> {
    v.map_values(|t: Tab| tab_model(t))
}

/// The list entry of node `id`.
pub open spec fn item_of(m: FsModel, id: FileId) -> ItemModel {
    (id, m.nodes[id as int].name, icon_for(m.nodes[id as int]))
}

/// The list entries of the nodes `ids`, in that order.
pub open spec fn items_of(m: FsModel, ids: Seq<FileId>) -> Seq<ItemModel> {
    ids.map_values(|id: FileId| item_of(m, id))
}

/// Whether every id of `ids` names a node.
pub open spec fn all_valid(m: FsModel, ids: Seq<FileId>) -> bool {
    forall|i: int| 0 <= i < ids.len() ==> #[trigger] ids[i] < m.nodes.len()
}

/// Whether the desktop and the Downloads tab name only existing nodes.
pub open spec fn lists_valid(m: FsModel) -> bool {
    all_valid(m, m.desktop) && all_valid(m, m.downloads)
}

/// Kinds that cannot be attached to a mail: folders, the File Explorer and Mail.
pub open spec fn not_attachable_kind(k: KindModel) -> bool {
    k is Folder || k is Explorer || k is Mail
}

/// Whether node `i` can be attached to a mail: it is on the desktop or in the
/// Downloads tab and is a plain file.
pub open spec fn attachable(m: FsModel) -> spec_fn(usize) -> bool {
    |i: usize|
        (m.desktop.contains(i) || m.downloads.contains(i)) && !not_attachable_kind(
            m.nodes[i as int].kind,
        )
}

/// The files a mail can attach, by increasing id.
pub open spec fn attachable_ids(m: FsModel) -> Seq<FileId> {
    select(m.nodes.len(), attachable(m))
}

/// Kinds the archive tool can review: photos, images and videos.
pub open spec fn reviewable_kind(k: KindModel) -> bool {
    k is Photo || k is Img || k is Mp4
}

/// Whether node `i` is of a kind satisfying `kp` and is not in the recycle bin.
pub open spec fn kind_outside_bin(m: FsModel, kp: spec_fn(KindModel) -> bool) -> spec_fn(usize) -> bool {
    |i: usize| kp(m.nodes[i as int].kind) && !m.in_recycle_bin(i)
}

/// Kinds shown by the Videos tab.
pub open spec fn video_kind() -> spec_fn(KindModel) -> bool {
    |k: KindModel| k is Mp4
}

/// Kinds shown by the Images tab.
pub open spec fn image_kind() -> spec_fn(KindModel) -> bool {
    |k: KindModel| k is Img
}

/// Kinds the archive tool reviews.
pub open spec fn review_kind() -> spec_fn(KindModel) -> bool {
    |k: KindModel| reviewable_kind(k)
}

/// An entry of the archive tool's list: id, raw name, icon and, for a downloaded
/// photo, its identifier.
pub type ReviewItem = (FileId, String, IconType, Option<String>);

/// The value of a review list.
pub open spec fn review_items_model(v: Seq<ReviewItem>) -> Seq<(FileId, Seq<char>, IconType, Option<Seq<char>>)> {
    v.map_values(|x: ReviewItem| (x.0, x.1@, x.2, opt_string_model(x.3)))
}

/// The identifier of a downloaded photo, `None` for any other kind.
pub open spec fn photo_id_of(k: KindModel) -> Option<Seq<char>> {
    match k {
        KindModel::Photo(f) => Some(f),
        _ => None,
    }
}

/// The review entry of node `id`.
pub open spec fn review_item_of(m: FsModel, id: FileId) -> (FileId, Seq<char>, IconType, Option<Seq<char>>) {
    (id, m.nodes[id as int].name, icon_for(m.nodes[id as int]), photo_id_of(m.nodes[id as int].kind))
}

/// The four fixed File Explorer tabs of the window `self_id`: Downloads, the
/// desktop without the window itself, and the videos and images outside the
/// recycle bin.
pub open spec fn category_tabs(m: FsModel, self_id: FileId) -> Seq<TabModel> {
    seq![
        TabModel { name: "Downloads"@, items: items_of(m, m.downloads), parent: None, folder: None },
        TabModel {
            name: "Desktop"@,
            items: items_of(m, without(m.desktop, self_id)),
            parent: None,
            folder: None,
        },
        TabModel {
            name: "Videos"@,
            items: items_of(m, select(m.nodes.len(), kind_outside_bin(m, video_kind()))),
            parent: None,
            folder: None,
        },
        TabModel {
            name: "Images"@,
            items: items_of(m, select(m.nodes.len(), kind_outside_bin(m, image_kind()))),
            parent: None,
            folder: None,
        },
    ]
}

/// The list entries of the nodes `ids`.
pub fn folder_items(fs: &FileSystem, ids: &Vec<FileId>) -> (r: Vec<Item>)
    requires
        all_valid(fs@, ids@),
    ensures
        items_model(r@) == items_of(fs@, ids@),
{
    let mut r: Vec<Item> = Vec::new();
    let mut i: usize = 0;
    while i < ids.len()
        invariant
            i <= ids.len(),
            all_valid(fs@, ids@),
            items_model(r@) == items_of(fs@, ids@.take(i as int)),
        decreases ids.len() - i,
    {
        let id = ids[i];
        let node = fs.get(id);
        let item = (id, node.name.clone(), icon_of(node));
        let ghost r0 = r@;
        r.push(item);
        i = i + 1;
        proof {
            assert(ids@.take(i as int) =~= ids@.take(i - 1).push(id));
            assert(items_model(r@) =~= items_model(r0).push(item_of(fs@, id)));
            assert(items_model(r@) =~= items_of(fs@, ids@.take(i as int)));
        }
    }
    proof {
        assert(ids@.take(ids.len() as int) =~= ids@);
    }
    r
}

/// The files a mail can attach: those on the desktop or in the Downloads tab,
/// once each by increasing id, without folders, the File Explorer and Mail.
pub fn mail_attachable_files(fs: &FileSystem) -> (r: Vec<Item>)
    requires
        lists_valid(fs@),
    ensures
        items_model(r@) == items_of(fs@, attachable_ids(fs@)),
{
    let desktop = fs.desktop_ids();
    let downloads = fs.download_ids();
    let n = fs.len();
    let mut ids: Vec<FileId> = Vec::new();
    let mut i: usize = 0;
    while i < n
        invariant
            i <= n,
            n == fs@.nodes.len(),
            desktop@ == fs@.desktop,
            downloads@ == fs@.downloads,
            ids@ == select(i as nat, attachable(fs@)),
        decreases n - i,
    {
        if vec_contains(desktop, i) || vec_contains(downloads, i) {
            let plain = match &fs.get(i).kind {
                FileKind::Folder { .. } | FileKind::Explorer | FileKind::Mail { .. } => false,
                _ => true,
            };
            if plain {
                ids.push(i);
            }
        }
        i = i + 1;
    }
    proof {
        lemma_select(fs@.nodes.len(), attachable(fs@));
    }
    folder_items(fs, &ids)
}

/// Whether a kind is a photo, an image or a video.
fn is_reviewable(k: &FileKind) -> (b: bool)
    ensures
        b == reviewable_kind(k@),
{
    matches!(*k, FileKind::Photo(_) | FileKind::Img(_) | FileKind::Mp4)
}

/// Whether a kind is a video.
fn is_video(k: &FileKind) -> (b: bool)
    ensures
        b == video_kind()(k@),
{
    matches!(*k, FileKind::Mp4)
}

/// Whether a kind is an image.
fn is_image(k: &FileKind) -> (b: bool)
    ensures
        b == image_kind()(k@),
{
    matches!(*k, FileKind::Img(_))
}

/// The ids of the nodes of a kind satisfying `kp` that are not in the recycle bin.
fn kind_ids_outside_bin<F: Fn(&FileKind) -> bool>(
    fs: &FileSystem,
    pred: F,
    Ghost(kp): Ghost<spec_fn(KindModel) -> bool>,
) -> (r: Vec<FileId>)
    requires
        forall|k: &FileKind| #[trigger] pred.requires((k,)),
        forall|k: &FileKind, b: bool| pred.ensures((k,), b) ==> b == kp(k@),
    ensures
        r@ == select(fs@.nodes.len(), kind_outside_bin(fs@, kp)),
{
    let of_kind = fs.all_of_kind(pred);
    let ghost p = kind_outside_bin(fs@, kp);
    proof {
        assert forall|b: int| 0 <= b < of_kind@.len() implies kp(fs@.nodes[#[trigger] of_kind@[b] as int].kind) by {
            let x = of_kind@[b];
            assert(of_kind@.contains(x));
            assert(fs.node_at(x as int)@ == fs@.nodes[x as int]);
        }
    }
    let mut r: Vec<FileId> = Vec::new();
    let mut j: usize = 0;
    while j < of_kind.len()
        invariant
            j <= of_kind.len(),
            increasing(of_kind@),
            forall|a: int| 0 <= a < of_kind@.len() ==> of_kind@[a] < fs@.nodes.len(),
            increasing(r@),
            forall|a: int| 0 <= a < r@.len() ==> r@[a] < fs@.nodes.len() && p(r@[a]),
            forall|a: int, b: int| 0 <= a < r@.len() && j <= b < of_kind@.len() ==> r@[a] < of_kind@[b],
            forall|b: int| 0 <= b < j ==> (!fs@.in_recycle_bin(of_kind@[b]) ==> r@.contains(#[trigger] of_kind@[b])),
            forall|b: int| 0 <= b < of_kind@.len() ==> kp(fs@.nodes[#[trigger] of_kind@[b] as int].kind),
            p == kind_outside_bin(fs@, kp),
        decreases of_kind.len() - j,
    {
        let id = of_kind[j];
        if !fs.in_recycle_bin(id) {
            let ghost r0 = r@;
            r.push(id);
            proof {
                assert forall|b: int| 0 <= b < j + 1 implies (!fs@.in_recycle_bin(of_kind@[b]) ==> r@.contains(#[trigger] of_kind@[b])) by {
                    if b < j && !fs@.in_recycle_bin(of_kind@[b]) {
                        let k = choose|k: int| 0 <= k < r0.len() && r0[k] == of_kind@[b];
                        assert(r@[k] == of_kind@[b]);
                    } else if b == j {
                        assert(r@[r0.len() as int] == id);
                    }
                }
            }
        }
        j = j + 1;
    }
    proof {
        let s = select(fs@.nodes.len(), p);
        lemma_select(fs@.nodes.len(), p);
        assert forall|x: usize| r@.contains(x) <==> s.contains(x) by {
            if r@.contains(x) {
                let a = choose|a: int| 0 <= a < r@.len() && r@[a] == x;
                assert(p(x));
            }
            if s.contains(x) {
                let a = choose|a: int| 0 <= a < s.len() && s[a] == x;
                assert(x < fs@.nodes.len() && p(x));
                assert(kp(fs.node_at(x as int).kind@));
                assert(of_kind@.contains(x));
                let b = choose|b: int| 0 <= b < of_kind@.len() && of_kind@[b] == x;
                assert(!fs@.in_recycle_bin(of_kind@[b]));
            }
        }
        lemma_increasing_unique(r@, s);
    }
    r
}

/// The files the archive tool can review: photos, images and videos outside the
/// recycle bin, by increasing id, each with its name, icon and photo identifier.
pub fn hextool_review_files(fs: &FileSystem) -> (r: Vec<ReviewItem>)
    ensures
        review_items_model(r@) == select(fs@.nodes.len(), kind_outside_bin(fs@, review_kind())).map_values(
            |id: FileId| review_item_of(fs@, id),
        ),
{
    let ids = kind_ids_outside_bin(
        fs,
        is_reviewable,
        Ghost(review_kind()),
    );
    proof {
        lemma_select(fs@.nodes.len(), kind_outside_bin(fs@, review_kind()));
    }
    let ghost want = ids@.map_values(|id: FileId| review_item_of(fs@, id));
    let mut r: Vec<ReviewItem> = Vec::new();
    let mut i: usize = 0;
    while i < ids.len()
        invariant
            i <= ids.len(),
            forall|a: int| 0 <= a < ids@.len() ==> ids@[a] < fs@.nodes.len(),
            want == ids@.map_values(|id: FileId| review_item_of(fs@, id)),
            review_items_model(r@) == want.take(i as int),
        decreases ids.len() - i,
    {
        let id = ids[i];
        let node = fs.get(id);
        let photo_id = match &node.kind {
            FileKind::Photo(filename) => Some(filename.clone()),
            _ => None,
        };
        let ghost r0 = r@;
        let item = (id, node.name.clone(), icon_of(node), photo_id);
        r.push(item);
        i = i + 1;
        proof {
            assert(want.take(i as int) =~= want.take(i - 1).push(review_item_of(fs@, id)));
            assert(review_items_model(r@) =~= review_items_model(r0).push(review_item_of(fs@, id)));
            assert(review_items_model(r@) =~= want.take(i as int));
        }
    }
    proof {
        assert(want.take(ids.len() as int) =~= want);
    }
    r
}

/// The four fixed File Explorer tabs of the window `self_id`.
pub fn explorer_tabs(fs: &FileSystem, self_id: FileId) -> (r: Vec<Tab>)
    requires
        lists_valid(fs@),
    ensures
        tabs_model(r@) == category_tabs(fs@, self_id),
{
    let downloads = folder_items(fs, fs.download_ids());
    let on_desktop = remove_all(fs.desktop_ids(), self_id);
    proof {
        assert forall|i: int| 0 <= i < on_desktop@.len() implies #[trigger] on_desktop@[i] < fs@.nodes.len() by {
            crate::ids::lemma_without_contains(fs@.desktop, self_id, on_desktop@[i]);
            assert(on_desktop@.contains(on_desktop@[i]));
            let k = choose|k: int| 0 <= k < fs@.desktop.len() && fs@.desktop[k] == on_desktop@[i];
        }
    }
    let desktop = folder_items(fs, &on_desktop);
    let video_ids = kind_ids_outside_bin(
        fs,
        is_video,
        Ghost(video_kind()),
    );
    let image_ids = kind_ids_outside_bin(
        fs,
        is_image,
        Ghost(image_kind()),
    );
    proof {
        lemma_select(fs@.nodes.len(), kind_outside_bin(fs@, video_kind()));
        lemma_select(fs@.nodes.len(), kind_outside_bin(fs@, image_kind()));
    }
    let videos = folder_items(fs, &video_ids);
    let images = folder_items(fs, &image_ids);
    let r = vec![
        ("Downloads".to_owned(), downloads, None, None),
        ("Desktop".to_owned(), desktop, None, None),
        ("Videos".to_owned(), videos, None, None),
        ("Images".to_owned(), images, None, None),
    ];
    proof {
        assert(tabs_model(r@) =~= category_tabs(fs@, self_id));
    }
    r
}

} // verus!
