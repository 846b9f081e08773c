//! Opening a file: which application shows it, under which title, and how its
//! window starts out.
use vstd::prelude::*;

use crate::foundation::{
    display_name, display_name_text, FileId, FileKind, FileSystem, FsModel, KindModel, Language,
    RECYCLE_BIN_NAME, SentMailModel,
};
use crate::icons::{icon_for, icon_of};
use crate::listing::{
    all_valid, attachable_ids, category_tabs, explorer_tabs, folder_items, hextool_review_files, items_model,
    items_of, kind_outside_bin, lists_valid, mail_attachable_files, review_item_of, review_items_model, review_kind,
    tabs_model, Item, ItemModel, ReviewItem, Tab,
};
use crate::ids::select;
use crate::mail::SentMailView;
use crate::text::{str_eq, strings_model};

verus! {

broadcast use {FileSystem::lemma_node_at, FileSystem::lemma_nodes_fit};

/// How a window starts out: its size, whether it opens maximized, whether its
/// border resizes it, whether it can be maximized and moved, and the smallest
/// size a resize may leave.
#[derive(Clone, Copy, Debug, PartialEq, Eq, Structural)]
pub struct WindowSpec {
    pub width: u32,
    pub height: u32,
    pub maximized: bool,
    pub resizable: bool,
    pub maximizable: bool,
    pub movable: bool,
    pub min_width: u32,
    pub min_height: u32,
}

/// The application a file opens in, with what it is given.
pub enum AppLaunch {
    /// A text file in the notepad.
    Notepad { text: String },
    /// A video in the player.
    Video,
    /// One of the loaded photos in the image viewer.
    ImageViewer { photo_idx: usize },
    /// The password prompt of a locked file.
    Password { id: FileId, password: String },
    /// The recycle bin with its contents.
    RecycleBin { items: Vec<Item> },
    /// A folder in a File Explorer without tabs.
    Folder { items: Vec<Item>, raw_name: String },
    /// The mail application.
    Mail {
        arrived: bool,
        read: Vec<usize>,
        attachable: Vec<Item>,
        sent: Vec<SentMailView>,
        hextool_attachment: FileId,
    },
    /// The desktop's File Explorer with its category tabs.
    Explorer { tabs: Vec<Tab>, raw_name: String },
    /// A `.tar` archive.
    Archive { tool_installed: bool },
    /// The installer of the archive tool.
    Installer { tool_installed: bool },
    /// The archive tool with the files it can review.
    HexTool { review_files: Vec<ReviewItem> },
    /// A downloaded photo.
    PhotoViewer { filename: String },
    /// The photo feed with the photos chosen for it.
    Photos { current: Vec<String> },
}

/// What opening a file gives: the application, the window title and the window.
pub struct OpenPlan {
    pub app: AppLaunch,
    pub title: String,
    pub window: WindowSpec,
}

/// A window that opens at `width` x `height`, not maximized, and can be moved.
pub open spec fn window(
    width: u32,
    height: u32,
    resizable: bool,
    maximizable: bool,
    min_width: u32,
    min_height: u32,
) -> WindowSpec {
    WindowSpec { width, height, maximized: false, resizable, maximizable, movable: true, min_width, min_height }
}

fn make_window(
    width: u32,
    height: u32,
    resizable: bool,
    maximizable: bool,
    min_width: u32,
    min_height: u32,
) -> (r: WindowSpec)
    ensures
        r == window(width, height, resizable, maximizable, min_width, min_height),
{
    WindowSpec { width, height, maximized: false, resizable, maximizable, movable: true, min_width, min_height }
}

/// The window a node opens in.
pub open spec fn window_for(k: KindModel, name: Seq<char>) -> WindowSpec {
    match k {
        KindModel::Txt(_) => window(320, 240, true, true, 150, 90),
        KindModel::Mp4 => window(340, 280, true, true, 150, 90),
        KindModel::Img(_) => window(420, 320, true, true, 150, 90),
        KindModel::Lock { .. } => window(260, 140, false, false, 150, 90),
        KindModel::Folder { .. } => if name == RECYCLE_BIN_NAME@ {
            window(400, 340, true, true, 300, 260)
        } else {
            window(420, 320, true, true, 300, 220)
        },
        KindModel::Mail { .. } => window(470, 340, true, true, 400, 320),
        KindModel::Explorer => window(500, 340, true, true, 340, 260),
        KindModel::Tar => window(340, 160, false, false, 150, 90),
        KindModel::Installer => window(380, 260, false, false, 150, 90),
        KindModel::HexTool => window(420, 320, true, true, 360, 260),
        KindModel::Photo(_) => window(420, 320, true, true, 150, 90),
        KindModel::PhotoGallery => window(350, 350, false, false, 350, 350),
        KindModel::Deleted => window(0, 0, false, false, 0, 0),
    }
}

/// The list entry of an attachment of a sent mail: its id, the name it was sent
/// under and the icon of the file.
pub open spec fn sent_attachment_item(m: FsModel, a: (FileId, Seq<char>)) -> ItemModel {
    (a.0, a.1, icon_for(m.nodes[a.0 as int]))
}

/// Whether `v` shows the sent mail `s`.
pub open spec fn shows_sent(m: FsModel, s: SentMailModel, v: SentMailView) -> bool {
    &&& v.to@ == s.to
    &&& v.subject@ == s.subject
    &&& v.body@ == s.body
    &&& items_model(v.attachments@) == s.attachments.map_values(|a: (FileId, Seq<char>)| sent_attachment_item(m, a))
}

/// Whether every attachment of every sent mail names a node.
pub open spec fn sent_valid(m: FsModel) -> bool {
    forall|i: int, j: int|
        0 <= i < m.sent_mail.len() && 0 <= j < m.sent_mail[i].attachments.len() ==> #[trigger] m.sent_mail[i].attachments[j].0
            < m.nodes.len()
}

/// Whether node `id` can be opened: it exists and is not deleted, a folder names
/// only existing nodes, the mail window's desktop, Downloads and sent lists name
/// only existing nodes, and so do the File Explorer's desktop and Downloads.
pub open spec fn openable(m: FsModel, id: FileId) -> bool {
    &&& id < m.nodes.len()
    &&& !(m.nodes[id as int].kind is Deleted)
    &&& match m.nodes[id as int].kind {
        KindModel::Folder { children } => all_valid(m, children),
        KindModel::Mail { .. } => lists_valid(m) && sent_valid(m),
        KindModel::Explorer => lists_valid(m),
        _ => true,
    }
}

/// Whether `app` is what node `id` opens in, given what it holds.
pub open spec fn launches(m: FsModel, id: FileId, app: AppLaunch) -> bool {
    let n = m.nodes[id as int];
    match n.kind {
        KindModel::Txt(text) => app matches AppLaunch::Notepad { text: t } && t@ == text,
        KindModel::Mp4 => app is Video,
        KindModel::Img(idx) => app matches AppLaunch::ImageViewer { photo_idx } && photo_idx == idx,
        KindModel::Lock { password, .. } => app matches AppLaunch::Password { id: lid, password: p } && lid == id
            && p@ == password,
        KindModel::Folder { children } => if n.name == RECYCLE_BIN_NAME@ {
            app matches AppLaunch::RecycleBin { items } && items_model(items@) == items_of(m, children)
        } else {
            app matches AppLaunch::Folder { items, raw_name } && items_model(items@) == items_of(m, children)
                && raw_name@ == n.name
        },
        KindModel::Mail { .. } => app matches AppLaunch::Mail {
            arrived,
            read,
            attachable,
            sent,
            hextool_attachment,
        } && arrived == m.mail_arrived && read@ == m.mail_read && items_model(attachable@) == items_of(
            m,
            attachable_ids(m),
        ) && sent@.len() == m.sent_mail.len() && (forall|i: int|
            0 <= i < sent@.len() ==> shows_sent(m, m.sent_mail[i], #[trigger] sent@[i]))
            && hextool_attachment == m.mail_hextool_attachment,
        KindModel::Explorer => app matches AppLaunch::Explorer { tabs, raw_name } && tabs_model(tabs@)
            == category_tabs(m, id) && raw_name@ == n.name,
        KindModel::Tar => app matches AppLaunch::Archive { tool_installed } && tool_installed
            == m.hex_tool_installed,
        KindModel::Installer => app matches AppLaunch::Installer { tool_installed } && tool_installed
            == m.hex_tool_installed,
        KindModel::HexTool => app matches AppLaunch::HexTool { review_files } && review_items_model(review_files@)
            == select(m.nodes.len(), kind_outside_bin(m, review_kind())).map_values(
            |i: FileId| review_item_of(m, i),
        ),
        KindModel::Photo(filename) => app matches AppLaunch::PhotoViewer { filename: f } && f@ == filename,
        KindModel::PhotoGallery => app matches AppLaunch::Photos { current } && strings_model(current@)
            == m.photos_current,
        KindModel::Deleted => false,
    }
}

/// The sent mails as the Sent Items folder shows them.
fn sent_views(fs: &FileSystem) -> (r: Vec<SentMailView>)
    requires
        sent_valid(fs@),
    ensures
        r@.len() == fs@.sent_mail.len(),
        forall|i: int| 0 <= i < r@.len() ==> shows_sent(fs@, fs@.sent_mail[i], #[trigger] r@[i]),
{
    let mails = fs.sent_mails();
    let mut r: Vec<SentMailView> = Vec::new();
    let mut i: usize = 0;
    while i < mails.len()
        invariant
            i <= mails.len(),
            mails@.map_values(|m: crate::foundation::SentMail| m@) == fs@.sent_mail,
            sent_valid(fs@),
            r@.len() == i,
            forall|k: int| 0 <= k < i ==> shows_sent(fs@, fs@.sent_mail[k], #[trigger] r@[k]),
        decreases mails.len() - i,
    {
        let m = &mails[i];
        assert(fs@.sent_mail[i as int] == m@);
        let ghost want = m@.attachments.map_values(|a: (FileId, Seq<char>)| sent_attachment_item(fs@, a));
        let mut atts: Vec<Item> = Vec::new();
        let mut j: usize = 0;
        while j < m.attachments.len()
            invariant
                j <= m.attachments.len(),
                m@ == fs@.sent_mail[i as int],
                0 <= i < fs@.sent_mail.len(),
                sent_valid(fs@),
                want == m@.attachments.map_values(|a: (FileId, Seq<char>)| sent_attachment_item(fs@, a)),
                items_model(atts@) == want.take(j as int),
            decreases m.attachments.len() - j,
        {
            let aid = m.attachments[j].0;
            assert(m@.attachments[j as int] == (aid, m.attachments@[j as int].1@));
            assert(fs@.sent_mail[i as int].attachments[j as int].0 == aid);
            assert(aid < fs@.nodes.len());
            let ghost a0 = atts@;
            let item = (aid, m.attachments[j].1.clone(), icon_of(fs.get(aid)));
            atts.push(item);
            j = j + 1;
            proof {
                assert(items_model(atts@) =~= items_model(a0).push(item_model_of(item)));
                assert(want.take(j as int) =~= want.take(j - 1).push(want[j - 1]));
            }
        }
        proof {
            assert(want.take(m.attachments.len() as int) =~= want);
        }
        let v = SentMailView {
            to: m.to.clone(),
            subject: m.subject.clone(),
            body: m.body.clone(),
            attachments: atts,
        };
        r.push(v);
        i = i + 1;
    }
    r
}

/// The value of one list entry.
pub open spec fn item_model_of(x: Item) -> ItemModel {
    (x.0, x.1@, x.2)
}

/// What opening node `id` gives: the application that shows it with what it
/// holds, the node's name as shown in `lang` for a title, and the window the
/// kind of node opens in.
pub fn open(fs: &FileSystem, id: FileId, lang: Language) -> (r: OpenPlan)
    requires
        openable(fs@, id),
    ensures
        launches(fs@, id, r.app),
        r.title@ == display_name_text(lang, fs@.nodes[id as int].name),
        r.window == window_for(fs@.nodes[id as int].kind, fs@.nodes[id as int].name),
{
    let node = fs.get(id);
    let raw_name = node.name.clone();
    let title = display_name(lang, raw_name.as_str()).to_owned();
    match &node.kind {
        FileKind::Txt(text) => OpenPlan {
            app: AppLaunch::Notepad { text: text.clone() },
            title,
            window: make_window(320, 240, true, true, 150, 90),
        },
        FileKind::Mp4 => OpenPlan { app: AppLaunch::Video, title, window: make_window(340, 280, true, true, 150, 90) },
        FileKind::Img(idx) => OpenPlan {
            app: AppLaunch::ImageViewer { photo_idx: *idx },
            title,
            window: make_window(420, 320, true, true, 150, 90),
        },
        FileKind::Lock { password, .. } => OpenPlan {
            app: AppLaunch::Password { id, password: password.clone() },
            title,
            window: make_window(260, 140, false, false, 150, 90),
        },
        FileKind::Folder { children } => {
            let items = folder_items(fs, children);
            if str_eq(raw_name.as_str(), RECYCLE_BIN_NAME) {
                OpenPlan {
                    app: AppLaunch::RecycleBin { items },
                    title,
                    window: make_window(400, 340, true, true, 300, 260),
                }
            } else {
                OpenPlan {
                    app: AppLaunch::Folder { items, raw_name },
                    title,
                    window: make_window(420, 320, true, true, 300, 220),
                }
            }
        },
        FileKind::Mail { .. } => {
            let attachable = mail_attachable_files(fs);
            let sent = sent_views(fs);
            let read = crate::ids::copy_ids(fs.mail_read_ids());
            OpenPlan {
                app: AppLaunch::Mail {
                    arrived: fs.has_mail_arrived(),
                    read,
                    attachable,
                    sent,
                    hextool_attachment: fs.hextool_attachment(),
                },
                title,
                window: make_window(470, 340, true, true, 400, 320),
            }
        },
        FileKind::Explorer => OpenPlan {
            app: AppLaunch::Explorer { tabs: explorer_tabs(fs, id), raw_name },
            title,
            window: make_window(500, 340, true, true, 340, 260),
        },
        FileKind::Tar => OpenPlan {
            app: AppLaunch::Archive { tool_installed: fs.is_hex_tool_installed() },
            title,
            window: make_window(340, 160, false, false, 150, 90),
        },
        FileKind::Installer => OpenPlan {
            app: AppLaunch::Installer { tool_installed: fs.is_hex_tool_installed() },
            title,
            window: make_window(380, 260, false, false, 150, 90),
        },
        FileKind::HexTool => OpenPlan {
            app: AppLaunch::HexTool { review_files: hextool_review_files(fs) },
            title,
            window: make_window(420, 320, true, true, 360, 260),
        },
        FileKind::Photo(filename) => OpenPlan {
            app: AppLaunch::PhotoViewer { filename: filename.clone() },
            title,
            window: make_window(420, 320, true, true, 150, 90),
        },
        FileKind::PhotoGallery => {
            let current = crate::text::copy_strings(fs.current_photos());
            OpenPlan {
                app: AppLaunch::Photos { current },
                title,
                window: make_window(350, 350, false, false, 350, 350),
            }
        },
        FileKind::Deleted => {
            proof {
                assert(false);
            }
            OpenPlan { app: AppLaunch::Video, title, window: make_window(0, 0, false, false, 0, 0) }
        },
    }
}

} // verus!
