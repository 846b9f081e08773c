//! The pretend file system: every file and folder lives in one arena of nodes and
//! is named by its index there (`FileId`). Folders and locked files point at their
//! children by id. A node is never taken out of the arena, so ids stay valid; a
//! permanently deleted file becomes a `Deleted` node.
use vstd::prelude::*;

use crate::ids::{no_duplicates, push_if_absent, push_unique, remove_all, vec_contains, without, copy_ids};
use crate::strings::{label_text, t, Label};
use crate::text::{strings_model, after_last, after_last_slash, ends_with, str_ends_with, str_eq};

verus! {

pub type FileId = usize;

/// The language the interface is shown in.
#[derive(Clone, Copy, Debug, PartialEq, Eq, Structural)]
pub enum Language {
    En,
    Ko,
    Ja,
}


/// Name of the folder that acts as the recycle bin.
pub const RECYCLE_BIN_NAME: &'static str = "Recycle Bin";

/// Name of the desktop's File Explorer entry.
pub const MY_COMPUTER_NAME: &'static str = "My Computer";

/// Name of the desktop's photo feed application (written only in letters the
/// bitmap font lacks, so it always shows as placeholder boxes).
pub const PHOTOS_APP_NAME: &'static str = "Фотки";

/// Name of the installer attached to the welcome mail.
pub const HEXTOOL_SETUP_NAME: &'static str = "HexTool Setup.exe";

/// Name given to a node that was deleted for good.
pub const DELETED_NAME: &'static str = "(deleted)";

/// Suffix of a locked file's name, dropped when it is unlocked.
pub const LOCK_SUFFIX: &'static str = ".lock";

/// What a node is.
#[derive(Clone, Debug, PartialEq)]
pub enum FileKind {
    /// A text file and its contents.
    Txt(String),
    /// A video.
    Mp4,
    /// An image, by its index among the loaded photos.
    Img(usize),
    /// A locked file: a folder behind a password.
    Lock { password: String, children: Vec<FileId> },
    /// A folder.
    Folder { children: Vec<FileId> },
    /// The mail application (with at most one attachment).
    Mail { attachment: Option<FileId> },
    /// The desktop's File Explorer.
    Explorer,
    /// A `.tar` archive.
    Tar,
    /// The installer of the archive tool.
    Installer,
    /// The installed archive tool.
    HexTool,
    /// The photo feed application.
    PhotoGallery,
    /// A downloaded photo, by its identifier under the photo directory.
    Photo(String),
    /// The place of a node deleted for good.
    Deleted,
}

/// One file or folder.
#[derive(Clone, Debug, PartialEq)]
pub struct FileNode {
    pub name: String,
    pub kind: FileKind,
}

/// A mail sent from the "Write Mail" tab.
#[derive(Clone, Debug, PartialEq)]
pub struct SentMail {
    pub to: String,
    pub subject: String,
    pub body: String,
    pub attachments: Vec<(FileId, String)>,
}

/// Where a file was before it went to the recycle bin.
#[derive(Clone, Copy, Debug, PartialEq, Eq, Structural)]
pub enum FileOrigin {
    Desktop,
    Downloads,
    Folder(FileId),
    /// In no container: shown only by the kind-based tabs.
    Loose,
}

/// The mathematical value of a `FileKind`, strings taken as their characters.
pub enum KindModel {
    Txt(Seq<char>),
    Mp4,
    Img(usize),
    Lock { password: Seq<char>, children: Seq<FileId> },
    Folder { children: Seq<FileId> },
    Mail { attachment: Option<FileId> },
    Explorer,
    Tar,
    Installer,
    HexTool,
    PhotoGallery,
    Photo(Seq<char>),
    Deleted,
}

/// The mathematical value of a `FileNode`.
pub struct NodeModel {
    pub name: Seq<char>,
    pub kind: KindModel,
}

/// The mathematical value of a `SentMail`.
pub struct SentMailModel {
    pub to: Seq<char>,
    pub subject: Seq<char>,
    pub body: Seq<char>,
    pub attachments: Seq<(FileId, Seq<char>)>,
}

impl View for FileKind {
    type V = KindModel;

    open spec fn view(&self) -> KindModel {
        match self {
            FileKind::Txt(t) => KindModel::Txt(t@),
            FileKind::Mp4 => KindModel::Mp4,
            FileKind::Img(i) => KindModel::Img(*i),
            FileKind::Lock { password, children } => KindModel::Lock {
                password: password@,
                children: children@,
            },
            FileKind::Folder { children } => KindModel::Folder { children: children@ },
            FileKind::Mail { attachment } => KindModel::Mail { attachment: *attachment },
            FileKind::Explorer => KindModel::Explorer,
            FileKind::Tar => KindModel::Tar,
            FileKind::Installer => KindModel::Installer,
            FileKind::HexTool => KindModel::HexTool,
            FileKind::PhotoGallery => KindModel::PhotoGallery,
            FileKind::Photo(f) => KindModel::Photo(f@),
            FileKind::Deleted => KindModel::Deleted,
        }
    }
}

impl View for FileNode {
    type V = NodeModel;

    open spec fn view(&self) -> NodeModel {
        NodeModel { name: self.name@, kind: self.kind@ }
    }
}

impl View for SentMail {
    type V = SentMailModel;

    open spec fn view(&self) -> SentMailModel {
        SentMailModel {
            to: self.to@,
            subject: self.subject@,
            body: self.body@,
            attachments: self.attachments@.map_values(|a: (FileId, String)| (a.0, a.1@)),
        }
    }
}

/// Whether node `n` is a folder that holds `id`.
pub open spec fn folder_holds(n: NodeModel, id: FileId) -> bool {
    match n.kind {
        KindModel::Folder { children } => children.contains(id),
        _ => false,
    }
}

/// Whether a node is named `name`.
pub open spec fn named(name: Seq<char>) -> spec_fn(NodeModel) -> bool {
    |n: NodeModel| n.name == name
}

/// Whether a node is the downloaded photo `filename`.
pub open spec fn is_photo_of(filename: Seq<char>) -> spec_fn(NodeModel) -> bool {
    |n: NodeModel| n.kind == KindModel::Photo(filename)
}

/// Whether a node is a folder holding `id`.
pub open spec fn holds(id: FileId) -> spec_fn(NodeModel) -> bool {
    |n: NodeModel| folder_holds(n, id)
}

/// `n` with `id` taken out of its children, if it is a folder.
pub open spec fn node_detached(n: NodeModel, id: FileId) -> NodeModel {
    match n.kind {
        KindModel::Folder { children } => NodeModel {
            name: n.name,
            kind: KindModel::Folder { children: without(children, id) },
        },
        _ => n,
    }
}

/// `s` with `suffix` taken off its end as many times as it ends with it.
pub open spec fn trim_suffix_all(s: Seq<char>, suffix: Seq<char>) -> Seq<char>
    decreases s.len(),
{
    if suffix.len() > 0 && ends_with(s, suffix) {
        trim_suffix_all(s.subrange(0, s.len() - suffix.len()), suffix)
    } else {
        s
    }
}

/// Index of the first element of `s` that satisfies `p`.
pub open spec fn first_match<A>(s: Seq<A>, p: spec_fn(A) -> bool) -> Option<int>
    decreases s.len(),
{
    if s.len() == 0 {
        None
    } else {
        match first_match(s.drop_last(), p) {
            Some(i) => Some(i),
            None => if p(s.last()) {
                Some(s.len() - 1)
            } else {
                None
            },
        }
    }
}

pub proof fn lemma_first_match<A>(s: Seq<A>, p: spec_fn(A) -> bool)
    ensures
        match first_match(s, p) {
            Some(i) => 0 <= i < s.len() && p(s[i]) && forall|j: int| 0 <= j < i ==> !p(s[j]),
            None => forall|j: int| 0 <= j < s.len() ==> !p(s[j]),
        },
    decreases s.len(),
{
    if s.len() > 0 {
        let t = s.drop_last();
        lemma_first_match(t, p);
        assert forall|j: int| 0 <= j < t.len() implies t[j] == s[j] by {}
    }
}

/// A first match is any index that matches with no match before it.
pub proof fn lemma_first_match_at<A>(s: Seq<A>, p: spec_fn(A) -> bool, i: int)
    requires
        0 <= i < s.len(),
        p(s[i]),
        forall|j: int| 0 <= j < i ==> !p(s[j]),
    ensures
        first_match(s, p) == Some(i),
{
    lemma_first_match(s, p);
}

/// The mathematical value of a `FileSystem`.
pub struct FsModel {
    pub nodes: Seq<NodeModel>,
    pub desktop: Seq<FileId>,
    pub downloads: Seq<FileId>,
    pub ever_downloaded: Seq<FileId>,
    pub mail_arrived: bool,
    pub hex_tool_installed: bool,
    pub mail_read: Seq<usize>,
    pub sent_mail: Seq<SentMailModel>,
    pub trash_origin: Seq<(FileId, FileOrigin)>,
    pub mail_hextool_attachment: FileId,
    pub photos_current: Seq<Seq<char>>,
    pub photos_seen: Seq<Seq<char>>,
}

impl FsModel {
    /// The file system with node `n` added at the end.
    pub open spec fn with_node(self, n: NodeModel) -> FsModel {
        FsModel { nodes: self.nodes.push(n), ..self }
    }

    /// The file system after downloading `id`.
    pub open spec fn downloaded(self, id: FileId) -> FsModel {
        FsModel {
            downloads: push_unique(self.downloads, id),
            ever_downloaded: push_unique(self.ever_downloaded, id),
            ..self
        }
    }

    /// The file system with `id` taken out of the downloads and of every folder.
    pub open spec fn detached(self, id: FileId) -> FsModel {
        FsModel {
            downloads: without(self.downloads, id),
            nodes: self.nodes.map_values(|n: NodeModel| node_detached(n, id)),
            ..self
        }
    }

    /// The file system after deleting `id` for good (the File Explorer stays).
    pub open spec fn deleted(self, id: FileId) -> FsModel {
        if self.nodes[id as int].kind is Explorer {
            self
        } else {
            let d = self.detached(id);
            FsModel {
                nodes: d.nodes.update(
                    id as int,
                    NodeModel { name: DELETED_NAME@, kind: KindModel::Deleted },
                ),
                ..d
            }
        }
    }

    /// The file system after unlocking `id`: a locked file becomes a folder with the
    /// same children and its name loses its lock suffixes.
    pub open spec fn unlocked(self, id: FileId) -> FsModel {
        match self.nodes[id as int].kind {
            KindModel::Lock { password, children } => FsModel {
                nodes: self.nodes.update(
                    id as int,
                    NodeModel {
                        name: trim_suffix_all(self.nodes[id as int].name, LOCK_SUFFIX@),
                        kind: KindModel::Folder { children },
                    },
                ),
                ..self
            },
            _ => self,
        }
    }

    /// The file system after putting `id` into folder `folder_id`.
    pub open spec fn added_to_folder(self, folder_id: FileId, id: FileId) -> FsModel {
        match self.nodes[folder_id as int].kind {
            KindModel::Folder { children } => if children.contains(id) {
                self
            } else {
                FsModel {
                    nodes: self.nodes.update(
                        folder_id as int,
                        NodeModel {
                            name: self.nodes[folder_id as int].name,
                            kind: KindModel::Folder { children: children.push(id) },
                        },
                    ),
                    ..self
                }
            },
            _ => self,
        }
    }

    /// The file system with the feed showing `current`, which joins the photos seen.
    pub open spec fn showing(self, current: Seq<Seq<char>>) -> FsModel {
        FsModel { photos_current: current, photos_seen: self.photos_seen + current, ..self }
    }

    /// Index of the first node named `name`.
    pub open spec fn name_index(self, name: Seq<char>) -> Option<int> {
        first_match(self.nodes, named(name))
    }

    /// Index of the first downloaded photo with identifier `filename`.
    pub open spec fn photo_index(self, filename: Seq<char>) -> Option<int> {
        first_match(self.nodes, is_photo_of(filename))
    }

    /// The file system and id after asking for the photo node of `filename`: the
    /// existing one, or a new one named after the last path segment.
    pub open spec fn with_photo(self, filename: Seq<char>) -> (FsModel, FileId) {
        match self.photo_index(filename) {
            Some(i) => (self, i as FileId),
            None => (
                self.with_node(
                    NodeModel { name: after_last(filename, '/'), kind: KindModel::Photo(filename) },
                ),
                self.nodes.len() as FileId,
            ),
        }
    }

    /// Where `id` currently is: the desktop, then the downloads, then the first
    /// folder that holds it.
    pub open spec fn location(self, id: FileId) -> Option<FileOrigin> {
        if self.desktop.contains(id) {
            Some(FileOrigin::Desktop)
        } else if self.downloads.contains(id) {
            Some(FileOrigin::Downloads)
        } else {
            match first_match(self.nodes, holds(id)) {
                Some(i) => Some(FileOrigin::Folder(i as FileId)),
                None => None,
            }
        }
    }

    /// Whether some folder named like the recycle bin holds `id`.
    pub open spec fn in_recycle_bin(self, id: FileId) -> bool {
        exists|i: int|
            0 <= i < self.nodes.len() && #[trigger] self.nodes[i].name == RECYCLE_BIN_NAME@
                && folder_holds(self.nodes[i], id)
    }
}

/// The file system a new game starts with.
pub open spec fn initial_model() -> FsModel {
    FsModel {
        nodes: seq![
            NodeModel { name: MY_COMPUTER_NAME@, kind: KindModel::Explorer },
            NodeModel { name: "Mail"@, kind: KindModel::Mail { attachment: None } },
            NodeModel { name: PHOTOS_APP_NAME@, kind: KindModel::PhotoGallery },
            NodeModel { name: RECYCLE_BIN_NAME@, kind: KindModel::Folder { children: Seq::empty() } },
            NodeModel { name: HEXTOOL_SETUP_NAME@, kind: KindModel::Installer },
        ],
        desktop: seq![3, 0, 1, 2],
        downloads: Seq::empty(),
        ever_downloaded: Seq::empty(),
        mail_arrived: false,
        hex_tool_installed: false,
        mail_read: Seq::empty(),
        sent_mail: Seq::empty(),
        trash_origin: Seq::empty(),
        mail_hextool_attachment: 4,
        photos_current: Seq::empty(),
        photos_seen: Seq::empty(),
    }
}

/// The pretend file system.
pub struct FileSystem {
    nodes: Vec<FileNode>,
    /// Files on the desktop, in icon order.
    pub desktop: Vec<FileId>,
    /// Files now in the Downloads tab.
    pub downloads: Vec<FileId>,
    /// Every file ever downloaded, even if moved away since.
    pub ever_downloaded: Vec<FileId>,
    /// Whether the first mail has arrived.
    pub mail_arrived: bool,
    /// Whether the archive tool's installer ran to the end.
    pub hex_tool_installed: bool,
    /// Indices of the mails that were read.
    pub mail_read: Vec<usize>,
    /// Mails sent from the "Write Mail" tab, oldest first.
    pub sent_mail: Vec<SentMail>,
    /// Where each file in the recycle bin came from.
    pub trash_origin: Vec<(FileId, FileOrigin)>,
    /// The installer node the welcome mail attaches.
    pub mail_hextool_attachment: FileId,
    /// Identifiers of the photos the feed shows now.
    pub photos_current: Vec<String>,
    /// Identifiers of every photo the feed has ever shown.
    pub photos_seen: Vec<String>,
}

impl View for FileSystem {
    type V = FsModel;

    closed spec fn view(&self) -> FsModel {
        FsModel {
            nodes: self.nodes@.map_values(|n: FileNode| n@),
            desktop: self.desktop@,
            downloads: self.downloads@,
            ever_downloaded: self.ever_downloaded@,
            mail_arrived: self.mail_arrived,
            hex_tool_installed: self.hex_tool_installed,
            mail_read: self.mail_read@,
            sent_mail: self.sent_mail@.map_values(|m: SentMail| m@),
            trash_origin: self.trash_origin@,
            mail_hextool_attachment: self.mail_hextool_attachment,
            photos_current: strings_model(self.photos_current@),
            photos_seen: strings_model(self.photos_seen@),
        }
    }
}

impl FileSystem {
    /// The node at `i` as an executable value (for closures over node kinds).
    pub closed spec fn node_at(&self, i: int) -> FileNode {
        self.nodes@[i]
    }

    /// The executable node at each index is the one the model shows.
    pub broadcast proof fn lemma_node_at(fs: &FileSystem, i: int)
        requires
            0 <= i < fs@.nodes.len(),
        ensures
            (#[trigger] fs.node_at(i))@ == fs@.nodes[i],
    {
    }

    /// The model's node list fits in memory.
    pub broadcast proof fn lemma_nodes_fit(fs: &FileSystem)
        ensures
            #[trigger] fs@.nodes.len() <= usize::MAX,
    {
        assert(fs.nodes.len() == fs.nodes@.len());
    }

    /// The files on the desktop.
    pub fn desktop_ids(&self) -> (r: &Vec<FileId>)
        ensures
            r@ == self@.desktop,
    {
        &self.desktop
    }

    /// The files in the Downloads tab.
    pub fn download_ids(&self) -> (r: &Vec<FileId>)
        ensures
            r@ == self@.downloads,
    {
        &self.downloads
    }

    /// The sent mails.
    pub fn sent_mails(&self) -> (r: &Vec<SentMail>)
        ensures
            r@.map_values(|m: SentMail| m@) == self@.sent_mail,
    {
        &self.sent_mail
    }

    /// The photo identifiers the feed shows now.
    pub fn current_photos(&self) -> (r: &Vec<String>)
        ensures
            strings_model(r@) == self@.photos_current,
    {
        &self.photos_current
    }

    /// The photo identifiers the feed has ever shown.
    pub fn seen_photos(&self) -> (r: &Vec<String>)
        ensures
            strings_model(r@) == self@.photos_seen,
    {
        &self.photos_seen
    }

    /// Indices of the mails that were read.
    pub fn mail_read_ids(&self) -> (r: &Vec<usize>)
        ensures
            r@ == self@.mail_read,
    {
        &self.mail_read
    }

    /// Whether the first mail has arrived.
    pub fn has_mail_arrived(&self) -> (r: bool)
        ensures
            r == self@.mail_arrived,
    {
        self.mail_arrived
    }

    /// Whether the archive tool is installed.
    pub fn is_hex_tool_installed(&self) -> (r: bool)
        ensures
            r == self@.hex_tool_installed,
    {
        self.hex_tool_installed
    }

    /// The installer node the welcome mail attaches.
    pub fn hextool_attachment(&self) -> (r: FileId)
        ensures
            r == self@.mail_hextool_attachment,
    {
        self.mail_hextool_attachment
    }

    /// Replaces the photo feed: `current` is shown now and added to what was seen.
    pub fn show_photos(&mut self, current: Vec<String>)
        ensures
            final(self)@ == old(self)@.showing(strings_model(current@)),
    {
        let mut i: usize = 0;
        while i < current.len()
            invariant
                i <= current.len(),
                self.nodes == old(self).nodes,
                self.desktop == old(self).desktop,
                self.downloads == old(self).downloads,
                self.ever_downloaded == old(self).ever_downloaded,
                self.mail_arrived == old(self).mail_arrived,
                self.hex_tool_installed == old(self).hex_tool_installed,
                self.mail_read == old(self).mail_read,
                self.sent_mail == old(self).sent_mail,
                self.trash_origin == old(self).trash_origin,
                self.mail_hextool_attachment == old(self).mail_hextool_attachment,
                self.photos_current == old(self).photos_current,
                strings_model(self.photos_seen@) == strings_model(old(self).photos_seen@)
                    + strings_model(current@.take(i as int)),
            decreases current.len() - i,
        {
            let ghost before = self.photos_seen@;
            self.photos_seen.push(current[i].clone());
            i = i + 1;
            proof {
                assert(current@.take(i as int) =~= current@.take(i - 1).push(current@[i - 1]));
                assert(strings_model(current@.take(i as int)) =~= strings_model(current@.take(i - 1)).push(current@[i - 1]@));
                assert(strings_model(self.photos_seen@) =~= strings_model(before).push(current@[i - 1]@));
                assert(strings_model(self.photos_seen@) =~= strings_model(old(self).photos_seen@)
                    + strings_model(current@.take(i as int)));
            }
        }
        self.photos_current = current;
        proof {
            assert(current@.take(current@.len() as int) =~= current@);
            assert(self@ =~= (FsModel {
                photos_current: strings_model(current@),
                photos_seen: old(self)@.photos_seen + strings_model(current@),
                ..old(self)@
            }));
        }
    }

    /// The file system of a new game: My Computer, Mail, the photo feed and the
    /// recycle bin on the desktop, and the installer that the welcome mail attaches.
    pub fn new() -> (fs: FileSystem)
        ensures
            fs@ == initial_model(),
    {
        let mut fs = FileSystem {
            nodes: Vec::new(),
            desktop: Vec::new(),
            downloads: Vec::new(),
            ever_downloaded: Vec::new(),
            mail_arrived: false,
            hex_tool_installed: false,
            mail_read: Vec::new(),
            sent_mail: Vec::new(),
            trash_origin: Vec::new(),
            mail_hextool_attachment: 0,
            photos_current: Vec::new(),
            photos_seen: Vec::new(),
        };
        let explorer = fs.add(MY_COMPUTER_NAME, FileKind::Explorer);
        let mail = fs.add("Mail", FileKind::Mail { attachment: None });
        let photos = fs.add(PHOTOS_APP_NAME, FileKind::PhotoGallery);
        let recycle_bin = fs.add(RECYCLE_BIN_NAME, FileKind::Folder { children: Vec::new() });
        fs.desktop = vec![recycle_bin, explorer, mail, photos];
        fs.mail_hextool_attachment = fs.add(HEXTOOL_SETUP_NAME, FileKind::Installer);
        proof {
            assert(fs@.nodes =~= initial_model().nodes);
            assert(fs@.desktop =~= initial_model().desktop);
            assert(fs@.sent_mail =~= Seq::<SentMailModel>::empty());
            assert(fs@.photos_current =~= Seq::<Seq<char>>::empty());
            assert(fs@.photos_seen =~= Seq::<Seq<char>>::empty());
        }
        fs
    }

    /// A file system made of the given parts (as restored from a save).
    pub fn from_parts(
        nodes: Vec<FileNode>,
        desktop: Vec<FileId>,
        downloads: Vec<FileId>,
        ever_downloaded: Vec<FileId>,
        mail_arrived: bool,
        hex_tool_installed: bool,
        mail_read: Vec<usize>,
        sent_mail: Vec<SentMail>,
        trash_origin: Vec<(FileId, FileOrigin)>,
        mail_hextool_attachment: FileId,
        photos_current: Vec<String>,
        photos_seen: Vec<String>,
    ) -> (fs: FileSystem)
        ensures
            fs@ == (FsModel {
                nodes: nodes@.map_values(|n: FileNode| n@),
                desktop: desktop@,
                downloads: downloads@,
                ever_downloaded: ever_downloaded@,
                mail_arrived,
                hex_tool_installed,
                mail_read: mail_read@,
                sent_mail: sent_mail@.map_values(|m: SentMail| m@),
                trash_origin: trash_origin@,
                mail_hextool_attachment,
                photos_current: strings_model(photos_current@),
                photos_seen: strings_model(photos_seen@),
            }),
    {
        FileSystem {
            nodes,
            desktop,
            downloads,
            ever_downloaded,
            mail_arrived,
            hex_tool_installed,
            mail_read,
            sent_mail,
            trash_origin,
            mail_hextool_attachment,
            photos_current,
            photos_seen,
        }
    }

    /// All nodes, in id order (for saving).
    pub fn nodes(&self) -> (r: &Vec<FileNode>)
        ensures
            r@.map_values(|n: FileNode| n@) == self@.nodes,
            forall|i: int| 0 <= i < r@.len() ==> r@[i] == self.node_at(i),
    {
        &self.nodes
    }

    /// Number of nodes.
    pub fn len(&self) -> (n: usize)
        ensures
            n == self@.nodes.len(),
    {
        self.nodes.len()
    }

    /// Adds a node and returns its id, which is the number of nodes before.
    pub fn add(&mut self, name: &str, kind: FileKind) -> (id: FileId)
        ensures
            id == old(self)@.nodes.len(),
            final(self)@ == old(self)@.with_node(NodeModel { name: name@, kind: kind@ }),
    {
        let ghost k = kind@;
        let node = FileNode { name: name.to_owned(), kind };
        self.nodes.push(node);
        proof {
            assert(self@.nodes =~= old(self)@.nodes.push(NodeModel { name: name@, kind: k }));
            assert(self@ =~= old(self)@.with_node(NodeModel { name: name@, kind: k }));
        }
        self.nodes.len() - 1
    }

    /// The node with id `id`.
    pub fn get(&self, id: FileId) -> (n: &FileNode)
        requires
            id < self@.nodes.len(),
        ensures
            n@ == self@.nodes[id as int],
            *n == self.node_at(id as int),
    {
        &self.nodes[id]
    }

    /// Whether `id` names a node of this file system.
    pub fn contains(&self, id: FileId) -> (r: bool)
        ensures
            r == (id < self@.nodes.len()),
    {
        id < self.nodes.len()
    }

    /// The first node named `name`.
    pub fn find_by_name(&self, name: &str) -> (r: Option<FileId>)
        ensures
            r == match self@.name_index(name@) {
                Some(i) => Some(i as FileId),
                None => None::<FileId>,
            },
    {
        let mut i: usize = 0;
        while i < self.nodes.len()
            invariant
                i <= self.nodes.len(),
                self@.nodes.len() == self.nodes.len(),
                forall|j: int| 0 <= j < i ==> !named(name@)(#[trigger] self@.nodes[j]),
            decreases self.nodes.len() - i,
        {
            assert(self@.nodes[i as int] == self.nodes@[i as int]@);
            if str_eq(self.nodes[i].name.as_str(), name) {
                proof {
                    lemma_first_match_at(self@.nodes, named(name@), i as int);
                }
                return Some(i);
            }
            i = i + 1;
        }
        proof {
            lemma_first_match(self@.nodes, named(name@));
        }
        None
    }

    /// The photo node of `filename` (an identifier under the photo directory): the
    /// existing one, or a new one named after the identifier's last path segment.
    pub fn find_or_add_photo(&mut self, filename: &str) -> (id: FileId)
        ensures
            (final(self)@, id) == old(self)@.with_photo(filename@),
    {
        let mut i: usize = 0;
        while i < self.nodes.len()
            invariant
                i <= self.nodes.len(),
                self@.nodes.len() == self.nodes.len(),
                forall|j: int| 0 <= j < i ==> !is_photo_of(filename@)(#[trigger] self@.nodes[j]),
            decreases self.nodes.len() - i,
        {
            assert(self@.nodes[i as int] == self.nodes@[i as int]@);
            let found = match &self.nodes[i].kind {
                FileKind::Photo(f) => str_eq(f.as_str(), filename),
                _ => false,
            };
            if found {
                proof {
                    lemma_first_match_at(self@.nodes, is_photo_of(filename@), i as int);
                }
                return i;
            }
            i = i + 1;
        }
        proof {
            lemma_first_match(self@.nodes, is_photo_of(filename@));
        }
        let display = after_last_slash(filename);
        self.add(display, FileKind::Photo(filename.to_owned()))
    }

    /// The ids of all nodes whose kind satisfies `pred`, in id order.
    pub fn all_of_kind<F: Fn(&FileKind) -> bool>(&self, pred: F) -> (r: Vec<FileId>)
        requires
            forall|k: &FileKind| #[trigger] pred.requires((k,)),
        ensures
            forall|a: int, b: int| 0 <= a < b < r@.len() ==> r@[a] < r@[b],
            forall|a: int| 0 <= a < r@.len() ==> r@[a] < self@.nodes.len(),
            forall|i: int|
                0 <= i < self@.nodes.len() ==> (r@.contains(i as FileId) ==> pred.ensures(
                    (&self.node_at(i).kind,),
                    true,
                )) && (!r@.contains(i as FileId) ==> pred.ensures(
                    (&self.node_at(i).kind,),
                    false,
                )),
    {
        let mut r: Vec<FileId> = Vec::new();
        let mut i: usize = 0;
        while i < self.nodes.len()
            invariant
                i <= self.nodes.len(),
                self@.nodes.len() == self.nodes.len(),
                forall|k: &FileKind| #[trigger] pred.requires((k,)),
                forall|a: int, b: int| 0 <= a < b < r@.len() ==> r@[a] < r@[b],
                forall|a: int| 0 <= a < r@.len() ==> r@[a] < i,
                forall|j: int|
                    0 <= j < i ==> (r@.contains(j as FileId) ==> pred.ensures(
                        (&self.node_at(j).kind,),
                        true,
                    )) && (!r@.contains(j as FileId) ==> pred.ensures(
                        (&self.node_at(j).kind,),
                        false,
                    )),
            decreases self.nodes.len() - i,
        {
            let b = pred(&self.nodes[i].kind);
            let ghost r0 = r@;
            if b {
                r.push(i);
            }
            proof {
                assert forall|j: int| 0 <= j < i + 1 implies (r@.contains(j as FileId)
                    ==> pred.ensures((&self.node_at(j).kind,), true)) && (!r@.contains(
                    j as FileId,
                ) ==> pred.ensures((&self.node_at(j).kind,), false)) by {
                    if j < i {
                        if r@.contains(j as FileId) && !r0.contains(j as FileId) {
                            let k = choose|k: int| 0 <= k < r@.len() && r@[k] == j as FileId;
                            assert(k == r0.len());
                        }
                        if r0.contains(j as FileId) {
                            let k = choose|k: int| 0 <= k < r0.len() && r0[k] == j as FileId;
                            assert(r@[k] == j as FileId);
                        }
                    } else {
                        if b {
                            assert(r@[r0.len() as int] == i);
                        } else {
                            if r@.contains(j as FileId) {
                                let k = choose|k: int| 0 <= k < r@.len() && r@[k] == j as FileId;
                                assert(r0[k] < i);
                            }
                        }
                    }
                }
            }
            i = i + 1;
        }
        r
    }

    /// Puts `id` in the Downloads tab and in the record of downloads, each only once.
    pub fn download(&mut self, id: FileId)
        ensures
            final(self)@ == old(self)@.downloaded(id),
    {
        push_if_absent(&mut self.downloads, id);
        push_if_absent(&mut self.ever_downloaded, id);
        proof {
            assert(self@ =~= old(self)@.downloaded(id));
        }
    }

    /// Turns the locked file `id` into a folder with the same children; its name
    /// loses its lock suffixes. Any other node stays as it is.
    pub fn unlock(&mut self, id: FileId)
        requires
            id < old(self)@.nodes.len(),
        ensures
            final(self)@ == old(self)@.unlocked(id),
    {
        let new_node = match &self.nodes[id].kind {
            FileKind::Lock { children, .. } => {
                let kids = copy_ids(children);
                let base = trim_lock_suffix(self.nodes[id].name.as_str());
                Some(FileNode { name: base, kind: FileKind::Folder { children: kids } })
            },
            _ => None,
        };
        if let Some(n) = new_node {
            let ghost nm = n@;
            self.nodes.set(id, n);
            proof {
                assert(self@.nodes =~= old(self)@.nodes.update(id as int, nm));
                assert(self@ =~= old(self)@.unlocked(id));
            }
        }
    }

    /// Deletes `id` for good: it leaves the downloads and every folder, and its node
    /// becomes a `Deleted` one. The File Explorer is never deleted. The desktop is
    /// left to the caller, which keeps icon positions beside it.
    pub fn delete_permanently(&mut self, id: FileId)
        requires
            id < old(self)@.nodes.len(),
        ensures
            final(self)@ == old(self)@.deleted(id),
    {
        if matches!(self.nodes[id].kind, FileKind::Explorer) {
            return;
        }
        self.detach_from_container(id);
        assert(self@.nodes.len() == self.nodes@.len());
        let n = FileNode { name: DELETED_NAME.to_owned(), kind: FileKind::Deleted };
        self.nodes.set(id, n);
        proof {
            let d = old(self)@.detached(id);
            assert(self@.nodes =~= d.nodes.update(
                id as int,
                NodeModel { name: DELETED_NAME@, kind: KindModel::Deleted },
            ));
            assert(self@ =~= old(self)@.deleted(id));
        }
    }

    /// Takes `id` out of the Downloads tab and out of every folder. The desktop is
    /// left to the caller, which keeps icon positions beside it.
    pub fn detach_from_container(&mut self, id: FileId)
        ensures
            final(self)@ == old(self)@.detached(id),
    {
        self.downloads = remove_all(&self.downloads, id);
        let mut i: usize = 0;
        while i < self.nodes.len()
            invariant
                i <= self.nodes.len(),
                self.nodes.len() == old(self).nodes.len(),
                self.downloads@ == without(old(self).downloads@, id),
                self.desktop == old(self).desktop,
                self.ever_downloaded == old(self).ever_downloaded,
                self.mail_arrived == old(self).mail_arrived,
                self.hex_tool_installed == old(self).hex_tool_installed,
                self.mail_read == old(self).mail_read,
                self.sent_mail == old(self).sent_mail,
                self.trash_origin == old(self).trash_origin,
                self.mail_hextool_attachment == old(self).mail_hextool_attachment,
                self.photos_current == old(self).photos_current,
                self.photos_seen == old(self).photos_seen,
                forall|j: int|
                    0 <= j < i ==> (#[trigger] self.nodes@[j])@ == node_detached(
                        old(self).nodes@[j]@,
                        id,
                    ),
                forall|j: int| i <= j < self.nodes.len() ==> self.nodes@[j] == old(self).nodes@[j],
            decreases self.nodes.len() - i,
        {
            let replacement = match &self.nodes[i].kind {
                FileKind::Folder { children } => {
                    let kids = remove_all(children, id);
                    let name = self.nodes[i].name.clone();
                    Some(FileNode { name, kind: FileKind::Folder { children: kids } })
                },
                _ => None,
            };
            if let Some(n) = replacement {
                self.nodes.set(i, n);
            }
            i = i + 1;
        }
        proof {
            assert(self@.nodes =~= old(self)@.nodes.map_values(
                |n: NodeModel| node_detached(n, id),
            ));
            assert(self@ =~= old(self)@.detached(id));
        }
    }

    /// Puts `id` into the folder `folder_id` unless it is there already; nothing
    /// happens when `folder_id` is not a folder.
    pub fn add_to_folder(&mut self, folder_id: FileId, id: FileId)
        requires
            folder_id < old(self)@.nodes.len(),
        ensures
            final(self)@ == old(self)@.added_to_folder(folder_id, id),
    {
        let replacement = match &self.nodes[folder_id].kind {
            FileKind::Folder { children } => {
                if vec_contains(children, id) {
                    None
                } else {
                    let mut kids = copy_ids(children);
                    kids.push(id);
                    let name = self.nodes[folder_id].name.clone();
                    Some(FileNode { name, kind: FileKind::Folder { children: kids } })
                }
            },
            _ => None,
        };
        if let Some(n) = replacement {
            let ghost nm = n@;
            self.nodes.set(folder_id, n);
            proof {
                assert(self@.nodes =~= old(self)@.nodes.update(folder_id as int, nm));
                assert(self@ =~= old(self)@.added_to_folder(folder_id, id));
            }
        }
    }

    /// Where `id` is now: on the desktop, in the downloads, or in a folder (the
    /// first that holds it); `None` when in none of them.
    pub fn locate(&self, id: FileId) -> (r: Option<FileOrigin>)
        ensures
            r == self@.location(id),
    {
        if vec_contains(&self.desktop, id) {
            return Some(FileOrigin::Desktop);
        }
        if vec_contains(&self.downloads, id) {
            return Some(FileOrigin::Downloads);
        }
        let mut i: usize = 0;
        while i < self.nodes.len()
            invariant
                !self@.desktop.contains(id),
                !self@.downloads.contains(id),
                i <= self.nodes.len(),
                self@.nodes.len() == self.nodes.len(),
                forall|j: int| 0 <= j < i ==> !holds(id)(#[trigger] self@.nodes[j]),
            decreases self.nodes.len() - i,
        {
            assert(self@.nodes[i as int] == self.nodes@[i as int]@);
            let has_it = match &self.nodes[i].kind {
                FileKind::Folder { children } => vec_contains(children, id),
                _ => false,
            };
            if has_it {
                proof {
                    lemma_first_match_at(self@.nodes, holds(id), i as int);
                }
                return Some(FileOrigin::Folder(i));
            }
            i = i + 1;
        }
        proof {
            lemma_first_match(self@.nodes, holds(id));
        }
        None
    }

    /// Whether `id` is in the recycle bin (a folder named exactly "Recycle Bin").
    pub fn in_recycle_bin(&self, id: FileId) -> (r: bool)
        ensures
            r == self@.in_recycle_bin(id),
    {
        let mut i: usize = 0;
        while i < self.nodes.len()
            invariant
                i <= self.nodes.len(),
                self@.nodes.len() == self.nodes.len(),
                forall|j: int|
                    0 <= j < i ==> !(#[trigger] self@.nodes[j].name == RECYCLE_BIN_NAME@
                        && folder_holds(self@.nodes[j], id)),
            decreases self.nodes.len() - i,
        {
            assert(self@.nodes[i as int] == self.nodes@[i as int]@);
            let hit = match &self.nodes[i].kind {
                FileKind::Folder { children } => str_eq(
                    self.nodes[i].name.as_str(),
                    RECYCLE_BIN_NAME,
                ) && vec_contains(children, id),
                _ => false,
            };
            if hit {
                assert(self@.nodes[i as int].name == RECYCLE_BIN_NAME@);
                return true;
            }
            i = i + 1;
        }
        false
    }
}

/// `name` with the lock suffix taken off its end as many times as it ends with it.
fn trim_lock_suffix(name: &str) -> (r: String)
    ensures
        r@ == trim_suffix_all(name@, LOCK_SUFFIX@),
{
    proof {
        reveal_strlit(".lock");
    }
    let n = name.unicode_len();
    let mut end: usize = n;
    assert(name@.subrange(0, n as int) =~= name@);
    while str_ends_with(name.substring_char(0, end), LOCK_SUFFIX)
        invariant
            end <= n,
            n == name@.len(),
            LOCK_SUFFIX@.len() == 5,
            trim_suffix_all(name@.subrange(0, end as int), LOCK_SUFFIX@) == trim_suffix_all(
                name@,
                LOCK_SUFFIX@,
            ),
        decreases end,
    {
        let ghost cur = name@.subrange(0, end as int);
        assert(ends_with(cur, LOCK_SUFFIX@));
        end = end - 5;
        assert(cur.subrange(0, cur.len() - 5) =~= name@.subrange(0, end as int));
    }
    proof {
        assert(name@.subrange(0, n as int) =~= name@);
    }
    name.substring_char(0, end).to_owned()
}

} // verus!

verus! {

/// The name shown for the fixed File Explorer category `name` (the category keys
/// stay in English inside the program).
pub open spec fn category_label_text(lang: Language, name: Seq<char>) -> Seq<char> {
    if name == "Downloads"@ {
        label_text(lang, Label::Downloads)
    } else if name == "Desktop"@ {
        label_text(lang, Label::Desktop)
    } else if name == "Videos"@ {
        label_text(lang, Label::Videos)
    } else if name == "Images"@ {
        label_text(lang, Label::Images)
    } else {
        name
    }
}

/// The name shown for the node named `name`: the system entries are translated,
/// any other name is shown as it is.
pub open spec fn display_name_text(lang: Language, name: Seq<char>) -> Seq<char> {
    if name == MY_COMPUTER_NAME@ {
        label_text(lang, Label::MyComputer)
    } else if name == RECYCLE_BIN_NAME@ {
        label_text(lang, Label::RecycleBin)
    } else if name == "Mail"@ {
        label_text(lang, Label::Mail)
    } else if name == DELETED_NAME@ {
        label_text(lang, Label::Deleted)
    } else {
        name
    }
}

/// The label of a fixed File Explorer category in `lang`.
pub fn category_label<'a>(lang: Language, name: &'a str) -> (r: &'a str)
    ensures
        r@ == category_label_text(lang, name@),
{
    if str_eq(name, "Downloads") {
        t(lang, Label::Downloads)
    } else if str_eq(name, "Desktop") {
        t(lang, Label::Desktop)
    } else if str_eq(name, "Videos") {
        t(lang, Label::Videos)
    } else if str_eq(name, "Images") {
        t(lang, Label::Images)
    } else {
        name
    }
}

/// The name shown for a node in `lang`.
pub fn display_name<'a>(lang: Language, name: &'a str) -> (r: &'a str)
    ensures
        r@ == display_name_text(lang, name@),
{
    if str_eq(name, MY_COMPUTER_NAME) {
        t(lang, Label::MyComputer)
    } else if str_eq(name, RECYCLE_BIN_NAME) {
        t(lang, Label::RecycleBin)
    } else if str_eq(name, "Mail") {
        t(lang, Label::Mail)
    } else if str_eq(name, DELETED_NAME) {
        t(lang, Label::Deleted)
    } else {
        name
    }
}

} // verus!

verus! {

/// A node that was just added is read back unchanged, and every other node stays.
pub proof fn law_add_then_get(m: FsModel, n: NodeModel)
    ensures
        m.with_node(n).nodes[m.nodes.len() as int] == n,
        m.with_node(n).nodes.len() == m.nodes.len() + 1,
        forall|i: int| 0 <= i < m.nodes.len() ==> m.with_node(n).nodes[i] == m.nodes[i],
{
}

/// Downloading a file twice is the same as downloading it once.
pub proof fn law_download_idempotent(m: FsModel, id: FileId)
    ensures
        m.downloaded(id).downloaded(id) == m.downloaded(id),
{
    assert(m.downloaded(id).downloads.contains(id)) by {
        if !m.downloads.contains(id) {
            assert(m.downloads.push(id)[m.downloads.len() as int] == id);
        }
    }
    assert(m.downloaded(id).ever_downloaded.contains(id)) by {
        if !m.ever_downloaded.contains(id) {
            assert(m.ever_downloaded.push(id)[m.ever_downloaded.len() as int] == id);
        }
    }
}

/// After a download the file is in the Downloads tab, and a Downloads list with no
/// file twice keeps none twice.
pub proof fn law_download_lists_once(m: FsModel, id: FileId)
    ensures
        m.downloaded(id).downloads.contains(id),
        m.downloaded(id).ever_downloaded.contains(id),
        no_duplicates(m.downloads) ==> no_duplicates(m.downloaded(id).downloads),
{
    if !m.downloads.contains(id) {
        assert(m.downloads.push(id)[m.downloads.len() as int] == id);
        if no_duplicates(m.downloads) {
            let d = m.downloads.push(id);
            assert forall|i: int, j: int|
                0 <= i < d.len() && 0 <= j < d.len() && i != j implies d[i] != d[j] by {
                if i == m.downloads.len() && j < m.downloads.len() {
                    assert(d[j] == m.downloads[j]);
                } else if j == m.downloads.len() && i < m.downloads.len() {
                    assert(d[i] == m.downloads[i]);
                }
            }
        }
    }
    if !m.ever_downloaded.contains(id) {
        assert(m.ever_downloaded.push(id)[m.ever_downloaded.len() as int] == id);
    }
}

/// After a file is detached, no folder and not the Downloads tab hold it: it is
/// found on the desktop or nowhere, and it is not in the recycle bin.
pub proof fn law_detach_removes(m: FsModel, id: FileId)
    ensures
        m.detached(id).location(id) == if m.desktop.contains(id) {
            Some(FileOrigin::Desktop)
        } else {
            None
        },
        !m.detached(id).in_recycle_bin(id),
        m.detached(id).desktop == m.desktop,
{
    let d = m.detached(id);
    crate::ids::lemma_without_contains(m.downloads, id, id);
    assert forall|i: int| 0 <= i < d.nodes.len() implies !(#[trigger] holds(id)(d.nodes[i])) by {
        assert(d.nodes[i] == node_detached(m.nodes[i], id));
        if let KindModel::Folder { children } = m.nodes[i].kind {
            crate::ids::lemma_without_contains(children, id, id);
        }
    }
    lemma_first_match(d.nodes, holds(id));
}

/// Detaching a file a second time changes nothing.
pub proof fn law_detach_idempotent(m: FsModel, id: FileId)
    ensures
        m.detached(id).detached(id) == m.detached(id),
{
    let d = m.detached(id);
    crate::ids::lemma_without_contains(m.downloads, id, id);
    crate::ids::lemma_without_absent(d.downloads, id);
    assert forall|i: int| 0 <= i < d.nodes.len() implies #[trigger] node_detached(d.nodes[i], id)
        == d.nodes[i] by {
        if let KindModel::Folder { children } = m.nodes[i].kind {
            crate::ids::lemma_without_contains(children, id, id);
            crate::ids::lemma_without_absent(without(children, id), id);
        }
    }
    assert(d.detached(id).nodes =~= d.nodes);
    assert(d.detached(id) =~= d);
}

/// The File Explorer is never deleted; any other file becomes a `Deleted` node
/// that the Downloads tab and the folders no longer hold.
pub proof fn law_delete_permanently(m: FsModel, id: FileId)
    requires
        id < m.nodes.len(),
    ensures
        m.nodes[id as int].kind is Explorer ==> m.deleted(id) == m,
        !(m.nodes[id as int].kind is Explorer) ==> {
            &&& m.deleted(id).nodes[id as int].kind is Deleted
            &&& m.deleted(id).nodes[id as int].name == DELETED_NAME@
            &&& !m.deleted(id).downloads.contains(id)
            &&& !m.deleted(id).in_recycle_bin(id)
            &&& m.deleted(id).nodes.len() == m.nodes.len()
        },
{
    if !(m.nodes[id as int].kind is Explorer) {
        law_detach_removes(m, id);
        crate::ids::lemma_without_contains(m.downloads, id, id);
        let d = m.detached(id);
        let e = m.deleted(id);
        if e.in_recycle_bin(id) {
            let i = choose|i: int|
                0 <= i < e.nodes.len() && #[trigger] e.nodes[i].name == RECYCLE_BIN_NAME@
                    && folder_holds(e.nodes[i], id);
            if i != id {
                assert(e.nodes[i] == d.nodes[i]);
            }
        }
    }
}

/// Asking twice for the photo node of the same identifier gives the same id, and
/// the second call changes nothing; the node is that photo.
pub proof fn law_find_or_add_photo_idempotent(m: FsModel, filename: Seq<char>)
    requires
        m.nodes.len() < usize::MAX,
    ensures
        ({
            let (m1, id1) = m.with_photo(filename);
            let (m2, id2) = m1.with_photo(filename);
            &&& m2 == m1
            &&& id2 == id1
            &&& id1 < m1.nodes.len()
            &&& m1.nodes[id1 as int].kind == KindModel::Photo(filename)
        }),
{
    lemma_first_match(m.nodes, is_photo_of(filename));
    let (m1, id1) = m.with_photo(filename);
    match m.photo_index(filename) {
        Some(i) => {},
        None => {
            assert(is_photo_of(filename)(m1.nodes[m.nodes.len() as int]));
            assert forall|j: int| 0 <= j < m.nodes.len() implies !is_photo_of(filename)(
                #[trigger] m1.nodes[j],
            ) by {
                assert(m1.nodes[j] == m.nodes[j]);
            }
            lemma_first_match_at(m1.nodes, is_photo_of(filename), m.nodes.len() as int);
        },
    }
}

/// Putting a file into a folder twice is the same as once, and the folder then
/// holds it, so the file is located somewhere.
pub proof fn law_add_to_folder(m: FsModel, folder_id: FileId, id: FileId)
    requires
        folder_id < m.nodes.len(),
        m.nodes[folder_id as int].kind is Folder,
    ensures
        m.added_to_folder(folder_id, id).added_to_folder(folder_id, id) == m.added_to_folder(
            folder_id,
            id,
        ),
        folder_holds(m.added_to_folder(folder_id, id).nodes[folder_id as int], id),
        m.added_to_folder(folder_id, id).location(id) is Some,
{
    let a = m.added_to_folder(folder_id, id);
    if let KindModel::Folder { children } = m.nodes[folder_id as int].kind {
        if !children.contains(id) {
            assert(children.push(id)[children.len() as int] == id);
        }
    }
    assert(holds(id)(a.nodes[folder_id as int]));
    lemma_first_match(a.nodes, holds(id));
}

/// Putting a file into a folder keeps everything the folder held and adds the
/// file, at most one entry more; a target that is not a folder is left alone.
pub proof fn law_add_to_folder_keeps_children(m: FsModel, folder_id: FileId, id: FileId)
    requires
        folder_id < m.nodes.len(),
    ensures
        m.nodes[folder_id as int].kind matches KindModel::Folder { children: old_children } ==> (
        m.added_to_folder(folder_id, id).nodes[folder_id as int].kind matches KindModel::Folder {
            children: new_children,
        } && new_children.contains(id) && (forall|x: FileId| old_children.contains(x) ==> new_children.contains(x))
            && (forall|x: FileId| new_children.contains(x) ==> old_children.contains(x) || x == id)
            && new_children.len() <= old_children.len() + 1),
        !(m.nodes[folder_id as int].kind is Folder) ==> m.added_to_folder(folder_id, id) == m,
        m.added_to_folder(folder_id, id).nodes.len() == m.nodes.len(),
        forall|k: int| 0 <= k < m.nodes.len() && k != folder_id ==> m.added_to_folder(folder_id, id).nodes[k]
            == m.nodes[k],
{
    if let KindModel::Folder { children } = m.nodes[folder_id as int].kind {
        if !children.contains(id) {
            let c2 = children.push(id);
            assert(c2[children.len() as int] == id);
            assert forall|x: FileId| children.contains(x) implies c2.contains(x) by {
                let k = choose|k: int| 0 <= k < children.len() && children[k] == x;
                assert(c2[k] == x);
            }
            assert forall|x: FileId| c2.contains(x) implies children.contains(x) || x == id by {
                let k = choose|k: int| 0 <= k < c2.len() && c2[k] == x;
                if k < children.len() {
                    assert(children[k] == x);
                }
            }
        }
    }
}

/// Unlocking turns a locked file into a folder with the same children; unlocking
/// again changes nothing.
pub proof fn law_unlock(m: FsModel, id: FileId)
    requires
        id < m.nodes.len(),
    ensures
        m.unlocked(id).unlocked(id) == m.unlocked(id),
        m.nodes[id as int].kind is Lock ==> m.unlocked(id).nodes[id as int].kind == (KindModel::Folder {
            children: m.nodes[id as int].kind->Lock_children,
        }),
{
}

/// A file located in a folder is held by that folder, and no folder before it
/// holds the file.
pub proof fn law_locate_folder(m: FsModel, id: FileId)
    requires
        m.nodes.len() <= usize::MAX,
    ensures
        m.location(id) matches Some(FileOrigin::Folder(i)) ==> {
            &&& i < m.nodes.len()
            &&& folder_holds(m.nodes[i as int], id)
            &&& !m.desktop.contains(id)
            &&& !m.downloads.contains(id)
            &&& forall|j: int| 0 <= j < i ==> !folder_holds(m.nodes[j], id)
        },
        m.location(id) is None ==> !m.in_recycle_bin(id),
{
    lemma_first_match(m.nodes, holds(id));
    if m.location(id) is None && m.in_recycle_bin(id) {
        let i = choose|i: int|
            0 <= i < m.nodes.len() && #[trigger] m.nodes[i].name == RECYCLE_BIN_NAME@
                && folder_holds(m.nodes[i], id);
        assert(holds(id)(m.nodes[i]));
    }
}

} // verus!
