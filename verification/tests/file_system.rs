use crackhead::foundation::{
    category_label, display_name, FileKind, FileNode, FileOrigin, FileSystem, Language, HEXTOOL_SETUP_NAME,
    MY_COMPUTER_NAME, PHOTOS_APP_NAME, RECYCLE_BIN_NAME,
};
use crackhead::icons::{icon_of, IconType};

fn names(fs: &FileSystem) -> Vec<String> {
    fs.nodes().iter().map(|n| n.name.clone()).collect()
}

#[test]
fn new_game_layout() {
    let fs = FileSystem::new();
    assert_eq!(fs.len(), 5);
    assert_eq!(
        names(&fs),
        vec![
            MY_COMPUTER_NAME.to_string(),
            "Mail".to_string(),
            PHOTOS_APP_NAME.to_string(),
            RECYCLE_BIN_NAME.to_string(),
            HEXTOOL_SETUP_NAME.to_string()
        ]
    );
    assert_eq!(fs.desktop_ids(), &vec![3, 0, 1, 2]);
    assert!(fs.download_ids().is_empty());
    assert_eq!(fs.hextool_attachment(), 4);
    assert!(!fs.has_mail_arrived());
    assert!(!fs.is_hex_tool_installed());
    assert!(matches!(fs.get(0).kind, FileKind::Explorer));
    assert!(matches!(fs.get(4).kind, FileKind::Installer));
}

#[test]
fn add_then_get_returns_node() {
    let mut fs = FileSystem::new();
    let id = fs.add("notes.txt", FileKind::Txt("hello".to_string()));
    assert_eq!(id, 5);
    assert_eq!(fs.get(id).name, "notes.txt");
    assert_eq!(fs.get(id).kind, FileKind::Txt("hello".to_string()));
    assert!(fs.contains(id));
    assert!(!fs.contains(id + 1));
    assert_eq!(fs.get(0).name, MY_COMPUTER_NAME);
}

#[test]
fn find_by_name_first_match() {
    let mut fs = FileSystem::new();
    let a = fs.add("a.txt", FileKind::Txt(String::new()));
    fs.add("a.txt", FileKind::Mp4);
    assert_eq!(fs.find_by_name("a.txt"), Some(a));
    assert_eq!(fs.find_by_name("Mail"), Some(1));
    assert_eq!(fs.find_by_name("missing"), None);
}

#[test]
fn download_is_idempotent() {
    let mut fs = FileSystem::new();
    let id = fs.add("clip.mp4", FileKind::Mp4);
    fs.download(id);
    fs.download(id);
    assert_eq!(fs.download_ids(), &vec![id]);
    assert_eq!(fs.ever_downloaded, vec![id]);
}

#[test]
fn unlock_turns_lock_into_folder() {
    let mut fs = FileSystem::new();
    let inner = fs.add("inner.txt", FileKind::Txt("x".to_string()));
    let locked = fs.add("Secret.lock", FileKind::Lock { password: "pw".to_string(), children: vec![inner] });
    fs.unlock(locked);
    assert_eq!(fs.get(locked).name, "Secret");
    assert_eq!(fs.get(locked).kind, FileKind::Folder { children: vec![inner] });
    // unlocking something that is not locked changes nothing
    fs.unlock(inner);
    assert_eq!(fs.get(inner).kind, FileKind::Txt("x".to_string()));
}

#[test]
fn unlock_drops_every_lock_suffix() {
    let mut fs = FileSystem::new();
    let locked = fs.add("Box.lock.lock", FileKind::Lock { password: "p".to_string(), children: vec![] });
    fs.unlock(locked);
    assert_eq!(fs.get(locked).name, "Box");
}

#[test]
fn detach_removes_from_downloads_and_folders() {
    let mut fs = FileSystem::new();
    let f = fs.add("f.txt", FileKind::Txt(String::new()));
    let folder = fs.add("Folder", FileKind::Folder { children: vec![f] });
    fs.download(f);
    fs.detach_from_container(f);
    assert!(fs.download_ids().is_empty());
    assert_eq!(fs.get(folder).kind, FileKind::Folder { children: vec![] });
    // the record of downloads stays
    assert_eq!(fs.ever_downloaded, vec![f]);
    // again: nothing changes
    fs.detach_from_container(f);
    assert_eq!(fs.get(folder).kind, FileKind::Folder { children: vec![] });
}

#[test]
fn delete_permanently_leaves_deleted_node() {
    let mut fs = FileSystem::new();
    let f = fs.add("f.txt", FileKind::Txt(String::new()));
    fs.add_to_folder(3, f);
    assert!(fs.in_recycle_bin(f));
    fs.delete_permanently(f);
    assert_eq!(fs.get(f).kind, FileKind::Deleted);
    assert_eq!(fs.get(f).name, "(deleted)");
    assert!(!fs.in_recycle_bin(f));
    assert_eq!(fs.get(3).kind, FileKind::Folder { children: vec![] });
}

#[test]
fn delete_permanently_keeps_explorer() {
    let mut fs = FileSystem::new();
    fs.delete_permanently(0);
    assert!(matches!(fs.get(0).kind, FileKind::Explorer));
    assert_eq!(fs.get(0).name, MY_COMPUTER_NAME);
}

#[test]
fn add_to_folder_once() {
    let mut fs = FileSystem::new();
    let f = fs.add("f.txt", FileKind::Txt(String::new()));
    let folder = fs.add("Docs", FileKind::Folder { children: vec![] });
    fs.add_to_folder(folder, f);
    fs.add_to_folder(folder, f);
    assert_eq!(fs.get(folder).kind, FileKind::Folder { children: vec![f] });
    // a target that is not a folder is left alone
    let txt = fs.add("g.txt", FileKind::Txt(String::new()));
    fs.add_to_folder(txt, f);
    assert_eq!(fs.get(txt).kind, FileKind::Txt(String::new()));
}

#[test]
fn locate_order_desktop_downloads_folder() {
    let mut fs = FileSystem::new();
    assert_eq!(fs.locate(1), Some(FileOrigin::Desktop));
    let f = fs.add("f.txt", FileKind::Txt(String::new()));
    assert_eq!(fs.locate(f), None);
    let folder = fs.add("Docs", FileKind::Folder { children: vec![f] });
    assert_eq!(fs.locate(f), Some(FileOrigin::Folder(folder)));
    fs.download(f);
    assert_eq!(fs.locate(f), Some(FileOrigin::Downloads));
}

#[test]
fn find_or_add_photo_reuses_node() {
    let mut fs = FileSystem::new();
    let a = fs.find_or_add_photo("corpseImage/corpseImage1.jpg");
    let b = fs.find_or_add_photo("corpseImage/corpseImage1.jpg");
    assert_eq!(a, b);
    assert_eq!(fs.len(), 6);
    assert_eq!(fs.get(a).name, "corpseImage1.jpg");
    assert_eq!(fs.get(a).kind, FileKind::Photo("corpseImage/corpseImage1.jpg".to_string()));
    let c = fs.find_or_add_photo("top.png");
    assert_eq!(c, 6);
    assert_eq!(fs.get(c).name, "top.png");
}

#[test]
fn all_of_kind_by_increasing_id() {
    let mut fs = FileSystem::new();
    let v1 = fs.add("a.mp4", FileKind::Mp4);
    fs.add("b.txt", FileKind::Txt(String::new()));
    let v2 = fs.add("c.mp4", FileKind::Mp4);
    assert_eq!(fs.all_of_kind(|k| matches!(k, FileKind::Mp4)), vec![v1, v2]);
    assert!(fs.all_of_kind(|k| matches!(k, FileKind::Tar)).is_empty());
}

#[test]
fn in_recycle_bin_only_for_bin_children() {
    let mut fs = FileSystem::new();
    let f = fs.add("f.txt", FileKind::Txt(String::new()));
    let other = fs.add("Other", FileKind::Folder { children: vec![f] });
    assert!(!fs.in_recycle_bin(f));
    fs.add_to_folder(3, f);
    assert!(fs.in_recycle_bin(f));
    assert!(!fs.in_recycle_bin(other));
}

#[test]
fn display_names_by_language() {
    assert_eq!(display_name(Language::En, MY_COMPUTER_NAME), "My Computer");
    assert_eq!(display_name(Language::Ko, RECYCLE_BIN_NAME), "휴지통");
    assert_eq!(display_name(Language::Ja, "Mail"), "メール");
    assert_eq!(display_name(Language::Ko, "Photos.tar"), "Photos.tar");
    assert_eq!(category_label(Language::Ko, "Downloads"), "다운로드");
    assert_eq!(category_label(Language::Ja, "Videos"), "ビデオ");
    assert_eq!(category_label(Language::En, "Other"), "Other");
}

#[test]
fn icons_by_kind() {
    let fs = FileSystem::new();
    assert_eq!(icon_of(fs.get(0)), IconType::Computer);
    assert_eq!(icon_of(fs.get(1)), IconType::Mail);
    assert_eq!(icon_of(fs.get(2)), IconType::Photos);
    assert_eq!(icon_of(fs.get(3)), IconType::RecycleEmpty);
    assert_eq!(icon_of(fs.get(4)), IconType::Installer);
    let full = FileNode { name: RECYCLE_BIN_NAME.to_string(), kind: FileKind::Folder { children: vec![7] } };
    assert_eq!(icon_of(&full), IconType::RecycleFull);
    let folder = FileNode { name: "Docs".to_string(), kind: FileKind::Folder { children: vec![] } };
    assert_eq!(icon_of(&folder), IconType::Folder);
    let photo = FileNode { name: "p.jpg".to_string(), kind: FileKind::Photo("p.jpg".to_string()) };
    assert_eq!(icon_of(&photo), IconType::Image);
}
