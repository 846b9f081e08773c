use crackhead::explorer::{
    drop_move, drop_move_on_release, explorer_app_for_folder, list_order, explorer_app_refreshed, tree_expandable, ExplorerLocation, ExplorerApp,
    MoveDest,
};
use crackhead::foundation::{FileKind, FileSystem, Language, SentMail, RECYCLE_BIN_NAME};
use crackhead::icons::IconType;
use crackhead::launch::{open, AppLaunch, WindowSpec};
use crackhead::listing::{explorer_tabs, folder_items, hextool_review_files, mail_attachable_files, Item};

fn ids(items: &[Item]) -> Vec<usize> {
    items.iter().map(|i| i.0).collect()
}

#[test]
fn folder_items_keep_order() {
    let fs = FileSystem::new();
    let items = folder_items(&fs, &vec![2, 0]);
    assert_eq!(items.len(), 2);
    assert_eq!(items[0], (2, fs.get(2).name.clone(), IconType::Photos));
    assert_eq!(items[1], (0, "My Computer".to_string(), IconType::Computer));
}

#[test]
fn attachable_files_skip_folders_and_apps() {
    let mut fs = FileSystem::new();
    let clip = fs.add("clip.mp4", FileKind::Mp4);
    let docs = fs.add("Docs", FileKind::Folder { children: vec![] });
    fs.desktop.push(clip);
    fs.desktop.push(docs);
    fs.download(clip);
    let items = mail_attachable_files(&fs);
    // desktop: recycle bin, explorer, mail (skipped), photo feed, clip, docs (skipped)
    assert_eq!(ids(&items), vec![2, clip]);
}

#[test]
fn review_files_outside_bin() {
    let mut fs = FileSystem::new();
    let a = fs.add("a.mp4", FileKind::Mp4);
    let b = fs.find_or_add_photo("hintImage/h1.jpg");
    let c = fs.add("c.mp4", FileKind::Mp4);
    fs.add_to_folder(3, c);
    let r = hextool_review_files(&fs);
    assert_eq!(r.len(), 2);
    assert_eq!(r[0], (a, "a.mp4".to_string(), IconType::Video, None));
    assert_eq!(r[1], (b, "h1.jpg".to_string(), IconType::Image, Some("hintImage/h1.jpg".to_string())));
}

#[test]
fn category_tabs_of_explorer() {
    let mut fs = FileSystem::new();
    let v = fs.add("v.mp4", FileKind::Mp4);
    let i = fs.add("i.png", FileKind::Img(0));
    fs.download(v);
    let tabs = explorer_tabs(&fs, 0);
    let names: Vec<&str> = tabs.iter().map(|t| t.0.as_str()).collect();
    assert_eq!(names, vec!["Downloads", "Desktop", "Videos", "Images"]);
    assert_eq!(ids(&tabs[0].1), vec![v]);
    // the window itself is left out of the desktop tab
    assert_eq!(ids(&tabs[1].1), vec![3, 1, 2]);
    assert_eq!(ids(&tabs[2].1), vec![v]);
    assert_eq!(ids(&tabs[3].1), vec![i]);
    assert!(tabs.iter().all(|t| t.2.is_none() && t.3.is_none()));
}

#[test]
fn folder_opens_inside_its_category() {
    let mut fs = FileSystem::new();
    let inner = fs.add("inner.txt", FileKind::Txt(String::new()));
    let folder = fs.add("Docs", FileKind::Folder { children: vec![inner] });
    fs.download(folder);
    let nav = explorer_app_for_folder(&fs, 0, folder);
    let tabs = nav.tabs();
    assert_eq!(tabs.len(), 5);
    assert_eq!(nav.active(), 1);
    assert_eq!(tabs[1].0, "Docs");
    assert_eq!(tabs[1].2, Some("Downloads".to_string()));
    assert_eq!(tabs[1].3, Some(folder));
    assert_eq!(ids(&tabs[1].1), vec![inner]);
    assert_eq!(nav.current_location(), Some(ExplorerLocation::Folder(folder)));
    assert_eq!(nav.drop_destination(1), Some(MoveDest::Folder(folder)));
    assert_eq!(nav.drop_destination(0), Some(MoveDest::Downloads));
    assert_eq!(nav.drop_destination(3), None);
}

#[test]
fn refresh_returns_to_category() {
    let fs = FileSystem::new();
    let nav = explorer_app_refreshed(&fs, 0, Some(ExplorerLocation::Category("Videos".to_string())));
    assert_eq!(nav.active(), 2);
    assert_eq!(nav.current_location(), Some(ExplorerLocation::Category("Videos".to_string())));
    let nav2 = explorer_app_refreshed(&fs, 0, Some(ExplorerLocation::Category("Nowhere".to_string())));
    assert_eq!(nav2.active(), 0);
    let nav3 = explorer_app_refreshed(&fs, 0, None);
    assert_eq!(nav3.active(), 0);
    assert_eq!(nav3.drop_destination(1), Some(MoveDest::Desktop));
}

#[test]
fn collapse_removes_nested_tabs() {
    let mut fs = FileSystem::new();
    let sub = fs.add("Sub", FileKind::Folder { children: vec![] });
    let folder = fs.add("Docs", FileKind::Folder { children: vec![sub] });
    fs.download(folder);
    let base = explorer_tabs(&fs, 0);
    let mut tabs = base.clone();
    tabs.insert(1, ("Docs".to_string(), folder_items(&fs, &vec![sub]), Some("Downloads".to_string()), Some(folder)));
    tabs.insert(2, ("Sub".to_string(), vec![], Some("Docs".to_string()), Some(sub)));
    let mut nav = ExplorerApp::from_tabs(tabs, 2, "My Computer".to_string());
    assert!(nav.is_expanded("Docs"));
    assert_eq!(nav.next_unexpanded_child(1), None);
    assert!(nav.has_expandable_children(1));
    nav.collapse("Downloads");
    let names: Vec<String> = nav.tabs().iter().map(|t| t.0.clone()).collect();
    assert_eq!(names, vec!["Downloads", "Desktop", "Videos", "Images"]);
    assert_eq!(nav.active(), 0);
    // collapsing again changes nothing
    nav.collapse("Downloads");
    assert_eq!(nav.tabs().len(), 4);
    assert_eq!(nav.next_unexpanded_child(0), Some(folder));
}

#[test]
fn tree_expands_plain_folders_only() {
    assert!(tree_expandable(&IconType::Folder));
    assert!(!tree_expandable(&IconType::RecycleFull));
    assert!(!tree_expandable(&IconType::Text));
}

#[test]
fn drop_targets() {
    let items: Vec<Item> = vec![(7, "a".to_string(), IconType::Text), (9, "b".to_string(), IconType::Video)];
    assert_eq!(drop_move(Some(MoveDest::Downloads), false, &items, &vec![1, 5, 0]), Some((vec![9, 7], MoveDest::Downloads)));
    assert_eq!(drop_move(None, true, &items, &vec![0]), Some((vec![7], MoveDest::Desktop)));
    assert_eq!(drop_move(None, false, &items, &vec![0]), None);
    assert_eq!(drop_move(Some(MoveDest::Folder(3)), false, &items, &vec![4]), None);
}

#[test]
fn open_text_file() {
    let mut fs = FileSystem::new();
    let id = fs.add("note.txt", FileKind::Txt("hello".to_string()));
    let plan = open(&fs, id, Language::En);
    assert_eq!(plan.title, "note.txt");
    assert!(matches!(plan.app, AppLaunch::Notepad { ref text } if text == "hello"));
    assert_eq!(
        plan.window,
        WindowSpec {
            width: 320,
            height: 240,
            maximized: false,
            resizable: true,
            maximizable: true,
            movable: true,
            min_width: 150,
            min_height: 90
        }
    );
}

#[test]
fn open_recycle_bin_translated() {
    let mut fs = FileSystem::new();
    let f = fs.add("x.mp4", FileKind::Mp4);
    fs.add_to_folder(3, f);
    let plan = open(&fs, 3, Language::Ko);
    assert_eq!(plan.title, "휴지통");
    match plan.app {
        AppLaunch::RecycleBin { items } => assert_eq!(items, vec![(f, "x.mp4".to_string(), IconType::Video)]),
        _ => panic!("the recycle bin opens in its own window"),
    }
    assert_eq!((plan.window.width, plan.window.height, plan.window.min_width, plan.window.min_height), (400, 340, 300, 260));
    assert_eq!(fs.get(3).name, RECYCLE_BIN_NAME);
}

#[test]
fn open_locked_file_and_folder() {
    let mut fs = FileSystem::new();
    let locked = fs.add("Box.lock", FileKind::Lock { password: "1234".to_string(), children: vec![] });
    let plan = open(&fs, locked, Language::En);
    assert!(matches!(plan.app, AppLaunch::Password { id, ref password } if id == locked && password == "1234"));
    assert!(!plan.window.resizable && !plan.window.maximizable && plan.window.movable);
    let folder = fs.add("Docs", FileKind::Folder { children: vec![locked] });
    let plan = open(&fs, folder, Language::Ja);
    match plan.app {
        AppLaunch::Folder { items, raw_name } => {
            assert_eq!(raw_name, "Docs");
            assert_eq!(items, vec![(locked, "Box.lock".to_string(), IconType::Lock)]);
        }
        _ => panic!("a folder opens in a File Explorer"),
    }
    assert_eq!((plan.window.width, plan.window.height), (420, 320));
}

#[test]
fn open_mail_window() {
    let mut fs = FileSystem::new();
    fs.mail_arrived = true;
    fs.mail_read = vec![0];
    fs.sent_mail.push(SentMail {
        to: "boss@palace".to_string(),
        subject: "report".to_string(),
        body: "done".to_string(),
        attachments: vec![(2, "feed".to_string())],
    });
    let plan = open(&fs, 1, Language::En);
    assert_eq!(plan.title, "Mail");
    match plan.app {
        AppLaunch::Mail { arrived, read, attachable, sent, hextool_attachment } => {
            assert!(arrived);
            assert_eq!(read, vec![0]);
            assert_eq!(ids(&attachable), vec![2]);
            assert_eq!(sent.len(), 1);
            assert_eq!(sent[0].to, "boss@palace");
            assert_eq!(sent[0].attachments, vec![(2, "feed".to_string(), IconType::Photos)]);
            assert_eq!(hextool_attachment, 4);
        }
        _ => panic!("mail opens the mail application"),
    }
    assert_eq!((plan.window.width, plan.window.height, plan.window.min_width, plan.window.min_height), (470, 340, 400, 320));
}

#[test]
fn open_apps_by_kind() {
    let mut fs = FileSystem::new();
    let plan = open(&fs, 0, Language::En);
    assert!(matches!(plan.app, AppLaunch::Explorer { ref tabs, ref raw_name } if tabs.len() == 4 && raw_name == "My Computer"));
    assert_eq!((plan.window.width, plan.window.height), (500, 340));
    let plan = open(&fs, 4, Language::En);
    assert!(matches!(plan.app, AppLaunch::Installer { tool_installed: false }));
    fs.hex_tool_installed = true;
    let tar = fs.add("Photos.tar", FileKind::Tar);
    let plan = open(&fs, tar, Language::Ko);
    assert!(matches!(plan.app, AppLaunch::Archive { tool_installed: true }));
    assert_eq!(plan.title, "Photos.tar");
    let tool = fs.add("HexTool", FileKind::HexTool);
    let plan = open(&fs, tool, Language::En);
    assert!(matches!(plan.app, AppLaunch::HexTool { ref review_files } if review_files.is_empty()));
    assert_eq!(plan.window.min_width, 360);
    fs.photos_current = vec!["a.jpg".to_string()];
    let plan = open(&fs, 2, Language::En);
    assert!(matches!(plan.app, AppLaunch::Photos { ref current } if current == &vec!["a.jpg".to_string()]));
    assert_eq!((plan.window.width, plan.window.height, plan.window.resizable), (350, 350, false));
    let p = fs.find_or_add_photo("x/y.png");
    let plan = open(&fs, p, Language::En);
    assert!(matches!(plan.app, AppLaunch::PhotoViewer { ref filename } if filename == "x/y.png"));
    let v = fs.add("v.mp4", FileKind::Mp4);
    assert!(matches!(open(&fs, v, Language::En).app, AppLaunch::Video));
    let img = fs.add("i.png", FileKind::Img(3));
    assert!(matches!(open(&fs, img, Language::En).app, AppLaunch::ImageViewer { photo_idx: 3 }));
}

#[test]
fn drops_only_on_focused_release() {
    let items: Vec<Item> = vec![(7, "a".to_string(), IconType::Text)];
    let sel = vec![0];
    assert_eq!(drop_move_on_release(false, true, true, Some(MoveDest::Desktop), false, &items, &sel), None);
    assert_eq!(drop_move_on_release(true, false, true, Some(MoveDest::Desktop), false, &items, &sel), None);
    assert_eq!(drop_move_on_release(true, true, false, Some(MoveDest::Desktop), false, &items, &sel), None);
    assert_eq!(
        drop_move_on_release(true, true, true, None, true, &items, &sel),
        Some((vec![7], MoveDest::Desktop))
    );
}

#[test]
fn list_view_newest_first() {
    let items: Vec<Item> = vec![
        (3, "a".to_string(), IconType::Text),
        (9, "b".to_string(), IconType::Text),
        (3, "c".to_string(), IconType::Text),
        (5, "d".to_string(), IconType::Text),
    ];
    assert_eq!(list_order(&items), vec![1, 3, 0, 2]);
    assert!(list_order(&vec![]).is_empty());
}

#[test]
fn explorer_keeps_root_title() {
    let mut fs = FileSystem::new();
    let folder = fs.add("Docs", FileKind::Folder { children: vec![] });
    fs.download(folder);
    let nav = explorer_app_for_folder(&fs, 0, folder);
    assert_eq!(nav.title(Language::En), "My Computer");
    assert_eq!(nav.title(Language::Ko), "내 컴퓨터");
    let again = explorer_app_refreshed(&fs, 0, nav.current_location());
    assert_eq!(again.title(Language::Ja), "マイ コンピュータ");
    assert_eq!(again.current_location(), Some(ExplorerLocation::Folder(folder)));
}

#[test]
fn open_text_file_despite_bad_lists() {
    let mut fs = FileSystem::new();
    let id = fs.add("n.txt", FileKind::Txt("x".to_string()));
    fs.download(99);
    let plan = open(&fs, id, Language::En);
    assert!(matches!(plan.app, AppLaunch::Notepad { ref text } if text == "x"));
}
