use crackhead::foundation::Language;
use crackhead::icons::IconType;
use crackhead::hextool::HexToolApp;
use crackhead::image_viewer::ImageViewerApp;
use crackhead::ime::{composition_buffer_len, composition_char_count, is_cicero_window_class};
use crackhead::installer::{license_text, status_steps, InstallerApp, InstallerEvent, InstallerSignal, NavClick, Page, Rng};
use crackhead::mail::{
    backspace_at, folder_icon, CompositionHistory, insert_char_at, not_blank, seed_messages, ComposeField, MailFolder, MailApp,
    NewMailState,
};
use crackhead::password::PasswordApp;
use crackhead::recycle_bin::{bin_action, BinAction};
use crackhead::strings::{t, Label};
use crackhead::video_player::format_time;

#[test]
fn insert_then_backspace_restores_text() {
    let mut s = "héllo".to_string();
    let mut cursor = 2usize;
    insert_char_at(&mut s, &mut cursor, 'X', 1000);
    assert_eq!(s, "héXllo");
    assert_eq!(cursor, 3);
    backspace_at(&mut s, &mut cursor);
    assert_eq!(s, "héllo");
    assert_eq!(cursor, 2);
}

#[test]
fn insert_past_end_appends_and_full_field_refuses() {
    let mut s = "ab".to_string();
    let mut cursor = 9usize;
    insert_char_at(&mut s, &mut cursor, 'c', 10);
    assert_eq!(s, "abc");
    assert_eq!(cursor, 10);
    let mut full = "abc".to_string();
    let mut c2 = 1usize;
    insert_char_at(&mut full, &mut c2, 'z', 3);
    assert_eq!(full, "abc");
    assert_eq!(c2, 1);
    let mut empty_cursor = 0usize;
    let mut e = "x".to_string();
    backspace_at(&mut e, &mut empty_cursor);
    assert_eq!(e, "x");
    assert_eq!(empty_cursor, 0);
}

#[test]
fn blank_text_detection() {
    assert!(!not_blank(""));
    assert!(!not_blank(" \t\n\u{3000}"));
    assert!(not_blank("  a "));
}

#[test]
fn compose_flow_and_send() {
    let mut draft = NewMailState::new();
    assert!(!draft.can_send());
    for c in "boss".chars() {
        draft.type_char(c);
    }
    draft.type_char('\u{7}');
    assert_eq!(draft.to, "boss");
    draft.enter();
    assert_eq!(draft.active, ComposeField::Subject);
    draft.type_char('S');
    draft.enter();
    assert_eq!(draft.active, ComposeField::Body);
    draft.type_char('h');
    draft.type_char('i');
    draft.cursor_left();
    draft.cursor_left();
    draft.cursor_left();
    assert_eq!(draft.cursor, 0);
    draft.enter();
    assert_eq!(draft.body, "\nhi");
    draft.cursor_right();
    draft.backspace();
    assert_eq!(draft.body, "\ni");
    draft.toggle_attachment((5, "clip.mp4".to_string(), IconType::Video));
    draft.toggle_attachment((6, "a.txt".to_string(), IconType::Text));
    draft.toggle_attachment((5, "clip.mp4".to_string(), IconType::Video));
    assert_eq!(draft.attachments, vec![(6, "a.txt".to_string(), IconType::Text)]);
    assert!(draft.can_send());
    let mut mail = MailApp::new(false, &vec![], vec![], vec![], 4, Language::En);
    let out = mail.send_new_mail(&mut draft).expect("the draft has a receiver and a body");
    assert_eq!(out, ("boss".to_string(), "S".to_string(), "\ni".to_string(), vec![(6, "a.txt".to_string())]));
    assert!(draft.to.is_empty() && draft.body.is_empty() && draft.attachments.is_empty());
    assert_eq!(draft.active, ComposeField::To);
    // an empty draft is not sent
    assert!(mail.send_new_mail(&mut draft).is_none());
}

#[test]
fn focus_clamps_cursor() {
    let mut draft = NewMailState::new();
    draft.focus(ComposeField::Subject, 0);
    draft.type_char('a');
    draft.focus(ComposeField::Subject, 99);
    assert_eq!(draft.cursor, 1);
    draft.focus(ComposeField::To, 99);
    assert_eq!(draft.cursor, 0);
}

#[test]
fn inbox_and_reading() {
    assert!(seed_messages(false, Language::En, 4).is_empty());
    let msgs = seed_messages(true, Language::En, 4);
    assert_eq!(msgs.len(), 1);
    assert_eq!(msgs[0].from, "test@mail.com");
    assert_eq!(msgs[0].subject, "Welcome to Palace");
    assert_eq!(msgs[0].attachment, Some((4, "HexTool Setup.exe".to_string())));
    let mut mail = MailApp::new(true, &vec![], vec![], vec![], 4, Language::En);
    assert_eq!(mail.unread_count(), 1);
    mail.select(0);
    assert_eq!(mail.selected(), Some(0));
    assert_eq!(mail.unread_count(), 0);
    let read = MailApp::new(true, &vec![0], vec![], vec![], 4, Language::Ko);
    assert_eq!(read.unread_count(), 0);
}

#[test]
fn mail_folders() {
    let mut mail = MailApp::new(true, &vec![], vec![], vec![], 4, Language::En);
    assert_eq!(mail.folder_idx(), None);
    mail.set_folder_idx(Some(1));
    assert_eq!(mail.folder_idx(), Some(1));
    mail.set_selected(Some(0));
    assert_eq!(mail.selected(), None);
    mail.choose_folder(MailFolder::Inbox);
    mail.set_selected(Some(0));
    assert_eq!(mail.selected(), Some(0));
    mail.set_folder_idx(Some(7));
    assert_eq!(mail.folder_idx(), None);
    assert_eq!(MailFolder::Sent.label(Language::En), "Sent Items");
    assert_eq!(MailFolder::Inbox.label(Language::Ko), "받은 편지함");
    assert_eq!(folder_icon(MailFolder::Compose), IconType::Mail);
    assert_eq!(folder_icon(MailFolder::Sent), IconType::Envelope);
}

#[test]
fn password_dialog() {
    let mut p = PasswordApp::new(12, "1234".to_string());
    p.type_chars(&vec!['1', '2', '\u{1b}', '3']);
    assert_eq!(p.entry, "123");
    assert_eq!(p.submit(), None);
    assert!(p.error);
    assert!(p.entry.is_empty());
    p.type_chars(&vec!['1', '2', '3', '4', '5']);
    p.backspace();
    assert!(!p.error);
    assert_eq!(p.submit(), Some(12));
}

#[test]
fn password_entry_byte_limit() {
    let mut p = PasswordApp::new(0, "x".to_string());
    let many: Vec<char> = std::iter::repeat('a').take(40).collect();
    p.type_chars(&many);
    assert_eq!(p.entry.len(), 24);
    let mut k = PasswordApp::new(0, "x".to_string());
    let wide: Vec<char> = std::iter::repeat('가').take(20).collect();
    k.type_chars(&wide);
    // each takes three bytes: the ninth starts at 24 bytes and is refused
    assert_eq!(k.entry.chars().count(), 8);
}

#[test]
fn installer_wizard_path() {
    let mut w = InstallerApp::new(false);
    assert_eq!(w.page, Page::Welcome);
    assert_eq!(w.nav(NavClick::Next), InstallerSignal::Nothing);
    assert_eq!(w.page, Page::License);
    w.nav(NavClick::Next);
    assert_eq!(w.page, Page::License);
    w.set_license_accepted(true);
    w.nav(NavClick::Next);
    assert_eq!(w.page, Page::Installing);
    assert_eq!(w.installing_tick(false, false), InstallerSignal::Nothing);
    assert_eq!(w.installing_tick(true, false), InstallerSignal::InstallComplete);
    assert_eq!(w.installing_tick(true, false), InstallerSignal::Nothing);
    assert_eq!(w.page, Page::Installing);
    assert_eq!(w.installing_tick(true, true), InstallerSignal::Nothing);
    assert_eq!(w.page, Page::Finish);
    assert_eq!(w.nav(NavClick::Next), InstallerSignal::Close);
    let mut again = InstallerApp::new(true);
    assert_eq!(again.page, Page::AlreadyInstalled);
    assert_eq!(again.nav(NavClick::Next), InstallerSignal::Close);
    let mut cancel = InstallerApp::new(false);
    assert_eq!(cancel.nav(NavClick::Cancel), InstallerSignal::Close);
}

#[test]
fn installer_texts() {
    let steps = status_steps(Language::En);
    assert_eq!(steps[0], "Copying files...");
    assert_eq!(steps[4], "Finalizing...");
    assert!(license_text(Language::En).starts_with("HEXTOOL LICENSE AGREEMENT"));
    assert_eq!(license_text(Language::Ko), t(Language::Ko, Label::LicenseText));
}

#[test]
fn installer_rng_steps() {
    let mut r = Rng::new(0);
    assert_eq!(r.state, 1);
    let x = r.next_u32();
    // one xorshift64 step from 1: 1 ^ 1<<13 = 0x2001, ^ >>7 = 0x2041, ^ <<17 = 0x40822041
    assert_eq!(r.state, 0x4082_2041);
    assert_eq!(x, 0x4082);
}

#[test]
fn recycle_bin_buttons() {
    let items = vec![(3, "a".to_string(), IconType::Text), (8, "b".to_string(), IconType::Video)];
    assert_eq!(bin_action(&items, &vec![1], true, false, false), BinAction::Restore(vec![8]));
    assert_eq!(bin_action(&items, &vec![0, 9], false, true, false), BinAction::EmptyTrash(vec![3]));
    assert_eq!(bin_action(&items, &vec![], false, false, true), BinAction::EmptyTrash(vec![3, 8]));
    assert_eq!(bin_action(&items, &vec![], true, true, false), BinAction::Nothing);
}

#[test]
fn ime_limits() {
    assert_eq!(composition_buffer_len(0), None);
    assert_eq!(composition_buffer_len(-5), None);
    assert_eq!(composition_buffer_len(7), None);
    assert_eq!(composition_buffer_len(130), None);
    assert_eq!(composition_buffer_len(128), Some(64));
    assert_eq!(composition_char_count(10, 3), Some(3));
    assert_eq!(composition_char_count(4, 3), Some(2));
    assert_eq!(composition_char_count(-1, 3), None);
    assert!(is_cicero_window_class("CiceroUIWndFrame"));
    assert!(!is_cicero_window_class("Cicero"));
}

#[test]
fn video_time_text() {
    assert_eq!(format_time(0), "0:00");
    assert_eq!(format_time(-10), "0:00");
    assert_eq!(format_time(65 * 10_000_000), "1:05");
    assert_eq!(format_time((3600 + 2 * 60 + 3) * 10_000_000 + 9_999_999), "1:02:03");
    assert_eq!(format_time(12 * 60 * 10_000_000), "12:00");
}

#[test]
fn image_viewer_keeps_index() {
    assert_eq!(ImageViewerApp::new(3).photo_idx(), 3);
}

#[test]
fn hextool_choosing_a_file() {
    let empty = HexToolApp::new(vec![]);
    assert!(empty.picker_open);
    let files = vec![
        (5, "a.mp4".to_string(), IconType::Video, None),
        (6, "h.jpg".to_string(), IconType::Image, Some("hint/h.jpg".to_string())),
    ];
    let mut sel = HexToolApp::new(files.clone());
    assert!(!sel.picker_open);
    assert!(sel.loaded.is_none());
    sel.open_picker();
    assert!(sel.picker_open);
    sel.pick(1);
    assert_eq!(sel.loaded, Some((6, "h.jpg".to_string(), Some("hint/h.jpg".to_string()))));
    assert!(!sel.picker_open);
    assert!(sel.load_pending);
    sel.refresh_review_files(vec![]);
    assert!(sel.review_files.is_empty());
    assert_eq!(sel.loaded, Some((6, "h.jpg".to_string(), Some("hint/h.jpg".to_string()))));
}

#[test]
fn mail_attachment_download_reported_once() {
    let mut mail = MailApp::new(true, &vec![], vec![], vec![], 4, Language::En);
    assert_eq!(mail.finish_download(0), None);
    mail.start_download(0);
    assert!(mail.is_downloading(0));
    assert_eq!(mail.finish_download(0), Some(4));
    assert!(mail.is_downloaded(0));
    assert!(!mail.is_downloading(0));
    mail.start_download(0);
    assert!(!mail.is_downloading(0));
    assert_eq!(mail.finish_download(0), None);
    let mut empty = MailApp::new(false, &vec![], vec![], vec![], 4, Language::En);
    empty.start_download(0);
    assert_eq!(empty.finish_download(0), None);
}

#[test]
fn composition_backspace_replays_previous_step() {
    let mut h = CompositionHistory::new();
    assert_eq!(h.step(false, "ㄱ"), None);
    assert_eq!(h.step(false, "ㄱ"), None);
    assert_eq!(h.step(false, "ㄲ"), None);
    assert_eq!(h.entries, vec!["ㄱ".to_string(), "ㄲ".to_string()]);
    assert_eq!(h.step(true, "ㄲ"), Some("ㄱ".to_string()));
    assert!(h.entries.is_empty());
    assert_eq!(h.step(true, ""), None);
    h.step(false, "가");
    assert_eq!(h.step(true, "가"), Some(String::new()));
    h.step(false, "a");
    h.step(false, "");
    assert!(h.entries.is_empty());
    let mut draft = NewMailState::new();
    draft.type_char('x');
    draft.cursor_left();
    draft.insert_text("ab");
    assert_eq!(draft.to, "abx");
    assert_eq!(draft.cursor, 2);
}

#[test]
fn installer_events() {
    let mut w = InstallerApp::new(false);
    let events = vec![
        InstallerEvent::Nav(NavClick::Next),
        InstallerEvent::Accept(true),
        InstallerEvent::Nav(NavClick::Next),
        InstallerEvent::Tick { done: true, hold_over: false },
        InstallerEvent::Tick { done: true, hold_over: true },
        InstallerEvent::Tick { done: true, hold_over: true },
        InstallerEvent::Nav(NavClick::Back),
    ];
    let signals: Vec<InstallerSignal> = events.into_iter().map(|e| w.handle(e)).collect();
    assert_eq!(signals.iter().filter(|s| **s == InstallerSignal::InstallComplete).count(), 1);
    assert_eq!(signals[3], InstallerSignal::InstallComplete);
    assert_eq!(w.page, Page::Finish);
    let mut a = InstallerApp::new(true);
    assert_eq!(a.handle(InstallerEvent::Tick { done: true, hold_over: true }), InstallerSignal::Nothing);
    assert_eq!(a.page, Page::AlreadyInstalled);
}
