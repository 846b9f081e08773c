//! The mail application's state: its folders, which message is selected and read,
//! the welcome mail, the sent mails and the "Write Mail" draft with its text
//! editing.
use vstd::prelude::*;

use crate::foundation::{FileId, Language, HEXTOOL_SETUP_NAME};
use crate::icons::IconType;
use crate::listing::{items_model, Item, ItemModel};
use crate::strings::{label_text, t, Label};
use crate::text::{
    char_is_control, char_is_whitespace, is_control, is_unicode_whitespace, push_char, str_eq, strings_model,
};

verus! {

/// A folder of the mail application's tree.
#[derive(Clone, Copy, Debug, PartialEq, Eq, Structural)]
pub enum MailFolder {
    Inbox,
    Sent,
    Compose,
}

/// The tree's folders, top to bottom.
pub open spec fn folder_at(i: int) -> Option<MailFolder> {
    if i == 0 {
        Some(MailFolder::Inbox)
    } else if i == 1 {
        Some(MailFolder::Sent)
    } else if i == 2 {
        Some(MailFolder::Compose)
    } else {
        None
    }
}

/// The position of a folder in the tree.
pub open spec fn folder_index(f: MailFolder) -> usize {
    match f {
        MailFolder::Inbox => 0,
        MailFolder::Sent => 1,
        MailFolder::Compose => 2,
    }
}

/// The label key of a folder.
pub open spec fn folder_label_key(f: MailFolder) -> Label {
    match f {
        MailFolder::Inbox => Label::Inbox,
        MailFolder::Sent => Label::SentItems,
        MailFolder::Compose => Label::WriteMail,
    }
}

impl MailFolder {
    /// The folder's label in `lang`.
    pub fn label(self, lang: Language) -> (r: &'static str)
        ensures
            r@ == label_text(lang, folder_label_key(self)),
    {
        match self {
            MailFolder::Inbox => t(lang, Label::Inbox),
            MailFolder::Sent => t(lang, Label::SentItems),
            MailFolder::Compose => t(lang, Label::WriteMail),
        }
    }
}

/// The icon of a folder: the mailbox folders show an envelope, "Write Mail" the
/// mail icon.
pub fn folder_icon(folder: MailFolder) -> (r: IconType)
    ensures
        r == match folder {
            MailFolder::Inbox | MailFolder::Sent => IconType::Envelope,
            MailFolder::Compose => IconType::Mail,
        },
{
    match folder {
        MailFolder::Inbox | MailFolder::Sent => IconType::Envelope,
        MailFolder::Compose => IconType::Mail,
    }
}

/// A received mail.
pub struct MailMsg {
    pub from: &'static str,
    pub to: &'static str,
    pub cc: &'static str,
    pub subject: &'static str,
    pub body: &'static str,
    pub attachment: Option<(FileId, String)>,
}

/// The subject of the welcome mail.
pub open spec fn welcome_subject(lang: Language) -> Seq<char> {
    match lang {
        Language::En => "Welcome to Palace"@,
        Language::Ko => "팔라스 입사를 환영합니다"@,
        Language::Ja => "パレスへようこそ"@,
    }
}

/// The body of the welcome mail.
pub open spec fn welcome_body(lang: Language) -> Seq<char> {
    match lang {
        Language::En => "Welcome aboard. Please download and install the attached HexTool before you start reviewing files."@,
        Language::Ko => "입사를 환영합니다. 파일 검토를 시작하기 전에 첨부한 HexTool 을 내려받아 설치해 주세요."@,
        Language::Ja => "ようこそ。ファイルの確認を始める前に、添付の HexTool をダウンロードしてインストールしてください。"@,
    }
}

fn welcome_subject_text(lang: Language) -> (r: &'static str)
    ensures
        r@ == welcome_subject(lang),
{
    match lang {
        Language::En => "Welcome to Palace",
        Language::Ko => "팔라스 입사를 환영합니다",
        Language::Ja => "パレスへようこそ",
    }
}

fn welcome_body_text(lang: Language) -> (r: &'static str)
    ensures
        r@ == welcome_body(lang),
{
    match lang {
        Language::En => "Welcome aboard. Please download and install the attached HexTool before you start reviewing files.",
        Language::Ko => "입사를 환영합니다. 파일 검토를 시작하기 전에 첨부한 HexTool 을 내려받아 설치해 주세요.",
        Language::Ja => "ようこそ。ファイルの確認を始める前に、添付の HexTool をダウンロードしてインストールしてください。",
    }
}

/// Whether `msgs` is the inbox in `lang`: empty before the welcome mail arrives,
/// then that one mail from the company to the player, attaching the installer
/// `hextool_id`.
pub open spec fn seeded(msgs: Seq<MailMsg>, arrived: bool, lang: Language, hextool_id: FileId) -> bool {
    &&& !arrived ==> msgs.len() == 0
    &&& arrived ==> {
        &&& msgs.len() == 1
        &&& msgs[0].from@ == "test@mail.com"@
        &&& msgs[0].to@ == "toast@mail.com"@
        &&& msgs[0].cc@ == ""@
        &&& msgs[0].subject@ == welcome_subject(lang)
        &&& msgs[0].body@ == welcome_body(lang)
        &&& msgs[0].attachment matches Some((id, name)) && id == hextool_id && name@ == HEXTOOL_SETUP_NAME@
    }
}

/// The inbox: empty before the welcome mail arrives, then that one mail, which
/// attaches the installer `hextool_id`.
pub fn seed_messages(arrived: bool, lang: Language, hextool_id: FileId) -> (r: Vec<MailMsg>)
    ensures
        seeded(r@, arrived, lang, hextool_id),
{
    if !arrived {
        return Vec::new();
    }
    let msg = MailMsg {
        from: "test@mail.com",
        to: "toast@mail.com",
        cc: "",
        subject: welcome_subject_text(lang),
        body: welcome_body_text(lang),
        attachment: Some((hextool_id, HEXTOOL_SETUP_NAME.to_owned())),
    };
    vec![msg]
}

/// A sent mail as the Sent Items folder shows it.
pub struct SentMailView {
    pub to: String,
    pub subject: String,
    pub body: String,
    pub attachments: Vec<Item>,
}

/// Which "Write Mail" field takes the typing.
#[derive(Clone, Copy, Debug, PartialEq, Eq, Structural)]
pub enum ComposeField {
    To,
    Subject,
    Body,
}

/// The "Write Mail" draft.
pub struct NewMailState {
    pub to: String,
    pub subject: String,
    pub body: String,
    pub active: ComposeField,
    /// Character position of the cursor in the active field.
    pub cursor: usize,
    pub attachments: Vec<Item>,
    pub picker_open: bool,
}

impl NewMailState {
    /// An empty draft, typing into the "To" field.
    pub fn new() -> (r: NewMailState)
        ensures
            r.to@.len() == 0,
            r.subject@.len() == 0,
            r.body@.len() == 0,
            r.active == ComposeField::To,
            r.cursor == 0,
            r.attachments@.len() == 0,
            !r.picker_open,
    {
        NewMailState {
            to: String::new(),
            subject: String::new(),
            body: String::new(),
            active: ComposeField::To,
            cursor: 0,
            attachments: Vec::new(),
            picker_open: false,
        }
    }

    /// The text of field `f`.
    pub open spec fn field(&self, f: ComposeField) -> Seq<char> {
        match f {
            ComposeField::To => self.to@,
            ComposeField::Subject => self.subject@,
            ComposeField::Body => self.body@,
        }
    }

    /// The cursor stands within the active field.
    pub open spec fn wf(&self) -> bool {
        self.cursor <= self.field(self.active).len()
    }

    /// The draft can be sent: its receiver and its body hold text.
    pub open spec fn can_send_spec(&self) -> bool {
        has_text(self.to@) && has_text(self.body@)
    }

    /// Whether the draft can be sent.
    pub fn can_send(&self) -> (r: bool)
        ensures
            r == self.can_send_spec(),
    {
        not_blank(self.to.as_str()) && not_blank(self.body.as_str())
    }

    /// The typing ends up in field `f`, cursor at character `idx` (kept within the
    /// field).
    pub fn focus(&mut self, f: ComposeField, idx: usize)
        ensures
            final(self).attachments == old(self).attachments,
            final(self).picker_open == old(self).picker_open,
            final(self).active == f,
            final(self).cursor == if idx <= old(self).field(f).len() { idx as int } else { old(self).field(f).len() as int },
            final(self).to == old(self).to,
            final(self).subject == old(self).subject,
            final(self).body == old(self).body,
            final(self).wf(),
    {
        let len = match f {
            ComposeField::To => self.to.unicode_len(),
            ComposeField::Subject => self.subject.unicode_len(),
            ComposeField::Body => self.body.unicode_len(),
        };
        self.active = f;
        self.cursor = if idx <= len { idx } else { len };
    }

    /// Types `c` into the active field at the cursor (control characters are
    /// ignored, and a full field takes nothing: the body holds at most 1000
    /// characters, the other fields 200).
    pub fn type_char(&mut self, c: char)
        requires
            old(self).wf(),
        ensures
            final(self).attachments == old(self).attachments,
            final(self).picker_open == old(self).picker_open,
            final(self).wf(),
            final(self).active == old(self).active,
            is_control(c) || old(self).field(old(self).active).len() >= field_limit(old(self).active) ==> {
                &&& final(self).to == old(self).to
                &&& final(self).subject == old(self).subject
                &&& final(self).body == old(self).body
                &&& final(self).cursor == old(self).cursor
            },
            !is_control(c) && old(self).field(old(self).active).len() < field_limit(old(self).active) ==> {
                &&& final(self).field(old(self).active) == inserted(old(self).field(old(self).active), old(self).cursor as int, c)
                &&& final(self).cursor == old(self).cursor + 1
                &&& forall|g: ComposeField| g != old(self).active ==> final(self).field(g) == old(self).field(g)
            },
    {
        if char_is_control(c) {
            return;
        }
        let (len, limit) = match self.active {
            ComposeField::To => (self.to.unicode_len(), 200),
            ComposeField::Subject => (self.subject.unicode_len(), 200),
            ComposeField::Body => (self.body.unicode_len(), COMPOSE_MAX_CHARS),
        };
        if len >= limit {
            return;
        }
        match self.active {
            ComposeField::To => insert_char_at(&mut self.to, &mut self.cursor, c, 200),
            ComposeField::Subject => insert_char_at(&mut self.subject, &mut self.cursor, c, 200),
            ComposeField::Body => insert_char_at(&mut self.body, &mut self.cursor, c, COMPOSE_MAX_CHARS),
        }
    }

    /// Puts `c` into the active field at the cursor, unless the field is full.
    fn put_char(&mut self, c: char)
        requires
            old(self).wf(),
        ensures
            final(self).wf(),
            final(self).active == old(self).active,
            final(self).attachments == old(self).attachments,
            final(self).picker_open == old(self).picker_open,
            forall|g: ComposeField| g != old(self).active ==> final(self).field(g) == old(self).field(g),
            (final(self).field(old(self).active), final(self).cursor as int) == put_into(
                old(self).field(old(self).active),
                old(self).cursor as int,
                c,
                field_limit(old(self).active),
            ),
    {
        match self.active {
            ComposeField::To => insert_char_at(&mut self.to, &mut self.cursor, c, 200),
            ComposeField::Subject => insert_char_at(&mut self.subject, &mut self.cursor, c, 200),
            ComposeField::Body => insert_char_at(&mut self.body, &mut self.cursor, c, COMPOSE_MAX_CHARS),
        }
    }

    /// Puts the characters of `text` one by one into the active field at the
    /// cursor, each while the field has room (as the input method's text is
    /// replayed after its composition was cancelled).
    pub fn insert_text(&mut self, text: &str)
        requires
            old(self).wf(),
        ensures
            final(self).wf(),
            final(self).active == old(self).active,
            final(self).attachments == old(self).attachments,
            final(self).picker_open == old(self).picker_open,
            forall|g: ComposeField| g != old(self).active ==> final(self).field(g) == old(self).field(g),
            (final(self).field(old(self).active), final(self).cursor as int) == put_all(
                old(self).field(old(self).active),
                old(self).cursor as int,
                text@,
                field_limit(old(self).active),
            ),
    {
        let n = text.unicode_len();
        let mut i: usize = 0;
        while i < n
            invariant
                i <= n,
                n == text@.len(),
                self.wf(),
                self.active == old(self).active,
                self.attachments == old(self).attachments,
                self.picker_open == old(self).picker_open,
                forall|g: ComposeField| g != old(self).active ==> self.field(g) == old(self).field(g),
                (self.field(old(self).active), self.cursor as int) == put_all(
                    old(self).field(old(self).active),
                    old(self).cursor as int,
                    text@.take(i as int),
                    field_limit(old(self).active),
                ),
            decreases n - i,
        {
            proof {
                assert(text@.take(i + 1).drop_last() =~= text@.take(i as int));
            }
            self.put_char(text.get_char(i));
            i = i + 1;
        }
        proof {
            assert(text@.take(n as int) =~= text@);
        }
    }

    /// Takes out the character before the cursor in the active field.
    pub fn backspace(&mut self)
        requires
            old(self).wf(),
        ensures
            final(self).attachments == old(self).attachments,
            final(self).picker_open == old(self).picker_open,
            final(self).wf(),
            final(self).active == old(self).active,
            old(self).cursor == 0 ==> *final(self) == *old(self),
            old(self).cursor > 0 ==> {
                &&& final(self).field(old(self).active) == backspaced(old(self).field(old(self).active), old(self).cursor as int)
                &&& final(self).cursor == old(self).cursor - 1
                &&& forall|g: ComposeField| g != old(self).active ==> final(self).field(g) == old(self).field(g)
            },
    {
        if self.cursor == 0 {
            return;
        }
        match self.active {
            ComposeField::To => backspace_at(&mut self.to, &mut self.cursor),
            ComposeField::Subject => backspace_at(&mut self.subject, &mut self.cursor),
            ComposeField::Body => backspace_at(&mut self.body, &mut self.cursor),
        }
    }

    /// Enter: from "To" to the end of "Subject", from "Subject" to the end of the
    /// body; in the body it types a line break.
    pub fn enter(&mut self)
        requires
            old(self).wf(),
        ensures
            final(self).attachments == old(self).attachments,
            final(self).picker_open == old(self).picker_open,
            final(self).wf(),
            old(self).active == ComposeField::To ==> final(self).active == ComposeField::Subject
                && final(self).cursor == old(self).subject@.len() && final(self).to == old(self).to
                && final(self).subject == old(self).subject && final(self).body == old(self).body,
            old(self).active == ComposeField::Subject ==> final(self).active == ComposeField::Body
                && final(self).cursor == old(self).body@.len() && final(self).to == old(self).to
                && final(self).subject == old(self).subject && final(self).body == old(self).body,
            old(self).active == ComposeField::Body ==> final(self).active == ComposeField::Body
                && final(self).to == old(self).to && final(self).subject == old(self).subject && (if old(self).body@.len()
                < COMPOSE_MAX_CHARS {
                final(self).body@ == inserted(old(self).body@, old(self).cursor as int, '\n')
                    && final(self).cursor == old(self).cursor + 1
            } else {
                final(self).body == old(self).body && final(self).cursor == old(self).cursor
            }),
    {
        match self.active {
            ComposeField::To => {
                self.active = ComposeField::Subject;
                self.cursor = self.subject.unicode_len();
            },
            ComposeField::Subject => {
                self.active = ComposeField::Body;
                self.cursor = self.body.unicode_len();
            },
            ComposeField::Body => {
                if self.body.unicode_len() < COMPOSE_MAX_CHARS {
                    insert_char_at(&mut self.body, &mut self.cursor, '\n', COMPOSE_MAX_CHARS);
                }
            },
        }
    }

    /// Moves the cursor one character to the left (not past the start).
    pub fn cursor_left(&mut self)
        requires
            old(self).wf(),
        ensures
            final(self).wf(),
            *final(self) == (NewMailState { cursor: if old(self).cursor > 0 { (old(self).cursor - 1) as usize } else { 0 }, ..*old(self) }),
    {
        self.cursor = if self.cursor > 0 { self.cursor - 1 } else { 0 };
    }

    /// Moves the cursor one character to the right (not past the field's end).
    pub fn cursor_right(&mut self)
        requires
            old(self).wf(),
        ensures
            final(self).attachments == old(self).attachments,
            final(self).picker_open == old(self).picker_open,
            final(self).wf(),
            final(self).cursor == if old(self).cursor < old(self).field(old(self).active).len() { old(self).cursor + 1 } else { old(self).cursor as int },
            final(self).to == old(self).to,
            final(self).subject == old(self).subject,
            final(self).body == old(self).body,
            final(self).active == old(self).active,
    {
        let len = match self.active {
            ComposeField::To => self.to.unicode_len(),
            ComposeField::Subject => self.subject.unicode_len(),
            ComposeField::Body => self.body.unicode_len(),
        };
        if self.cursor < len {
            self.cursor = self.cursor + 1;
        }
    }

    /// Attaches `item`, or takes it off again when a file with its id is attached.
    pub fn toggle_attachment(&mut self, item: Item)
        ensures
            final(self).to == old(self).to,
            final(self).subject == old(self).subject,
            final(self).body == old(self).body,
            final(self).cursor == old(self).cursor,
            final(self).active == old(self).active,
            (exists|k: int| 0 <= k < old(self).attachments@.len() && #[trigger] old(self).attachments@[k].0 == item.0)
                ==> items_model(final(self).attachments@) == items_model(old(self).attachments@).filter(|it: ItemModel| it.0 != item.0),
            !(exists|k: int| 0 <= k < old(self).attachments@.len() && #[trigger] old(self).attachments@[k].0 == item.0)
                ==> items_model(final(self).attachments@) == items_model(old(self).attachments@).push((item.0, item.1@, item.2)),
    {
        let mut found = false;
        let mut i: usize = 0;
        while !found && i < self.attachments.len()
            invariant
                i <= self.attachments.len(),
                self.attachments == old(self).attachments,
                self.to == old(self).to,
                self.subject == old(self).subject,
                self.body == old(self).body,
                self.cursor == old(self).cursor,
                self.active == old(self).active,
                !found ==> forall|k: int| 0 <= k < i ==> self.attachments@[k].0 != item.0,
                found ==> exists|k: int| 0 <= k < self.attachments@.len() && #[trigger] self.attachments@[k].0 == item.0,
            decreases self.attachments.len() - i,
        {
            if self.attachments[i].0 == item.0 {
                found = true;
            }
            i = i + 1;
        }
        if !found {
            let ghost before = self.attachments@;
            self.attachments.push(item);
            proof {
                assert(items_model(self.attachments@) =~= items_model(before).push((item.0, item.1@, item.2)));
            }
            return;
        }
        assert(self.attachments == old(self).attachments);
        let ghost m = items_model(self.attachments@);
        let ghost keep = |it: ItemModel| it.0 != item.0;
        let mut k: usize = self.attachments.len();
        while k > 0
            invariant
                k <= self.attachments.len(),
                k <= m.len(),
                self.to == old(self).to,
                self.subject == old(self).subject,
                self.body == old(self).body,
                self.cursor == old(self).cursor,
                self.active == old(self).active,
                items_model(self.attachments@) == m.take(k as int) + m.skip(k as int).filter(keep),
                keep == (|it: ItemModel| it.0 != item.0),
            decreases k,
        {
            let ghost cur = items_model(self.attachments@);
            proof {
                assert(m.skip(k - 1) =~= seq![m[k - 1]] + m.skip(k as int));
                m.skip(k as int).lemma_filter_prepend(m[k - 1], keep);
                assert(cur[k - 1] == m[k - 1]);
            }
            if self.attachments[k - 1].0 == item.0 {
                let ghost old_v = self.attachments@;
                self.attachments.remove(k - 1);
                proof {
                    assert(self.attachments@ =~= old_v.remove(k - 1));
                    assert(items_model(self.attachments@) =~= cur.remove(k - 1));
                    assert(items_model(self.attachments@) =~= m.take(k - 1) + m.skip(k - 1).filter(keep));
                }
            } else {
                proof {
                    assert(items_model(self.attachments@) =~= m.take(k - 1) + m.skip(k - 1).filter(keep));
                }
            }
            k = k - 1;
        }
        proof {
            assert(m.take(0) =~= Seq::<ItemModel>::empty());
            assert(m.skip(0) =~= m);
            assert(items_model(self.attachments@) =~= m.filter(|it: ItemModel| it.0 != item.0));
        }
    }
}

/// How many characters field `f` takes.
pub open spec fn field_limit(f: ComposeField) -> nat {
    if f == ComposeField::Body {
        COMPOSE_MAX_CHARS as nat
    } else {
        200
    }
}

/// Most characters a draft field takes.
pub const COMPOSE_MAX_CHARS: usize = 1000;

/// `s` with `c` put at character position `cursor` (at the end when the cursor is
/// past it).
pub open spec fn inserted(s: Seq<char>, cursor: int, c: char) -> Seq<char> {
    let at = if cursor < s.len() { cursor } else { s.len() as int };
    s.take(at) + seq![c] + s.skip(at)
}

/// `s` with the character before position `cursor` taken out (the first one when
/// the cursor is past the end).
pub open spec fn backspaced(s: Seq<char>, cursor: int) -> Seq<char> {
    let at = if cursor - 1 < s.len() { cursor - 1 } else { 0 };
    s.take(at) + s.skip(at + 1)
}

/// The field `s` and cursor after putting `c` in at the cursor: nothing happens
/// when the field already holds `limit` characters.
pub open spec fn put_into(s: Seq<char>, cursor: int, c: char, limit: nat) -> (Seq<char>, int) {
    if s.len() < limit {
        (inserted(s, cursor, c), cursor + 1)
    } else {
        (s, cursor)
    }
}

/// The field `s` and cursor after putting the characters of `text` in one by one.
pub open spec fn put_all(s: Seq<char>, cursor: int, text: Seq<char>, limit: nat) -> (Seq<char>, int)
    decreases text.len(),
{
    if text.len() == 0 {
        (s, cursor)
    } else {
        let (s1, c1) = put_all(s, cursor, text.drop_last(), limit);
        put_into(s1, c1, text.last(), limit)
    }
}

/// The input method's composition as the "Write Mail" tab records it: each text
/// the composition showed, in order, so that a backspace can go back one step.
pub struct CompositionHistory {
    pub entries: Vec<String>,
}

/// The text a backspace brings back from the recorded compositions `h`: the one
/// before the last, or nothing when only one was recorded.
pub open spec fn previous_composition(h: Seq<Seq<char>>) -> Seq<char> {
    if h.len() >= 2 {
        h[h.len() - 2]
    } else {
        Seq::empty()
    }
}

impl CompositionHistory {
    /// An empty record.
    pub fn new() -> (r: CompositionHistory)
        ensures
            r.entries@.len() == 0,
    {
        CompositionHistory { entries: Vec::new() }
    }

    /// One frame of composing: a pressed backspace with something recorded
    /// cancels the composition, hands back the text to put in its place and
    /// empties the record; otherwise an empty composition empties the record and
    /// a new one is recorded when it differs from the last.
    pub fn step(&mut self, backspace: bool, current: &str) -> (r: Option<String>)
        ensures
            backspace && old(self).entries@.len() > 0 ==> {
                &&& r matches Some(t) && t@ == previous_composition(strings_model(old(self).entries@))
                &&& final(self).entries@.len() == 0
            },
            !(backspace && old(self).entries@.len() > 0) ==> {
                &&& r is None
                &&& strings_model(final(self).entries@) == if current@.len() == 0 {
                    Seq::<Seq<char>>::empty()
                } else if old(self).entries@.len() > 0 && strings_model(old(self).entries@).last() == current@ {
                    strings_model(old(self).entries@)
                } else {
                    strings_model(old(self).entries@).push(current@)
                }
            },
    {
        let n = self.entries.len();
        if backspace && n > 0 {
            let target = if n >= 2 {
                self.entries[n - 2].clone()
            } else {
                String::new()
            };
            self.entries = Vec::new();
            return Some(target);
        }
        if current.unicode_len() == 0 {
            self.entries = Vec::new();
            proof {
                assert(strings_model(self.entries@) =~= Seq::<Seq<char>>::empty());
            }
            return None;
        }
        if n > 0 && str_eq(self.entries[n - 1].as_str(), current) {
            return None;
        }
        let ghost e0 = self.entries@;
        self.entries.push(String::from_str(current));
        proof {
            assert(strings_model(self.entries@) =~= strings_model(e0).push(current@));
        }
        None
    }
}

/// Puts `c` at character position `*cursor` of `s` and moves the cursor past it,
/// unless `s` already holds `max_chars` characters.
pub fn insert_char_at(s: &mut String, cursor: &mut usize, c: char, max_chars: usize)
    requires
        old(s)@.len() < max_chars ==> *old(cursor) < usize::MAX,
    ensures
        old(s)@.len() >= max_chars ==> final(s)@ == old(s)@ && *final(cursor) == *old(cursor),
        old(s)@.len() < max_chars ==> final(s)@ == inserted(old(s)@, *old(cursor) as int, c)
            && *final(cursor) == *old(cursor) + 1,
{
    let n = s.unicode_len();
    if n >= max_chars {
        return;
    }
    let at = if *cursor < n { *cursor } else { n };
    let mut out = s.substring_char(0, at).to_owned();
    push_char(&mut out, c);
    out.append(s.substring_char(at, n));
    proof {
        assert(s@.subrange(0, at as int) =~= s@.take(at as int));
        assert(s@.subrange(at as int, n as int) =~= s@.skip(at as int));
    }
    *s = out;
    *cursor = *cursor + 1;
}

/// Takes out the character before character position `*cursor` of `s` (the first
/// one when the cursor is past the end) and moves the cursor back; nothing happens
/// at position 0.
pub fn backspace_at(s: &mut String, cursor: &mut usize)
    requires
        *old(cursor) == 0 || old(s)@.len() > 0,
    ensures
        *old(cursor) == 0 ==> final(s)@ == old(s)@ && *final(cursor) == 0,
        *old(cursor) > 0 ==> final(s)@ == backspaced(old(s)@, *old(cursor) as int) && *final(cursor)
            == *old(cursor) - 1,
{
    if *cursor == 0 {
        return;
    }
    let n = s.unicode_len();
    let at = if *cursor - 1 < n { *cursor - 1 } else { 0 };
    let mut out = s.substring_char(0, at).to_owned();
    out.append(s.substring_char(at + 1, n));
    proof {
        assert(s@.subrange(0, at as int) =~= s@.take(at as int));
        assert(s@.subrange(at + 1, n as int) =~= s@.skip(at + 1));
    }
    *s = out;
    *cursor = *cursor - 1;
}

/// A backspace right after typing a character takes that character out again and
/// puts the cursor back (while the field had room and the cursor was inside it).
pub proof fn law_backspace_undoes_insert(s: Seq<char>, cursor: int, c: char)
    requires
        0 <= cursor <= s.len(),
    ensures
        backspaced(inserted(s, cursor, c), cursor + 1) == s,
{
    let i = inserted(s, cursor, c);
    assert(i.take(cursor) + i.skip(cursor + 1) =~= s);
}

/// Whether `s` holds a character that is not white space.
pub open spec fn has_text(s: Seq<char>) -> bool {
    exists|i: int| 0 <= i < s.len() && !is_unicode_whitespace(#[trigger] s[i])
}

/// Whether `s` holds a character that is not white space (it is not empty once
/// trimmed).
pub fn not_blank(s: &str) -> (r: bool)
    ensures
        r == has_text(s@),
{
    let n = s.unicode_len();
    let mut i: usize = 0;
    while i < n
        invariant
            i <= n,
            n == s@.len(),
            forall|j: int| 0 <= j < i ==> is_unicode_whitespace(#[trigger] s@[j]),
        decreases n - i,
    {
        if !char_is_whitespace(s.get_char(i)) {
            assert(!is_unicode_whitespace(s@[i as int]));
            return true;
        }
        i = i + 1;
    }
    false
}

/// A copy of a list of items.
fn copy_items(v: &Vec<Item>) -> (r: Vec<Item>)
    ensures
        items_model(r@) == items_model(v@),
{
    let mut r: Vec<Item> = Vec::new();
    let mut i: usize = 0;
    while i < v.len()
        invariant
            i <= v.len(),
            items_model(r@) == items_model(v@.take(i as int)),
        decreases v.len() - i,
    {
        let ghost r0 = r@;
        let it = (v[i].0, v[i].1.clone(), v[i].2);
        r.push(it);
        i = i + 1;
        proof {
            assert(v@.take(i as int) =~= v@.take(i - 1).push(v@[i - 1]));
            assert(items_model(r@) =~= items_model(r0).push((v@[i - 1].0, v@[i - 1].1@, v@[i - 1].2)));
            assert(items_model(r@) =~= items_model(v@.take(i as int)));
        }
    }
    proof {
        assert(v@.take(v.len() as int) =~= v@);
    }
    r
}

/// The mail application's state.
pub struct MailApp {
    messages: Vec<MailMsg>,
    arrived: bool,
    hextool_id: FileId,
    built_lang: Language,
    folder: Option<MailFolder>,
    selected: Option<usize>,
    read: Vec<bool>,
    attachable: Vec<Item>,
    sent: Vec<SentMailView>,
    downloaded: Vec<bool>,
    downloading: Vec<bool>,
}

/// The value of the mail application's state.
pub struct MailModel {
    /// The inbox's mails.
    pub messages: Seq<MailMsg>,
    /// Whether the welcome mail has arrived.
    pub arrived: bool,
    /// The installer the welcome mail attaches.
    pub hextool_id: FileId,
    /// The language the inbox's texts are in.
    pub built_lang: Language,
    /// The chosen folder.
    pub folder: Option<MailFolder>,
    /// The chosen mail.
    pub selected: Option<usize>,
    /// The read flag of each inbox mail.
    pub read: Seq<bool>,
    /// The files a draft can attach.
    pub attachable: Seq<ItemModel>,
    /// The sent mails, as the Sent Items folder shows them.
    pub sent: Seq<SentMailView>,
    /// Whether each inbox mail's attachment was downloaded in this window.
    pub downloaded: Seq<bool>,
    /// Whether each inbox mail's attachment is being downloaded.
    pub downloading: Seq<bool>,
}

impl View for MailApp {
    type V = MailModel;

    closed spec fn view(&self) -> MailModel {
        MailModel {
            messages: self.messages@,
            arrived: self.arrived,
            hextool_id: self.hextool_id,
            built_lang: self.built_lang,
            folder: self.folder,
            selected: self.selected,
            read: self.read@,
            attachable: items_model(self.attachable@),
            sent: self.sent@,
            downloaded: self.downloaded@,
            downloading: self.downloading@,
        }
    }
}

/// How many entries of `read` are false.
pub open spec fn count_unread(read: Seq<bool>) -> nat
    decreases read.len(),
{
    if read.len() == 0 {
        0
    } else {
        count_unread(read.drop_last()) + if read.last() {
            0nat
        } else {
            1nat
        }
    }
}

/// A mail as the "Write Mail" tab sends it: receiver, subject, body, and the id
/// and name of each attachment.
pub type Outgoing = (String, String, String, Vec<(FileId, String)>);

/// The state after pressing "Download" on mail `i`: its download starts, unless
/// it has no attachment or it was downloaded or is being downloaded already.
pub open spec fn download_started(m: MailModel, i: int) -> MailModel {
    if 0 <= i < m.messages.len() && m.messages[i].attachment is Some && !m.downloaded[i] && !m.downloading[i] {
        MailModel { downloading: m.downloading.update(i, true), ..m }
    } else {
        m
    }
}

/// The state after the download delay of mail `i` ran out, and the file to put
/// into the Downloads tab: a running download is done and its attachment
/// reported; otherwise nothing happens.
pub open spec fn download_finished(m: MailModel, i: int) -> (MailModel, Option<FileId>) {
    if 0 <= i < m.messages.len() && m.downloading[i] && m.messages[i].attachment is Some {
        (
            MailModel { downloading: m.downloading.update(i, false), downloaded: m.downloaded.update(i, true), ..m },
            Some(m.messages[i].attachment.unwrap().0),
        )
    } else {
        (m, None)
    }
}

impl MailApp {
    /// The inbox holds the welcome mail exactly when it has arrived, with a read
    /// flag and download flags per mail.
    pub open spec fn wf(&self) -> bool {
        &&& self@.messages.len() == if self@.arrived { 1nat } else { 0nat }
        &&& self@.read.len() == self@.messages.len()
        &&& self@.downloaded.len() == self@.messages.len()
        &&& self@.downloading.len() == self@.messages.len()
    }

    /// The state a mail window opens in: the inbox holds the welcome mail once it
    /// has arrived, in `lang`; a mail is read when its index is in `read_indices`;
    /// nothing is downloaded; no folder and no mail is chosen.
    pub fn new(
        arrived: bool,
        read_indices: &Vec<usize>,
        attachable: Vec<Item>,
        sent: Vec<SentMailView>,
        hextool_id: FileId,
        lang: Language,
    ) -> (r: MailApp)
        ensures
            seeded(r@.messages, arrived, lang, hextool_id),
            r@.arrived == arrived,
            r@.hextool_id == hextool_id,
            r@.built_lang == lang,
            r@.read.len() == r@.messages.len(),
            forall|i: int| 0 <= i < r@.read.len() ==> r@.read[i] == read_indices@.contains(i as usize),
            r@.downloaded == Seq::new(r@.messages.len(), |i: int| false),
            r@.downloading == Seq::new(r@.messages.len(), |i: int| false),
            r@.folder is None,
            r@.selected is None,
            r@.sent == sent@,
            r@.attachable == items_model(attachable@),
            r.wf(),
    {
        let messages = seed_messages(arrived, lang, hextool_id);
        let n = messages.len();
        let mut read: Vec<bool> = Vec::new();
        let mut downloaded: Vec<bool> = Vec::new();
        let mut downloading: Vec<bool> = Vec::new();
        let mut i: usize = 0;
        while i < n
            invariant
                i <= n,
                read@.len() == i,
                downloaded@ == Seq::new(i as nat, |k: int| false),
                downloading@ == Seq::new(i as nat, |k: int| false),
                forall|j: int| 0 <= j < i ==> read@[j] == read_indices@.contains(j as usize),
            decreases n - i,
        {
            read.push(crate::ids::vec_contains(read_indices, i));
            downloaded.push(false);
            downloading.push(false);
            i = i + 1;
            proof {
                assert(downloaded@ =~= Seq::new(i as nat, |k: int| false));
                assert(downloading@ =~= Seq::new(i as nat, |k: int| false));
            }
        }
        MailApp {
            messages,
            arrived,
            hextool_id,
            built_lang: lang,
            folder: None,
            selected: None,
            read,
            attachable,
            sent,
            downloaded,
            downloading,
        }
    }

    /// The chosen mail.
    pub fn selected(&self) -> (r: Option<usize>)
        ensures
            r == self@.selected,
    {
        self.selected
    }

    /// Chooses mail `sel` of the open folder (the sent mails in Sent Items, the
    /// inbox otherwise); an index past the folder's end chooses nothing.
    pub fn set_selected(&mut self, sel: Option<usize>)
        ensures
            final(self)@ == (MailModel {
                selected: match sel {
                    Some(i) => if i < (if old(self)@.folder == Some(MailFolder::Sent) {
                        old(self)@.sent.len()
                    } else {
                        old(self)@.messages.len()
                    }) {
                        Some(i)
                    } else {
                        None
                    },
                    None => None,
                },
                ..old(self)@
            }),
    {
        let len = if self.folder == Some(MailFolder::Sent) {
            self.sent.len()
        } else {
            self.messages.len()
        };
        self.selected = match sel {
            Some(i) => if i < len {
                Some(i)
            } else {
                None
            },
            None => None,
        };
    }

    /// The position of the chosen folder in the tree.
    pub fn folder_idx(&self) -> (r: Option<usize>)
        ensures
            r == match self@.folder {
                Some(f) => Some(folder_index(f)),
                None => None,
            },
    {
        match self.folder {
            Some(MailFolder::Inbox) => Some(0),
            Some(MailFolder::Sent) => Some(1),
            Some(MailFolder::Compose) => Some(2),
            None => None,
        }
    }

    /// Chooses the folder at position `idx` of the tree (none for a position past
    /// its end).
    pub fn set_folder_idx(&mut self, idx: Option<usize>)
        ensures
            final(self)@ == (MailModel {
                folder: match idx {
                    Some(i) => folder_at(i as int),
                    None => None,
                },
                ..old(self)@
            }),
    {
        self.folder = match idx {
            Some(0) => Some(MailFolder::Inbox),
            Some(1) => Some(MailFolder::Sent),
            Some(2) => Some(MailFolder::Compose),
            _ => None,
        };
    }

    /// Chooses a folder in the tree; the chosen mail is let go.
    pub fn choose_folder(&mut self, folder: MailFolder)
        ensures
            final(self)@ == (MailModel { folder: Some(folder), selected: None, ..old(self)@ }),
    {
        self.folder = Some(folder);
        self.selected = None;
    }

    /// Replaces the files the draft can attach; everything else stays.
    pub fn refresh_attachable(&mut self, attachable: Vec<Item>)
        ensures
            final(self)@ == (MailModel { attachable: items_model(attachable@), ..old(self)@ }),
    {
        self.attachable = attachable;
    }

    /// Opens mail `i` of the inbox and marks it read.
    pub fn select(&mut self, i: usize)
        ensures
            final(self)@ == (MailModel {
                selected: Some(i),
                read: if i < old(self)@.read.len() {
                    old(self)@.read.update(i as int, true)
                } else {
                    old(self)@.read
                },
                ..old(self)@
            }),
    {
        self.selected = Some(i);
        if i < self.read.len() {
            self.read.set(i, true);
        }
    }

    /// How many inbox mails are unread.
    pub fn unread_count(&self) -> (r: usize)
        ensures
            r == count_unread(self@.read),
    {
        let mut n: usize = 0;
        let mut i: usize = 0;
        while i < self.read.len()
            invariant
                i <= self.read.len(),
                n == count_unread(self.read@.take(i as int)),
                n <= i,
            decreases self.read.len() - i,
        {
            proof {
                assert(self.read@.take(i + 1).drop_last() =~= self.read@.take(i as int));
            }
            if !self.read[i] {
                n = n + 1;
            }
            i = i + 1;
        }
        proof {
            assert(self.read@.take(self.read.len() as int) =~= self.read@);
        }
        n
    }

    /// Whether the attachment of mail `i` was downloaded in this window.
    pub fn is_downloaded(&self, i: usize) -> (r: bool)
        ensures
            r == (i < self@.downloaded.len() && self@.downloaded[i as int]),
    {
        i < self.downloaded.len() && self.downloaded[i]
    }

    /// Whether the attachment of mail `i` is being downloaded.
    pub fn is_downloading(&self, i: usize) -> (r: bool)
        ensures
            r == (i < self@.downloading.len() && self@.downloading[i as int]),
    {
        i < self.downloading.len() && self.downloading[i]
    }

    /// Presses "Download" on mail `i`.
    pub fn start_download(&mut self, i: usize)
        requires
            old(self).wf(),
        ensures
            final(self)@ == download_started(old(self)@, i as int),
            final(self).wf(),
    {
        if i < self.messages.len() && self.messages[i].attachment.is_some() && !self.downloaded[i]
            && !self.downloading[i] {
            self.downloading.set(i, true);
        }
    }

    /// The download delay of mail `i` ran out: a running download is done, and
    /// the attachment to put into the Downloads tab is handed back.
    pub fn finish_download(&mut self, i: usize) -> (r: Option<FileId>)
        requires
            old(self).wf(),
        ensures
            (final(self)@, r) == download_finished(old(self)@, i as int),
            final(self).wf(),
    {
        if i < self.messages.len() && self.downloading[i] {
            match &self.messages[i].attachment {
                Some((id, _)) => {
                    let id = *id;
                    self.downloading.set(i, false);
                    self.downloaded.set(i, true);
                    return Some(id);
                },
                None => {},
            }
        }
        None
    }

    /// Rebuilds the inbox's texts in the interface language `lang`.
    pub fn set_language(&mut self, lang: Language)
        requires
            old(self).wf(),
        ensures
            final(self).wf(),
            seeded(final(self)@.messages, old(self)@.arrived, lang, old(self)@.hextool_id),
            final(self)@ == (MailModel { messages: final(self)@.messages, built_lang: lang, ..old(self)@ }),
    {
        if lang != self.built_lang || self.messages.len() > 0 {
            self.messages = seed_messages(self.arrived, lang, self.hextool_id);
            self.built_lang = lang;
        }
    }

    /// Sends `draft` when it can be sent: it joins the sent mails, the draft is
    /// emptied, and the mail is handed back to be recorded.
    pub fn send_new_mail(&mut self, draft: &mut NewMailState) -> (r: Option<Outgoing>)
        ensures
            r is Some == old(draft).can_send_spec(),
            r matches Some(out) ==> {
                &&& out.0@ == old(draft).to@
                &&& out.1@ == old(draft).subject@
                &&& out.2@ == old(draft).body@
                &&& out.3@.map_values(|a: (FileId, String)| (a.0, a.1@)) == items_model(old(draft).attachments@).map_values(|it: ItemModel| (it.0, it.1))
                &&& final(self)@ == (MailModel { sent: final(self)@.sent, ..old(self)@ })
                &&& final(self)@.sent.len() == old(self)@.sent.len() + 1
                &&& final(self)@.sent.drop_last() == old(self)@.sent
                &&& final(self)@.sent.last().to@ == old(draft).to@
                &&& final(self)@.sent.last().subject@ == old(draft).subject@
                &&& final(self)@.sent.last().body@ == old(draft).body@
                &&& items_model(final(self)@.sent.last().attachments@) == items_model(old(draft).attachments@)
                &&& final(draft).to@.len() == 0 && final(draft).subject@.len() == 0 && final(draft).body@.len() == 0
                &&& final(draft).attachments@.len() == 0 && final(draft).cursor == 0
                &&& final(draft).active == ComposeField::To && !final(draft).picker_open
            },
            r is None ==> final(self)@ == old(self)@ && *final(draft) == *old(draft),
    {
        if !draft.can_send() {
            return None;
        }
        let to = draft.to.clone();
        let subject = draft.subject.clone();
        let body = draft.body.clone();
        let view_attachments = copy_items(&draft.attachments);
        let ghost want = items_model(draft.attachments@).map_values(|it: ItemModel| (it.0, it.1));
        let mut attachments: Vec<(FileId, String)> = Vec::new();
        let mut i: usize = 0;
        while i < draft.attachments.len()
            invariant
                i <= draft.attachments.len(),
                want == items_model(draft.attachments@).map_values(|it: ItemModel| (it.0, it.1)),
                attachments@.map_values(|a: (FileId, String)| (a.0, a.1@)) == want.take(i as int),
            decreases draft.attachments.len() - i,
        {
            let ghost a0 = attachments@;
            let a = &draft.attachments[i];
            let pair = (a.0, a.1.clone());
            attachments.push(pair);
            i = i + 1;
            proof {
                assert(want.take(i as int) =~= want.take(i - 1).push(want[i - 1]));
                assert(attachments@.map_values(|a: (FileId, String)| (a.0, a.1@)) =~= a0.map_values(
                    |a: (FileId, String)| (a.0, a.1@),
                ).push(want[i - 1]));
            }
        }
        proof {
            assert(want.take(want.len() as int) =~= want);
        }
        self.sent.push(
            SentMailView { to: to.clone(), subject: subject.clone(), body: body.clone(), attachments: view_attachments },
        );
        *draft = NewMailState::new();
        Some((to, subject, body, attachments))
    }
}

/// A mail's attachment is reported downloaded at most once: after its download
/// finished, pressing "Download" again starts nothing and no later finish reports
/// it again.
pub proof fn law_download_reported_once(m: MailModel, i: int)
    requires
        m.downloaded.len() == m.messages.len(),
        m.downloading.len() == m.messages.len(),
        download_finished(m, i).1 is Some,
    ensures
        download_started(download_finished(m, i).0, i) == download_finished(m, i).0,
        download_finished(download_finished(m, i).0, i).1 is None,
{
}

/// Choosing a folder by its position and reading the position back gives it again;
/// a position past the tree chooses no folder.
pub proof fn law_folder_index_roundtrip(i: usize, f: MailFolder)
    ensures
        folder_at(i as int) matches Some(g) ==> folder_index(g) == i,
        folder_at(i as int) is None <==> i >= 3,
        folder_at(folder_index(f) as int) == Some(f),
{
}

/// Opening an unread mail lowers the unread count by one; opening a read one
/// changes nothing.
pub proof fn law_select_marks_read(read: Seq<bool>, i: int)
    requires
        0 <= i < read.len(),
    ensures
        count_unread(read.update(i, true)) == if read[i] {
            count_unread(read)
        } else {
            (count_unread(read) - 1) as nat
        },
        count_unread(read.update(i, true)) <= count_unread(read),
    decreases read.len(),
{
    let u = read.update(i, true);
    let rd = read.drop_last();
    assert(u.last() == if i == read.len() - 1 { true } else { read.last() });
    if i < read.len() - 1 {
        law_select_marks_read(rd, i);
        assert(u.drop_last() =~= rd.update(i, true));
        assert(rd[i] == read[i]);
        if !read[i] {
            lemma_count_unread_le(rd);
            assert(!rd[i]);
        }
    } else {
        assert(u.drop_last() =~= rd);
    }
}

proof fn lemma_count_unread_le(read: Seq<bool>)
    ensures
        count_unread(read) <= read.len(),
        (exists|k: int| 0 <= k < read.len() && !read[k]) ==> count_unread(read) > 0,
    decreases read.len(),
{
    if read.len() > 0 {
        lemma_count_unread_le(read.drop_last());
        if exists|k: int| 0 <= k < read.len() && !read[k] {
            let k = choose|k: int| 0 <= k < read.len() && !read[k];
            if k < read.len() - 1 {
                assert(!read.drop_last()[k]);
            }
        }
    }
}

} // verus!
