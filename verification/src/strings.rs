//! Interface texts in each language.
use vstd::prelude::*;

pub use crate::foundation::Language;

verus! {

/// The texts the library itself picks a language for.
#[derive(Clone, Copy, Debug, PartialEq, Eq, Structural)]
pub enum Label {
    Downloads,
    Desktop,
    Videos,
    Images,
    MyComputer,
    RecycleBin,
    Mail,
    Deleted,
    Inbox,
    SentItems,
    WriteMail,
    StepCopying,
    StepRegistering,
    StepUpdating,
    StepVerifying,
    StepFinalizing,
    LicenseText,
}

/// The text of `label` in `lang`.
pub open spec fn label_text(lang: Language, label: Label) -> Seq<char> {
    match (label, lang) {
        (Label::Downloads, Language::En) => "Downloads"@,
        (Label::Downloads, Language::Ko) => "다운로드"@,
        (Label::Downloads, Language::Ja) => "ダウンロード"@,
        (Label::Desktop, Language::En) => "Desktop"@,
        (Label::Desktop, Language::Ko) => "바탕 화면"@,
        (Label::Desktop, Language::Ja) => "デスクトップ"@,
        (Label::Videos, Language::En) => "Videos"@,
        (Label::Videos, Language::Ko) => "동영상"@,
        (Label::Videos, Language::Ja) => "ビデオ"@,
        (Label::Images, Language::En) => "Images"@,
        (Label::Images, Language::Ko) => "이미지"@,
        (Label::Images, Language::Ja) => "画像"@,
        (Label::MyComputer, Language::En) => "My Computer"@,
        (Label::MyComputer, Language::Ko) => "내 컴퓨터"@,
        (Label::MyComputer, Language::Ja) => "マイ コンピュータ"@,
        (Label::RecycleBin, Language::En) => "Recycle Bin"@,
        (Label::RecycleBin, Language::Ko) => "휴지통"@,
        (Label::RecycleBin, Language::Ja) => "ごみ箱"@,
        (Label::Mail, Language::En) => "Mail"@,
        (Label::Mail, Language::Ko) => "메일"@,
        (Label::Mail, Language::Ja) => "メール"@,
        (Label::Deleted, Language::En) => "(deleted)"@,
        (Label::Deleted, Language::Ko) => "(삭제됨)"@,
        (Label::Deleted, Language::Ja) => "(削除済み)"@,
        (Label::Inbox, Language::En) => "Inbox"@,
        (Label::Inbox, Language::Ko) => "받은 편지함"@,
        (Label::Inbox, Language::Ja) => "受信トレイ"@,
        (Label::SentItems, Language::En) => "Sent Items"@,
        (Label::SentItems, Language::Ko) => "보낸 편지함"@,
        (Label::SentItems, Language::Ja) => "送信済みアイテム"@,
        (Label::WriteMail, Language::En) => "Write Mail"@,
        (Label::WriteMail, Language::Ko) => "메일 쓰기"@,
        (Label::WriteMail, Language::Ja) => "メールの作成"@,
        (Label::StepCopying, Language::En) => "Copying files..."@,
        (Label::StepCopying, Language::Ko) => "파일 복사 중..."@,
        (Label::StepCopying, Language::Ja) => "ファイルをコピーしています..."@,
        (Label::StepRegistering, Language::En) => "Registering components..."@,
        (Label::StepRegistering, Language::Ko) => "구성 요소 등록 중..."@,
        (Label::StepRegistering, Language::Ja) => "コンポーネントを登録しています..."@,
        (Label::StepUpdating, Language::En) => "Updating system settings..."@,
        (Label::StepUpdating, Language::Ko) => "시스템 설정 업데이트 중..."@,
        (Label::StepUpdating, Language::Ja) => "システム設定を更新しています..."@,
        (Label::StepVerifying, Language::En) => "Verifying installation..."@,
        (Label::StepVerifying, Language::Ko) => "설치 확인 중..."@,
        (Label::StepVerifying, Language::Ja) => "インストールを確認しています..."@,
        (Label::StepFinalizing, Language::En) => "Finalizing..."@,
        (Label::StepFinalizing, Language::Ko) => "마무리 중..."@,
        (Label::StepFinalizing, Language::Ja) => "完了処理をしています..."@,
        (Label::LicenseText, Language::En) => "HEXTOOL LICENSE AGREEMENT\n\nThis program is provided as is, without warranty of any kind.\n\nYou may use it to view the raw contents of files on this computer. You may not hold the authors responsible for anything you find there.\n\nBy installing the program you accept these terms."@,
        (Label::LicenseText, Language::Ko) => "HEXTOOL 사용권 계약\n\n이 프로그램은 어떠한 보증도 없이 있는 그대로 제공됩니다.\n\n이 컴퓨터에 있는 파일의 원래 내용을 보는 데 사용할 수 있습니다. 그 안에서 무엇을 발견하든 제작자에게 책임을 물을 수 없습니다.\n\n프로그램을 설치하면 이 약관에 동의하는 것으로 봅니다."@,
        (Label::LicenseText, Language::Ja) => "HEXTOOL 使用許諾契約\n\nこのプログラムは現状のまま提供され、いかなる保証もありません。\n\nこのコンピュータ上のファイルの生の内容を見るために使用できます。そこで何を見つけても、作者は責任を負いません。\n\nプログラムをインストールすると、この条件に同意したものとみなされます。"@,
    }
}

/// The text of `label` in `lang`.
pub fn t(lang: Language, label: Label) -> (r: &'static str)
    ensures
        r@ == label_text(lang, label),
{
    match (label, lang) {
        (Label::Downloads, Language::En) => "Downloads",
        (Label::Downloads, Language::Ko) => "다운로드",
        (Label::Downloads, Language::Ja) => "ダウンロード",
        (Label::Desktop, Language::En) => "Desktop",
        (Label::Desktop, Language::Ko) => "바탕 화면",
        (Label::Desktop, Language::Ja) => "デスクトップ",
        (Label::Videos, Language::En) => "Videos",
        (Label::Videos, Language::Ko) => "동영상",
        (Label::Videos, Language::Ja) => "ビデオ",
        (Label::Images, Language::En) => "Images",
        (Label::Images, Language::Ko) => "이미지",
        (Label::Images, Language::Ja) => "画像",
        (Label::MyComputer, Language::En) => "My Computer",
        (Label::MyComputer, Language::Ko) => "내 컴퓨터",
        (Label::MyComputer, Language::Ja) => "マイ コンピュータ",
        (Label::RecycleBin, Language::En) => "Recycle Bin",
        (Label::RecycleBin, Language::Ko) => "휴지통",
        (Label::RecycleBin, Language::Ja) => "ごみ箱",
        (Label::Mail, Language::En) => "Mail",
        (Label::Mail, Language::Ko) => "메일",
        (Label::Mail, Language::Ja) => "メール",
        (Label::Deleted, Language::En) => "(deleted)",
        (Label::Deleted, Language::Ko) => "(삭제됨)",
        (Label::Deleted, Language::Ja) => "(削除済み)",
        (Label::Inbox, Language::En) => "Inbox",
        (Label::Inbox, Language::Ko) => "받은 편지함",
        (Label::Inbox, Language::Ja) => "受信トレイ",
        (Label::SentItems, Language::En) => "Sent Items",
        (Label::SentItems, Language::Ko) => "보낸 편지함",
        (Label::SentItems, Language::Ja) => "送信済みアイテム",
        (Label::WriteMail, Language::En) => "Write Mail",
        (Label::WriteMail, Language::Ko) => "메일 쓰기",
        (Label::WriteMail, Language::Ja) => "メールの作成",
        (Label::StepCopying, Language::En) => "Copying files...",
        (Label::StepCopying, Language::Ko) => "파일 복사 중...",
        (Label::StepCopying, Language::Ja) => "ファイルをコピーしています...",
        (Label::StepRegistering, Language::En) => "Registering components...",
        (Label::StepRegistering, Language::Ko) => "구성 요소 등록 중...",
        (Label::StepRegistering, Language::Ja) => "コンポーネントを登録しています...",
        (Label::StepUpdating, Language::En) => "Updating system settings...",
        (Label::StepUpdating, Language::Ko) => "시스템 설정 업데이트 중...",
        (Label::StepUpdating, Language::Ja) => "システム設定を更新しています...",
        (Label::StepVerifying, Language::En) => "Verifying installation...",
        (Label::StepVerifying, Language::Ko) => "설치 확인 중...",
        (Label::StepVerifying, Language::Ja) => "インストールを確認しています...",
        (Label::StepFinalizing, Language::En) => "Finalizing...",
        (Label::StepFinalizing, Language::Ko) => "마무리 중...",
        (Label::StepFinalizing, Language::Ja) => "完了処理をしています...",
        (Label::LicenseText, Language::En) => "HEXTOOL LICENSE AGREEMENT\n\nThis program is provided as is, without warranty of any kind.\n\nYou may use it to view the raw contents of files on this computer. You may not hold the authors responsible for anything you find there.\n\nBy installing the program you accept these terms.",
        (Label::LicenseText, Language::Ko) => "HEXTOOL 사용권 계약\n\n이 프로그램은 어떠한 보증도 없이 있는 그대로 제공됩니다.\n\n이 컴퓨터에 있는 파일의 원래 내용을 보는 데 사용할 수 있습니다. 그 안에서 무엇을 발견하든 제작자에게 책임을 물을 수 없습니다.\n\n프로그램을 설치하면 이 약관에 동의하는 것으로 봅니다.",
        (Label::LicenseText, Language::Ja) => "HEXTOOL 使用許諾契約\n\nこのプログラムは現状のまま提供され、いかなる保証もありません。\n\nこのコンピュータ上のファイルの生の内容を見るために使用できます。そこで何を見つけても、作者は責任を負いません。\n\nプログラムをインストールすると、この条件に同意したものとみなされます。",
    }
}

} // verus!
