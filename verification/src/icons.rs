//! The icon each kind of file is drawn with.
use vstd::prelude::*;

use crate::foundation::{FileKind, FileNode, KindModel, NodeModel, RECYCLE_BIN_NAME};
use crate::text::str_eq;

verus! {

/// An icon of the desktop and of the file lists.
#[derive(Clone, Copy, Debug, PartialEq, Eq, Structural)]
pub enum IconType {
    Text,
    Video,
    Image,
    Lock,
    Folder,
    RecycleEmpty,
    RecycleFull,
    Mail,
    Envelope,
    Computer,
    Tar,
    Installer,
    HexTool,
    Photos,
    Deleted,
}

/// The icon of node `n`: the recycle bin shows whether it is empty, any other
/// node is drawn by its kind.
pub open spec fn icon_for(n: NodeModel) -> IconType {
    match n.kind {
        KindModel::Txt(_) => IconType::Text,
        KindModel::Mp4 => IconType::Video,
        KindModel::Img(_) => IconType::Image,
        KindModel::Lock { .. } => IconType::Lock,
        KindModel::Folder { children } => if n.name == RECYCLE_BIN_NAME@ {
            if children.len() == 0 {
                IconType::RecycleEmpty
            } else {
                IconType::RecycleFull
            }
        } else {
            IconType::Folder
        },
        KindModel::Mail { .. } => IconType::Mail,
        KindModel::Explorer => IconType::Computer,
        KindModel::Tar => IconType::Tar,
        KindModel::Installer => IconType::Installer,
        KindModel::HexTool => IconType::HexTool,
        KindModel::PhotoGallery => IconType::Photos,
        KindModel::Photo(_) => IconType::Image,
        KindModel::Deleted => IconType::Deleted,
    }
}

/// The icon of `node`.
pub fn icon_of(node: &FileNode) -> (icon: IconType)
    ensures
        icon == icon_for(node@),
{
    match &node.kind {
        FileKind::Txt(_) => IconType::Text,
        FileKind::Mp4 => IconType::Video,
        FileKind::Img(_) => IconType::Image,
        FileKind::Lock { .. } => IconType::Lock,
        FileKind::Folder { children } => {
            if str_eq(node.name.as_str(), RECYCLE_BIN_NAME) {
                if children.len() == 0 {
                    IconType::RecycleEmpty
                } else {
                    IconType::RecycleFull
                }
            } else {
                IconType::Folder
            }
        },
        FileKind::Mail { .. } => IconType::Mail,
        FileKind::Explorer => IconType::Computer,
        FileKind::Tar => IconType::Tar,
        FileKind::Installer => IconType::Installer,
        FileKind::HexTool => IconType::HexTool,
        FileKind::PhotoGallery => IconType::Photos,
        FileKind::Photo(_) => IconType::Image,
        FileKind::Deleted => IconType::Deleted,
    }
}

} // verus!
