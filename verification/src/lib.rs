pub mod explorer;
pub mod foundation;
pub mod frames;
pub mod hextool;
pub mod icons;
pub mod ids;
pub mod image_viewer;
pub mod ime;
pub mod installer;
pub mod launch;
pub mod listing;
pub mod mail;
pub mod password;
pub mod photos;
pub mod recycle_bin;
pub mod riff;
pub mod strings;
pub mod text;
pub mod video_player;
