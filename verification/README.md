# crackhead

The logic of PalaceOS, a retro desktop game, as a library verified with Verus.

- `src/foundation.rs`: the pretend file system (files, folders, locked files,
  downloads, the recycle bin) and the names shown for its system entries.
- `src/listing.rs`, `src/explorer.rs`, `src/launch.rs`: the file lists the
  windows show, the File Explorer's tabs and tree, and what opening a file does.
- `src/mail.rs`, `src/password.rs`, `src/installer.rs`, `src/recycle_bin.rs`,
  `src/photos.rs`, `src/image_viewer.rs`, `src/video_player.rs`, `src/ime.rs`:
  the state and decisions of the applications.
- `src/riff.rs`, `src/frames.rs`: the recorder's WAV and MJPEG AVI files and its
  frames.
- `src/strings.rs`, `src/text.rs`, `src/ids.rs`, `src/icons.rs`: texts, string
  and id-list helpers, icons.

`app/` holds the program around the library: the save files, the photo folder
on disk and the recorder's file output.
