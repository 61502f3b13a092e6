# ferrous

The core of a desktop audio player, written in Verus: what the player's
bridge decides, with each decision stated as a contract and proved.

- `src/` is the verified library. Queue commands (`queue`), settings and
  their text file (`settings`, `settings_control`), the saved session
  and its file (`session`, `session_file`), track metadata
  (`metadata`), the library tree (`library_tree`, `tree_build`,
  `tree_keys`, `collection`), search (`search*`, `ranking`, `fts_query`,
  `match_detail`), the binary bridge protocol (`bridge`, `codec`,
  `sections`, `queue_section`, `snapshot_packet`, `analysis_frame`,
  `spectrogram_chunk`), details of queued files (`queue_details`,
  `library_updates`, `queue_validation`, `album_art`), the bridge loop's
  timetable (`bridge_loop`), the player's events (`playback_events`),
  imports and playlists (`imports`), and Last.fm scrobbling (`lastfm`,
  `scrobbling`, `lastfm_service`, `lastfm_request`). Artwork relevance
  compares case-folded text (`fuzzy`, `case_fold`).
- Paths are compared as `PathBuf` compares them, by their components
  (`path_map`).
- Floating-point values cross the library as the bits of their `f32` or
  `f64`; clamping them is done on the bits, other arithmetic on them by the
  caller.
- `app/` is a small command-line front end: reading and writing the
  configuration files, and running the Last.fm service over the network
  and the keyring.
- `tests/` runs the library on concrete values.
