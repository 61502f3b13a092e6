//! Verified core logic of a desktop audio player: queue state, library tree
//! ordering, search query parsing and the binary bridge protocol.
pub mod text;
pub mod queue;
pub mod natural;
pub mod sorting;
pub mod codec;
pub mod modes;
pub mod search;
pub mod library_tree;
pub mod search_query;
pub mod fts_query;
pub mod lastfm;
pub mod scrobbling;
pub mod numbers;
pub mod settings;
pub mod analysis_frame;
pub mod session;
pub mod session_file;
pub mod library;
pub mod metadata;
pub mod bridge;
pub mod settings_control;
pub mod lastfm_service;
pub mod lastfm_request;
pub mod case_fold;
pub mod fuzzy;
pub mod ranking;
pub mod search_context;
pub mod match_detail;
pub mod search_prepare;
pub mod search_rows;
pub mod search_walk;
pub mod search_finalize;
pub mod tree_keys;
pub mod tree_build;
pub mod collection;
pub mod path_map;
pub mod queue_details;
pub mod library_updates;
pub mod sections;
pub mod library_commands;
pub mod queue_section;
pub mod bridge_loop;
pub mod imports;
pub mod playback_events;
pub mod snapshot_packet;
pub mod album_art;
pub mod search_worker;
pub mod queue_validation;
pub mod spectrogram_chunk;
