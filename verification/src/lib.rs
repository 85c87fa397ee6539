//! The verified core of spela, a torrent-to-screen media server.
pub mod cast_health;
pub mod cast_laws;
pub mod collections;
pub mod disk_laws;
pub mod flow_laws;
pub mod hls;
pub mod hls_cache;
pub mod hls_laws;
pub mod hosts;
pub mod json;
pub mod ledger_laws;
pub mod local_bypass;
pub mod log_ring;
pub mod magnet;
pub mod magnet_laws;
pub mod number_laws;
pub mod numbers;
pub mod play_flow;
pub mod playback;
pub mod playback_laws;
pub mod reaper;
pub mod request_laws;
pub mod requests;
pub mod search;
pub mod serving_laws;
pub mod show_notes;
pub mod srt;
pub mod state;
pub mod state_laws;
pub mod static_files;
pub mod subtitle_laws;
pub mod subtitles;
pub mod text;
pub mod text_laws;
pub mod time;
pub mod title_laws;
pub mod titles;
pub mod torrent;
pub mod torrent_engine;
pub mod torrent_laws;
pub mod torrent_stream;
pub mod transcode;
pub mod transcode_laws;
pub mod validation;
