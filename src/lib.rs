pub mod apple_music;
pub mod config;
pub mod decimal;
pub mod dispatch;
pub mod icon;
pub mod lastfm;
pub mod listenbrainz;
pub mod media_monitor;
pub mod scrobbler;
pub mod text_cleanup;
pub mod track;
pub mod ui;
