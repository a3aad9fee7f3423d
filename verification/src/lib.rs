//! Capture card preview and LAN relay: the rules behind it.
pub mod audio;
pub mod audio_state;
pub mod bytes;
pub mod camera_format;
pub mod capture;
pub mod capture_panel;
pub mod config;
pub mod devices;
pub mod frame;
pub mod h264_encoder;
pub mod i18n;
pub mod icon;
pub mod layout;
pub mod nal;
pub mod nal_laws;
pub mod panel;
pub mod perf;
pub mod picture;
pub mod playback;
pub mod preview;
pub mod relay;
pub mod ring;
pub mod settings;
pub mod stream_laws;
pub mod text;
pub mod video_stream;
