//! Providers: the process adapters that run local commands, the system voice,
//! and the helpers of the cloud gateways.

pub mod common;
pub mod local_asr;
pub mod local_image_gen;
pub mod local_video_gen;
pub mod local_tts;
pub mod system_tts;
pub mod liter_llm;
pub mod openai_compat;
pub mod cloud_video_gen;
pub mod streaming;
pub mod encoding;
pub mod ollama;
pub mod cloud_music_gen;
pub mod video_task;
