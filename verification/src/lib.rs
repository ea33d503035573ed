//! An adapter between a client that speaks the Agent Client Protocol and a coding
//! agent that runs as a child process and speaks newline-delimited JSON.
//!
//! - Values and texts: [`strs`], [`json`], [`members`], [`strmap`], [`uuid`].
//! - The child: [`process`] starts and ends it, [`codec`] reads its lines,
//!   [`dispatch`] sorts them, [`control`] holds the requests in both directions.
//! - Sessions: [`turn`] settles each prompt once, [`feed`] feeds frames to the
//!   turns, [`session`] keeps the prompts in order.
//! - The client: [`acp`] holds the protocol's types, [`tools`], [`stream_input`],
//!   [`map`] and [`permission`] build its updates and requests, [`agent`] answers
//!   its requests.
//! - Recordings: [`frames`], [`script`] and [`recorder`] drive an agent and keep
//!   what passes, [`transcript`] and [`replay`] play a child back.
//! - What holds of them: [`turn_laws`], [`result_laws`] and [`course_laws`] of the
//!   turns, [`map_laws`], [`shown_laws`] and [`tool_laws`] of what a client is shown,
//!   [`permission_laws`], [`agent_laws`], [`prompt_laws`] and [`answer_laws`] of its
//!   requests, [`child_laws`] of the child, [`recording_laws`] and [`playback_laws`]
//!   of recordings, [`text_laws`] of texts and values.

pub mod strs;
pub mod json;
pub mod strmap;
pub mod uuid;
pub mod turn;
pub mod turn_laws;
pub mod result_laws;
pub mod codec;
pub mod dispatch;
pub mod acp;
pub mod tools;
pub mod tool_laws;
pub mod stream_input;
pub mod map;
pub mod map_laws;
pub mod permission;
pub mod permission_laws;
pub mod process;
pub mod control;
pub mod child_laws;
pub mod session;
pub mod feed;
pub mod course_laws;
pub mod shown_laws;
pub mod agent;
pub mod agent_laws;
pub mod prompt_laws;
pub mod answer_laws;
pub mod frames;
pub mod members;
pub mod script;
pub mod recorder;
pub mod transcript;
pub mod replay;
pub mod recording_laws;
pub mod playback_laws;
pub mod text_laws;
