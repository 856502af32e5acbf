//! Incremental rendering of a growing markdown stream into a terminal
//! transcript.
//!
//! Text arrives in small deltas. What is rendered from it falls into a
//! stable region, which is queued for animated reveal and then frozen in
//! the transcript, and a mutable tail, which is derived anew from the
//! source on every update. A pipe table keeps everything behind the
//! emitted lines in the tail for as long as it may still change its shape.
//!
//! - [`streaming::controller`] holds the stream controllers and the buffer
//!   they share; [`streaming::model`] states what a stream is as a
//!   mathematical state, and proves what holds of every run of it;
//!   [`streaming::holdback`] decides whether a table holds the source back.
//! - [`table_detect`] recognizes the rows of pipe tables; [`markdown`]
//!   prepares the source of an agent for rendering; [`markdown_stream`]
//!   collects deltas into newline-complete source.
//! - [`text`] holds the operations on strings that all of these rest on.
//! - [`keymap`], [`theme`], [`config`], [`cwd_prompt`], [`onboarding`],
//!   [`theme_picker`] and [`render`] hold the rules of the interface
//!   around the transcript: key bindings, themes, two prompts, and the
//!   highlighting of code.
//!
//! The markdown renderer is not part of this crate. A controller is built
//! with a function from source and width to styled lines, and every
//! contract states what holds whatever that function returns.

pub mod config;
pub mod cwd_prompt;
pub mod keymap;
pub mod line;
pub mod markdown;
pub mod markdown_stream;
pub mod onboarding;
pub mod render;
pub mod streaming;
pub mod table_detect;
pub mod text;
pub mod theme;
pub mod theme_picker;
