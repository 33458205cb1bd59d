//! VEAC, "Video Editing as Code": a compiler from a small declarative
//! language for video edits to FFmpeg commands, with its lexer, parser,
//! semantic analysis and command generation proved against their contracts.
pub mod text;
pub mod split;
pub mod fixed;
pub mod token;
pub mod error;
pub mod lexer;
pub mod ast;
pub mod parser_spec;
pub mod parser;
pub mod ir_kinds;
pub mod ir;
pub mod semantic_spec;
pub mod semantic;
pub mod resolve_clip;
pub mod resolve_items;
pub mod filter_graph;
pub mod filters;
pub mod clips_spec;
pub mod clips;
pub mod overlays;
pub mod ffmpeg_spec;
pub mod ffmpeg;
pub mod pipeline;
pub mod progress;
pub mod batch;
pub mod laws;
pub mod behaviour_laws;
