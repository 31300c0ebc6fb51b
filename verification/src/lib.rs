//! Verified core of a quantum-circuit diagram designer: the circuit grid
//! model, gate bookkeeping, theme settings, the content-addressed SVG store
//! and the text processing around the LaTeX label pipeline.

pub mod coordinate;
pub mod gate_id;
pub mod gate_type;
pub mod text;
pub mod gate;
pub mod circuit;
pub mod app_settings;
pub mod svg_store;
pub mod assets;
pub mod tex_tokens;
pub mod latex;
