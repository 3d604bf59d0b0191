//! Type-checked HTML templates: escaping, rendering buffers, and the
//! compiler that turns Maud or rsx markup into HTML fragments.
pub mod checks;
pub mod compile;
pub mod component;
pub mod context;
pub mod derive;
pub mod escape;
pub mod generate;
mod impls;
pub mod names;
pub mod node;
pub mod number;
pub mod parse;
pub mod render;
pub mod text;
pub mod tokens;
pub mod unindent;
pub mod validation;
pub mod written;

pub use render::{
    AttributeBuffer, Buffer, Debugged, Displayed, Raw, RawAttribute, Renderable, RenderableExt,
    Rendered,
};
