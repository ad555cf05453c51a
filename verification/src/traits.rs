//! Traits for data that can color the vertices of a mesh.

use vstd::prelude::*;

verus! {

/// Per-vertex colors as bytes, vertex by vertex.
pub trait VertexColor {
    /// Red, green and blue of each vertex.
    fn vertex_color_rgb(&self) -> Vec<u8>;

    /// Red, green, blue and alpha of each vertex.
    fn vertex_color_rgba(&self) -> Vec<u8>;
}

} // verus!
