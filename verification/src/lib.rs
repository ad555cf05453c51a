//! Decoders and encoders for the file formats of surface-based brain
//! morphometry: FreeSurfer surface meshes, per-vertex data, labels, brain
//! parcellations and MGH volumes.
//!
//! Every decoder works on bytes that are already in memory and states in its
//! contract which value it returns for which input. A 32-bit float is handled
//! as its IEEE-754 bit pattern, a `u32`, so that decoding and encoding are
//! exact on every value, the NaNs included.

pub mod endian;
pub mod error;
pub mod float;
pub mod fs_annot;
pub mod fs_curv;
pub mod fs_label;
pub mod fs_mgh;
pub mod fs_surface;
pub mod reader;
pub mod traits;
pub mod util;

pub use error::{ErrorKind, NeuroformatsError};
pub use fs_annot::{read_annot, FsAnnot, FsAnnotColorRegion, FsAnnotColortable};
pub use fs_curv::{read_curv, write_curv, FsCurv, FsCurvHeader};
pub use fs_label::{read_label, FsLabel, FsLabelText};
pub use fs_mgh::{
    read_mgh, FsMgh, FsMghData, FsMghHeader, RasGeometry, MRI_FLOAT, MRI_INT, MRI_SHORT, MRI_UCHAR,
};
pub use fs_surface::{
    coord_extrema, read_surf, write_surf, BrainMesh, FsSurface, FsSurfaceHeader,
};
pub use reader::ByteReader;
pub use traits::VertexColor;
pub use util::vec32minmax;
