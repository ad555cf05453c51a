//! The errors that decoding can end in.

use vstd::prelude::*;

verus! {

#[verifier::external_type_specification]
#[verifier::external_body]
pub struct ExIoError(std::io::Error);

/// What went wrong, without the details: one value for each variant of
/// [`NeuroformatsError`]. Contracts name errors by it, and it can be compared.
#[derive(Debug, Clone, Copy, PartialEq, Eq, Structural)]
pub enum ErrorKind {
    InvalidCurvFormat,
    InvalidFsSurfaceFormat,
    InvalidFsLabelFormat,
    InvalidWavefrontObjectFormat,
    UnsupportedFsAnnotFormatVersion,
    EmptyWavefrontObjectFile,
    InvalidFsMghFormat,
    UnsupportedMriDataTypeInMgh,
    NoRasInformationInHeader,
    VertexColorCountMismatch,
    Io,
}

/// The error type of this crate.
#[derive(Debug)]
pub enum NeuroformatsError {
    /// The magic number of a curv file is wrong.
    InvalidCurvFormat,
    /// The magic number of a surf file is wrong.
    InvalidFsSurfaceFormat,
    /// A label file whose lines do not follow the format, or whose declared
    /// number of entries differs from the number of its data lines.
    InvalidFsLabelFormat,
    /// A Wavefront object file in an unsupported dialect.
    InvalidWavefrontObjectFormat,
    /// An annot file without a color table, or with one in another version
    /// than 2.
    UnsupportedFsAnnotFormatVersion,
    /// A Wavefront object file without a mesh.
    EmptyWavefrontObjectFile,
    /// The version number of an MGH file is wrong.
    InvalidFsMghFormat,
    /// The data type code of an MGH file is none of the supported ones.
    UnsupportedMriDataTypeInMgh,
    /// The MGH header is not marked as holding valid RAS information.
    NoRasInformationInHeader,
    /// The number of vertex colors differs from the number of mesh vertices.
    VertexColorCountMismatch,
    /// The input ended early, or could not be decompressed.
    Io(std::io::Error),
}

/// Text of an I/O error, as `std::io::Error` displays it. Nothing is claimed
/// of the text.
#[verifier::external_body]
fn io_error_text(err: &std::io::Error) -> (text: String) {
    format!("{}", err)
}

impl From<std::io::Error> for NeuroformatsError {
    fn from(err: std::io::Error) -> (e: NeuroformatsError) {
        NeuroformatsError::Io(err)
    }
}

impl vstd::std_specs::convert::FromSpecImpl<std::io::Error> for NeuroformatsError {
    open spec fn obeys_from_spec() -> bool {
        true
    }

    open spec fn from_spec(err: std::io::Error) -> NeuroformatsError {
        NeuroformatsError::Io(err)
    }
}

impl NeuroformatsError {
    /// The kind of this error.
    pub open spec fn kind_of(&self) -> ErrorKind {
        match self {
            NeuroformatsError::InvalidCurvFormat => ErrorKind::InvalidCurvFormat,
            NeuroformatsError::InvalidFsSurfaceFormat => ErrorKind::InvalidFsSurfaceFormat,
            NeuroformatsError::InvalidFsLabelFormat => ErrorKind::InvalidFsLabelFormat,
            NeuroformatsError::InvalidWavefrontObjectFormat => {
                ErrorKind::InvalidWavefrontObjectFormat
            },
            NeuroformatsError::UnsupportedFsAnnotFormatVersion => {
                ErrorKind::UnsupportedFsAnnotFormatVersion
            },
            NeuroformatsError::EmptyWavefrontObjectFile => ErrorKind::EmptyWavefrontObjectFile,
            NeuroformatsError::InvalidFsMghFormat => ErrorKind::InvalidFsMghFormat,
            NeuroformatsError::UnsupportedMriDataTypeInMgh => {
                ErrorKind::UnsupportedMriDataTypeInMgh
            },
            NeuroformatsError::NoRasInformationInHeader => ErrorKind::NoRasInformationInHeader,
            NeuroformatsError::VertexColorCountMismatch => ErrorKind::VertexColorCountMismatch,
            NeuroformatsError::Io(_) => ErrorKind::Io,
        }
    }

    /// The kind of this error.
    #[verifier::when_used_as_spec(kind_of)]
    pub fn kind(&self) -> (k: ErrorKind)
        ensures
            k == self.kind_of(),
    {
        match self {
            NeuroformatsError::InvalidCurvFormat => ErrorKind::InvalidCurvFormat,
            NeuroformatsError::InvalidFsSurfaceFormat => ErrorKind::InvalidFsSurfaceFormat,
            NeuroformatsError::InvalidFsLabelFormat => ErrorKind::InvalidFsLabelFormat,
            NeuroformatsError::InvalidWavefrontObjectFormat => {
                ErrorKind::InvalidWavefrontObjectFormat
            },
            NeuroformatsError::UnsupportedFsAnnotFormatVersion => {
                ErrorKind::UnsupportedFsAnnotFormatVersion
            },
            NeuroformatsError::EmptyWavefrontObjectFile => ErrorKind::EmptyWavefrontObjectFile,
            NeuroformatsError::InvalidFsMghFormat => ErrorKind::InvalidFsMghFormat,
            NeuroformatsError::UnsupportedMriDataTypeInMgh => {
                ErrorKind::UnsupportedMriDataTypeInMgh
            },
            NeuroformatsError::NoRasInformationInHeader => ErrorKind::NoRasInformationInHeader,
            NeuroformatsError::VertexColorCountMismatch => ErrorKind::VertexColorCountMismatch,
            NeuroformatsError::Io(_) => ErrorKind::Io,
        }
    }

    /// A short description for people.
    pub fn message(&self) -> (text: String)
        ensures
            *self is InvalidCurvFormat ==> text@ == "Invalid Curv file"@,
            *self is InvalidFsSurfaceFormat ==> text@ == "Invalid FreeSurfer surf file"@,
            *self is InvalidFsLabelFormat ==> text@ == "Invalid FreeSurfer label file"@,
            *self is InvalidWavefrontObjectFormat ==> text@
                == "Invalid Wavefront Object format file or unsupported dialect"@,
            *self is UnsupportedFsAnnotFormatVersion ==> text@
                == "Unsupported FreeSurfer annot file format version"@,
            *self is EmptyWavefrontObjectFile ==> text@
                == "The Wavefront Object mesh file does not contain a mesh"@,
            *self is InvalidFsMghFormat ==> text@ == "Invalid FreeSurfer MGH file"@,
            *self is UnsupportedMriDataTypeInMgh ==> text@ == "Invalid or unsupported MRI_DTYPE"@,
            *self is NoRasInformationInHeader ==> text@
                == "The MGH header does not contain valid RAS information."@,
            *self is VertexColorCountMismatch ==> text@
                == "The number of vertex colors does not match the number of vertices"@,
    {
        match self {
            NeuroformatsError::InvalidCurvFormat => "Invalid Curv file".to_owned(),
            NeuroformatsError::InvalidFsSurfaceFormat => "Invalid FreeSurfer surf file".to_owned(),
            NeuroformatsError::InvalidFsLabelFormat => "Invalid FreeSurfer label file".to_owned(),
            NeuroformatsError::InvalidWavefrontObjectFormat => {
                "Invalid Wavefront Object format file or unsupported dialect".to_owned()
            },
            NeuroformatsError::UnsupportedFsAnnotFormatVersion => {
                "Unsupported FreeSurfer annot file format version".to_owned()
            },
            NeuroformatsError::EmptyWavefrontObjectFile => {
                "The Wavefront Object mesh file does not contain a mesh".to_owned()
            },
            NeuroformatsError::InvalidFsMghFormat => "Invalid FreeSurfer MGH file".to_owned(),
            NeuroformatsError::UnsupportedMriDataTypeInMgh => {
                "Invalid or unsupported MRI_DTYPE".to_owned()
            },
            NeuroformatsError::NoRasInformationInHeader => {
                "The MGH header does not contain valid RAS information.".to_owned()
            },
            NeuroformatsError::VertexColorCountMismatch => {
                "The number of vertex colors does not match the number of vertices".to_owned()
            },
            NeuroformatsError::Io(err) => io_error_text(err),
        }
    }
}

} // verus!
