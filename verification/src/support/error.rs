use image::ImageError;
use vstd::prelude::*;

verus! {

/// Errors reported while loading BRender resources.
#[derive(Debug)]
pub enum Error {
    /// The stream ended before a value could be read completely.
    UnexpectedEof,
    /// A zero-terminated string did not hold valid UTF-8.
    InvalidUtf8,
    /// A chunk held a layout that the loader does not read.
    InvalidResourceFormat,
    /// A FILE_INFO chunk named another kind of file than the loader reads.
    InvalidFileType { expected: u32, received: u32 },
    /// The resource stack held nothing where a resource was expected.
    EmptyStack,
    /// The resource on top of the stack has another type than the one asked for,
    /// or a file held another kind of resource than the loader reads.
    InvalidResourceType,
    /// A model names a material that the material table does not hold.
    MissingMaterial { mat_name: String },
    /// A material names a pixelmap that the pixelmap table does not hold.
    MissingPixelMap { pm_name: String },
    /// The image encoder refused a pixelmap.
    Image(ImageError),
}

} // verus!
