//! Errors of decoding assets and of resolving grid symbols.

use vstd::prelude::*;

verus! {

/// Why an atlas, an entity descriptor or a level could not be decoded.
#[derive(Clone, Copy, Debug, PartialEq, Eq, Structural)]
pub enum DecodeError {
    /// The machine word is too narrow for the bitmap decoder.
    UnsupportedTarget,
    /// The byte stream is not a bitmap that the decoder accepts, or it lacks pixels.
    MalformedBitmap,
    /// The bitmap's width or height is not a multiple of the tile size.
    BadDimensions,
    /// The descriptor is not ASCII text, is too long, or holds a run of more
    /// than nine digits.
    UnsupportedText,
    /// The descriptor is not JSON.
    MalformedJson,
    /// The descriptor is not an object with the fields of a cell entity.
    BadDescriptor,
    /// A level resource does not have the length of a level grid.
    BadLevelSize,
    /// A cell refers to a tile that the atlas does not hold.
    TileOutOfRange,
}

/// A grid symbol for which no entity descriptor has been loaded.
#[derive(Clone, Copy, Debug, PartialEq, Eq, Structural)]
pub struct UnknownSymbolError {
    pub symbol: char,
}

/// Why a level could not be built from its two resources.
#[derive(Clone, Copy, Debug, PartialEq, Eq, Structural)]
pub enum LevelError {
    Decode(DecodeError),
    UnknownSymbol(UnknownSymbolError),
}

/// The directory (`None` for the root of the volume) and the name of a file,
/// as plain values.
pub struct ResourceName {
    pub directory: Option<Seq<char>>,
    pub name: Seq<char>,
}

/// A resource that was asked for and that has not been read.
#[derive(Debug)]
pub struct ResourceError {
    pub directory: Option<String>,
    pub name: String,
}

impl View for ResourceError {
    type V = ResourceName;

    open spec fn view(&self) -> ResourceName {
        ResourceName {
            directory: match self.directory {
                Some(d) => Some(d@),
                None => None,
            },
            name: self.name@,
        }
    }
}

/// Why an entity or a level could not be loaded, as plain values.
pub enum LoadFailure {
    Missing(ResourceName),
    Decode(DecodeError),
    UnknownSymbol(UnknownSymbolError),
}

/// Why an entity or a level could not be loaded from the resources that
/// have been read.
#[derive(Debug)]
pub enum LoadError {
    /// A resource has not been read yet. Once the caller has added it, the
    /// load can be tried again.
    Missing(ResourceError),
    Decode(DecodeError),
    UnknownSymbol(UnknownSymbolError),
}

impl View for LoadError {
    type V = LoadFailure;

    open spec fn view(&self) -> LoadFailure {
        match self {
            LoadError::Missing(e) => LoadFailure::Missing(e@),
            LoadError::Decode(e) => LoadFailure::Decode(*e),
            LoadError::UnknownSymbol(e) => LoadFailure::UnknownSymbol(*e),
        }
    }
}

} // verus!
