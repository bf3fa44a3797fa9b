//! The image formats in which a frame can be offered.

use vstd::prelude::*;
use vstd::string::*;

verus! {

/// An image format. The serialized name of a format is its conventional file extension.
#[derive(Clone, Copy, Debug, PartialEq, Eq, Hash, Structural)]
pub enum ImageType {
    JPG,
    PNG,
    BMP,
    WEBP,
}

impl ImageType {
    /// The serialized name of the format.
    pub open spec fn extension(self) -> Seq<char> {
        match self {
            ImageType::JPG => "jpg"@,
            ImageType::PNG => "png"@,
            ImageType::BMP => "bmp"@,
            ImageType::WEBP => "webp"@,
        }
    }

    /// Every supported format, in the order in which a view offers them.
    pub open spec fn all_formats() -> Seq<ImageType> {
        seq![ImageType::JPG, ImageType::PNG, ImageType::BMP, ImageType::WEBP]
    }

    pub fn to_string(&self) -> (name: String)
        ensures
            name@ == self.extension(),
    {
        match self {
            ImageType::JPG => String::from_str("jpg"),
            ImageType::PNG => String::from_str("png"),
            ImageType::BMP => String::from_str("bmp"),
            ImageType::WEBP => String::from_str("webp"),
        }
    }

    /// Every supported format, each exactly once, in declaration order.
    pub fn iter() -> (formats: Vec<ImageType>)
        ensures
            formats@ == Self::all_formats(),
    {
        let formats = vec![ImageType::JPG, ImageType::PNG, ImageType::BMP, ImageType::WEBP];
        assert(formats@ =~= Self::all_formats());
        formats
    }
}

} // verus!
