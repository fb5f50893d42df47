//! The resources a finished publication hands to the renderer: one font per font kind and the
//! images, addressed by the references that the publication issues.

use vstd::prelude::*;
use crate::project::font::FontType;
use crate::project::font_map::FontMap;
use crate::strs::str_eq;

verus! {

/// The encoding of an embedded image.
#[derive(Debug, Clone, Copy, PartialEq, Eq, Hash, Structural)]
pub enum ImageFormat {
    /// PNG.
    Png,
    /// JPEG.
    Jpeg,
}

/// An image to embed: the path it was loaded from, its format and its bytes.
#[derive(Debug, Clone, PartialEq, Eq)]
pub struct PublicationImage {
    /// The path as the source names it.
    pub path: String,
    /// The encoding of the bytes.
    pub format: ImageFormat,
    /// The encoded image.
    pub bytes: Vec<u8>,
}

/// A reference to one of the images of the resources that issued it.
#[derive(Debug, Clone, Copy, PartialEq, Eq, Hash, Structural)]
pub struct ImageRef {
    index: usize,
}

impl ImageRef {
    /// The position of the image.
    pub closed spec fn spec_index(self) -> nat {
        self.index as nat
    }
}

/// The font file to embed for one font kind.
#[derive(Debug, Clone, PartialEq, Eq)]
pub struct PublicationFont {
    /// The font file.
    pub bytes: Vec<u8>,
}

/// The document metadata written into the output.
#[derive(Debug, Clone, PartialEq, Eq)]
pub struct PublicationMetadata {
    /// The title.
    pub title: String,
    /// The author.
    pub author: Option<String>,
    /// The subject.
    pub subject: Option<String>,
    /// The document language (BCP 47).
    pub language: Option<String>,
    /// The keywords.
    pub keywords: Option<Vec<String>>,
}

/// The fonts and images of a publication.
#[derive(Debug, Clone, PartialEq, Eq)]
pub struct PublicationResources {
    fonts: FontMap<PublicationFont>,
    images: Vec<PublicationImage>,
}

impl PublicationResources {
    /// The fonts.
    pub closed spec fn spec_fonts(&self) -> FontMap<PublicationFont> {
        self.fonts
    }

    /// The images, in registration order.
    pub closed spec fn spec_images(&self) -> Seq<PublicationImage> {
        self.images@
    }

    /// The resources made of `fonts` and `images`.
    pub fn new(fonts: FontMap<PublicationFont>, images: Vec<PublicationImage>) -> (r: PublicationResources)
        requires
            fonts.wf(),
        ensures
            r.spec_fonts() == fonts,
            r.spec_images() == images@,
            r.spec_fonts().wf(),
    {
        PublicationResources { fonts, images }
    }

    /// The font of kind `font_type`.
    pub fn font(&self, font_type: FontType) -> (f: &PublicationFont)
        requires
            self.spec_fonts().wf(),
        ensures
            *f == self.spec_fonts().spec_get(font_type),
    {
        self.fonts.get(font_type)
    }

    /// A reference to the first image loaded from `path`, or `None` when no image was.
    pub fn image_ref(&self, path: &str) -> (r: Option<ImageRef>)
        ensures
            r matches Some(i) ==> i.spec_index() < self.spec_images().len() && self.spec_images()[i.spec_index() as int].path@ == path@
                && forall|j: int| 0 <= j < i.spec_index() ==> (#[trigger] self.spec_images()[j]).path@ != path@,
            r is None ==> forall|j: int| 0 <= j < self.spec_images().len() ==> (#[trigger] self.spec_images()[j]).path@ != path@,
    {
        let mut i: usize = 0;
        while i < self.images.len()
            invariant
                0 <= i <= self.images@.len(),
                forall|j: int| 0 <= j < i ==> (#[trigger] self.images@[j]).path@ != path@,
            decreases self.images@.len() - i,
        {
            if str_eq(self.images[i].path.as_str(), path) {
                return Some(ImageRef { index: i });
            }
            i = i + 1;
        }
        None
    }

    /// The image that `image_ref` refers to.
    pub fn image(&self, image_ref: ImageRef) -> (img: &PublicationImage)
        requires
            image_ref.spec_index() < self.spec_images().len(),
        ensures
            *img == self.spec_images()[image_ref.spec_index() as int],
    {
        &self.images[image_ref.index]
    }
}

} // verus!
