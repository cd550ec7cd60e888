//! Image kinds and their canonical destination filenames.
//!
//! The exact filename patterns are a compatibility contract with the
//! launcher client: `{app_id}_hero.png`, `{app_id}p.png`, `{app_id}_logo.png`.

use vstd::prelude::*;
use vstd::string::*;
use crate::text::{dec_digits, u32_to_dec};

verus! {

/// One of the three artwork kinds a shortcut can carry.
#[derive(Clone, Copy, Debug, PartialEq, Eq, Structural)]
pub enum ImageType {
    Hero,
    Grid,
    Logo,
}

/// The filename suffix that each image kind appends to the decimal app id.
pub open spec fn suffix_of(t: ImageType) -> Seq<char> {
    match t {
        ImageType::Hero => "_hero.png"@,
        ImageType::Grid => "p.png"@,
        ImageType::Logo => "_logo.png"@,
    }
}

/// The canonical filename of an image kind for a given app id.
pub open spec fn spec_file_name(t: ImageType, app_id: u32) -> Seq<char> {
    dec_digits(app_id as nat) + suffix_of(t)
}

impl ImageType {
    /// The canonical filename for this image kind and app id,
    /// relative to a user's grid folder.
    pub fn file_name(&self, app_id: u32) -> (r: String)
        ensures
            r@ == spec_file_name(*self, app_id),
    {
        let mut s = u32_to_dec(app_id);
        match self {
            ImageType::Hero => s.append("_hero.png"),
            ImageType::Grid => s.append("p.png"),
            ImageType::Logo => s.append("_logo.png"),
        }
        s
    }
}

/// The three image kinds, in the order the batcher walks them.
pub fn all_image_types() -> (r: Vec<ImageType>)
    ensures
        r@ == seq![ImageType::Logo, ImageType::Hero, ImageType::Grid],
{
    let mut v: Vec<ImageType> = Vec::new();
    v.push(ImageType::Logo);
    v.push(ImageType::Hero);
    v.push(ImageType::Grid);
    proof {
        assert(v@ =~= seq![ImageType::Logo, ImageType::Hero, ImageType::Grid]);
    }
    v
}

} // verus!
