//! Clips: their categories and the names of their files.

use vstd::prelude::*;
use vstd::string::*;
use crate::text::{extension, extension_of, file_stem, stem_of, zero_padded, zero_padded_string};

verus! {

/// The category a clip is tagged with when it is cut.
#[derive(Debug, Copy, Clone, PartialEq, Eq)]
pub enum ClipType {
    Offense,
    Defense,
}

/// The number of digits to which a clip's start time is filled up in its file name, so
/// that the names sort as the times do.
pub const START_DIGITS: usize = 8;

/// The suffix that a clip's file stem carries for its category.
pub open spec fn suffix_of(tag: Option<ClipType>) -> Seq<char> {
    match tag {
        Some(ClipType::Offense) => "Off"@,
        Some(ClipType::Defense) => "Def"@,
        None => ""@,
    }
}

/// The file name of the clip cut from the media file `media_name` at `start`
/// milliseconds: the media's stem, an underscore, the start time in at least eight
/// digits, the category's suffix, a dot and the media's extension.
pub open spec fn clip_name(media_name: Seq<char>, start: u64, tag: Option<ClipType>) -> Seq<
    char,
> {
    stem_of(media_name) + "_"@ + zero_padded(start as nat, START_DIGITS as nat) + suffix_of(tag)
        + "."@ + extension_of(media_name)
}

/// The suffix that a clip's file stem carries for its category.
pub fn suffix(tag: Option<ClipType>) -> (r: &'static str)
    ensures
        r@ == suffix_of(tag),
{
    match tag {
        Some(ClipType::Offense) => "Off",
        Some(ClipType::Defense) => "Def",
        None => "",
    }
}

/// The file name of the clip cut from the media file `media_name` at `start`
/// milliseconds.
pub fn clip_file_name(media_name: &str, start: u64, tag: Option<ClipType>) -> (r: String)
    ensures
        r@ == clip_name(media_name@, start, tag),
{
    let mut out = String::from_str(file_stem(media_name));
    out.append("_");
    let digits = zero_padded_string(start, START_DIGITS);
    out.append(digits.as_str());
    out.append(suffix(tag));
    out.append(".");
    out.append(extension(media_name));
    out
}

} // verus!
