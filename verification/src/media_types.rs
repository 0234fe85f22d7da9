//! The kinds of media that are classified, told apart by file extension.

use crate::names::{extension_of, name_extension};
use crate::text::{chars_eq_str, from_chars, lowercase_of, to_chars, to_lowercase, to_uppercase, uppercase_of};
use vstd::prelude::*;

verus! {

/// The kind of a media file.
#[derive(Debug, Clone, Copy, PartialEq, Eq, Structural)]
pub enum MediaType {
    Image,
    Video,
    Audio,
}

/// What is known of a media file from its name.
#[derive(Debug, Clone)]
pub struct MediaInfo {
    pub media_type: MediaType,
    /// The extension in upper case, such as `JPG`.
    pub extension: String,
}

/// A `MediaInfo` as plain text.
pub struct MediaInfoView {
    pub media_type: MediaType,
    pub extension: Seq<char>,
}

impl View for MediaInfo {
    type V = MediaInfoView;

    open spec fn view(&self) -> MediaInfoView {
        MediaInfoView { media_type: self.media_type, extension: self.extension@ }
    }
}

impl MediaType {
    /// The word that stands for the kind in a directory template.
    pub open spec fn label(self) -> Seq<char> {
        match self {
            MediaType::Image => "Image"@,
            MediaType::Video => "Video"@,
            MediaType::Audio => "Audio"@,
        }
    }

    /// The word that stands for the kind in a directory template:
    /// `Image`, `Video` or `Audio`.
    pub fn name(&self) -> (word: &'static str)
        ensures
            word@ == self.label(),
    {
        match self {
            MediaType::Image => "Image",
            MediaType::Video => "Video",
            MediaType::Audio => "Audio",
        }
    }
}

/// The extensions of pictures, camera raw formats included; in lower case.
pub open spec fn is_image_ext(ext: Seq<char>) -> bool {
    ||| ext == "jpg"@
    ||| ext == "jpeg"@
    ||| ext == "png"@
    ||| ext == "gif"@
    ||| ext == "tiff"@
    ||| ext == "tif"@
    ||| ext == "bmp"@
    ||| ext == "webp"@
    ||| ext == "heic"@
    ||| ext == "heif"@
    ||| ext == "nef"@
    ||| ext == "nrw"@
    ||| ext == "cr2"@
    ||| ext == "cr3"@
    ||| ext == "crw"@
    ||| ext == "arw"@
    ||| ext == "srf"@
    ||| ext == "sr2"@
    ||| ext == "dng"@
    ||| ext == "orf"@
    ||| ext == "pef"@
    ||| ext == "raf"@
    ||| ext == "rw2"@
    ||| ext == "3fr"@
    ||| ext == "iiq"@
    ||| ext == "mef"@
    ||| ext == "mos"@
    ||| ext == "erf"@
    ||| ext == "k25"@
    ||| ext == "kdc"@
    ||| ext == "dcr"@
    ||| ext == "dcs"@
}

/// The extensions of videos; in lower case.
pub open spec fn is_video_ext(ext: Seq<char>) -> bool {
    ||| ext == "mp4"@
    ||| ext == "m4v"@
    ||| ext == "mov"@
    ||| ext == "qt"@
    ||| ext == "avi"@
    ||| ext == "mkv"@
    ||| ext == "webm"@
    ||| ext == "wmv"@
    ||| ext == "flv"@
    ||| ext == "f4v"@
    ||| ext == "mts"@
    ||| ext == "m2ts"@
    ||| ext == "3gp"@
    ||| ext == "3g2"@
    ||| ext == "mpg"@
    ||| ext == "mpeg"@
    ||| ext == "mpe"@
    ||| ext == "mpv"@
    ||| ext == "ogv"@
    ||| ext == "vob"@
}

/// The extensions of sound files; in lower case.
pub open spec fn is_audio_ext(ext: Seq<char>) -> bool {
    ||| ext == "flac"@
    ||| ext == "wav"@
    ||| ext == "aiff"@
    ||| ext == "alac"@
    ||| ext == "ape"@
    ||| ext == "mp3"@
    ||| ext == "aac"@
    ||| ext == "m4a"@
    ||| ext == "ogg"@
    ||| ext == "oga"@
    ||| ext == "opus"@
    ||| ext == "wma"@
    ||| ext == "m4b"@
    ||| ext == "amr"@
}

/// The extensions of all media that are classified; in lower case.
pub open spec fn is_media_ext(ext: Seq<char>) -> bool {
    is_image_ext(ext) || is_video_ext(ext) || is_audio_ext(ext)
}

/// The kind of media that a lower-case extension stands for.
pub open spec fn media_type_of(ext: Seq<char>) -> Option<MediaType> {
    if is_image_ext(ext) {
        Some(MediaType::Image)
    } else if is_video_ext(ext) {
        Some(MediaType::Video)
    } else if is_audio_ext(ext) {
        Some(MediaType::Audio)
    } else {
        None
    }
}

/// What a file's name tells of it: nothing without an extension or with one
/// that names no media; else the kind, found by the extension in lower case,
/// and the extension in upper case.
pub open spec fn media_info_of(file_name: Seq<char>) -> Option<MediaInfoView> {
    match extension_of(file_name) {
        None => None,
        Some(ext) => match media_type_of(lowercase_of(ext)) {
            None => None,
            Some(media_type) => Some(
                MediaInfoView { media_type, extension: uppercase_of(lowercase_of(ext)) },
            ),
        },
    }
}

/// Whether `ext`, in lower case, is the extension of a picture.
pub fn is_image_extension(ext: &str) -> (r: bool)
    ensures
        r == is_image_ext(ext@),
{
    let chars = to_chars(ext);
    chars_eq_str(&chars, "jpg")
        || chars_eq_str(&chars, "jpeg")
        || chars_eq_str(&chars, "png")
        || chars_eq_str(&chars, "gif")
        || chars_eq_str(&chars, "tiff")
        || chars_eq_str(&chars, "tif")
        || chars_eq_str(&chars, "bmp")
        || chars_eq_str(&chars, "webp")
        || chars_eq_str(&chars, "heic")
        || chars_eq_str(&chars, "heif")
        || chars_eq_str(&chars, "nef")
        || chars_eq_str(&chars, "nrw")
        || chars_eq_str(&chars, "cr2")
        || chars_eq_str(&chars, "cr3")
        || chars_eq_str(&chars, "crw")
        || chars_eq_str(&chars, "arw")
        || chars_eq_str(&chars, "srf")
        || chars_eq_str(&chars, "sr2")
        || chars_eq_str(&chars, "dng")
        || chars_eq_str(&chars, "orf")
        || chars_eq_str(&chars, "pef")
        || chars_eq_str(&chars, "raf")
        || chars_eq_str(&chars, "rw2")
        || chars_eq_str(&chars, "3fr")
        || chars_eq_str(&chars, "iiq")
        || chars_eq_str(&chars, "mef")
        || chars_eq_str(&chars, "mos")
        || chars_eq_str(&chars, "erf")
        || chars_eq_str(&chars, "k25")
        || chars_eq_str(&chars, "kdc")
        || chars_eq_str(&chars, "dcr")
        || chars_eq_str(&chars, "dcs")
}

/// Whether `ext`, in lower case, is the extension of a video.
pub fn is_video_extension(ext: &str) -> (r: bool)
    ensures
        r == is_video_ext(ext@),
{
    let chars = to_chars(ext);
    chars_eq_str(&chars, "mp4")
        || chars_eq_str(&chars, "m4v")
        || chars_eq_str(&chars, "mov")
        || chars_eq_str(&chars, "qt")
        || chars_eq_str(&chars, "avi")
        || chars_eq_str(&chars, "mkv")
        || chars_eq_str(&chars, "webm")
        || chars_eq_str(&chars, "wmv")
        || chars_eq_str(&chars, "flv")
        || chars_eq_str(&chars, "f4v")
        || chars_eq_str(&chars, "mts")
        || chars_eq_str(&chars, "m2ts")
        || chars_eq_str(&chars, "3gp")
        || chars_eq_str(&chars, "3g2")
        || chars_eq_str(&chars, "mpg")
        || chars_eq_str(&chars, "mpeg")
        || chars_eq_str(&chars, "mpe")
        || chars_eq_str(&chars, "mpv")
        || chars_eq_str(&chars, "ogv")
        || chars_eq_str(&chars, "vob")
}

/// Whether `ext`, in lower case, is the extension of a sound file.
pub fn is_audio_extension(ext: &str) -> (r: bool)
    ensures
        r == is_audio_ext(ext@),
{
    let chars = to_chars(ext);
    chars_eq_str(&chars, "flac")
        || chars_eq_str(&chars, "wav")
        || chars_eq_str(&chars, "aiff")
        || chars_eq_str(&chars, "alac")
        || chars_eq_str(&chars, "ape")
        || chars_eq_str(&chars, "mp3")
        || chars_eq_str(&chars, "aac")
        || chars_eq_str(&chars, "m4a")
        || chars_eq_str(&chars, "ogg")
        || chars_eq_str(&chars, "oga")
        || chars_eq_str(&chars, "opus")
        || chars_eq_str(&chars, "wma")
        || chars_eq_str(&chars, "m4b")
        || chars_eq_str(&chars, "amr")
}

/// Whether `ext`, in lower case, is the extension of any media.
pub fn is_media_extension(ext: &str) -> (r: bool)
    ensures
        r == is_media_ext(ext@),
{
    is_image_extension(ext) || is_video_extension(ext) || is_audio_extension(ext)
}

/// The kind and extension of the media file named `file_name`, or `None`
/// where the name has no extension or one that names no media. The name is
/// the last component of a path, without any directory.
pub fn get_media_info(file_name: &str) -> (info: Option<MediaInfo>)
    ensures
        match media_info_of(file_name@) {
            Some(view) => info matches Some(found) && found@ == view,
            None => info is None,
        },
{
    let name = to_chars(file_name);
    let ext = match name_extension(&name) {
        Some(ext) => from_chars(&ext),
        None => {
            return None;
        },
    };
    let extension = to_lowercase(ext.as_str());
    if is_image_extension(extension.as_str()) {
        Some(
            MediaInfo {
                media_type: MediaType::Image,
                extension: to_uppercase(extension.as_str()),
            },
        )
    } else if is_video_extension(extension.as_str()) {
        Some(
            MediaInfo {
                media_type: MediaType::Video,
                extension: to_uppercase(extension.as_str()),
            },
        )
    } else if is_audio_extension(extension.as_str()) {
        Some(
            MediaInfo {
                media_type: MediaType::Audio,
                extension: to_uppercase(extension.as_str()),
            },
        )
    } else {
        None
    }
}

} // verus!
