//! What a file is taken to be from the extension of its name: the icon
//! shown beside it, and whether a preview is offered.

use vstd::prelude::*;
use crate::text::{chars_of, chars_are, find_last_char, last_index, lowercase_of, to_lowercase};

verus! {

/// The kinds of entry that have an icon of their own.
#[derive(Clone, Copy, Debug, PartialEq, Eq, Structural)]
pub enum IconKind {
    DiskImage,
    Image,
    Video,
    Audio,
    Pdf,
    Word,
    Sheet,
    Slides,
    Text,
    Archive,
    Code,
    Executable,
    Settings,
    Font,
    Other,
    Directory,
    Link,
}

impl IconKind {
    /// The icon of this kind.
    pub open spec fn glyph_spec(self) -> Seq<char> {
        match self {
            IconKind::DiskImage => "💿"@,
            IconKind::Image => "🖼️"@,
            IconKind::Video => "🎥"@,
            IconKind::Audio => "🎵"@,
            IconKind::Pdf => "📕"@,
            IconKind::Word => "📘"@,
            IconKind::Sheet => "📗"@,
            IconKind::Slides => "📙"@,
            IconKind::Text => "📄"@,
            IconKind::Archive => "📦"@,
            IconKind::Code => "📝"@,
            IconKind::Executable => "⚙️"@,
            IconKind::Settings => "⚙️"@,
            IconKind::Font => "🔤"@,
            IconKind::Other => "📄"@,
            IconKind::Directory => "📁"@,
            IconKind::Link => "🔗"@,
        }
    }

    /// The icon of this kind.
    pub fn glyph(self) -> (icon: &'static str)
        ensures
            icon@ == self.glyph_spec(),
    {
        match self {
            IconKind::DiskImage => "💿",
            IconKind::Image => "🖼️",
            IconKind::Video => "🎥",
            IconKind::Audio => "🎵",
            IconKind::Pdf => "📕",
            IconKind::Word => "📘",
            IconKind::Sheet => "📗",
            IconKind::Slides => "📙",
            IconKind::Text => "📄",
            IconKind::Archive => "📦",
            IconKind::Code => "📝",
            IconKind::Executable => "⚙️",
            IconKind::Settings => "⚙️",
            IconKind::Font => "🔤",
            IconKind::Other => "📄",
            IconKind::Directory => "📁",
            IconKind::Link => "🔗",
        }
    }
}

/// The extension of a file name: what follows its last dot, or the whole
/// name where it has no dot.
pub open spec fn extension_of(name: Seq<char>) -> Seq<char> {
    match last_index(name, '.') {
        Some(i) => name.skip(i + 1),
        None => name,
    }
}

/// The kind of file that a lowercase extension stands for.
pub open spec fn kind_of_extension(ext: Seq<char>) -> IconKind {
    if ext == "iso"@ || ext == "img"@ || ext == "esd"@ || ext == "wim"@ || ext == "vhd"@ || ext
        == "vmdk"@ {
        IconKind::DiskImage
    } else if ext == "jpg"@ || ext == "jpeg"@ || ext == "png"@ || ext == "gif"@ || ext == "bmp"@
        || ext == "webp"@ || ext == "svg"@ {
        IconKind::Image
    } else if ext == "mp4"@ || ext == "mkv"@ || ext == "avi"@ || ext == "mov"@ || ext == "wmv"@
        || ext == "flv"@ || ext == "webm"@ {
        IconKind::Video
    } else if ext == "mp3"@ || ext == "wav"@ || ext == "ogg"@ || ext == "m4a"@ || ext == "flac"@
        || ext == "aac"@ {
        IconKind::Audio
    } else if ext == "pdf"@ {
        IconKind::Pdf
    } else if ext == "doc"@ || ext == "docx"@ {
        IconKind::Word
    } else if ext == "xls"@ || ext == "xlsx"@ {
        IconKind::Sheet
    } else if ext == "ppt"@ || ext == "pptx"@ {
        IconKind::Slides
    } else if ext == "txt"@ || ext == "md"@ || ext == "log"@ {
        IconKind::Text
    } else if ext == "zip"@ || ext == "rar"@ || ext == "7z"@ || ext == "tar"@ || ext == "gz"@
        || ext == "bz2"@ || ext == "xz"@ {
        IconKind::Archive
    } else if ext == "c"@ || ext == "cpp"@ || ext == "h"@ || ext == "hpp"@ || ext == "rs"@ || ext
        == "go"@ || ext == "py"@ || ext == "js"@ || ext == "html"@ || ext == "css"@ || ext
        == "java"@ {
        IconKind::Code
    } else if ext == "exe"@ || ext == "msi"@ || ext == "bat"@ || ext == "sh"@ || ext == "cmd"@ {
        IconKind::Executable
    } else if ext == "json"@ || ext == "yaml"@ || ext == "yml"@ || ext == "toml"@ || ext == "ini"@
        || ext == "conf"@ {
        IconKind::Settings
    } else if ext == "ttf"@ || ext == "otf"@ || ext == "woff"@ || ext == "woff2"@ {
        IconKind::Font
    } else {
        IconKind::Other
    }
}

/// Whether a lowercase extension is one of the images, videos and sounds
/// that a browser can show in place.
pub open spec fn previewable_extension(ext: Seq<char>) -> bool {
    ||| ext == "jpg"@ || ext == "jpeg"@ || ext == "png"@ || ext == "gif"@ || ext == "webp"@
    ||| ext == "mp4"@ || ext == "webm"@
    ||| ext == "mp3"@ || ext == "wav"@ || ext == "ogg"@
}

/// The icon text for a file called `name`.
pub open spec fn file_icon(name: Seq<char>) -> Seq<char> {
    kind_of_extension(lowercase_of(extension_of(name))).glyph_spec()
}

/// Whether a preview is offered for a file called `name`.
pub open spec fn previewable(name: Seq<char>) -> bool {
    previewable_extension(lowercase_of(extension_of(name)))
}

/// The extension of `name`.
pub fn extension(name: &str) -> (ext: Vec<char>)
    ensures
        ext@ == extension_of(name@),
{
    let chars = chars_of(name);
    match find_last_char(chars.as_slice(), '.') {
        Some(i) => {
            let tail = vstd::slice::slice_subrange(chars.as_slice(), i + 1, chars.len());
            let mut ext: Vec<char> = Vec::new();
            let mut k: usize = 0;
            while k < tail.len()
                invariant
                    k <= tail.len(),
                    ext@ == tail@.take(k as int),
                decreases tail.len() - k,
            {
                ext.push(tail[k]);
                k += 1;
            }
            assert(tail@.take(tail.len() as int) =~= tail@);
            ext
        },
        None => chars,
    }
}

/// The kind of file that the extension `ext`, in lowercase, stands for.
pub fn icon_for_extension(ext: &str) -> (kind: IconKind)
    ensures
        kind == kind_of_extension(ext@),
{
    let e = chars_of(ext);
    let e = e.as_slice();
    if chars_are(e, "iso") || chars_are(e, "img") || chars_are(e, "esd") || chars_are(e, "wim")
        || chars_are(e, "vhd") || chars_are(e, "vmdk") {
        IconKind::DiskImage
    } else if chars_are(e, "jpg") || chars_are(e, "jpeg") || chars_are(e, "png") || chars_are(
        e,
        "gif",
    ) || chars_are(e, "bmp") || chars_are(e, "webp") || chars_are(e, "svg") {
        IconKind::Image
    } else if chars_are(e, "mp4") || chars_are(e, "mkv") || chars_are(e, "avi") || chars_are(
        e,
        "mov",
    ) || chars_are(e, "wmv") || chars_are(e, "flv") || chars_are(e, "webm") {
        IconKind::Video
    } else if chars_are(e, "mp3") || chars_are(e, "wav") || chars_are(e, "ogg") || chars_are(
        e,
        "m4a",
    ) || chars_are(e, "flac") || chars_are(e, "aac") {
        IconKind::Audio
    } else if chars_are(e, "pdf") {
        IconKind::Pdf
    } else if chars_are(e, "doc") || chars_are(e, "docx") {
        IconKind::Word
    } else if chars_are(e, "xls") || chars_are(e, "xlsx") {
        IconKind::Sheet
    } else if chars_are(e, "ppt") || chars_are(e, "pptx") {
        IconKind::Slides
    } else if chars_are(e, "txt") || chars_are(e, "md") || chars_are(e, "log") {
        IconKind::Text
    } else if chars_are(e, "zip") || chars_are(e, "rar") || chars_are(e, "7z") || chars_are(
        e,
        "tar",
    ) || chars_are(e, "gz") || chars_are(e, "bz2") || chars_are(e, "xz") {
        IconKind::Archive
    } else if chars_are(e, "c") || chars_are(e, "cpp") || chars_are(e, "h") || chars_are(e, "hpp")
        || chars_are(e, "rs") || chars_are(e, "go") || chars_are(e, "py") || chars_are(e, "js")
        || chars_are(e, "html") || chars_are(e, "css") || chars_are(e, "java") {
        IconKind::Code
    } else if chars_are(e, "exe") || chars_are(e, "msi") || chars_are(e, "bat") || chars_are(
        e,
        "sh",
    ) || chars_are(e, "cmd") {
        IconKind::Executable
    } else if chars_are(e, "json") || chars_are(e, "yaml") || chars_are(e, "yml") || chars_are(
        e,
        "toml",
    ) || chars_are(e, "ini") || chars_are(e, "conf") {
        IconKind::Settings
    } else if chars_are(e, "ttf") || chars_are(e, "otf") || chars_are(e, "woff") || chars_are(
        e,
        "woff2",
    ) {
        IconKind::Font
    } else {
        IconKind::Other
    }
}

/// Whether the extension `ext`, in lowercase, is offered a preview.
pub fn is_previewable_extension(ext: &str) -> (yes: bool)
    ensures
        yes == previewable_extension(ext@),
{
    let e = chars_of(ext);
    let e = e.as_slice();
    chars_are(e, "jpg") || chars_are(e, "jpeg") || chars_are(e, "png") || chars_are(e, "gif")
        || chars_are(e, "webp") || chars_are(e, "mp4") || chars_are(e, "webm") || chars_are(
        e,
        "mp3",
    ) || chars_are(e, "wav") || chars_are(e, "ogg")
}

/// The extension of `name` in lowercase.
fn lowercase_extension(name: &str) -> (ext: String)
    ensures
        ext@ == lowercase_of(extension_of(name@)),
{
    let ext = extension(name);
    let ext = crate::text::string_of(ext.as_slice());
    to_lowercase(ext.as_str())
}

/// The icon shown beside a file called `name`.
pub fn get_file_icon(name: &str) -> (icon: &'static str)
    ensures
        icon@ == file_icon(name@),
{
    let ext = lowercase_extension(name);
    icon_for_extension(ext.as_str()).glyph()
}

/// Whether a file called `name` can be previewed in the browser.
pub fn is_previewable(name: &str) -> (yes: bool)
    ensures
        yes == previewable(name@),
{
    let ext = lowercase_extension(name);
    is_previewable_extension(ext.as_str())
}

/// Whatever is offered a preview is shown as an image, a video or a
/// sound.
pub proof fn lemma_previews_are_media(ext: Seq<char>)
    requires
        previewable_extension(ext),
    ensures
        kind_of_extension(ext) == IconKind::Image || kind_of_extension(ext) == IconKind::Video
            || kind_of_extension(ext) == IconKind::Audio,
{
    reveal_strlit("iso");
    reveal_strlit("img");
    reveal_strlit("esd");
    reveal_strlit("wim");
    reveal_strlit("vhd");
    reveal_strlit("vmdk");
    reveal_strlit("jpg");
    reveal_strlit("jpeg");
    reveal_strlit("png");
    reveal_strlit("gif");
    reveal_strlit("bmp");
    reveal_strlit("webp");
    reveal_strlit("svg");
    reveal_strlit("mp4");
    reveal_strlit("mkv");
    reveal_strlit("avi");
    reveal_strlit("mov");
    reveal_strlit("wmv");
    reveal_strlit("flv");
    reveal_strlit("webm");
    reveal_strlit("mp3");
    reveal_strlit("wav");
    reveal_strlit("ogg");
    // An extension is told from every other word by its length and its
    // first four letters.
    let first = ext[0];
    let second = ext[1];
    let third = ext[2];
    let fourth = ext[3];
    assert(3 <= ext.len() <= 4);
}

} // verus!
