//! Which files count as images: by the extension of their name and by the
//! first bytes of their content.

use crate::error::{invalid_input, not_found, ImageDiscoveryError, SwwwsError};
use crate::text::{contains_text, owned, texts};
use vstd::prelude::*;

verus! {

/// Finds and checks image files.
#[derive(Debug, Clone, Copy)]
pub struct ImageDiscovery;

/// The extensions of the image formats that are supported, in small
/// letters.
pub open spec fn supported_extensions() -> Seq<Seq<char>> {
    seq!["jpg"@, "jpeg"@, "png"@, "gif"@, "bmp"@, "tiff"@, "webp"@, "avif"@]
}

/// What `str::to_lowercase` makes of a text: each character replaced by its
/// lowercase form as Unicode defines it.
pub uninterp spec fn lowercase_text(s: Seq<char>) -> Seq<char>;

/// `str::to_lowercase`: the text in lowercase.
#[verifier::external_body]
fn lowercased(s: &str) -> (r: String)
    ensures
        r@ == lowercase_text(s@),
{
    s.to_lowercase()
}

/// Whether the bytes begin as the content of an image does: as a JPEG, PNG,
/// GIF or BMP file, as a WebP file (with its mark at the ninth byte), or as
/// a TIFF file of either byte order. Fewer than four bytes are no image.
pub open spec fn is_image_header(b: Seq<u8>) -> bool {
    b.len() >= 4 && {
        ||| (b[0] == 0xFF && b[1] == 0xD8 && b[2] == 0xFF)
        ||| (b[0] == 0x89 && b[1] == 0x50 && b[2] == 0x4E && b[3] == 0x47)
        ||| (b[0] == 0x47 && b[1] == 0x49 && b[2] == 0x46 && b[3] == 0x38)
        ||| (b[0] == 0x42 && b[1] == 0x4D)
        ||| (b[0] == 0x52 && b[1] == 0x49 && b[2] == 0x46 && b[3] == 0x46 && b.len() >= 12
            && b[8] == 0x57 && b[9] == 0x45 && b[10] == 0x42 && b[11] == 0x50)
        ||| (b.len() >= 8 && b[0] == 0x49 && b[1] == 0x49 && b[2] == 0x2A && b[3] == 0x00)
        ||| (b.len() >= 8 && b[0] == 0x4D && b[1] == 0x4D && b[2] == 0x00 && b[3] == 0x2A)
    }
}

/// What a walk of a directory came by.
#[derive(Debug)]
pub struct WalkEntry {
    pub path: String,
    pub is_file: bool,
    /// The extension of the entry's name, as it is written.
    pub extension: Option<String>,
    /// Whether the entry can be read.
    pub readable: bool,
}

impl WalkEntry {
    /// Whether the entry is taken as an image: a file with a supported
    /// extension, in small or capital letters, that can be read.
    pub open spec fn is_image(&self) -> bool {
        self.is_file && self.readable && (self.extension matches Some(e)
            && supported_extensions().contains(lowercase_text(e@)))
    }
}

/// What was seen of a file that may be an image.
pub struct FileProbe {
    pub path: String,
    pub exists: bool,
    pub is_file: bool,
    /// The extension of the file's name, as it is written.
    pub extension: Option<String>,
    /// The first bytes of the file, twelve at most, or why it could not be
    /// opened.
    pub header: Result<Vec<u8>, std::io::Error>,
}

/// What is wrong with a file that was probed.
pub enum ImageFault {
    Missing,
    NotAFile,
    Unsupported,
    Unreadable,
    Corrupted,
}

impl FileProbe {
    /// What is wrong with the file, if anything, in the order in which it
    /// is looked for: the file is missing, it is no file, its extension is
    /// none of the supported ones, it cannot be opened, or its first bytes
    /// are not those of an image.
    pub open spec fn fault(&self) -> Option<ImageFault> {
        if !self.exists {
            Some(ImageFault::Missing)
        } else if !self.is_file {
            Some(ImageFault::NotAFile)
        } else if !(self.extension matches Some(e) && supported_extensions().contains(
            lowercase_text(e@),
        )) {
            Some(ImageFault::Unsupported)
        } else {
            match self.header {
                Err(_) => Some(ImageFault::Unreadable),
                Ok(bytes) => if is_image_header(bytes@) {
                    None
                } else {
                    Some(ImageFault::Corrupted)
                },
            }
        }
    }
}

impl ImageFault {
    /// Whether the error reports this fault for the file at `path`.
    pub open spec fn reported_by(self, e: SwwwsError, path: Seq<char>) -> bool {
        match self {
            ImageFault::Missing | ImageFault::NotAFile | ImageFault::Unreadable => e matches SwwwsError::ImageDiscovery(
                ImageDiscoveryError::FileAccess { path: p, .. },
            ) && p@ == path,
            ImageFault::Unsupported => e matches SwwwsError::ImageDiscovery(
                ImageDiscoveryError::UnsupportedFormat { path: p },
            ) && p@ == path,
            ImageFault::Corrupted => e matches SwwwsError::ImageDiscovery(
                ImageDiscoveryError::CorruptedImage { path: p },
            ) && p@ == path,
        }
    }
}

impl ImageDiscovery {
    /// The extensions of the image formats that are supported.
    pub fn get_supported_extensions() -> (r: Vec<&'static str>)
        ensures
            r@.len() == 8,
            r@.map_values(|s: &'static str| s@) == supported_extensions(),
    {
        let mut v: Vec<&'static str> = Vec::new();
        v.push("jpg");
        v.push("jpeg");
        v.push("png");
        v.push("gif");
        v.push("bmp");
        v.push("tiff");
        v.push("webp");
        v.push("avif");
        assert(v@.map_values(|s: &'static str| s@) =~= supported_extensions());
        v
    }

    /// Whether a file with this extension, in small or capital letters, is
    /// of a supported image format.
    pub fn is_supported_extension(extension: &str) -> (r: bool)
        ensures
            r == supported_extensions().contains(lowercase_text(extension@)),
    {
        let mut known: Vec<String> = Vec::new();
        known.push(owned("jpg"));
        known.push(owned("jpeg"));
        known.push(owned("png"));
        known.push(owned("gif"));
        known.push(owned("bmp"));
        known.push(owned("tiff"));
        known.push(owned("webp"));
        known.push(owned("avif"));
        assert(texts(known@) =~= supported_extensions());
        contains_text(&known, lowercased(extension).as_str())
    }

    /// Whether the bytes begin as the content of an image does.
    pub fn validate_image_header(header: &Vec<u8>) -> (r: bool)
        ensures
            r == is_image_header(header@),
    {
        let n = header.len();
        if n < 4 {
            return false;
        }
        let b0 = header[0];
        let b1 = header[1];
        let b2 = header[2];
        let b3 = header[3];
        if b0 == 0xFF && b1 == 0xD8 && b2 == 0xFF {
            true
        } else if b0 == 0x89 && b1 == 0x50 && b2 == 0x4E && b3 == 0x47 {
            true
        } else if b0 == 0x47 && b1 == 0x49 && b2 == 0x46 && b3 == 0x38 {
            true
        } else if b0 == 0x42 && b1 == 0x4D {
            true
        } else if b0 == 0x52 && b1 == 0x49 && b2 == 0x46 && b3 == 0x46 && n >= 12 && header[8]
            == 0x57 && header[9] == 0x45 && header[10] == 0x42 && header[11] == 0x50 {
            true
        } else if n >= 8 {
            (b0 == 0x49 && b1 == 0x49 && b2 == 0x2A && b3 == 0x00) || (b0 == 0x4D && b1 == 0x4D
                && b2 == 0x00 && b3 == 0x2A)
        } else {
            false
        }
    }

    /// Checks a file that was probed: it must be there, be a file, have the
    /// extension of a supported format, and begin as an image does.
    pub fn validate_image(probe: FileProbe) -> (r: Result<(), SwwwsError>)
        ensures
            match probe.fault() {
                None => r is Ok,
                Some(fault) => r matches Err(e) && fault.reported_by(e, probe.path@),
            },
    {
        let FileProbe { path, exists, is_file, extension, header } = probe;
        if !exists {
            return Err(
                SwwwsError::ImageDiscovery(
                    ImageDiscoveryError::FileAccess { path, source: not_found("File not found") },
                ),
            );
        }
        if !is_file {
            return Err(
                SwwwsError::ImageDiscovery(
                    ImageDiscoveryError::FileAccess { path, source: invalid_input("Not a file") },
                ),
            );
        }
        let supported = match &extension {
            Some(e) => ImageDiscovery::is_supported_extension(e.as_str()),
            None => false,
        };
        if !supported {
            return Err(
                SwwwsError::ImageDiscovery(ImageDiscoveryError::UnsupportedFormat { path }),
            );
        }
        match header {
            Err(source) => Err(
                SwwwsError::ImageDiscovery(ImageDiscoveryError::FileAccess { path, source }),
            ),
            Ok(bytes) => if ImageDiscovery::validate_image_header(&bytes) {
                Ok(())
            } else {
                Err(SwwwsError::ImageDiscovery(ImageDiscoveryError::CorruptedImage { path }))
            },
        }
    }

    /// Whether an entry of a directory walk is taken as an image: a file
    /// with a supported extension that can be read.
    pub fn keep_entry(is_file: bool, extension: Option<&str>, readable: bool) -> (r: bool)
        ensures
            r == (is_file && readable && (extension matches Some(e)
                && supported_extensions().contains(lowercase_text(e@)))),
    {
        match extension {
            Some(e) => is_file && ImageDiscovery::is_supported_extension(e) && readable,
            None => false,
        }
    }

    /// The images among the first `n` entries of a walk, in the order of the
    /// walk.
    pub open spec fn images_among(entries: Seq<WalkEntry>, n: int) -> Seq<Seq<char>>
        decreases n,
    {
        if n <= 0 {
            Seq::empty()
        } else if entries[n - 1].is_image() {
            ImageDiscovery::images_among(entries, n - 1).push(entries[n - 1].path@)
        } else {
            ImageDiscovery::images_among(entries, n - 1)
        }
    }

    /// The images that a walk of the directory `path` came by: the entries
    /// that are files with a supported extension and can be read. It is an
    /// error if the path is not there, is no directory, or holds no image.
    pub fn discover_images(path: &str, found: bool, is_dir: bool, entries: Vec<WalkEntry>) -> (r:
        Result<Vec<String>, SwwwsError>)
        ensures
            if !found || !is_dir {
                r matches Err(
                    SwwwsError::ImageDiscovery(ImageDiscoveryError::DirectoryRead { path: p, .. }),
                ) && p@ == path@
            } else if ImageDiscovery::images_among(entries@, entries@.len() as int).len() == 0 {
                r matches Err(
                    SwwwsError::ImageDiscovery(ImageDiscoveryError::NoImagesFound { path: p }),
                ) && p@ == path@
            } else {
                r matches Ok(v) && texts(v@) == ImageDiscovery::images_among(
                    entries@,
                    entries@.len() as int,
                )
            },
    {
        if !found {
            let source = not_found("Directory not found");
            return Err(
                SwwwsError::ImageDiscovery(
                    ImageDiscoveryError::DirectoryRead { path: owned(path), source },
                ),
            );
        }
        if !is_dir {
            let source = invalid_input("Path is not a directory");
            return Err(
                SwwwsError::ImageDiscovery(
                    ImageDiscoveryError::DirectoryRead { path: owned(path), source },
                ),
            );
        }
        let mut images: Vec<String> = Vec::new();
        let mut i: usize = 0;
        while i < entries.len()
            invariant
                i <= entries@.len(),
                texts(images@) == ImageDiscovery::images_among(entries@, i as int),
            decreases entries@.len() - i,
        {
            let ghost before = images@;
            let entry = &entries[i];
            let extension = match &entry.extension {
                Some(e) => Some(e.as_str()),
                None => None,
            };
            if ImageDiscovery::keep_entry(entry.is_file, extension, entry.readable) {
                images.push(entry.path.clone());
                assert(texts(images@) =~= texts(before).push(entry.path@));
            }
            i += 1;
        }
        if images.len() == 0 {
            Err(
                SwwwsError::ImageDiscovery(
                    ImageDiscoveryError::NoImagesFound { path: owned(path) },
                ),
            )
        } else {
            Ok(images)
        }
    }
}

} // verus!
