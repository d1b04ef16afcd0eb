//! Media files: the size limits, the kind of a file by its first bytes,
//! and its content in Base64.

use vstd::prelude::*;
use vstd::slice::slice_subrange;
use vstd::string::StringExecFns;
use base64::Engine;
use crate::chars::to_chars;
use crate::error::ServiceError;
use crate::sandbox::same_chars;
use crate::service::FileSystemService;

verus! {

/// How many bytes of a file are looked at to tell its kind.
pub const SNIFFED_BYTES: usize = 8192;

/// The kind of a media file: its MIME type and its usual extension.
#[derive(Debug, Clone, PartialEq, Eq)]
pub struct MediaType {
    pub mime: String,
    pub extension: String,
}

/// The kind that the `infer` crate finds for a buffer: its MIME type and
/// its extension, or nothing where it knows none.
pub uninterp spec fn sniffed_kind(head: Seq<u8>) -> Option<(Seq<char>, Seq<char>)>;

/// `data` in Base64 with the standard alphabet and padding.
pub uninterp spec fn base64_of(data: Seq<u8>) -> Seq<char>;

/// The kind as plain values.
pub open spec fn kind_view(kind: Option<MediaType>) -> Option<(Seq<char>, Seq<char>)> {
    match kind {
        Some(k) => Some((k.mime@, k.extension@)),
        None => None,
    }
}

/// Asks `infer::get` for the kind of the buffer. The contract names the
/// answer as a function of the bytes.
#[verifier::external_body]
pub(crate) fn sniff_kind(head: &[u8]) -> (kind: Option<MediaType>)
    ensures
        kind_view(kind) == sniffed_kind(head@),
{
    infer::get(head).map(|found| MediaType { mime: found.mime_type().to_string(), extension: found.extension().to_string() })
}

/// Encodes with `Engine::encode` of the `base64` crate's standard engine.
/// The contract names the text as a function of the bytes.
#[verifier::external_body]
pub(crate) fn encode_base64(data: &[u8]) -> (text: String)
    ensures
        text@ == base64_of(data@),
{
    base64::engine::general_purpose::STANDARD.encode(data)
}

/// Whether `checked` is the verdict on a file of `file_size` bytes under
/// the optional limits: too large comes before too small.
pub open spec fn size_verdict(checked: Result<(), ServiceError>, file_size: usize, min_bytes: Option<usize>, max_bytes: Option<usize>) -> bool {
    if max_bytes is Some && file_size > max_bytes->0 {
        checked == Err::<(), ServiceError>(ServiceError::FileTooLarge(max_bytes->0))
    } else if min_bytes is Some && file_size < min_bytes->0 {
        checked == Err::<(), ServiceError>(ServiceError::FileTooSmall(min_bytes->0))
    } else {
        checked is Ok
    }
}

/// Checks the size of a file against the optional limits.
pub fn validate_file_size(file_size: usize, min_bytes: Option<usize>, max_bytes: Option<usize>) -> (checked: Result<(), ServiceError>)
    ensures
        size_verdict(checked, file_size, min_bytes, max_bytes),
{
    match max_bytes {
        Some(max) => {
            if file_size > max {
                return Err(ServiceError::FileTooLarge(max));
            }
        },
        None => {},
    }
    match min_bytes {
        Some(min) => {
            if file_size < min {
                return Err(ServiceError::FileTooSmall(min));
            }
        },
        None => {},
    }
    Ok(())
}

/// The first bytes of a file, by which its kind is told.
pub open spec fn sniffed_part(content: Seq<u8>) -> Seq<u8> {
    if content.len() > SNIFFED_BYTES {
        content.take(SNIFFED_BYTES as int)
    } else {
        content
    }
}

/// Whether `kind` is the kind of a file with this extension and content:
/// a file named `.svg` is an SVG image, whatever it holds; any other is
/// what its first bytes say, and unknown where they say nothing.
pub open spec fn kind_verdict(kind: Result<MediaType, ServiceError>, extension: Option<Seq<char>>, content: Seq<u8>) -> bool {
    if extension == Some("svg"@) {
        kind is Ok && kind->Ok_0.mime@ == "image/svg+xml"@ && kind->Ok_0.extension@ == "svg"@
    } else {
        match sniffed_kind(sniffed_part(content)) {
            Some(found) => kind is Ok && kind->Ok_0.mime@ == found.0 && kind->Ok_0.extension@ == found.1,
            None => kind is Err && kind->Err_0 is FromString && kind->Err_0->FromString_0@ == "File tyle is unknown!"@,
        }
    }
}

/// The extension as plain values.
pub open spec fn extension_view(extension: Option<&str>) -> Option<Seq<char>> {
    match extension {
        Some(ext) => Some(ext@),
        None => None,
    }
}

/// The kind of a file, from the extension of its name and its content.
pub fn mime_from_path(extension: Option<&str>, content: &[u8]) -> (kind: Result<MediaType, ServiceError>)
    ensures
        kind_verdict(kind, extension_view(extension), content@),
{
    let is_svg = match extension {
        Some(ext) => {
            let given = to_chars(ext);
            let svg = to_chars("svg");
            same_chars(&given, &svg)
        },
        None => false,
    };
    if is_svg {
        return Ok(MediaType { mime: String::from_str("image/svg+xml"), extension: String::from_str("svg") });
    }
    let head = if content.len() > SNIFFED_BYTES { slice_subrange(content, 0, SNIFFED_BYTES) } else { content };
    assert(head@ =~= sniffed_part(content@));
    match sniff_kind(head) {
        Some(kind) => Ok(kind),
        None => Err(ServiceError::FromString(String::from_str("File tyle is unknown!"))),
    }
}

/// The content of a file in Base64.
pub fn read_file_as_base64(content: &[u8]) -> (text: String)
    ensures
        text@ == base64_of(content@),
{
    encode_base64(content)
}

/// Whether `read` is what reading a media file gives: a file above the
/// limit is refused, then one of unknown kind; else its kind and its
/// content in Base64.
pub open spec fn media_verdict(read: Result<(MediaType, String), ServiceError>, extension: Option<Seq<char>>, content: Seq<u8>, max_bytes: Option<usize>) -> bool {
    if max_bytes is Some && content.len() > max_bytes->0 {
        read == Err::<(MediaType, String), ServiceError>(ServiceError::FileTooLarge(max_bytes->0))
    } else if extension == Some("svg"@) {
        read is Ok && read->Ok_0.0.mime@ == "image/svg+xml"@ && read->Ok_0.0.extension@ == "svg"@ && read->Ok_0.1@ == base64_of(content)
    } else {
        match sniffed_kind(sniffed_part(content)) {
            Some(found) => read is Ok && read->Ok_0.0.mime@ == found.0 && read->Ok_0.0.extension@ == found.1 && read->Ok_0.1@ == base64_of(content),
            None => read is Err && read->Err_0 is FromString,
        }
    }
}

impl FileSystemService {
    /// Reads a media file: `extension` is that of its name and `content`
    /// its bytes. The result is the kind of the file and its content in
    /// Base64.
    pub fn read_media_file(&self, extension: Option<&str>, content: &[u8], max_bytes: Option<usize>) -> (read: Result<(MediaType, String), ServiceError>)
        ensures
            media_verdict(read, extension_view(extension), content@, max_bytes),
    {
        match validate_file_size(content.len(), None, max_bytes) {
            Ok(()) => {},
            Err(error) => {
                return Err(error);
            },
        }
        let kind = match mime_from_path(extension, content) {
            Ok(kind) => kind,
            Err(error) => {
                return Err(error);
            },
        };
        Ok((kind, read_file_as_base64(content)))
    }
}

/// A media file as it was read: the extension of its name, and its
/// bytes where it could be read.
pub struct MediaSource {
    pub extension: Option<String>,
    pub content: Option<Vec<u8>>,
}

/// The extension of a source as plain values.
pub open spec fn source_extension(source: MediaSource) -> Option<Seq<char>> {
    match source.extension {
        Some(ext) => Some(ext@),
        None => None,
    }
}

/// Whether reading the source as a media file succeeds: it was read, it
/// is not above the limit, and its kind is known.
pub open spec fn media_reads(source: MediaSource, max_bytes: Option<usize>) -> bool {
    &&& source.content is Some
    &&& !(max_bytes is Some && source.content->0@.len() > max_bytes->0)
    &&& (source_extension(source) == Some("svg"@) || sniffed_kind(sniffed_part(source.content->0@)) is Some)
}

/// The indices below `n` of the sources that are read, in order.
pub open spec fn read_upto(sources: Seq<MediaSource>, max_bytes: Option<usize>, n: int) -> Seq<int>
    decreases n,
{
    if n <= 0 || n > sources.len() {
        Seq::empty()
    } else if media_reads(sources[n - 1], max_bytes) {
        read_upto(sources, max_bytes, n - 1).push(n - 1)
    } else {
        read_upto(sources, max_bytes, n - 1)
    }
}

/// Whether `read` holds what reading the first `n` sources gives: for
/// each source that is read, in order, its kind and its content in
/// Base64.
pub open spec fn media_read_upto(read: Seq<(MediaType, String)>, sources: Seq<MediaSource>, max_bytes: Option<usize>, n: int) -> bool {
    let at = read_upto(sources, max_bytes, n);
    &&& read.len() == at.len()
    &&& forall|j: int|
        0 <= j < at.len() ==> 0 <= #[trigger] at[j] < sources.len() && media_verdict(
            Ok(read[j]),
            source_extension(sources[at[j]]),
            sources[at[j]].content->0@,
            max_bytes,
        )
}

impl FileSystemService {
    /// Reads several media files; one that fails is passed over.
    pub fn read_media_files(&self, sources: &Vec<MediaSource>, max_bytes: Option<usize>) -> (read: Vec<(MediaType, String)>)
        ensures
            media_read_upto(read@, sources@, max_bytes, sources@.len() as int),
    {
        let mut read: Vec<(MediaType, String)> = Vec::new();
        let mut i: usize = 0;
        while i < sources.len()
            invariant
                i <= sources.len(),
                media_read_upto(read@, sources@, max_bytes, i as int),
            decreases sources.len() - i,
        {
            let source = &sources[i];
            let ghost before = read_upto(sources@, max_bytes, i as int);
            let ghost old_read = read@;
            let extension = match &source.extension {
                Some(ext) => Some(ext.as_str()),
                None => None,
            };
            let one = match &source.content {
                Some(content) => {
                    match self.read_media_file(extension, content.as_slice(), max_bytes) {
                        Ok(found) => Some(found),
                        Err(_) => None,
                    }
                },
                None => None,
            };
            match one {
                Some(found) => {
                    read.push(found);
                    proof {
                        let after = read_upto(sources@, max_bytes, i + 1);
                        assert(after == before.push(i as int));
                        assert forall|j: int| 0 <= j < after.len() implies 0 <= #[trigger] after[j] < sources@.len() && media_verdict(
                            Ok(read@[j]),
                            source_extension(sources@[after[j]]),
                            sources@[after[j]].content->0@,
                            max_bytes,
                        ) by {
                            if j < before.len() {
                                assert(after[j] == before[j]);
                                assert(read@[j] == old_read[j]);
                            }
                        }
                    }
                },
                None => {
                    assert(!media_reads(*source, max_bytes));
                },
            }
            i += 1;
        }
        read
    }
}

} // verus!
