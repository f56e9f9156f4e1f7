//! Image sources: data URLs, local paths and remote URLs, and the choice of
//! how an image is fetched and shrunk before it is sent to a model.
use vstd::prelude::*;

use base64::Engine;
use image::codecs::jpeg::JpegEncoder;
use image::imageops::FilterType;
use image::{ImageEncoder, ImageFormat, ImageReader};
use std::io::{BufWriter, Cursor};

use crate::text::{chars_of, concat3, has_prefix, owned, same_text, strip_prefix_spec, strip_prefix_text};

verus! {

/// The largest width and height an image is shrunk to by default.
pub const DEFAULT_MAX_IMAGE_DIM: u32 = 512;

/// Whether a character outside ASCII is in the Unicode `\w` class of the
/// `regex` crate.
pub uninterp spec fn is_unicode_word_char(c: char) -> bool;

/// What standard padded base64 decoding makes of a text, if it accepts it.
pub uninterp spec fn base64_decoded(text: Seq<char>) -> Option<Seq<u8>>;

/// The standard padded base64 encoding of some bytes.
pub uninterp spec fn base64_encoded(bytes: Seq<u8>) -> Seq<char>;

/// An ASCII letter, digit or underscore.
pub open spec fn is_ascii_word(c: char) -> bool {
    ('a' <= c <= 'z') || ('A' <= c <= 'Z') || ('0' <= c <= '9') || c == '_'
}

/// Whether `c` is in the `\w` class of the `regex` crate: for ASCII exactly
/// `[0-9A-Za-z_]`.
pub open spec fn is_word_char(c: char) -> bool {
    if (c as u32) < 128 {
        is_ascii_word(c)
    } else {
        is_unicode_word_char(c)
    }
}

/// A character of the standard base64 alphabet.
pub open spec fn is_base64_letter(c: char) -> bool {
    ('a' <= c <= 'z') || ('A' <= c <= 'Z') || ('0' <= c <= '9') || c == '+' || c == '/'
}

/// `regex_syntax::is_word_character`, the test behind `\w`. For ASCII it is
/// exactly `[0-9A-Za-z_]`, as the crate documents; beyond ASCII the contract
/// only names the answer.
#[verifier::external_body]
fn word_char(c: char) -> (r: bool)
    ensures
        (c as u32) < 128 ==> r == is_ascii_word(c),
        (c as u32) >= 128 ==> r == is_unicode_word_char(c),
{
    regex_syntax::is_word_character(c)
}

/// `base64::engine::general_purpose::STANDARD.decode`: the bytes a padded
/// standard base64 text stands for, or an error.
#[verifier::external_body]
fn base64_decode(text: &str) -> (r: Option<Vec<u8>>)
    ensures
        match r {
            Some(b) => base64_decoded(text@) == Some(b@),
            None => base64_decoded(text@) is None,
        },
{
    base64::engine::general_purpose::STANDARD.decode(text).ok()
}

/// `base64::engine::general_purpose::STANDARD.encode`: the padded standard
/// base64 text of some bytes. As the crate documents, the text uses the
/// standard alphabet followed by at most two `=`, and decoding it gives the
/// bytes back.
#[verifier::external_body]
fn base64_encode(bytes: &[u8]) -> (r: String)
    ensures
        r@ == base64_encoded(bytes@),
        base64_decoded(r@) == Some(bytes@),
        forall|i: int| 0 <= i < r@.len() ==> is_base64_letter(#[trigger] r@[i]) || r@[i] == '=',
        forall|i: int, j: int| #![trigger r@[i], r@[j]] 0 <= i < j < r@.len() && r@[i] == '=' ==> r@[j] == '=',
        forall|i: int| 0 <= i < r@.len() - 2 ==> #[trigger] r@[i] != '=',
{
    base64::engine::general_purpose::STANDARD.encode(bytes)
}

/// A character allowed in the data part of a data URL before its padding.
pub open spec fn is_data_char(c: char) -> bool {
    c == '-' || is_base64_letter(c)
}

/// How many leading characters of `s` are word characters.
pub open spec fn word_run(s: Seq<char>) -> int
    decreases s.len(),
{
    if s.len() > 0 && is_word_char(s[0]) {
        1 + word_run(s.drop_first())
    } else {
        0
    }
}

/// How many leading characters of `s` are data characters.
pub open spec fn data_run(s: Seq<char>) -> int
    decreases s.len(),
{
    if s.len() > 0 && is_data_char(s[0]) {
        1 + data_run(s.drop_first())
    } else {
        0
    }
}

/// The data part of a data URL: data characters, then at most three `=`.
pub open spec fn data_part_ok(d: Seq<char>) -> bool {
    let n = data_run(d);
    &&& d.len() - n <= 3
    &&& forall|i: int| n <= i < d.len() ==> d[i] == '='
}

/// The MIME type and the data of an image data URL, as the pattern
/// `^data:(image/\w+);base64,([-A-Za-z0-9+/]*={0,3})$` captures them.
pub open spec fn data_url_parts(s: Seq<char>) -> Option<(Seq<char>, Seq<char>)> {
    if has_prefix(s, "data:image/"@) {
        let rest = s.skip(11);
        let n = word_run(rest);
        let tail = rest.skip(n);
        if n > 0 && has_prefix(tail, ";base64,"@) && data_part_ok(tail.skip(8)) {
            Some(("image/"@ + rest.take(n), tail.skip(8)))
        } else {
            None
        }
    } else {
        None
    }
}

/// Why a data URL could not be read.
#[derive(Clone, Copy, Debug, PartialEq, Eq, Structural)]
pub enum DataUrlError {
    /// The input is not a proper data url image.
    NotDataUrl,
    /// The data part is not valid base64.
    InvalidBase64,
}

/// What reading a data URL gives: its bytes and MIME type, or why it failed.
pub open spec fn parse_data_url_spec(s: Seq<char>) -> Result<(Seq<u8>, Seq<char>), DataUrlError> {
    match data_url_parts(s) {
        None => Err(DataUrlError::NotDataUrl),
        Some((mime, data)) => match base64_decoded(data) {
            None => Err(DataUrlError::InvalidBase64),
            Some(bytes) => Ok((bytes, mime)),
        },
    }
}

proof fn lemma_run_len(s: Seq<char>, i: int, word: bool)
    requires
        0 <= i <= s.len(),
        forall|j: int| 0 <= j < i ==> (if word { is_word_char(s[j]) } else { is_data_char(s[j]) }),
        i < s.len() ==> !(if word { is_word_char(s[i]) } else { is_data_char(s[i]) }),
    ensures
        word ==> word_run(s) == i,
        !word ==> data_run(s) == i,
    decreases i,
{
    if i > 0 {
        lemma_run_len(s.drop_first(), i - 1, word);
    }
}

/// Length of the leading run of word (or data) characters of `v` from `start`.
fn run_from(v: &Vec<char>, start: usize, word: bool) -> (n: usize)
    requires
        start <= v@.len(),
    ensures
        start + n <= v@.len(),
        word ==> n == word_run(v@.skip(start as int)),
        !word ==> n == data_run(v@.skip(start as int)),
{
    let mut i = start;
    while i < v.len()
        invariant
            start <= i <= v@.len(),
            forall|j: int| start <= j < i ==> (if word { is_word_char(v@[j]) } else { is_data_char(v@[j]) }),
        ensures
            start <= i <= v@.len(),
            forall|j: int| start <= j < i ==> (if word { is_word_char(v@[j]) } else { is_data_char(v@[j]) }),
            i < v@.len() ==> !(if word { is_word_char(v@[i as int]) } else { is_data_char(v@[i as int]) }),
        decreases v.len() - i,
    {
        let c = v[i];
        let ok = if word {
            word_char(c)
        } else {
            c == '-' || ('a' <= c && c <= 'z') || ('A' <= c && c <= 'Z') || ('0' <= c && c <= '9')
                || c == '+' || c == '/'
        };
        if !ok {
            break;
        }
        i = i + 1;
    }
    proof {
        let t = v@.skip(start as int);
        assert forall|j: int| 0 <= j < i - start implies (if word { is_word_char(t[j]) } else { is_data_char(t[j]) }) by {
            assert(t[j] == v@[j + start]);
        }
        if i < v.len() {
            assert(t[i - start] == v@[i as int]);
        }
        lemma_run_len(t, i - start, word);
    }
    i - start
}

/// Whether every character of `v` from `start` on is `=`.
fn padding_from(v: &Vec<char>, start: usize) -> (r: bool)
    requires
        start <= v@.len(),
    ensures
        r == (forall|j: int| start <= j < v@.len() ==> v@[j] == '='),
{
    let mut k = start;
    while k < v.len()
        invariant
            start <= k <= v@.len(),
            forall|j: int| start <= j < k ==> v@[j] == '=',
        decreases v.len() - k,
    {
        if v[k] != '=' {
            return false;
        }
        k = k + 1;
    }
    true
}

/// Reads an image data URL: the decoded bytes and the MIME type.
pub fn parse_data_url(image: &str) -> (r: Result<(Vec<u8>, String), DataUrlError>)
    ensures
        match r {
            Ok((bytes, mime)) => parse_data_url_spec(image@) == Ok::<(Seq<u8>, Seq<char>), DataUrlError>((bytes@, mime@)),
            Err(e) => parse_data_url_spec(image@) == Err::<(Seq<u8>, Seq<char>), DataUrlError>(e),
        },
{
    let rest = match strip_prefix_text(image, "data:image/") {
        Some(t) => t,
        None => return Err(DataUrlError::NotDataUrl),
    };
    proof {
        reveal_strlit("data:image/");
        assert(rest@ =~= image@.skip(11));
    }
    let v = chars_of(rest);
    let n = run_from(&v, 0, true);
    assert(v@.skip(0) =~= v@);
    if n == 0 {
        return Err(DataUrlError::NotDataUrl);
    }
    let tail = rest.substring_char(n, v.len());
    assert(tail@ =~= rest@.skip(n as int));
    let data = match strip_prefix_text(tail, ";base64,") {
        Some(d) => d,
        None => return Err(DataUrlError::NotDataUrl),
    };
    proof {
        reveal_strlit(";base64,");
        assert(data@ =~= tail@.skip(8));
    }
    let dv = chars_of(data);
    let m = run_from(&dv, 0, false);
    assert(dv@.skip(0) =~= dv@);
    if dv.len() - m > 3 {
        return Err(DataUrlError::NotDataUrl);
    }
    if !padding_from(&dv, m) {
        return Err(DataUrlError::NotDataUrl);
    }
    let mime = concat3("image/", rest.substring_char(0, n), "");
    proof {
        reveal_strlit("image/");
        reveal_strlit("");
        assert(mime@ =~= "image/"@ + rest@.take(n as int));
    }
    match base64_decode(data) {
        Some(bytes) => Ok((bytes, mime)),
        None => Err(DataUrlError::InvalidBase64),
    }
}

/// An image MIME type as a data URL carries it: `image/` and one or more
/// word characters.
pub open spec fn is_image_mime(m: Seq<char>) -> bool {
    &&& has_prefix(m, "image/"@)
    &&& m.len() > 6
    &&& forall|i: int| 6 <= i < m.len() ==> is_word_char(#[trigger] m[i])
}

/// Where the `=` padding of a base64 text starts, given that it is at most
/// two characters long.
pub open spec fn padding_start(e: Seq<char>) -> int {
    if e.len() >= 1 && e[e.len() - 1] == '=' {
        if e.len() >= 2 && e[e.len() - 2] == '=' {
            e.len() - 2
        } else {
            e.len() - 1
        }
    } else {
        e.len() as int
    }
}

proof fn lemma_data_part_of_encoding(e: Seq<char>)
    requires
        forall|i: int| 0 <= i < e.len() ==> is_base64_letter(#[trigger] e[i]) || e[i] == '=',
        forall|i: int, j: int| #![trigger e[i], e[j]] 0 <= i < j < e.len() && e[i] == '=' ==> e[j] == '=',
        forall|i: int| 0 <= i < e.len() - 2 ==> #[trigger] e[i] != '=',
    ensures
        data_run(e) == padding_start(e),
        data_part_ok(e),
{
    let p = padding_start(e);
    assert forall|j: int| 0 <= j < p implies is_data_char(e[j]) by {
        if e[j] == '=' {
            if j < e.len() - 2 {
            } else {
                assert(e[e.len() - 1] == '=');
                if j == e.len() - 2 {
                } else {
                    assert(j == e.len() - 1);
                }
            }
        }
    }
    lemma_run_len(e, p, false);
}

/// The data URL `data:{mime};base64,{encoded bytes}`. Reading it back with
/// [`parse_data_url`] gives the bytes and the MIME type again.
pub fn data_uri(mime: &str, bytes: &[u8]) -> (r: String)
    ensures
        r@ == "data:"@ + mime@ + ";base64,"@ + base64_encoded(bytes@),
        is_image_mime(mime@) ==> parse_data_url_spec(r@) == Ok::<(Seq<u8>, Seq<char>), DataUrlError>((bytes@, mime@)),
{
    let encoded = base64_encode(bytes);
    let head = concat3("data:", mime, ";base64,");
    let mut r = head;
    r.append(encoded.as_str());
    proof {
        if is_image_mime(mime@) {
            let e = encoded@;
            let m = mime@;
            let s = r@;
            reveal_strlit("data:");
            reveal_strlit(";base64,");
            reveal_strlit("image/");
            reveal_strlit("data:image/");
            assert(s =~= "data:"@ + m + ";base64,"@ + e);
            assert(m.take(6) =~= "image/"@);
            assert forall|i: int| 0 <= i < 11 implies s.take(11)[i] == "data:image/"@[i] by {
                if i >= 5 {
                    assert(s[i] == m[i - 5]);
                    assert(m.take(6)[i - 5] == "image/"@[i - 5]);
                }
            }
            assert(s.take(11) =~= "data:image/"@);
            let rest = s.skip(11);
            let sub = m.skip(6);
            assert(rest =~= sub + ";base64,"@ + e);
            assert forall|j: int| 0 <= j < sub.len() implies is_word_char(rest[j]) by {
                assert(rest[j] == m[j + 6]);
            }
            assert(rest[sub.len() as int] == ';');
            lemma_run_len(rest, sub.len() as int, true);
            let tail = rest.skip(sub.len() as int);
            assert(tail =~= ";base64,"@ + e);
            assert(tail.take(8) =~= ";base64,"@);
            assert(tail.skip(8) =~= e);
            lemma_data_part_of_encoding(e);
            assert("image/"@ + rest.take(sub.len() as int) =~= m);
        }
    }
    r
}

} // verus!

verus! {

/// The path an image source names on disk: the text after `file://`, or the
/// whole text.
pub open spec fn local_path_spec(image: Seq<char>) -> Seq<char> {
    match strip_prefix_spec(image, "file://"@) {
        Some(p) => p,
        None => image,
    }
}

/// The path an image source names on disk: the text after `file://`, or the
/// whole text.
pub fn local_path(image: &str) -> (r: &str)
    ensures
        r@ == local_path_spec(image@),
{
    match strip_prefix_text(image, "file://") {
        Some(p) => p,
        None => image,
    }
}

/// Where the bytes of an image come from.
#[derive(Clone, Debug, PartialEq, Eq)]
pub enum ImageFetch {
    /// Read the file named by this text.
    ReadFile(String),
    /// The source was a data URL: these bytes, of this MIME type.
    Inline(Vec<u8>, String),
    /// Download this URL.
    Download(String),
}

/// What to do with a decoded image before it is sent on.
#[derive(Clone, Copy, Debug, PartialEq, Eq, Structural)]
pub enum ShrinkPlan {
    /// Send the bytes as they are.
    Keep,
    /// Scale the image to fit in this box, then encode it as JPEG.
    Resize { width: u32, height: u32 },
    /// Encode the image as JPEG at its own size.
    Reencode,
}

/// How images are fetched and shrunk: whether local files may be read, and the
/// box that larger images are scaled down to fit in.
#[derive(Clone, Copy, Debug, PartialEq, Eq)]
pub struct ImageResolver {
    pub allow_local: bool,
    pub max_size: Option<(u32, u32)>,
}

impl Default for ImageResolver {
    /// No local files; images shrunk to the default largest dimension.
    fn default() -> (r: Self)
        ensures
            !r.allow_local,
            r.max_size == Some((DEFAULT_MAX_IMAGE_DIM, DEFAULT_MAX_IMAGE_DIM)),
    {
        ImageResolver { allow_local: false, max_size: Some((DEFAULT_MAX_IMAGE_DIM, DEFAULT_MAX_IMAGE_DIM)) }
    }
}

impl ImageResolver {
    /// A resolver that may read local files or not, shrinking images to a square
    /// of side `max_dim`.
    pub fn with_max_dim(allow_local: bool, max_dim: u32) -> (r: Self)
        ensures
            r.allow_local == allow_local,
            r.max_size == Some((max_dim, max_dim)),
    {
        ImageResolver { allow_local, max_size: Some((max_dim, max_dim)) }
    }

    /// Where the bytes of `image` come from. A local file wins when local files
    /// are allowed and `local_exists` says that [`local_path`] of it exists
    /// (the file is then read by the unstripped name); then a data URL; else
    /// the text is downloaded as a URL.
    pub fn fetch_plan(&self, image: &str, local_exists: bool) -> (r: ImageFetch)
        ensures
            match r {
                ImageFetch::ReadFile(p) => self.allow_local && local_exists && p@ == image@,
                ImageFetch::Inline(b, m) => !(self.allow_local && local_exists)
                    && parse_data_url_spec(image@) == Ok::<(Seq<u8>, Seq<char>), DataUrlError>((b@, m@)),
                ImageFetch::Download(u) => !(self.allow_local && local_exists)
                    && parse_data_url_spec(image@) is Err && u@ == image@,
            },
    {
        if self.allow_local && local_exists {
            return ImageFetch::ReadFile(owned(image));
        }
        match parse_data_url(image) {
            Ok((bytes, mime)) => ImageFetch::Inline(bytes, mime),
            Err(_) => ImageFetch::Download(owned(image)),
        }
    }

    /// What to do with a decoded image of `width` by `height`: nothing when no
    /// box is set; scale it when it does not fit the box; keep a JPEG that
    /// fits as it is; encode any other image that fits as JPEG.
    pub fn shrink_plan(&self, width: u32, height: u32, is_jpeg: bool) -> (r: ShrinkPlan)
        ensures
            match self.max_size {
                None => r == ShrinkPlan::Keep,
                Some((w, h)) => if width > w || height > h {
                    r == (ShrinkPlan::Resize { width: w, height: h })
                } else if is_jpeg {
                    r == ShrinkPlan::Keep
                } else {
                    r == ShrinkPlan::Reencode
                },
            },
    {
        match self.max_size {
            None => ShrinkPlan::Keep,
            Some((w, h)) => {
                if width > w || height > h {
                    ShrinkPlan::Resize { width: w, height: h }
                } else if is_jpeg {
                    ShrinkPlan::Keep
                } else {
                    ShrinkPlan::Reencode
                }
            },
        }
    }
}

} // verus!

verus! {

// ---------------------------------------------------------------------------
// Image formats and shrinking

/// An image format is known by the MIME type that the `image` crate gives
/// it (`ImageFormat::to_mime_type`).
/// The format the `image` crate reads a MIME type as (`ImageFormat::from_mime_type`),
/// by that format's own MIME type.
pub open spec fn format_of_mime_spec(m: Seq<char>) -> Option<Seq<char>> {
    if m == "image/avif"@ || m == "image/jpeg"@ || m == "image/png"@ || m == "image/gif"@
        || m == "image/webp"@ || m == "image/tiff"@ || m == "image/vnd-ms.dds"@ || m == "image/bmp"@
        || m == "image/vnd.radiance"@ || m == "image/x-exr"@ || m == "image/x-qoi"@ {
        Some(m)
    } else if m == "image/x-targa"@ || m == "image/x-tga"@ {
        Some("image/x-targa"@)
    } else if m == "image/x-icon"@ || m == "image/vnd.microsoft.icon"@ {
        Some("image/x-icon"@)
    } else if m == "image/x-portable-bitmap"@ || m == "image/x-portable-graymap"@
        || m == "image/x-portable-pixmap"@ || m == "image/x-portable-anymap"@ {
        Some("image/x-portable-anymap"@)
    } else {
        None
    }
}

/// The text with ASCII capitals made small (`str::to_ascii_lowercase`).
pub open spec fn ascii_lower(s: Seq<char>) -> Seq<char> {
    s.map_values(|c: char| if 'A' <= c && c <= 'Z' { ((c as int) + 32) as char } else { c })
}

/// The format, by its MIME type, that the `image` crate reads a file
/// extension as (`ImageFormat::from_extension`, which ignores ASCII case).
pub open spec fn format_of_extension_spec(ext: Seq<char>) -> Option<Seq<char>> {
    let e = ascii_lower(ext);
    if e == "avif"@ {
        Some("image/avif"@)
    } else if e == "jpg"@ || e == "jpeg"@ || e == "jfif"@ {
        Some("image/jpeg"@)
    } else if e == "png"@ || e == "apng"@ {
        Some("image/png"@)
    } else if e == "gif"@ {
        Some("image/gif"@)
    } else if e == "webp"@ {
        Some("image/webp"@)
    } else if e == "tif"@ || e == "tiff"@ {
        Some("image/tiff"@)
    } else if e == "tga"@ {
        Some("image/x-targa"@)
    } else if e == "dds"@ {
        Some("image/vnd-ms.dds"@)
    } else if e == "bmp"@ {
        Some("image/bmp"@)
    } else if e == "ico"@ {
        Some("image/x-icon"@)
    } else if e == "hdr"@ {
        Some("image/vnd.radiance"@)
    } else if e == "exr"@ {
        Some("image/x-exr"@)
    } else if e == "pbm"@ || e == "pam"@ || e == "ppm"@ || e == "pgm"@ || e == "pnm"@ {
        Some("image/x-portable-anymap"@)
    } else if e == "ff"@ {
        Some("application/octet-stream"@)
    } else if e == "qoi"@ {
        Some("image/x-qoi"@)
    } else {
        None
    }
}

/// The width and height of the image that some bytes decode to, read in
/// the given format (by its MIME type), if they decode.
pub uninterp spec fn decoded_size(bytes: Seq<u8>, format: Option<Seq<char>>) -> Option<(u32, u32)>;

/// The JPEG bytes of the image that some bytes decode to, first scaled with
/// Lanczos filtering to fit the box when one is given, if decoding and
/// encoding succeed.
pub uninterp spec fn jpeg_of(bytes: Seq<u8>, format: Option<Seq<char>>, fit: Option<(u32, u32)>) -> Option<Seq<u8>>;

/// An optional text as an optional character sequence.
pub open spec fn text_opt(o: Option<&str>) -> Option<Seq<char>> {
    match o {
        Some(t) => Some(t@),
        None => None,
    }
}

/// An optional string as an optional character sequence.
pub open spec fn string_opt(o: Option<String>) -> Option<Seq<char>> {
    match o {
        Some(t) => Some(t@),
        None => None,
    }
}

/// `ImageFormat::from_mime_type`, the format given by its own MIME type
/// (`ImageFormat::to_mime_type`); the table is the crate's.
#[verifier::external_body]
fn format_of_mime_type(m: &str) -> (r: Option<&'static str>)
    ensures
        text_opt(r) == format_of_mime_spec(m@),
{
    match ImageFormat::from_mime_type(m) {
        Some(f) => Some(f.to_mime_type()),
        None => None,
    }
}

/// `ImageFormat::from_extension`, the format given by its own MIME type
/// (`ImageFormat::to_mime_type`); the table is the crate's.
#[verifier::external_body]
fn format_of_extension_text(ext: &str) -> (r: Option<&'static str>)
    ensures
        text_opt(r) == format_of_extension_spec(ext@),
{
    match ImageFormat::from_extension(ext) {
        Some(f) => Some(f.to_mime_type()),
        None => None,
    }
}

/// `ImageReader::decode` of the bytes in the given format, and the decoded
/// image's width and height.
#[verifier::external_body]
fn image_size(bytes: &[u8], format: Option<&str>) -> (r: Option<(u32, u32)>)
    ensures
        r == decoded_size(bytes@, text_opt(format)),
{
    let mut reader = ImageReader::new(Cursor::new(bytes));
    if let Some(f) = format.and_then(ImageFormat::from_mime_type) {
        reader.set_format(f);
    }
    reader.decode().ok().map(|i| (i.width(), i.height()))
}

/// Decodes the bytes in the given format, scales the image with `resize`
/// and the Lanczos filter to fit the box, and writes it with the JPEG encoder.
#[verifier::external_body]
fn jpeg_encode_fitted(bytes: &[u8], format: Option<&str>, width: u32, height: u32) -> (r: Option<Vec<u8>>)
    ensures
        match r {
            Some(b) => jpeg_of(bytes@, text_opt(format), Some((width, height))) == Some(b@),
            None => jpeg_of(bytes@, text_opt(format), Some((width, height))) is None,
        },
{
    let mut reader = ImageReader::new(Cursor::new(bytes));
    if let Some(f) = format.and_then(ImageFormat::from_mime_type) {
        reader.set_format(f);
    }
    let img = reader.decode().ok()?.resize(width, height, FilterType::Lanczos3);
    let mut out = BufWriter::new(Vec::new());
    let (w, h, color) = (img.width(), img.height(), img.color().into());
    JpegEncoder::new(&mut out).write_image(img.as_bytes(), w, h, color).ok()?;
    out.into_inner().ok()
}

/// Decodes the bytes in the given format and writes the image with the JPEG
/// encoder at its own size.
#[verifier::external_body]
fn jpeg_encode_as_is(bytes: &[u8], format: Option<&str>) -> (r: Option<Vec<u8>>)
    ensures
        match r {
            Some(b) => jpeg_of(bytes@, text_opt(format), None) == Some(b@),
            None => jpeg_of(bytes@, text_opt(format), None) is None,
        },
{
    let mut reader = ImageReader::new(Cursor::new(bytes));
    if let Some(f) = format.and_then(ImageFormat::from_mime_type) {
        reader.set_format(f);
    }
    let img = reader.decode().ok()?;
    let mut out = BufWriter::new(Vec::new());
    let (w, h, color) = (img.width(), img.height(), img.color().into());
    JpegEncoder::new(&mut out).write_image(img.as_bytes(), w, h, color).ok()?;
    out.into_inner().ok()
}

/// The format the `image` crate reads a MIME type as, by the format's own
/// MIME type.
pub fn format_for_mime(m: &str) -> (r: Option<String>)
    ensures
        string_opt(r) == format_of_mime_spec(m@),
{
    match format_of_mime_type(m) {
        Some(t) => Some(owned(t)),
        None => None,
    }
}

/// The format the `image` crate reads a file extension as, by the format's
/// MIME type.
pub fn format_for_extension(ext: &str) -> (r: Option<String>)
    ensures
        string_opt(r) == format_of_extension_spec(ext@),
{
    match format_of_extension_text(ext) {
        Some(t) => Some(owned(t)),
        None => None,
    }
}

/// Why an image could not be shrunk.
#[derive(Clone, Copy, Debug, PartialEq, Eq, Structural)]
pub enum ShrinkError {
    /// The bytes do not decode as an image of the given format.
    Undecodable,
    /// The image could not be written as JPEG.
    Encode,
}

/// A JPEG encoding as the result of shrinking.
pub open spec fn jpeg_result(j: Option<Seq<u8>>) -> Result<(Seq<u8>, Option<Seq<char>>), ShrinkError> {
    match j {
        Some(b) => Ok((b, Some("image/jpeg"@))),
        None => Err(ShrinkError::Encode),
    }
}

/// What shrinking some bytes of a format gives, with `max` the box: with no
/// box, the bytes as they are; else an image that does not fit is scaled
/// into the box and written as JPEG, a JPEG that fits is kept, and any other
/// image that fits is written as JPEG.
pub open spec fn downsample_spec(
    max: Option<(u32, u32)>,
    bytes: Seq<u8>,
    format: Option<Seq<char>>,
) -> Result<(Seq<u8>, Option<Seq<char>>), ShrinkError> {
    match max {
        None => Ok((bytes, format)),
        Some((w, h)) => match decoded_size(bytes, format) {
            None => Err(ShrinkError::Undecodable),
            Some((iw, ih)) => if iw > w || ih > h {
                jpeg_result(jpeg_of(bytes, format, Some((w, h))))
            } else if format == Some("image/jpeg"@) {
                Ok((bytes, format))
            } else {
                jpeg_result(jpeg_of(bytes, format, None))
            },
        },
    }
}

/// An image larger than the box is never sent as it came, whatever its
/// format, a JPEG too: it is scaled into the box and written as JPEG.
/// Bytes come back unchanged only when there is no box, or the image fits it
/// and is already a JPEG.
pub proof fn lemma_oversized_is_scaled(
    w: u32,
    h: u32,
    bytes: Seq<u8>,
    format: Option<Seq<char>>,
    iw: u32,
    ih: u32,
)
    requires
        decoded_size(bytes, format) == Some((iw, ih)),
        iw > w || ih > h,
    ensures
        downsample_spec(Some((w, h)), bytes, format) == jpeg_result(jpeg_of(bytes, format, Some((w, h)))),
        downsample_spec(Some((w, h)), bytes, format) is Ok ==> downsample_spec(Some((w, h)), bytes, format)->Ok_0.1
            == Some("image/jpeg"@),
{
}

/// An image that fits the box is never scaled: a JPEG is sent as it came,
/// and any other image is written as JPEG at its own size.
pub proof fn lemma_fitting_is_not_scaled(
    w: u32,
    h: u32,
    bytes: Seq<u8>,
    format: Option<Seq<char>>,
    iw: u32,
    ih: u32,
)
    requires
        decoded_size(bytes, format) == Some((iw, ih)),
        iw <= w && ih <= h,
    ensures
        format == Some("image/jpeg"@) ==> downsample_spec(Some((w, h)), bytes, format) == Ok::<
            (Seq<u8>, Option<Seq<char>>),
            ShrinkError,
        >((bytes, format)),
        format != Some("image/jpeg"@) ==> downsample_spec(Some((w, h)), bytes, format) == jpeg_result(
            jpeg_of(bytes, format, None),
        ),
{
}

/// A shrink result as plain values.
pub open spec fn shrunk_view(r: Result<(Vec<u8>, Option<String>), ShrinkError>) -> Result<(Seq<u8>, Option<Seq<char>>), ShrinkError> {
    match r {
        Ok((b, f)) => Ok((b@, string_opt(f))),
        Err(e) => Err(e),
    }
}

/// Where the bytes of an image are held.
#[derive(Clone, Debug, PartialEq, Eq)]
pub enum ImageSource {
    /// The bytes themselves.
    Raw(Vec<u8>),
    /// A URL, a file path or a data URL to fetch them from.
    Url(String),
    /// Their standard base64 text.
    Base64(String),
}

/// An image handed to a model: where its bytes are, and its media type.
#[derive(Clone, Debug, PartialEq, Eq)]
pub struct ImageData {
    pub data: ImageSource,
    pub media_type: Option<String>,
}

/// What preprocessing makes of an image.
#[derive(Clone, Debug, PartialEq, Eq)]
pub enum Preprocessed {
    /// The image, ready to send.
    Ready(ImageData),
    /// The image must first be fetched from this source and resolved.
    Fetch(String),
}

impl ImageResolver {
    /// Shrinks image bytes of a format (given by its MIME type) as
    /// [`ImageResolver::shrink_plan`] decides for the decoded image: kept,
    /// scaled into the box and written as JPEG, or written as JPEG. Without
    /// a box the bytes are kept and not decoded.
    pub fn downsample(&self, bytes: &[u8], format: Option<&str>) -> (r: Result<(Vec<u8>, Option<String>), ShrinkError>)
        ensures
            shrunk_view(r) == downsample_spec(self.max_size, bytes@, text_opt(format)),
    {
        let keep = match format {
            Some(f) => Some(owned(f)),
            None => None,
        };
        if self.max_size.is_none() {
            return Ok((vstd::slice::slice_to_vec(bytes), keep));
        }
        let (w, h) = match image_size(bytes, format) {
            Some(size) => size,
            None => return Err(ShrinkError::Undecodable),
        };
        let is_jpeg = match format {
            Some(f) => same_text(f, "image/jpeg"),
            None => false,
        };
        proof {
            reveal_strlit("image/jpeg");
        }
        let encoded = match self.shrink_plan(w, h, is_jpeg) {
            ShrinkPlan::Keep => return Ok((vstd::slice::slice_to_vec(bytes), keep)),
            ShrinkPlan::Resize { width, height } => jpeg_encode_fitted(bytes, format, width, height),
            ShrinkPlan::Reencode => jpeg_encode_as_is(bytes, format),
        };
        match encoded {
            Some(j) => Ok((j, Some(owned("image/jpeg")))),
            None => Err(ShrinkError::Encode),
        }
    }

    /// The data URL of fetched image bytes of a format: shrunk as
    /// [`ImageResolver::downsample`] does, then written with the format's MIME
    /// type (empty when the format is unknown).
    pub fn data_uri_from_bytes(&self, bytes: &[u8], format: Option<&str>) -> (r: Result<String, ShrinkError>)
        ensures
            match downsample_spec(self.max_size, bytes@, text_opt(format)) {
                Ok((b, f)) => r matches Ok(u) && u@ == "data:"@ + (match f {
                    Some(m) => m,
                    None => Seq::<char>::empty(),
                }) + ";base64,"@ + base64_encoded(b),
                Err(e) => r == Err::<String, ShrinkError>(e),
            },
    {
        let (b, f) = match self.downsample(bytes, format) {
            Ok(x) => x,
            Err(e) => return Err(e),
        };
        let mime = match &f {
            Some(m) => m.clone(),
            None => String::new(),
        };
        Ok(data_uri(mime.as_str(), b.as_slice()))
    }

    /// The image of fetched bytes of a format: shrunk as
    /// [`ImageResolver::downsample`] does, held as base64 text with the
    /// format's MIME type as its media type.
    pub fn image_from_bytes(&self, bytes: &[u8], format: Option<&str>) -> (r: Result<ImageData, ShrinkError>)
        ensures
            match downsample_spec(self.max_size, bytes@, text_opt(format)) {
                Ok((b, f)) => r matches Ok(img) && (img.data matches ImageSource::Base64(t)
                    && t@ == base64_encoded(b)) && string_opt(img.media_type) == f,
                Err(e) => r == Err::<ImageData, ShrinkError>(e),
            },
    {
        let (b, f) = match self.downsample(bytes, format) {
            Ok(x) => x,
            Err(e) => return Err(e),
        };
        Ok(ImageData { data: ImageSource::Base64(base64_encode(b.as_slice())), media_type: f })
    }

    /// Prepares an image for a model. Raw bytes are shrunk when a box is set
    /// (their format read from the media type) and held as base64 text with
    /// the resulting media type; when there is no box, or shrinking fails,
    /// the raw bytes are held as base64 text with the media type as it was.
    /// An image at a URL must be fetched first; base64 text is ready as it is.
    pub fn preprocess(&self, image: ImageData) -> (r: Preprocessed)
        ensures
            match image.data {
                ImageSource::Raw(bytes) => {
                    let fmt = match image.media_type {
                        Some(m) => format_of_mime_spec(m@),
                        None => None,
                    };
                    let shrunk = downsample_spec(self.max_size, bytes@, fmt);
                    r matches Preprocessed::Ready(out) && (if self.max_size is Some && shrunk is Ok {
                        out.data matches ImageSource::Base64(t) && t@ == base64_encoded(shrunk->Ok_0.0)
                            && string_opt(out.media_type) == shrunk->Ok_0.1
                    } else {
                        out.data matches ImageSource::Base64(t) && t@ == base64_encoded(bytes@)
                            && out.media_type == image.media_type
                    })
                },
                ImageSource::Url(u) => r == Preprocessed::Fetch(u),
                ImageSource::Base64(_) => r == Preprocessed::Ready(image),
            },
    {
        let ImageData { data, media_type } = image;
        match data {
            ImageSource::Raw(bytes) => {
                let format = match &media_type {
                    Some(m) => format_for_mime(m.as_str()),
                    None => None,
                };
                let fref: Option<&str> = match &format {
                    Some(f) => Some(f.as_str()),
                    None => None,
                };
                if self.max_size.is_some() {
                    match self.downsample(bytes.as_slice(), fref) {
                        Ok((b, f)) => {
                            return Preprocessed::Ready(ImageData {
                                data: ImageSource::Base64(base64_encode(b.as_slice())),
                                media_type: f,
                            });
                        },
                        Err(_) => {},
                    }
                }
                Preprocessed::Ready(ImageData {
                    data: ImageSource::Base64(base64_encode(bytes.as_slice())),
                    media_type,
                })
            },
            ImageSource::Url(u) => Preprocessed::Fetch(u),
            ImageSource::Base64(t) => Preprocessed::Ready(ImageData { data: ImageSource::Base64(t), media_type }),
        }
    }
}

} // verus!
