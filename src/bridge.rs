//! Calls into code whose behaviour is taken from its documentation: each
//! function here is trusted, not proved.
use vstd::prelude::*;
use vstd::utf8::{encode_utf8, valid_utf8};

verus! {

/// What `str::to_uppercase` returns for the given characters.
pub uninterp spec fn upper_of(s: Seq<char>) -> Seq<char>;

/// Relies on std's `str::to_uppercase`: the result depends on the characters
/// alone, and the empty string stays empty.
#[verifier::external_body]
pub(crate) fn uppercase(s: &str) -> (r: String)
    ensures
        r@ == upper_of(s@),
        s@.len() == 0 ==> r@.len() == 0,
{
    s.to_uppercase()
}

/// What inflector's `to_title_case` returns for the given characters.
pub uninterp spec fn title_case_of(s: Seq<char>) -> Seq<char>;

/// Relies on inflector's `cases::titlecase::to_title_case`: the result
/// depends on the characters alone.
#[verifier::external_body]
pub(crate) fn title_case(s: &str) -> (r: String)
    ensures
        r@ == title_case_of(s@),
{
    inflector::cases::titlecase::to_title_case(s)
}

/// What chrono's `to_rfc3339` writes for the UTC instant that lies `nanos`
/// nanoseconds after the Unix epoch.
pub uninterp spec fn rfc3339_of(nanos: i64) -> Seq<char>;

/// Relies on chrono's `DateTime::<Utc>::to_rfc3339`, on the instant that
/// `DateTime::from_timestamp_nanos` makes of `nanos` (defined for every `i64`).
#[verifier::external_body]
pub(crate) fn rfc3339(nanos: i64) -> (r: String)
    ensures
        r@ == rfc3339_of(nanos),
{
    chrono::DateTime::<chrono::Utc>::from_timestamp_nanos(nanos).to_rfc3339()
}

/// The HTML that pulldown-cmark renders from a Markdown text, with footnotes
/// and tables enabled.
pub uninterp spec fn markdown_html_of(s: Seq<char>) -> Seq<char>;

/// Relies on pulldown-cmark's `html::push_html`, fed by a `Parser` with
/// footnotes and tables enabled: the output depends on the text alone.
#[verifier::external_body]
pub(crate) fn markdown_to_html(text: &str) -> (r: String)
    ensures
        r@ == markdown_html_of(text@),
{
    let mut opts = pulldown_cmark::Options::empty();
    opts.insert(pulldown_cmark::Options::ENABLE_FOOTNOTES);
    opts.insert(pulldown_cmark::Options::ENABLE_TABLES);
    let mut html = String::new();
    pulldown_cmark::html::push_html(&mut html, pulldown_cmark::Parser::new_ext(text, opts));
    html
}

#[verifier::external_type_specification]
#[verifier::external_body]
pub struct ExDynamicImage(image::DynamicImage);

#[verifier::external_type_specification]
#[verifier::external_body]
pub struct ExImageError(image::ImageError);

/// The JPEG bytes that the image crate produces from `data`: decoded as a
/// JPEG image, scaled with the triangle filter to fit within `width` by
/// `height`, and encoded as a JPEG image; `None` where a step fails.
pub uninterp spec fn jpeg_rendition_of(data: Seq<u8>, width: u32, height: u32) -> Option<Seq<u8>>;

/// A photo decoded by the image crate, with the bytes it was decoded from.
pub struct DecodedPhoto {
    img: image::DynamicImage,
    source: Ghost<Seq<u8>>,
}

impl DecodedPhoto {
    /// The bytes the photo was decoded from.
    pub closed spec fn source(&self) -> Seq<u8> {
        self.source@
    }
}

/// A decoded photo scaled to fit a box.
pub struct ScaledPhoto {
    img: image::DynamicImage,
    source: Ghost<Seq<u8>>,
    width: Ghost<u32>,
    height: Ghost<u32>,
}

impl ScaledPhoto {
    /// The bytes the photo was decoded from.
    pub closed spec fn source(&self) -> Seq<u8> {
        self.source@
    }

    /// The box the photo was scaled to fit.
    pub closed spec fn width(&self) -> u32 {
        self.width@
    }

    pub closed spec fn height(&self) -> u32 {
        self.height@
    }
}

/// Relies on image's `load_from_memory_with_format` with the JPEG format:
/// where it fails, no rendition of the bytes exists.
#[verifier::external_body]
pub(crate) fn decode_jpeg(data: &[u8]) -> (r: Result<DecodedPhoto, image::ImageError>)
    ensures
        r is Ok ==> r->Ok_0.source() == data@,
        r is Err ==> forall|w: u32, h: u32| #[trigger] jpeg_rendition_of(data@, w, h) is None,
{
    match image::load_from_memory_with_format(data, image::ImageFormat::Jpeg) {
        Ok(img) => Ok(DecodedPhoto { img, source: Ghost(data@) }),
        Err(e) => Err(e),
    }
}

/// Relies on image's `DynamicImage::resize` with the triangle filter: the
/// image scaled to fit within `width` by `height`, keeping its aspect ratio.
#[verifier::external_body]
pub(crate) fn resized(p: &DecodedPhoto, width: u32, height: u32) -> (r: ScaledPhoto)
    ensures
        r.source() == p.source(),
        r.width() == width,
        r.height() == height,
{
    ScaledPhoto {
        img: p.img.resize(width, height, image::imageops::FilterType::Triangle),
        source: Ghost(p.source@),
        width: Ghost(width),
        height: Ghost(height),
    }
}

/// Relies on image's `DynamicImage::write_to` with the JPEG format, into a
/// buffer in memory: the last step of a rendition.
#[verifier::external_body]
pub(crate) fn encode_jpeg(p: &ScaledPhoto) -> (r: Result<Vec<u8>, image::ImageError>)
    ensures
        r is Ok <==> jpeg_rendition_of(p.source(), p.width(), p.height()) is Some,
        r is Ok ==> r->Ok_0@ == jpeg_rendition_of(p.source(), p.width(), p.height())->Some_0,
{
    let mut out = std::io::Cursor::new(Vec::new());
    match p.img.write_to(&mut out, image::ImageFormat::Jpeg) {
        Ok(()) => Ok(out.into_inner()),
        Err(e) => Err(e),
    }
}

/// Relies on the `Display` of image's `ImageError`.
#[verifier::external_body]
pub(crate) fn image_error_text(e: &image::ImageError) -> (r: String) {
    e.to_string()
}

/// Relies on std's `String::from_utf8`: it fails exactly on bytes that are
/// not valid UTF-8, and otherwise keeps the bytes as they are.
#[verifier::external_body]
pub(crate) fn utf8_string(bytes: Vec<u8>) -> (r: Option<String>)
    ensures
        r is Some <==> valid_utf8(bytes@),
        r is Some ==> encode_utf8(r->Some_0@) == bytes@,
{
    match String::from_utf8(bytes) {
        Ok(s) => Some(s),
        Err(_) => None,
    }
}

} // verus!
