//! Files attached to a chat: the size and type limits, decoding the upload,
//! reading the text out of documents and the size and thumbnail of images.

use vstd::prelude::*;
use base64::Engine;
use vstd::utf8::{decode_utf8, valid_utf8};
use crate::chunking::string_views;
use crate::ids::new_uuid_v4;
use crate::text::{decimal, push_str, str_eq, to_owned_string, trim, is_blank, u64_to_decimal};

verus! {

/// The outcome of an upload.
#[derive(Debug)]
pub struct FileUploadResult {
    pub file_id: String,
    pub file_name: String,
    pub file_size: u64,
    pub mime_type: String,
    pub base64_data: String,
    pub thumbnail: Option<String>,
    pub extracted_text: Option<String>,
    pub dimensions: Option<FileDimensions>,
    pub success: bool,
    pub error: Option<String>,
}

/// The pixel size of an uploaded image.
#[derive(Debug, Clone, Copy)]
pub struct FileDimensions {
    pub width: u32,
    pub height: u32,
}

/// What uploads may be.
#[derive(Debug)]
pub struct FileValidationConfig {
    pub max_file_size: u64,
    pub allowed_image_types: Vec<String>,
    pub allowed_document_types: Vec<String>,
    pub max_files_per_message: u32,
}

/// The image types accepted by default.
pub open spec fn default_image_types() -> Seq<Seq<char>> {
    seq!["image/png"@, "image/jpeg"@, "image/jpg"@, "image/gif"@, "image/webp"@, "image/bmp"@]
}

/// The document types accepted by default.
pub open spec fn default_document_types() -> Seq<Seq<char>> {
    seq![
        "application/pdf"@,
        "text/plain"@,
        "text/markdown"@,
        "application/vnd.openxmlformats-officedocument.wordprocessingml.document"@,
        "application/msword"@,
    ]
}

/// The largest upload accepted by default: 50 MiB.
pub open spec fn default_max_file_size() -> u64 {
    52_428_800
}

fn push_owned(v: &mut Vec<String>, s: &str)
    ensures
        string_views(final(v)@) == string_views(old(v)@).push(s@),
{
    let ghost before = v@;
    v.push(to_owned_string(s));
    assert(string_views(v@) =~= string_views(before).push(s@));
}

impl Default for FileValidationConfig {
    /// 50 MiB, the common image types, PDF, plain text, Markdown and Word
    /// documents, ten files per message.
    fn default() -> (c: Self)
        ensures
            c.max_file_size == default_max_file_size(),
            string_views(c.allowed_image_types@) == default_image_types(),
            string_views(c.allowed_document_types@) == default_document_types(),
            c.max_files_per_message == 10,
    {
        let mut images: Vec<String> = Vec::new();
        push_owned(&mut images, "image/png");
        push_owned(&mut images, "image/jpeg");
        push_owned(&mut images, "image/jpg");
        push_owned(&mut images, "image/gif");
        push_owned(&mut images, "image/webp");
        push_owned(&mut images, "image/bmp");
        let mut docs: Vec<String> = Vec::new();
        push_owned(&mut docs, "application/pdf");
        push_owned(&mut docs, "text/plain");
        push_owned(&mut docs, "text/markdown");
        push_owned(
            &mut docs,
            "application/vnd.openxmlformats-officedocument.wordprocessingml.document",
        );
        push_owned(&mut docs, "application/msword");
        assert(string_views(images@) =~= default_image_types());
        assert(string_views(docs@) =~= default_document_types());
        FileValidationConfig {
            max_file_size: 50 * 1024 * 1024,
            allowed_image_types: images,
            allowed_document_types: docs,
            max_files_per_message: 10,
        }
    }
}

/// Whether `s` is one of the strings of `v`.
pub fn list_contains(v: &Vec<String>, s: &str) -> (b: bool)
    ensures
        b == string_views(v@).contains(s@),
{
    let mut i: usize = 0;
    while i < v.len()
        invariant
            i <= v.len(),
            forall|k: int| 0 <= k < i ==> string_views(v@)[k] != s@,
        decreases v.len() - i,
    {
        if str_eq(v[i].as_str(), s) {
            assert(string_views(v@)[i as int] == s@);
            return true;
        }
        i = i + 1;
    }
    proof {
        if string_views(v@).contains(s@) {
            let k = choose|k: int| 0 <= k < string_views(v@).len() && string_views(v@)[k] == s@;
        }
    }
    false
}

/// The message for an upload that is too large.
pub open spec fn too_large_text(size: u64, max: u64) -> Seq<char> {
    "File size ("@ + decimal(size as nat) + " bytes) exceeds maximum allowed size ("@ + decimal(
        max as nat,
    ) + " bytes)"@
}

/// The message for an upload of an unaccepted type.
pub open spec fn unsupported_text(mime: Seq<char>) -> Seq<char> {
    "Unsupported file type: "@ + mime
}

fn too_large_message(size: u64, max: u64) -> (s: String)
    ensures
        s@ == too_large_text(size, max),
{
    let mut s = to_owned_string("File size (");
    push_str(&mut s, u64_to_decimal(size).as_str());
    push_str(&mut s, " bytes) exceeds maximum allowed size (");
    push_str(&mut s, u64_to_decimal(max).as_str());
    push_str(&mut s, " bytes)");
    s
}

fn prefixed(prefix: &str, rest: &str) -> (s: String)
    ensures
        s@ == prefix@ + rest@,
{
    let mut s = to_owned_string(prefix);
    push_str(&mut s, rest);
    s
}

/// Whether an upload of `size` bytes and type `mime` is accepted by the
/// default limits; the error says why not.
pub fn validate_file_upload(file_size: u64, mime_type: &str) -> (r: Result<bool, String>)
    ensures
        file_size > default_max_file_size() ==> (r matches Err(m) && m@ == too_large_text(
            file_size,
            default_max_file_size(),
        )),
        file_size <= default_max_file_size() && !default_image_types().contains(mime_type@)
            && !default_document_types().contains(mime_type@) ==> (r matches Err(m) && m@
            == unsupported_text(mime_type@)),
        r is Ok <==> file_size <= default_max_file_size() && (default_image_types().contains(
            mime_type@,
        ) || default_document_types().contains(mime_type@)),
        r matches Ok(b) ==> b,
{
    let config = FileValidationConfig::default();
    if file_size > config.max_file_size {
        return Err(too_large_message(file_size, config.max_file_size));
    }
    let supported = list_contains(&config.allowed_image_types, mime_type) || list_contains(
        &config.allowed_document_types,
        mime_type,
    );
    if !supported {
        return Err(prefixed("Unsupported file type: ", mime_type));
    }
    Ok(true)
}

// ---------------------------------------------------------------------------
// Outside decoders
// ---------------------------------------------------------------------------

/// The bytes that standard, padded base64 text stands for (`None` where the
/// text is not valid base64).
pub uninterp spec fn base64_decoded(text: Seq<char>) -> Option<Seq<u8>>;

/// The standard, padded base64 text of some bytes.
pub uninterp spec fn base64_encoded(bytes: Seq<u8>) -> Seq<char>;


/// `base64::engine::general_purpose::STANDARD.decode`: the decoded bytes, or
/// the decoder's error message.
#[verifier::external_body]
fn decode_base64(text: &str) -> (r: Result<Vec<u8>, String>)
    ensures
        match r {
            Ok(b) => base64_decoded(text@) == Some(b@),
            Err(_) => base64_decoded(text@) is None,
        },
{
    base64::engine::general_purpose::STANDARD.decode(text).map_err(|e| e.to_string())
}

/// `base64::engine::general_purpose::STANDARD.encode`.
#[verifier::external_body]
fn encode_base64(bytes: &[u8]) -> (r: String)
    ensures
        r@ == base64_encoded(bytes@),
{
    base64::engine::general_purpose::STANDARD.encode(bytes)
}

/// `String::from_utf8` on a copy of the bytes: the text where the bytes are
/// valid UTF-8, else the error's message.
#[verifier::external_body]
fn utf8_text(bytes: &[u8]) -> (r: Result<String, String>)
    ensures
        match r {
            Ok(s) => valid_utf8(bytes@) && s@ == decode_utf8(bytes@),
            Err(_) => !valid_utf8(bytes@),
        },
{
    String::from_utf8(bytes.to_vec()).map_err(|e| e.to_string())
}


/// The width and height of the image that `image` decodes from some bytes
/// (format guessed from the bytes), or `None` where reading or decoding fails.
pub uninterp spec fn image_dimensions(bytes: Seq<u8>) -> Option<(u32, u32)>;

/// The PNG encoding of the thumbnail, scaled to fit `w` by `h` keeping its
/// shape, of the image that `image` decodes from some bytes, or `None` where
/// decoding or encoding fails.
pub uninterp spec fn png_thumbnail(bytes: Seq<u8>, w: u32, h: u32) -> Option<Seq<u8>>;

/// `image::ImageReader` with a guessed format, then `decode`, then the
/// decoded image's `width` and `height`; an error is the reader's message
/// prefixed as the reader step that failed.
#[verifier::external_body]
fn decode_image_size(bytes: &[u8]) -> (r: Result<(u32, u32), String>)
    ensures
        match r {
            Ok(d) => image_dimensions(bytes@) == Some(d),
            Err(m) => image_dimensions(bytes@) is None && ("Failed to read image: "@.is_prefix_of(m@)
                || "Failed to decode image: "@.is_prefix_of(m@)),
        },
{
    let reader = image::ImageReader::new(std::io::Cursor::new(bytes)).with_guessed_format().map_err(
        |e| format!("Failed to read image: {}", e),
    )?;
    let img = reader.decode().map_err(|e| format!("Failed to decode image: {}", e))?;
    Ok((img.width(), img.height()))
}

/// The image decoded as `decode_image_size` decodes it, `DynamicImage::thumbnail`
/// to fit `w` by `h`, then `DynamicImage::write_to` in PNG format: the encoded
/// bytes, or the error's message.
#[verifier::external_body]
fn thumbnail_png(bytes: &[u8], w: u32, h: u32) -> (r: Result<Vec<u8>, String>)
    ensures
        match r {
            Ok(b) => png_thumbnail(bytes@, w, h) == Some(b@),
            Err(_) => png_thumbnail(bytes@, w, h) is None,
        },
{
    let img = image::ImageReader::new(std::io::Cursor::new(bytes)).with_guessed_format().map_err(
        |e| e.to_string(),
    )?.decode().map_err(|e| e.to_string())?;
    let mut out: Vec<u8> = Vec::new();
    img.thumbnail(w, h).write_to(&mut std::io::Cursor::new(&mut out), image::ImageFormat::Png).map_err(
        |e| e.to_string(),
    )?;
    Ok(out)
}

// ---------------------------------------------------------------------------
// Documents and images
// ---------------------------------------------------------------------------

/// Whether `out` is a reading of a PDF with bytes `bytes` that `read` may give.
pub open spec fn pdf_reading<R: Fn(&[u8]) -> Result<String, String>>(
    read: R,
    bytes: Seq<u8>,
    out: Result<String, String>,
) -> bool {
    exists|b: &[u8]| b@ == bytes && #[trigger] call_ensures(read, (b,), out)
}

/// What is made of a PDF reading: its text where that is not blank, the
/// notice that there is none where it is, and the reader's error prefixed.
pub open spec fn pdf_result(p: Result<Seq<char>, Seq<char>>) -> Result<Seq<char>, Seq<char>> {
    match p {
        Ok(t) => if trim(t).len() == 0 {
            Err("PDF contains no extractable text"@)
        } else {
            Ok(t)
        },
        Err(e) => Err("Failed to extract PDF text: "@ + e),
    }
}

/// Reads the text of a PDF with `read_pdf` (the caller's PDF reader, which
/// turns a failure of the parser, a panic included, into an error); a PDF
/// with only white space counts as having none.
pub fn extract_pdf_text<R: Fn(&[u8]) -> Result<String, String>>(pdf_data: &[u8], read_pdf: &R) -> (r:
    Result<String, String>)
    requires
        forall|b: &[u8]| #[trigger] call_requires(*read_pdf, (b,)),
    ensures
        exists|p: Result<String, String>|
            pdf_reading(*read_pdf, pdf_data@, p) && text_result_view(r) == pdf_result(text_result_view(p)),
{
    let p = read_pdf(pdf_data);
    let ghost pv = p;
    assert(pdf_reading(*read_pdf, pdf_data@, pv));
    match p {
        Ok(text) => {
            if is_blank(text.as_str()) {
                Err(to_owned_string("PDF contains no extractable text"))
            } else {
                Ok(text)
            }
        },
        Err(e) => Err(prefixed("Failed to extract PDF text: ", e.as_str())),
    }
}

/// Word documents are not read: always the error that says so.
pub fn extract_docx_text(docx_data: &[u8]) -> (r: Result<String, String>)
    ensures
        r matches Err(m) && m@ == "DOCX text extraction not yet implemented"@,
{
    Err(to_owned_string("DOCX text extraction not yet implemented"))
}

/// The Word document type.
pub open spec fn docx_mime() -> Seq<char> {
    "application/vnd.openxmlformats-officedocument.wordprocessingml.document"@
}

/// Whether `r` is what reading the text of a document of type `mime` with
/// bytes `bytes` may give, where `pdf` is what the PDF reader gave: for a PDF,
/// `pdf_result(pdf)`; plain text and Markdown decoded as UTF-8 (a failure is
/// reported with its cause); Word documents and other types refused.
pub open spec fn document_text_result(
    bytes: Seq<u8>,
    mime: Seq<char>,
    pdf: Result<Seq<char>, Seq<char>>,
    r: Result<Seq<char>, Seq<char>>,
) -> bool {
    if mime == "application/pdf"@ {
        r == pdf_result(pdf)
    } else if mime == "text/plain"@ || mime == "text/markdown"@ {
        if valid_utf8(bytes) {
            r == Ok::<Seq<char>, Seq<char>>(decode_utf8(bytes))
        } else {
            r matches Err(m) && "Failed to decode text file: "@.is_prefix_of(m)
        }
    } else if mime == docx_mime() {
        r == Err::<Seq<char>, Seq<char>>("DOCX text extraction not yet implemented"@)
    } else {
        r == Err::<Seq<char>, Seq<char>>("Unsupported document type for text extraction: "@ + mime)
    }
}

/// The view of a text result.
pub open spec fn text_result_view(r: Result<String, String>) -> Result<Seq<char>, Seq<char>> {
    match r {
        Ok(s) => Ok(s@),
        Err(e) => Err(e@),
    }
}

/// The text of a document, read according to its type: PDF with `read_pdf`,
/// plain text and Markdown as UTF-8; Word documents and other types are
/// refused.
pub fn extract_document_text<R: Fn(&[u8]) -> Result<String, String>>(
    file_data: &[u8],
    mime_type: &str,
    read_pdf: &R,
) -> (r: Result<String, String>)
    requires
        forall|b: &[u8]| #[trigger] call_requires(*read_pdf, (b,)),
    ensures
        mime_type@ == "application/pdf"@ ==> exists|p: Result<String, String>|
            pdf_reading(*read_pdf, file_data@, p) && text_result_view(r) == pdf_result(text_result_view(p)),
        mime_type@ == "text/plain"@ || mime_type@ == "text/markdown"@ ==> if valid_utf8(
            file_data@,
        ) {
            r matches Ok(s) && s@ == decode_utf8(file_data@)
        } else {
            r matches Err(m) && "Failed to decode text file: "@.is_prefix_of(m@)
        },
        mime_type@ == docx_mime() ==> (r matches Err(m) && m@
            == "DOCX text extraction not yet implemented"@),
        mime_type@ != "application/pdf"@ && mime_type@ != "text/plain"@ && mime_type@
            != "text/markdown"@ && mime_type@ != docx_mime() ==> (r matches Err(m) && m@
            == "Unsupported document type for text extraction: "@ + mime_type@),
        exists|p: Result<String, String>|
            (mime_type@ == "application/pdf"@ ==> pdf_reading(*read_pdf, file_data@, p))
                && #[trigger] document_text_result(file_data@, mime_type@, text_result_view(p), text_result_view(r)),
{
    proof {
        reveal_strlit("application/pdf");
        reveal_strlit("text/plain");
        reveal_strlit("text/markdown");
        reveal_strlit("application/vnd.openxmlformats-officedocument.wordprocessingml.document");
        assert("application/pdf"@.len() == 15);
        assert("text/plain"@.len() == 10);
        assert("text/markdown"@.len() == 13);
        assert(docx_mime().len() == 71);
    }
    let r = if str_eq(mime_type, "application/pdf") {
        extract_pdf_text(file_data, read_pdf)
    } else if str_eq(mime_type, "text/plain") || str_eq(mime_type, "text/markdown") {
        match utf8_text(file_data) {
            Ok(s) => Ok(s),
            Err(e) => {
                let m = prefixed("Failed to decode text file: ", e.as_str());
                assert(m@.take("Failed to decode text file: "@.len() as int) =~= "Failed to decode text file: "@);
                Err(m)
            },
        }
    } else if str_eq(
        mime_type,
        "application/vnd.openxmlformats-officedocument.wordprocessingml.document",
    ) {
        extract_docx_text(file_data)
    } else {
        Err(prefixed("Unsupported document type for text extraction: ", mime_type))
    };
    proof {
        let p: Result<String, String> = if mime_type@ == "application/pdf"@ {
            choose|p: Result<String, String>|
                pdf_reading(*read_pdf, file_data@, p) && text_result_view(r) == pdf_result(text_result_view(p))
        } else {
            r
        };
        assert(mime_type@ == "application/pdf"@ ==> pdf_reading(*read_pdf, file_data@, p));
        assert(document_text_result(file_data@, mime_type@, text_result_view(p), text_result_view(r)));
    }
    r
}

/// What processing an image gives: its width and height, and its PNG
/// thumbnail within 200 by 200 pixels in base64; the decoder's error where it
/// cannot be decoded, or the encoder's where the thumbnail cannot be made.
pub open spec fn image_outcome(bytes: Seq<u8>) -> Result<((u32, u32), Seq<char>), ()> {
    match image_dimensions(bytes) {
        None => Err(()),
        Some(d) => match png_thumbnail(bytes, 200, 200) {
            Some(png) => Ok((d, base64_encoded(png))),
            None => Err(()),
        },
    }
}

/// The size of an image and a PNG thumbnail at most 200 by 200 pixels, in base64.
pub fn process_image(image_data: &[u8]) -> (r: Result<(FileDimensions, Option<String>), String>)
    ensures
        r is Ok <==> image_outcome(image_data@) is Ok,
        r matches Ok((fd, t)) ==> (image_outcome(image_data@) matches Ok((d, b64)) && (fd.width, fd.height)
            == d && (t matches Some(s) && s@ == b64)),
        image_dimensions(image_data@) is None ==> (r matches Err(m) && ("Failed to read image: "@.is_prefix_of(
            m@,
        ) || "Failed to decode image: "@.is_prefix_of(m@))),
        image_dimensions(image_data@) is Some && png_thumbnail(image_data@, 200, 200) is None ==> (
        r matches Err(m) && "Failed to create thumbnail: "@.is_prefix_of(m@)),
{
    let (width, height) = decode_image_size(image_data)?;
    let png = match thumbnail_png(image_data, 200, 200) {
        Ok(b) => b,
        Err(e) => {
            let m = prefixed("Failed to create thumbnail: ", e.as_str());
            assert(m@.take("Failed to create thumbnail: "@.len() as int) =~= "Failed to create thumbnail: "@);
            return Err(m);
        },
    };
    let encoded = encode_base64(png.as_slice());
    Ok((FileDimensions { width, height }, Some(encoded)))
}

// ---------------------------------------------------------------------------
// Uploads
// ---------------------------------------------------------------------------

/// Whether `r` is a refused upload: no data kept, nothing read, the error given.
pub open spec fn refused(r: FileUploadResult, message: Seq<char>) -> bool {
    &&& !r.success
    &&& r.base64_data@.len() == 0
    &&& r.thumbnail is None
    &&& r.extracted_text is None
    &&& r.dimensions is None
    &&& r.error matches Some(e) && e@ == message
}

/// Takes an upload of base64 data: decodes it, checks it against the default
/// limits, and reads the size and thumbnail of an image or the text of a
/// document. Data that is not base64 is an error; an upload over the size
/// limit or of an unaccepted type is answered with a refusal.
pub fn upload_file_base64<R: Fn(&[u8]) -> Result<String, String>>(
    file_name: String,
    file_data: String,
    mime_type: String,
    read_pdf: &R,
) -> (r: Result<FileUploadResult, String>)
    requires
        forall|b: &[u8]| #[trigger] call_requires(*read_pdf, (b,)),
    ensures
        base64_decoded(file_data@) is None <==> r is Err,
        r matches Err(m) ==> "Invalid base64 data: "@.is_prefix_of(m@),
        r matches Ok(u) ==> {
            let bytes = base64_decoded(file_data@)->0;
            let image = default_image_types().contains(mime_type@);
            let doc = default_document_types().contains(mime_type@);
            &&& "file_"@.is_prefix_of(u.file_id@)
            &&& u.file_name@ == file_name@
            &&& u.mime_type@ == mime_type@
            &&& u.file_size == bytes.len()
            &&& (bytes.len() > default_max_file_size() ==> refused(
                u,
                too_large_text(bytes.len() as u64, default_max_file_size()),
            ))
            &&& (bytes.len() <= default_max_file_size() && !image && !doc ==> refused(
                u,
                unsupported_text(mime_type@),
            ))
            &&& (bytes.len() <= default_max_file_size() && (image || doc) ==> {
                &&& u.success
                &&& u.base64_data@ == file_data@
                &&& (!doc ==> u.extracted_text is None)
                &&& (!image ==> u.dimensions is None && u.thumbnail is None)
                &&& (doc ==> exists|p: Result<String, String>, d: Result<Seq<char>, Seq<char>>|
                    (mime_type@ == "application/pdf"@ ==> pdf_reading(*read_pdf, bytes, p))
                        && #[trigger] document_text_result(bytes, mime_type@, text_result_view(p), d)
                        && (u.extracted_text matches Some(t) && t@ == match d {
                        Ok(x) => x,
                        Err(e) => "Text extraction failed: "@ + e,
                    }))
                &&& (image ==> match image_outcome(bytes) {
                    Ok((d, b64)) => u.error is None && (u.dimensions matches Some(fd) && (fd.width, fd.height)
                        == d) && (u.thumbnail matches Some(t) && t@ == b64),
                    Err(_) => u.error matches Some(m) && "Image processing error: "@.is_prefix_of(m@)
                        && u.dimensions is None && u.thumbnail is None,
                })
                &&& (!image ==> u.error is None)
            })
        },
{
    let config = FileValidationConfig::default();
    let file_id = prefixed("file_", new_uuid_v4().as_str());
    assert(file_id@.take("file_"@.len() as int) =~= "file_"@);
    let file_bytes = match decode_base64(file_data.as_str()) {
        Ok(b) => b,
        Err(e) => {
            let m = prefixed("Invalid base64 data: ", e.as_str());
            assert(m@.take("Invalid base64 data: "@.len() as int) =~= "Invalid base64 data: "@);
            return Err(m);
        },
    };
    let file_size: u64 = file_bytes.len() as u64;
    if file_size > config.max_file_size {
        return Ok(
            FileUploadResult {
                file_id,
                file_name,
                file_size,
                mime_type,
                base64_data: String::new(),
                thumbnail: None,
                extracted_text: None,
                dimensions: None,
                success: false,
                error: Some(too_large_message(file_size, config.max_file_size)),
            },
        );
    }
    let is_image = list_contains(&config.allowed_image_types, mime_type.as_str());
    let is_document = list_contains(&config.allowed_document_types, mime_type.as_str());
    if !is_image && !is_document {
        let error = prefixed("Unsupported file type: ", mime_type.as_str());
        return Ok(
            FileUploadResult {
                file_id,
                file_name,
                file_size,
                mime_type,
                base64_data: String::new(),
                thumbnail: None,
                extracted_text: None,
                dimensions: None,
                success: false,
                error: Some(error),
            },
        );
    }
    let mut dimensions: Option<FileDimensions> = None;
    let mut thumbnail: Option<String> = None;
    let mut error: Option<String> = None;
    let mut extracted_text: Option<String> = None;
    if is_image {
        match process_image(file_bytes.as_slice()) {
            Ok((d, t)) => {
                dimensions = Some(d);
                thumbnail = t;
            },
            Err(e) => {
                let m = prefixed("Image processing error: ", e.as_str());
                assert(m@.take("Image processing error: "@.len() as int) =~= "Image processing error: "@);
                error = Some(m);
            },
        }
    }
    if is_document {
        let res = extract_document_text(file_bytes.as_slice(), mime_type.as_str(), read_pdf);
        let ghost d = text_result_view(res);
        match res {
            Ok(text) => {
                extracted_text = Some(text);
            },
            Err(e) => {
                extracted_text = Some(prefixed("Text extraction failed: ", e.as_str()));
            },
        }
        proof {
            let p = choose|p: Result<String, String>|
                (mime_type@ == "application/pdf"@ ==> pdf_reading(*read_pdf, file_bytes@, p))
                    && document_text_result(file_bytes@, mime_type@, text_result_view(p), d);
            assert(document_text_result(file_bytes@, mime_type@, text_result_view(p), d));
        }
    }
    Ok(
        FileUploadResult {
            file_id,
            file_name,
            file_size,
            mime_type,
            base64_data: file_data,
            thumbnail,
            extracted_text,
            dimensions,
            success: true,
            error,
        },
    )
}

} // verus!
