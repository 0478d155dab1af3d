use base64::Engine;
use enteract::files::{
    extract_docx_text, extract_document_text, extract_pdf_text, list_contains, process_image, upload_file_base64,
    validate_file_upload, FileValidationConfig,
};

fn b64(bytes: &[u8]) -> String {
    base64::engine::general_purpose::STANDARD.encode(bytes)
}

#[test]
fn default_limits() {
    let c = FileValidationConfig::default();
    assert_eq!(c.max_file_size, 52_428_800);
    assert_eq!(c.allowed_image_types.len(), 6);
    assert_eq!(c.allowed_document_types.len(), 5);
    assert_eq!(c.max_files_per_message, 10);
    assert!(list_contains(&c.allowed_image_types, "image/webp"));
    assert!(!list_contains(&c.allowed_image_types, "image/tiff"));
}

#[test]
fn validation_messages() {
    assert_eq!(validate_file_upload(10, "image/png"), Ok(true));
    assert_eq!(
        validate_file_upload(52_428_801, "image/png"),
        Err("File size (52428801 bytes) exceeds maximum allowed size (52428800 bytes)".to_string())
    );
    assert_eq!(validate_file_upload(10, "video/mp4"), Err("Unsupported file type: video/mp4".to_string()));
}

#[test]
fn document_text_by_type() {
    assert_eq!(extract_document_text(b"hello", "text/plain", &read_pdf), Ok("hello".to_string()));
    assert_eq!(extract_document_text("h\u{e9}".as_bytes(), "text/markdown", &read_pdf), Ok("h\u{e9}".to_string()));
    assert!(extract_document_text(&[0xff, 0xfe], "text/plain", &read_pdf).unwrap_err().starts_with("Failed to decode text file: "));
    assert_eq!(
        extract_document_text(b"x", "application/msword", &read_pdf),
        Err("Unsupported document type for text extraction: application/msword".to_string())
    );
    assert_eq!(extract_docx_text(b"x"), Err("DOCX text extraction not yet implemented".to_string()));
    assert!(extract_document_text(b"not a pdf", "application/pdf", &read_pdf).unwrap_err().starts_with("Failed to extract PDF text: "));
}

#[test]
fn upload_of_text_document() {
    let r = upload_file_base64("notes.txt".to_string(), b64(b"some notes"), "text/plain".to_string(), &read_pdf).unwrap();
    assert!(r.success);
    assert!(r.file_id.starts_with("file_"));
    assert_eq!(r.file_size, 10);
    assert_eq!(r.extracted_text.as_deref(), Some("some notes"));
    assert!(r.dimensions.is_none());
    assert_eq!(r.base64_data, b64(b"some notes"));
}

#[test]
fn upload_refusals() {
    assert!(upload_file_base64("x".to_string(), "***".to_string(), "text/plain".to_string(), &read_pdf)
        .unwrap_err()
        .starts_with("Invalid base64 data: "));
    let r = upload_file_base64("a.exe".to_string(), b64(b"MZ"), "application/x-msdownload".to_string(), &read_pdf).unwrap();
    assert!(!r.success);
    assert_eq!(r.error.as_deref(), Some("Unsupported file type: application/x-msdownload"));
    assert!(r.base64_data.is_empty());
}

#[test]
fn upload_of_png_image() {
    let mut png = Vec::new();
    let img = image::DynamicImage::new_rgb8(400, 100);
    img.write_to(&mut std::io::Cursor::new(&mut png), image::ImageFormat::Png).unwrap();
    let (dims, thumb) = process_image(&png).unwrap();
    assert_eq!((dims.width, dims.height), (400, 100));
    let thumb_png = base64::engine::general_purpose::STANDARD.decode(thumb.unwrap()).unwrap();
    let small = image::load_from_memory(&thumb_png).unwrap();
    assert_eq!((small.width(), small.height()), (200, 50));
    let r = upload_file_base64("p.png".to_string(), b64(&png), "image/png".to_string(), &read_pdf).unwrap();
    assert!(r.success);
    let d = r.dimensions.unwrap();
    assert_eq!((d.width, d.height), (400, 100));
    assert!(r.thumbnail.is_some());
    let bad = upload_file_base64("p.png".to_string(), b64(b"nope"), "image/png".to_string(), &read_pdf).unwrap();
    assert!(bad.success);
    assert!(bad.error.unwrap().starts_with("Image processing error: "));
}

fn read_pdf(bytes: &[u8]) -> Result<String, String> {
    pdf_extract::extract_text_from_mem(bytes).map_err(|e| e.to_string())
}

#[test]
fn pdf_reading_outcomes() {
    let blank = |_: &[u8]| -> Result<String, String> { Ok("  \n ".to_string()) };
    assert_eq!(extract_pdf_text(b"%PDF", &blank), Err("PDF contains no extractable text".to_string()));
    let text = |_: &[u8]| -> Result<String, String> { Ok("Hello".to_string()) };
    assert_eq!(extract_pdf_text(b"%PDF", &text), Ok("Hello".to_string()));
    let broken = |_: &[u8]| -> Result<String, String> { Err("bad xref".to_string()) };
    assert_eq!(extract_pdf_text(b"%PDF", &broken), Err("Failed to extract PDF text: bad xref".to_string()));
    assert_eq!(
        extract_document_text(b"%PDF", "application/pdf", &broken),
        Err("Failed to extract PDF text: bad xref".to_string())
    );
}
