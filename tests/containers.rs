use std::io::{Cursor, Write};

use hwarang::error::HwpError;
use hwarang::reader::{extract_document_text, list_document_streams, open_document};
use hwarang::container::Format;

fn header_bytes(flags: u32) -> Vec<u8> {
    let mut h = b"HWP Document File".to_vec();
    h.resize(32, 0);
    h.extend_from_slice(&[0, 0, 1, 5]);
    h.extend_from_slice(&flags.to_le_bytes());
    h.resize(256, 0);
    h
}

fn para_text(s: &str) -> Vec<u8> {
    let payload: Vec<u8> = s.encode_utf16().flat_map(|u| u.to_le_bytes()).collect();
    let word: u32 = 67 | ((payload.len() as u32) << 20);
    let mut out = word.to_le_bytes().to_vec();
    out.extend(payload);
    out
}

fn compound_file(streams: &[(&str, Vec<u8>)], storages: &[&str]) -> Vec<u8> {
    let mut file = cfb::CompoundFile::create(Cursor::new(Vec::new())).unwrap();
    for s in storages {
        file.create_storage(s).unwrap();
    }
    for (name, data) in streams {
        let mut stream = file.create_stream(name).unwrap();
        stream.write_all(data).unwrap();
    }
    file.flush().unwrap();
    file.into_inner().into_inner()
}

fn archive(entries: &[(&str, &str)]) -> Vec<u8> {
    let mut w = zip::ZipWriter::new(Cursor::new(Vec::new()));
    let options = zip::write::SimpleFileOptions::default()
        .compression_method(zip::CompressionMethod::Deflated);
    w.add_directory("Contents/", options).unwrap();
    for (name, text) in entries {
        w.start_file(*name, options).unwrap();
        w.write_all(text.as_bytes()).unwrap();
    }
    w.finish().unwrap().into_inner()
}

#[test]
fn compound_document_end_to_end() {
    let bytes = compound_file(
        &[
            ("/FileHeader", header_bytes(0)),
            ("/DocInfo", vec![0; 4]),
            ("/BodyText/Section0", para_text("Hello")),
        ],
        &["/BodyText"],
    );
    assert_eq!(extract_document_text(bytes.clone()).unwrap(), "Hello");
    let mut names = list_document_streams(bytes).unwrap();
    names.sort();
    assert_eq!(names, vec!["BodyText/Section0", "DocInfo", "FileHeader"]);
}

#[test]
fn compound_document_without_header_stream() {
    let bytes = compound_file(&[("/BodyText/Section0", para_text("Hello"))], &["/BodyText"]);
    let r = extract_document_text(bytes);
    assert!(matches!(r, Err(HwpError::UnsupportedFormat)));
}

#[test]
fn archive_document_end_to_end() {
    let bytes = archive(&[
        ("mimetype", "application/hwp+zip"),
        (
            "Contents/content.hpf",
            "<opf:item href=\"Contents/section0.xml\"/><opf:item href=\"Contents/section1.xml\"/>",
        ),
        ("Contents/section0.xml", "<hp:p><hp:t>One</hp:t></hp:p><hp:p><hp:t>Two</hp:t></hp:p>"),
        ("Contents/section1.xml", "<hp:p><hp:t>Three</hp:t></hp:p>"),
    ]);
    let (format, streams) = open_document(bytes.clone()).unwrap();
    assert_eq!(format, Format::Archive);
    assert_eq!(streams.len(), 4);
    assert_eq!(extract_document_text(bytes.clone()).unwrap(), "One\nTwo\nThree");
    assert_eq!(
        list_document_streams(bytes).unwrap(),
        vec!["mimetype", "Contents/content.hpf", "Contents/section0.xml", "Contents/section1.xml"]
    );
}

#[test]
fn unknown_magic_is_invalid_signature() {
    let r = extract_document_text(b"not a document at all".to_vec());
    assert!(matches!(r, Err(HwpError::InvalidSignature)));
    let r = list_document_streams(Vec::new());
    assert!(matches!(r, Err(HwpError::InvalidSignature)));
}

#[test]
fn broken_containers_fail_structurally() {
    let mut cfb_junk = vec![0xd0, 0xcf, 0x11, 0xe0, 0xa1, 0xb1, 0x1a, 0xe1];
    cfb_junk.extend([0u8; 40]);
    assert!(matches!(open_document(cfb_junk), Err(HwpError::Parse(_))));
    let mut zip_junk = b"PK\x03\x04".to_vec();
    zip_junk.extend([0u8; 40]);
    assert!(matches!(open_document(zip_junk), Err(HwpError::Hwpx(_))));
}

#[test]
fn listing_archive_without_manifest_is_unsupported_format() {
    let bytes = archive(&[("Contents/section0.xml", "<hp:p><hp:t>x</hp:t></hp:p>")]);
    let r = list_document_streams(bytes);
    assert!(matches!(r, Err(HwpError::UnsupportedFormat)));
}

#[test]
fn listing_skips_directories_and_keeps_order() {
    let bytes = archive(&[
        ("Contents/content.hpf", "<opf:item href=\"Contents/section0.xml\"/>"),
        ("Contents/section0.xml", "<hp:p><hp:t>x</hp:t></hp:p>"),
    ]);
    assert_eq!(
        list_document_streams(bytes).unwrap(),
        vec!["Contents/content.hpf", "Contents/section0.xml"]
    );
}

#[test]
fn protected_compound_document_ignores_unreadable_body() {
    let bytes = compound_file(
        &[
            ("/FileHeader", header_bytes(2)),
            ("/BodyText/Section0", vec![0xff, 0xff, 0xff]),
        ],
        &["/BodyText"],
    );
    let r = extract_document_text(bytes);
    assert!(matches!(r, Err(HwpError::PasswordProtected)));
}

#[test]
fn protected_archive_is_refused() {
    let bytes = archive(&[
        ("Contents/content.hpf", "<opf:item href=\"Contents/section0.xml\"/>"),
        ("Contents/section0.xml", "<hp:p><hp:t>never shown</hp:t></hp:p>"),
        (
            "META-INF/manifest.xml",
            "<odf:manifest><odf:file-entry><odf:encryption-data/></odf:file-entry></odf:manifest>",
        ),
    ]);
    let r = extract_document_text(bytes);
    assert!(matches!(r, Err(HwpError::PasswordProtected)));
}

#[test]
fn compressed_compound_document_end_to_end() {
    let mut enc = flate2::write::DeflateEncoder::new(Vec::new(), flate2::Compression::default());
    enc.write_all(&para_text("Packed")).unwrap();
    let packed = enc.finish().unwrap();
    let bytes = compound_file(
        &[("/FileHeader", header_bytes(1)), ("/BodyText/Section0", packed)],
        &["/BodyText"],
    );
    assert_eq!(extract_document_text(bytes).unwrap(), "Packed");
}
