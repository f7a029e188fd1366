use std::io::Write;

use hwarang::container::{detect_format, extract_batch, extract_text, Document, Format};
use hwarang::document::{extract_hwp_text, find_stream, inflate, list_streams, read_stream, Stream};
use hwarang::error::{ErrorKind, HwpError};
use hwarang::header::{check_protection, inspect, Version};
use hwarang::hwpx::extract_hwpx_text;
use hwarang::record::parse_records;
use hwarang::text::{decode_units, paragraph_text};

fn header_bytes(major: u8, flags: u32) -> Vec<u8> {
    let mut h = b"HWP Document File".to_vec();
    h.resize(32, 0);
    h.extend_from_slice(&[3, 2, 1, major]);
    h.extend_from_slice(&flags.to_le_bytes());
    h.resize(256, 0);
    h
}

fn record(tag: u16, level: u16, payload: &[u8]) -> Vec<u8> {
    let size = payload.len() as u32;
    let mut out = Vec::new();
    if size >= 0xfff {
        let word = tag as u32 | ((level as u32) << 10) | (0xfff << 20);
        out.extend_from_slice(&word.to_le_bytes());
        out.extend_from_slice(&size.to_le_bytes());
    } else {
        let word = tag as u32 | ((level as u32) << 10) | (size << 20);
        out.extend_from_slice(&word.to_le_bytes());
    }
    out.extend_from_slice(payload);
    out
}

fn utf16(s: &str) -> Vec<u8> {
    s.encode_utf16().flat_map(|u| u.to_le_bytes()).collect()
}

fn para_text(s: &str) -> Vec<u8> {
    record(67, 1, &utf16(s))
}

fn stream(name: &str, data: Vec<u8>) -> Stream {
    Stream { name: name.to_string(), data }
}

fn deflate(data: &[u8]) -> Vec<u8> {
    let mut enc = flate2::write::DeflateEncoder::new(Vec::new(), flate2::Compression::default());
    enc.write_all(data).unwrap();
    enc.finish().unwrap()
}

fn hello_document() -> Vec<Stream> {
    vec![
        stream("FileHeader", header_bytes(5, 0)),
        stream("BodyText/Section0", para_text("Hello")),
    ]
}

#[test]
fn minimal_document_gives_hello() {
    let text = extract_hwp_text(&hello_document()).unwrap();
    assert_eq!(text, "Hello");
}

#[test]
fn missing_header_stream_is_unsupported_format() {
    let streams = vec![stream("BodyText/Section0", para_text("Hello"))];
    let r = extract_hwp_text(&streams);
    assert!(matches!(r, Err(HwpError::UnsupportedFormat)));
}

#[test]
fn list_streams_keeps_container_order() {
    let streams = vec![
        stream("FileHeader", vec![]),
        stream("BodyText/Section0", vec![]),
        stream("DocInfo", vec![]),
    ];
    assert_eq!(list_streams(&streams), vec!["FileHeader", "BodyText/Section0", "DocInfo"]);
}

#[test]
fn batch_isolates_failures() {
    let mut corrupt = hello_document();
    corrupt[0].data[0] = b'X';
    let docs = vec![
        Document { path: "ok.hwp".to_string(), format: Format::Compound, streams: hello_document() },
        Document { path: "corrupt.hwp".to_string(), format: Format::Compound, streams: corrupt },
    ];
    let out = extract_batch(&docs);
    assert_eq!(out.len(), 2);
    assert_eq!(out[0].0, "ok.hwp");
    assert_eq!(out[0].1.as_ref().unwrap(), "Hello");
    assert_eq!(out[1].0, "corrupt.hwp");
    assert!(matches!(out[1].1, Err(HwpError::InvalidSignature)));
}

#[test]
fn inspect_returns_flags_unchanged() {
    for flags in [0u32, 1, 2, 4, 7, 0x8000_0001, 0xffff_fff8] {
        let info = inspect(&header_bytes(5, flags)).unwrap();
        assert_eq!(info.flags, flags);
        assert_eq!(info.is_compressed, flags & 1 != 0);
        assert_eq!(info.is_password_protected, flags & 2 != 0);
        assert_eq!(info.is_distribution_document, flags & 4 != 0);
        assert_eq!(info.version, Version { major: 5, minor: 1, build: 2, revision: 3 });
    }
}

#[test]
fn inspect_refuses_bad_signature_and_short_header() {
    let mut h = header_bytes(5, 0);
    h[4] = b'd';
    assert!(matches!(inspect(&h), Err(HwpError::InvalidSignature)));
    let short = header_bytes(5, 0)[..39].to_vec();
    assert!(matches!(inspect(&short), Err(HwpError::InvalidSignature)));
    assert!(matches!(inspect(&[]), Err(HwpError::InvalidSignature)));
}

#[test]
fn inspect_reports_unsupported_version() {
    let r = inspect(&header_bytes(3, 0));
    match r {
        Err(HwpError::UnsupportedVersion(v)) => {
            assert_eq!(v, Version { major: 3, minor: 1, build: 2, revision: 3 });
        }
        other => panic!("unexpected {:?}", other),
    }
}

#[test]
fn protection_gate() {
    let info = inspect(&header_bytes(5, 2)).unwrap();
    assert!(matches!(check_protection(&info), Err(HwpError::PasswordProtected)));
    let info = inspect(&header_bytes(5, 1)).unwrap();
    assert!(check_protection(&info).is_ok());
}

#[test]
fn protected_document_is_refused_before_body() {
    let streams = vec![
        stream("FileHeader", header_bytes(5, 2)),
        stream("BodyText/Section0", vec![1, 2, 3]),
    ];
    let r = extract_hwp_text(&streams);
    assert!(matches!(r, Err(HwpError::PasswordProtected)));
}

#[test]
fn distribution_document_is_decrypt_failed() {
    let streams = vec![stream("FileHeader", header_bytes(5, 4))];
    let r = extract_hwp_text(&streams);
    assert_eq!(r.unwrap_err().kind(), ErrorKind::DecryptFailed);
}

#[test]
fn detect_format_by_magic() {
    let cfb = [0xd0, 0xcf, 0x11, 0xe0, 0xa1, 0xb1, 0x1a, 0xe1, 0, 0];
    assert_eq!(detect_format(&cfb).unwrap(), Format::Compound);
    assert_eq!(detect_format(b"PK\x03\x04rest").unwrap(), Format::Archive);
    assert!(matches!(detect_format(b"%PDF-1.7"), Err(HwpError::InvalidSignature)));
    assert!(matches!(detect_format(&[]), Err(HwpError::InvalidSignature)));
    assert!(matches!(detect_format(&cfb[..7]), Err(HwpError::InvalidSignature)));
}

#[test]
fn parsing_twice_gives_same_records() {
    let mut data = para_text("abc");
    data.extend(record(66, 0, &[1, 2, 3, 4]));
    data.extend(record(900, 1023, &[]));
    let a = parse_records(&data).unwrap();
    let b = parse_records(&data).unwrap();
    assert_eq!(a.len(), 3);
    assert_eq!(a.len(), b.len());
    for (x, y) in a.iter().zip(b.iter()) {
        assert_eq!((x.tag, x.level, &x.payload), (y.tag, y.level, &y.payload));
    }
    assert_eq!((a[2].tag, a[2].level, a[2].payload.len()), (900, 1023, 0));
    assert_eq!((a[1].tag, a[1].level, a[1].payload.clone()), (66, 0, vec![1, 2, 3, 4]));
}

#[test]
fn extended_size_record() {
    let payload = vec![7u8; 5000];
    let data = record(67, 2, &payload);
    let rs = parse_records(&data).unwrap();
    assert_eq!(rs.len(), 1);
    assert_eq!(rs[0].payload.len(), 5000);
    assert_eq!(rs[0].level, 2);
}

#[test]
fn oversized_record_is_invalid_header() {
    let mut data = para_text("ok");
    let word: u32 = 67 | (20 << 20);
    data.extend_from_slice(&word.to_le_bytes());
    data.extend_from_slice(&[0; 10]);
    assert!(matches!(parse_records(&data), Err(HwpError::InvalidRecordHeader)));
}

#[test]
fn truncated_record_header_is_invalid() {
    assert!(matches!(parse_records(&[1, 2, 3]), Err(HwpError::InvalidRecordHeader)));
    let word: u32 = 67 | (0xfff << 20);
    assert!(matches!(parse_records(&word.to_le_bytes()), Err(HwpError::InvalidRecordHeader)));
    assert!(parse_records(&[]).unwrap().is_empty());
}

#[test]
fn compressed_document_is_inflated() {
    let mut body = para_text("First");
    body.extend(record(66, 0, &[0; 8]));
    body.extend(para_text("Second"));
    let streams = vec![
        stream("FileHeader", header_bytes(5, 1)),
        stream("BodyText/Section0", deflate(&body)),
        stream("BodyText/Section1", deflate(&para_text("Third"))),
    ];
    assert_eq!(extract_hwp_text(&streams).unwrap(), "First\nSecond\nThird");
}

#[test]
fn truncated_compressed_stream_is_decompress_failed() {
    let full = deflate(&para_text("Hello, compressed world"));
    let cut = full[..full.len() / 2].to_vec();
    let streams = vec![
        stream("FileHeader", header_bytes(5, 1)),
        stream("BodyText/Section0", cut),
    ];
    let r = extract_hwp_text(&streams);
    assert!(matches!(r, Err(HwpError::DecompressFailed(_))));
}

#[test]
fn control_codes_in_paragraph() {
    let mut units: Vec<u16> = "A".encode_utf16().collect();
    units.push(9);
    units.extend([0u16; 7]);
    units.extend("B".encode_utf16());
    units.push(11);
    units.extend([0x6274u16, 0x6c74, 0, 0, 0, 0, 11]);
    units.extend("C".encode_utf16());
    units.push(10);
    units.push(31);
    units.push(13);
    assert_eq!(paragraph_text(&units), vec![65, 9, 66, 67, 10, 32]);
}

#[test]
fn decode_units_ignores_odd_byte() {
    assert_eq!(decode_units(&[0x41, 0x00, 0x00, 0xac, 0x05]), vec![0x41, 0xac00]);
}

#[test]
fn invalid_units_are_replaced() {
    let mut payload = utf16("a");
    payload.extend_from_slice(&0xd800u16.to_le_bytes());
    payload.extend(utf16("b"));
    let streams = vec![
        stream("FileHeader", header_bytes(5, 0)),
        stream("BodyText/Section0", record(67, 0, &payload)),
    ];
    assert_eq!(extract_hwp_text(&streams).unwrap(), "a\u{fffd}b");
}

#[test]
fn korean_text_and_other_streams() {
    let streams = vec![
        stream("FileHeader", header_bytes(5, 0)),
        stream("DocInfo", vec![0xff; 3]),
        stream("BodyText/Section0", para_text("안녕하세요")),
        stream("BinData/BIN0001.png", vec![0; 2]),
    ];
    assert_eq!(extract_hwp_text(&streams).unwrap(), "안녕하세요");
}

#[test]
fn find_stream_takes_first_match() {
    let streams = vec![stream("A", vec![]), stream("B", vec![1]), stream("B", vec![2])];
    assert_eq!(find_stream(&streams, "B"), Some(1));
    assert_eq!(find_stream(&streams, "C"), None);
}

const MANIFEST: &str = "<opf:package><opf:manifest>\
    <opf:item id=\"header\" href=\"Contents/header.xml\" media-type=\"application/xml\"/>\
    <opf:item id=\"section0\" href=\"Contents/section0.xml\" media-type=\"application/xml\"/>\
    </opf:manifest><opf:spine><opf:itemref idref=\"section0\"/></opf:spine></opf:package>";

fn hwpx_entries(section: &str) -> Vec<Stream> {
    vec![
        stream("mimetype", b"application/hwp+zip".to_vec()),
        stream("Contents/content.hpf", MANIFEST.as_bytes().to_vec()),
        stream("Contents/section0.xml", section.as_bytes().to_vec()),
    ]
}

#[test]
fn hwpx_paragraphs_and_entities() {
    let xml = "<hs:sec><hp:p><hp:run><hp:t>Fish &amp; chips</hp:t></hp:run></hp:p>\
               <hp:p><hp:run><hp:t>a&lt;b</hp:t><hp:t>한글</hp:t></hp:run></hp:p></hs:sec>";
    let text = extract_hwpx_text(&hwpx_entries(xml)).unwrap();
    assert_eq!(text, "Fish & chips\na<b한글");
}

#[test]
fn hwpx_missing_manifest_is_unsupported_format() {
    let entries = vec![stream("Contents/section0.xml", b"<hp:p><hp:t>x</hp:t></hp:p>".to_vec())];
    assert!(matches!(extract_hwpx_text(&entries), Err(HwpError::UnsupportedFormat)));
}

#[test]
fn hwpx_unterminated_text_is_hwpx_error() {
    let r = extract_hwpx_text(&hwpx_entries("<hp:p><hp:t>never closed"));
    assert!(matches!(r, Err(HwpError::Hwpx(_))));
}

#[test]
fn hwpx_invalid_utf8_is_hwpx_error() {
    let mut entries = hwpx_entries("");
    entries[2].data = b"<hp:p><hp:t>\xff\xfe</hp:t></hp:p>".to_vec();
    assert!(matches!(extract_hwpx_text(&entries), Err(HwpError::Hwpx(_))));
}

#[test]
fn extract_text_dispatches_on_format() {
    let xml = "<hp:p><hp:t>Archive</hp:t></hp:p>";
    assert_eq!(extract_text(Format::Archive, &hwpx_entries(xml)).unwrap(), "Archive");
    assert_eq!(extract_text(Format::Compound, &hello_document()).unwrap(), "Hello");
}

#[test]
fn error_kinds() {
    assert_eq!(HwpError::InvalidRecordHeader.kind(), ErrorKind::InvalidRecordHeader);
    assert_eq!(HwpError::StreamNotFound("x".to_string()).kind(), ErrorKind::StreamNotFound);
    assert_eq!(HwpError::Io("x".to_string()).kind(), ErrorKind::Io);
}

#[test]
fn read_stream_by_name() {
    let streams = vec![stream("DocInfo", vec![1, 2]), stream("DocInfo", vec![3])];
    assert_eq!(read_stream(&streams, "DocInfo").unwrap(), vec![1, 2]);
    match read_stream(&streams, "FileHeader") {
        Err(HwpError::StreamNotFound(n)) => assert_eq!(n, "FileHeader"),
        other => panic!("unexpected {:?}", other),
    }
}

#[test]
fn inflate_passes_through_or_inflates() {
    let data = b"raw record bytes".to_vec();
    assert_eq!(inflate(&data, false).unwrap(), data);
    let packed = deflate(&data);
    assert_ne!(packed, data);
    assert_eq!(inflate(&packed, true).unwrap(), data);
    let cut = &packed[..packed.len() - 3];
    assert!(matches!(inflate(cut, true), Err(HwpError::DecompressFailed(_))));
    assert!(matches!(inflate(&[], true), Err(HwpError::DecompressFailed(_))));
}

#[test]
fn hwpx_sections_follow_manifest_order() {
    let manifest = "<opf:item id=\"s1\" href=\"Contents/section1.xml\"/>\
                    <opf:item id=\"s0\" href=\"Contents/section0.xml\"/>";
    let entries = vec![
        stream("Contents/content.hpf", manifest.as_bytes().to_vec()),
        stream("Contents/section0.xml", b"<hp:p><hp:t>zero</hp:t></hp:p>".to_vec()),
        stream("Contents/section1.xml", b"<hp:p><hp:t>one</hp:t></hp:p>".to_vec()),
        stream("Contents/section2.xml", b"<hp:p><hp:t>unlisted</hp:t></hp:p>".to_vec()),
    ];
    assert_eq!(extract_hwpx_text(&entries).unwrap(), "one\nzero");
}

#[test]
fn hwpx_missing_section_part_is_unsupported_format() {
    let manifest = "<opf:item href=\"Contents/section0.xml\"/><opf:item href=\"Contents/section9.xml\"/>";
    let entries = vec![
        stream("Contents/content.hpf", manifest.as_bytes().to_vec()),
        stream("Contents/section0.xml", b"<hp:p><hp:t>zero</hp:t></hp:p>".to_vec()),
    ];
    assert!(matches!(extract_hwpx_text(&entries), Err(HwpError::UnsupportedFormat)));
}

#[test]
fn hwpx_attributes_tabs_and_nested_markup() {
    let xml = "<hp:p><hp:run><hp:t xml:space=\"preserve\">a<hp:tab/>b<hp:fwSpace/>c</hp:t>\
               <hp:t/><hp:t charPrIDRef=\"1\"/></hp:run></hp:p><hp:p><hp:t>d</hp:t></hp:p>";
    let text = extract_hwpx_text(&hwpx_entries(xml)).unwrap();
    assert_eq!(text, "a\tbc\nd");
}

#[test]
fn hwpx_unterminated_markup_is_hwpx_error() {
    let r = extract_hwpx_text(&hwpx_entries("<hp:p><hp:t>a<hp:tab"));
    assert!(matches!(r, Err(HwpError::Hwpx(_))));
    let r = extract_hwpx_text(&hwpx_entries("<hp:p><hp:t id=\"1\""));
    assert!(matches!(r, Err(HwpError::Hwpx(_))));
}

#[test]
fn surrogate_pairs_decode_and_lone_low_is_replaced() {
    let mut payload = utf16("😀x");
    payload.extend_from_slice(&0xdc00u16.to_le_bytes());
    let streams = vec![
        stream("FileHeader", header_bytes(5, 0)),
        stream("BodyText/Section0", record(67, 0, &payload)),
    ];
    assert_eq!(extract_hwp_text(&streams).unwrap(), "😀x\u{fffd}");
}
