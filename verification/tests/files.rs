//! Tests of files: their kinds, names, sizes and origins.

use base64::Engine;
use fluux_agent::agent::files::{
    categorize_mime, check_parts, check_size, check_url, content_type, file_to_content_block,
    format_size, mime_from_extension, sanitize_filename, DownloadedFile, FileCategory,
    FileDownloader, HttpReply, UrlParts, MAX_FILE_SIZE,
};
use fluux_agent::llm::types::InputContentBlock;

fn file(name: &str, mime: &str, size: u64, category: FileCategory) -> DownloadedFile {
    DownloadedFile {
        path: name.to_string(),
        filename: name.to_string(),
        mime_type: mime.to_string(),
        size,
        category,
    }
}

#[test]
fn test_categorize_mime_images() {
    assert_eq!(categorize_mime("image/jpeg"), FileCategory::Image);
    assert_eq!(categorize_mime("image/png"), FileCategory::Image);
    assert_eq!(categorize_mime("image/gif"), FileCategory::Image);
    assert_eq!(categorize_mime("image/webp"), FileCategory::Image);
}

#[test]
fn test_categorize_mime_documents() {
    assert_eq!(categorize_mime("application/pdf"), FileCategory::Document);
}

#[test]
fn test_categorize_mime_other() {
    assert_eq!(categorize_mime("text/plain"), FileCategory::Other);
    assert_eq!(categorize_mime("video/mp4"), FileCategory::Other);
    assert_eq!(
        categorize_mime("application/octet-stream"),
        FileCategory::Other
    );
}

#[test]
fn test_mime_from_extension() {
    assert_eq!(mime_from_extension("photo.jpg"), "image/jpeg");
    assert_eq!(mime_from_extension("photo.jpeg"), "image/jpeg");
    assert_eq!(mime_from_extension("image.png"), "image/png");
    assert_eq!(mime_from_extension("anim.gif"), "image/gif");
    assert_eq!(mime_from_extension("photo.webp"), "image/webp");
    assert_eq!(mime_from_extension("doc.pdf"), "application/pdf");
    assert_eq!(mime_from_extension("readme.txt"), "text/plain");
    assert_eq!(mime_from_extension("unknown.xyz"), "application/octet-stream");
    assert_eq!(mime_from_extension("noext"), "application/octet-stream");
}

#[test]
fn test_sanitize_filename() {
    assert_eq!(sanitize_filename("photo.jpg"), "photo.jpg");
    assert_eq!(sanitize_filename("my file (1).pdf"), "my_file__1_.pdf");
    assert_eq!(sanitize_filename("a/b/c.txt"), "a_b_c.txt");
    assert_eq!(sanitize_filename("test-file_v2.png"), "test-file_v2.png");
}

#[test]
fn test_format_size() {
    assert_eq!(format_size(500), "500B");
    assert_eq!(format_size(1024), "1KB");
    assert_eq!(format_size(1536), "1KB");
    assert_eq!(format_size(1024 * 1024), "1.0MB");
    assert_eq!(format_size(5 * 1024 * 1024 + 512 * 1024), "5.5MB");
}

#[test]
fn test_downloaded_file_human_size() {
    let file = DownloadedFile {
        path: "/tmp/test.jpg".to_string(),
        filename: "test.jpg".to_string(),
        mime_type: "image/jpeg".to_string(),
        size: 45 * 1024,
        category: FileCategory::Image,
    };
    assert_eq!(file.human_size(), "45KB");
}

#[test]
fn test_file_to_content_block_image() {
    let file = file("test.jpg", "image/jpeg", 14, FileCategory::Image);
    let block = file_to_content_block(&file, &b"fake jpeg data".to_vec()).unwrap();
    match block {
        InputContentBlock::Image { source } => {
            assert_eq!(source.source_type, "base64");
            assert_eq!(source.media_type, "image/jpeg");
            let decoded = base64::engine::general_purpose::STANDARD.decode(&source.data).unwrap();
            assert_eq!(decoded, b"fake jpeg data");
        }
        _ => panic!("Expected Image content block"),
    }
}

#[test]
fn test_file_to_content_block_document() {
    let file = file("test.pdf", "application/pdf", 13, FileCategory::Document);
    let block = file_to_content_block(&file, &b"fake pdf data".to_vec()).unwrap();
    match block {
        InputContentBlock::Document { source } => {
            assert_eq!(source.source_type, "base64");
            assert_eq!(source.media_type, "application/pdf");
        }
        _ => panic!("Expected Document content block"),
    }
}

#[test]
fn test_file_to_content_block_other_returns_none() {
    let file = file("test.mp4", "video/mp4", 15, FileCategory::Other);
    assert!(file_to_content_block(&file, &b"fake video data".to_vec()).is_none());
}

#[test]
fn test_downloader_rejects_http_urls() {
    let result = check_url("http://example.com/file.jpg");
    assert!(result.is_err());
    assert!(result.unwrap_err().causes[0].contains("HTTPS"));
}

#[test]
fn test_downloader_rejects_invalid_urls() {
    assert!(check_url("not-a-url").is_err());
}

// ---- more ---------------------------------------------------------------

#[test]
fn base64_has_every_padding() {
    let encoded = |data: &[u8]| match file_to_content_block(
        &file("a.png", "image/png", 1, FileCategory::Image),
        &data.to_vec(),
    ) {
        Some(InputContentBlock::Image { source }) => source.data,
        _ => panic!("Expected Image content block"),
    };
    assert_eq!(encoded(b""), "");
    assert_eq!(encoded(b"f"), "Zg==");
    assert_eq!(encoded(b"fo"), "Zm8=");
    assert_eq!(encoded(b"foo"), "Zm9v");
    assert_eq!(encoded(&[0xfb, 0xef, 0xff, 0xfe]), "++///g==");
}

#[test]
fn sizes_are_rounded_as_floating_point_prints_them() {
    let mb = 1024 * 1024u64;
    let mut sizes: Vec<u64> = vec![0, 1023, 1024, mb - 1, mb, u64::MAX, u64::MAX - 1023, 1 << 53];
    for i in 0..2000u64 {
        sizes.push(mb + i * 4099);
        sizes.push(mb + i * 52_428 + i % 3);
        sizes.push((1 << 60) + i * 777_777_777_777);
    }
    for tie in 0..50u64 {
        sizes.push(mb + tie * mb / 2 + mb / 4);
        sizes.push(mb * (tie + 1) + mb / 20);
    }
    for n in sizes {
        let expected = if n < 1024 {
            format!("{n}B")
        } else if n < mb {
            format!("{}KB", n / 1024)
        } else {
            format!("{:.1}MB", n as f64 / (1024.0 * 1024.0))
        };
        assert_eq!(format_size(n), expected, "{n} bytes");
    }
}

#[test]
fn urls_name_their_files() {
    assert_eq!(check_url("https://upload.example.com/abc/photo.jpg").unwrap(), "photo.jpg");
    assert_eq!(check_url("https://example.com/a/b.pdf?x=1#y").unwrap(), "b.pdf");
    assert_eq!(check_url("https://example.com/files/").unwrap(), "");
    assert_eq!(check_url("http://localhost:8080/a.png").unwrap(), "a.png");
    assert_eq!(check_url("http://127.0.0.1/a.png").unwrap(), "a.png");
    assert_eq!(
        check_url("ftp://example.com/a.png").unwrap_err().causes,
        vec!["Only HTTPS URLs are allowed (got ftp://)".to_string()]
    );
    assert_eq!(
        check_url("not-a-url").unwrap_err().causes,
        vec!["Invalid URL: relative URL without a base".to_string()]
    );
}

#[test]
fn parts_of_a_url_decide() {
    let parts = |scheme: &str, host: Option<&str>, path: &str| {
        Ok(UrlParts {
            scheme: scheme.to_string(),
            host: host.map(String::from),
            path: path.to_string(),
        })
    };
    assert_eq!(check_parts(parts("https", Some("h"), "/x/y")).unwrap(), "y");
    assert_eq!(check_parts(parts("https", None, "opaque")).unwrap(), "file");
    assert_eq!(check_parts(parts("gopher", Some("::1"), "/z")).unwrap(), "z");
    assert!(check_parts(parts("gopher", None, "/z")).is_err());
    assert_eq!(
        check_parts(Err("bad".to_string())).unwrap_err().causes[0],
        "Invalid URL: bad"
    );
}

#[test]
fn large_files_are_refused() {
    assert!(check_size(MAX_FILE_SIZE).is_none());
    assert_eq!(
        check_size(MAX_FILE_SIZE + 1).unwrap().causes[0],
        "File too large: 26214401 bytes (max 26214400)"
    );
}

fn reply(success: bool, length: Option<u64>, header: Option<&str>) -> HttpReply {
    HttpReply {
        success,
        status: "404 Not Found".to_string(),
        content_length: length,
        content_type: header.map(String::from),
    }
}

#[test]
fn replies_decide_in_order() {
    assert_eq!(
        FileDownloader::on_reply(&reply(false, Some(MAX_FILE_SIZE + 1), None)).unwrap_err().causes[0],
        "Download failed: HTTP 404 Not Found"
    );
    assert_eq!(
        FileDownloader::on_reply(&reply(true, Some(30_000_000), None)).unwrap_err().causes[0],
        "File too large: 30000000 bytes (max 26214400)"
    );
    assert_eq!(
        FileDownloader::on_reply(&reply(true, None, Some(" image/png ; q=1"))).unwrap(),
        "image/png"
    );
    assert_eq!(FileDownloader::on_reply(&reply(true, Some(1), None)).unwrap(), "");
    assert_eq!(content_type(None), "");
}

#[test]
fn fetched_files_get_fresh_names() {
    let get = || {
        FileDownloader::on_body("my file.PNG".to_string(), String::new(), 7).unwrap()
    };
    let (a, b) = (get(), get());
    assert_eq!(a.filename, "my file.PNG");
    assert_eq!(a.mime_type, "image/png");
    assert_eq!(a.category, FileCategory::Image);
    assert_eq!(a.size, 7);
    assert!(a.path.ends_with("_my_file.PNG"));
    assert_eq!(a.path.len(), 36 + "_my_file.PNG".len());
    assert_ne!(a.path, b.path);
    let typed = FileDownloader::on_body("x".to_string(), "application/pdf".to_string(), 7).unwrap();
    assert_eq!(typed.category, FileCategory::Document);
    let vague =
        FileDownloader::on_body("x.gif".to_string(), "application/octet-stream".to_string(), 7);
    assert_eq!(vague.unwrap().mime_type, "image/gif");
    assert!(FileDownloader::on_body("x".to_string(), String::new(), MAX_FILE_SIZE + 1).is_err());
}

#[test]
fn letters_of_any_script_stay_in_names() {
    assert_eq!(sanitize_filename("résumé 履歴.pdf"), "résumé_履歴.pdf");
    assert_eq!(sanitize_filename("../../etc/passwd\\x"), ".._.._etc_passwd_x");
}

#[test]
fn downloaders_check_certificates_unless_told_otherwise() {
    assert!(FileDownloader::new(3).tls_verify);
    assert!(!FileDownloader::with_tls_verify(3, false).tls_verify);
    assert_eq!(FileDownloader::new(3).max_concurrent, 3);
}

#[test]
fn safe_names_are_safe_already() {
    for name in ["a/b\\c d.txt", "\u{a0}x\u{3000}y\tz", "résumé 履歴.pdf", ""] {
        let safe = sanitize_filename(name);
        assert_eq!(sanitize_filename(&safe), safe);
        assert_eq!(safe.chars().count(), name.chars().count());
        assert!(!safe.chars().any(|c| c == '/' || c == '\\' || c.is_whitespace()));
    }
}
