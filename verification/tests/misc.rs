use mcp_filesystem::decimal::u64_to_decimal;
use mcp_filesystem::error::ServiceError;
use mcp_filesystem::fileinfo::{format_permissions, FileInfo, Permissions};
use mcp_filesystem::media::{mime_from_path, read_file_as_base64, validate_file_size, MediaSource};
use mcp_filesystem::paths::{contains_symlink, expand_home, is_verbatim_disk, normalize_path, parse_file_path, ComponentFact};
use mcp_filesystem::sandbox::is_path_under;
use mcp_filesystem::service::FileSystemService;
use mcp_filesystem::size::format_bytes;
use mcp_filesystem::stats::{is_system_metadata_file, path_is_inside};

#[test]
fn test_format_bytes() {
    assert_eq!(format_bytes(500), "500 bytes");
    assert_eq!(format_bytes(1024), "1.00 KB");
    assert_eq!(format_bytes(1500), "1.46 KB");
    assert_eq!(format_bytes(1024 * 1024), "1.00 MB");
    assert_eq!(format_bytes(1024 * 1024 * 1024), "1.00 GB");
    assert_eq!(format_bytes(1024 * 1024 * 1024 * 1024), "1.00 TB");
    assert_eq!(format_bytes(1500 * 1024 * 1024), "1.46 GB");
}

fn with_floats(bytes: u64) -> String {
    const KB: u64 = 1024;
    const MB: u64 = KB * 1024;
    const GB: u64 = MB * 1024;
    const TB: u64 = GB * 1024;
    for (threshold, unit) in [(TB, "TB"), (GB, "GB"), (MB, "MB"), (KB, "KB")] {
        if bytes >= threshold {
            return format!("{:.2} {}", bytes as f64 / threshold as f64, unit);
        }
    }
    format!("{bytes} bytes")
}

#[test]
fn format_bytes_rounds_as_floating_point_does() {
    let mut samples: Vec<u64> = vec![0, 1, 1023, 1024, 1025, 1029, 1030, 1152, 1157, 1162, 2047, 2048, u64::MAX, u64::MAX - 1, u64::MAX / 2];
    for shift in 10..64 {
        let p = 1u64 << shift;
        for delta in [0u64, 1, 2, 3, 5, 127, 128, 129, 511, 512, 513, 1023, 1024, 1025] {
            samples.push(p.wrapping_add(delta));
            samples.push(p.wrapping_sub(delta));
            samples.push((p / 8).wrapping_mul(9).wrapping_add(delta));
            samples.push((p / 200).wrapping_mul(201).wrapping_add(delta));
        }
    }
    // sizes whose hundredths fall on a tie, in each unit
    for unit_shift in [10u32, 20, 30, 40] {
        for odd in [1u64, 3, 25, 27, 201, 999, 12345] {
            samples.push(odd << (unit_shift - 3));
            samples.push((odd * 25) << (unit_shift - 3));
            samples.push((odd << (unit_shift - 3)) + 1);
            samples.push((odd << (unit_shift - 3)) - 1);
        }
    }
    let mut state: u64 = 0x9e3779b97f4a7c15;
    for _ in 0..20000 {
        state = state.wrapping_mul(6364136223846793005).wrapping_add(1442695040888963407);
        samples.push(state >> (state % 60));
    }
    for bytes in samples {
        assert_eq!(format_bytes(bytes), with_floats(bytes), "{bytes}");
    }
}

#[test]
fn decimal_writes_numbers_without_leading_zeros() {
    assert_eq!(u64_to_decimal(0), "0");
    assert_eq!(u64_to_decimal(9), "9");
    assert_eq!(u64_to_decimal(10), "10");
    assert_eq!(u64_to_decimal(1234567890), "1234567890");
    assert_eq!(u64_to_decimal(u64::MAX), "18446744073709551615");
}

#[test]
fn test_normalize_path() {
    assert_eq!(normalize_path("/tmp/link/test.txt", Some("/tmp/real/test.txt".to_string())), "/tmp/real/test.txt");
    assert_eq!(normalize_path("/does/not/exist", None), "/does/not/exist");
}

#[test]
fn test_expand_home() {
    assert_eq!(expand_home("~/test", Some("/home/user")), "/home/user/test");
    assert_eq!(expand_home("~/test", None), "~/test");
    assert_eq!(expand_home("/absolute/path", Some("/home/user")), "/absolute/path");
}

#[test]
fn expand_home_only_expands_a_leading_tilde_component() {
    assert_eq!(expand_home("~", Some("/home/user")), "/home/user/");
    assert_eq!(expand_home("~//a/b", Some("/home/user/")), "/home/user/a/b");
    assert_eq!(expand_home("~user/x", Some("/home/user")), "~user/x");
    assert_eq!(expand_home("a/~/x", Some("/home/user")), "a/~/x");
    assert_eq!(expand_home("", Some("/home/user")), "");
    assert_eq!(expand_home("~/x", Some("")), "x");
}

#[test]
fn parse_file_path_strips_the_uri_prefix_and_white_space() {
    assert_eq!(parse_file_path("file:///home/user/a b.txt  "), "/home/user/a b.txt");
    assert_eq!(parse_file_path("  /home/user \t\n"), "/home/user");
    assert_eq!(parse_file_path(" file:///x"), "file:///x");
    assert_eq!(parse_file_path("file://"), "");
    assert_eq!(parse_file_path("file:/x"), "file:/x");
    assert_eq!(parse_file_path(""), "");
}

#[test]
fn test_contains_symlink_no_symlink() {
    let facts = vec![
        ComponentFact::Present { symlink: false },
        ComponentFact::Present { symlink: false },
        ComponentFact::Present { symlink: false },
    ];
    assert_eq!(contains_symlink(&facts), Ok(false));
}

#[test]
fn test_contains_symlink_with_symlink() {
    let facts = vec![ComponentFact::Present { symlink: false }, ComponentFact::Present { symlink: true }];
    assert_eq!(contains_symlink(&facts), Ok(true));
}

#[test]
fn contains_symlink_stops_at_the_first_component_that_decides() {
    let link = ComponentFact::Present { symlink: true };
    let plain = ComponentFact::Present { symlink: false };
    let broken = ComponentFact::Unreadable("permission denied".to_string());
    assert_eq!(contains_symlink(&vec![]), Ok(false));
    assert_eq!(contains_symlink(&vec![ComponentFact::VerbatimDisk, plain.clone(), ComponentFact::Missing, link.clone()]), Ok(false));
    assert_eq!(contains_symlink(&vec![plain.clone(), broken.clone(), link.clone()]), Err("permission denied".to_string()));
    assert_eq!(contains_symlink(&vec![plain.clone(), link.clone(), broken.clone()]), Ok(true));
    assert_eq!(contains_symlink(&vec![ComponentFact::VerbatimDisk, link]), Ok(true));
    assert!(is_verbatim_disk("\\\\?\\C:"));
    assert!(is_verbatim_disk("\\\\?\\z:"));
    assert!(!is_verbatim_disk("C:"));
    assert!(!is_verbatim_disk("\\\\?\\1:"));
    assert!(!is_verbatim_disk("\\\\?\\C:\\"));
}

#[test]
fn test_validate_path_allowed() {
    let service = FileSystemService::new(vec!["/tmp/work/dir1".to_string()]);
    assert_eq!(service.validate_path("/tmp/work/dir1/test.txt", false), Ok("/tmp/work/dir1/test.txt".to_string()));
    assert_eq!(service.validate_path("/tmp/work/dir1", false), Ok("/tmp/work/dir1".to_string()));
}

#[test]
fn test_validate_path_denied() {
    let service = FileSystemService::new(vec!["/tmp/work/dir1".to_string()]);
    let result = service.validate_path("/tmp/work/dir2/test.txt", false);
    assert_eq!(result, Err(ServiceError::NotAllowed("/tmp/work/dir2/test.txt".to_string())));
    assert_eq!(result.unwrap_err().message(), "Access denied - path outside allowed directories: /tmp/work/dir2/test.txt");
}

#[test]
fn validate_path_refuses_symlinks_and_escapes() {
    let service = FileSystemService::new(vec!["/srv/a".to_string(), "/srv/b/".to_string()]);
    assert_eq!(service.validate_path("/srv/a/x", true), Err(ServiceError::SymlinkInPath("/srv/a/x".to_string())));
    assert!(matches!(service.validate_path("/srv/c/x", true), Err(ServiceError::NotAllowed(_))));
    assert!(service.validate_path("/srv/b/deep/er", false).is_ok());
    assert!(service.validate_path("/srv//b/./x/", false).is_ok());
    for escape in ["/srv/ab", "/srv", "/", "srv/a/x", "", "/srv/a/../c", "/srv/a/x/../../../etc/passwd", "/srv/A/x", "/srv/a/.."] {
        assert!(matches!(service.validate_path(escape, false), Err(ServiceError::NotAllowed(_))), "{escape}");
    }
    let nothing = FileSystemService::new(vec![]);
    assert!(matches!(nothing.validate_path("/srv/a", false), Err(ServiceError::NotAllowed(_))));
    let everything = FileSystemService::new(vec!["/".to_string()]);
    assert!(everything.validate_path("/any/where", false).is_ok());
    assert!(everything.validate_path("/", false).is_ok());
}

#[test]
fn paths_are_compared_by_components() {
    assert!(is_path_under("/a/b/c", "/a/b"));
    assert!(is_path_under("/a/b", "/a/b"));
    assert!(!is_path_under("/a/bc", "/a/b"));
    assert!(!is_path_under("/a", "/a/b"));
    assert!(!is_path_under("/a/b/..", "/a"));
    assert!(is_path_under("/a/b/...", "/a"));
    assert!(!is_path_under("a/b", "a"));
    assert!(path_is_inside("a/b", "a"));
    assert!(path_is_inside("/a/b/../c", "/a/b"));
    assert!(!path_is_inside("/a/b", "a"));
    assert!(is_system_metadata_file(".DS_Store"));
    assert!(is_system_metadata_file("Thumbs.db"));
    assert!(!is_system_metadata_file("thumbs.db"));
    assert!(!is_system_metadata_file(".DS_Store2"));
}

#[test]
fn test_format_permissions_unix() {
    assert_eq!(format_permissions(&Permissions::Unix { mode: 0o100644 }), "0644");
    assert!(format_permissions(&Permissions::Unix { mode: 0o40755 }).starts_with("0"));
    assert_eq!(format_permissions(&Permissions::Unix { mode: 0o40755 }), "0755");
    assert_eq!(format_permissions(&Permissions::Unix { mode: 0 }), "00");
    assert_eq!(format_permissions(&Permissions::Unix { mode: 0o7 }), "07");
    assert_eq!(format_permissions(&Permissions::Unix { mode: 0o70 }), "070");
    assert_eq!(format_permissions(&Permissions::Unix { mode: u32::MAX }), "0777");
}

#[test]
fn test_format_permissions_windows() {
    assert_eq!(format_permissions(&Permissions::Windows { directory: false, read_only: true }), "-r");
    assert_eq!(format_permissions(&Permissions::Windows { directory: true, read_only: false }), "dw");
    assert_eq!(format_permissions(&Permissions::Windows { directory: true, read_only: true }), "dr");
    assert_eq!(format_permissions(&Permissions::Windows { directory: false, read_only: false }), "-w");
}

fn info(size: u64, time: Option<&str>, is_directory: bool) -> FileInfo {
    FileInfo {
        size,
        created: time.map(|t| t.to_string()),
        modified: time.map(|t| t.to_string()),
        accessed: time.map(|t| t.to_string()),
        is_directory,
        is_file: !is_directory,
        permissions: Permissions::Unix { mode: 0o644 },
    }
}

#[test]
fn test_file_info_for_regular_file() {
    let file_info = info(13, Some("Sat Apr 12 2025 14:30:45 +00:00"), false);
    assert_eq!(file_info.size, 13);
    assert!(file_info.is_file);
    assert!(!file_info.is_directory);
    assert!(file_info.created.is_some());
    assert!(file_info.modified.is_some());
    assert!(file_info.accessed.is_some());
}

#[test]
fn test_file_info_for_directory() {
    let file_info = info(4096, Some("Sat Apr 12 2025 14:30:45 +00:00"), true);
    assert!(file_info.is_directory);
    assert!(!file_info.is_file);
    assert!(file_info.created.is_some());
    assert!(file_info.modified.is_some());
    assert!(file_info.accessed.is_some());
}

#[test]
fn test_display_format_for_file() {
    let display_output = info(12, Some("Sat Apr 12 2025 14:30:45 +00:00"), false).render();
    assert!(display_output.contains("size: 12"));
    assert!(display_output.contains("isDirectory: false"));
    assert!(display_output.contains("isFile: true"));
    assert!(display_output.contains("created:"));
    assert!(display_output.contains("modified:"));
    assert!(display_output.contains("accessed:"));
    assert!(display_output.contains("permissions:"));
    assert_eq!(
        display_output,
        "size: 12\ncreated: Sat Apr 12 2025 14:30:45 +00:00\nmodified: Sat Apr 12 2025 14:30:45 +00:00\naccessed: Sat Apr 12 2025 14:30:45 +00:00\nisDirectory: false\nisFile: true\npermissions: 0644\n"
    );
}

#[test]
fn test_display_format_for_empty_timestamps() {
    let display_output = info(123, None, false).render();
    assert!(display_output.contains("size: 123"));
    assert!(display_output.contains("created: \n"));
    assert!(display_output.contains("modified: \n"));
    assert!(display_output.contains("accessed: \n"));
    assert!(display_output.contains("isDirectory: false"));
    assert!(display_output.contains("isFile: true"));
}

#[test]
fn file_size_limits_are_checked_largest_first() {
    assert_eq!(validate_file_size(10, None, None), Ok(()));
    assert_eq!(validate_file_size(10, Some(10), Some(10)), Ok(()));
    assert_eq!(validate_file_size(11, Some(1), Some(10)), Err(ServiceError::FileTooLarge(10)));
    assert_eq!(validate_file_size(0, Some(1), Some(10)), Err(ServiceError::FileTooSmall(1)));
    assert_eq!(validate_file_size(5, Some(9), Some(3)), Err(ServiceError::FileTooLarge(3)));
    assert_eq!(ServiceError::FileTooLarge(10).message(), "File size exceeds the maximum allowed limit of 10 bytes");
    assert_eq!(ServiceError::FileTooSmall(1).message(), "File size is below the minimum required limit of 1 bytes");
    assert_eq!(
        ServiceError::InvalidMediaFile("text/plain".to_string()).message(),
        "The file is either not an image/audio type or is unsupported (mime:text/plain)."
    );
}

const PNG: [u8; 12] = [0x89, b'P', b'N', b'G', 0x0d, 0x0a, 0x1a, 0x0a, 0, 0, 0, 0x0d];

#[test]
fn media_kind_comes_from_the_first_bytes_or_the_svg_extension() {
    let kind = mime_from_path(Some("png"), &PNG).unwrap();
    assert_eq!((kind.mime.as_str(), kind.extension.as_str()), ("image/png", "png"));
    let kind = mime_from_path(None, &PNG).unwrap();
    assert_eq!(kind.mime, "image/png");
    let kind = mime_from_path(Some("svg"), b"<svg/>").unwrap();
    assert_eq!((kind.mime.as_str(), kind.extension.as_str()), ("image/svg+xml", "svg"));
    let kind = mime_from_path(Some("svg"), &PNG).unwrap();
    assert_eq!(kind.mime, "image/svg+xml");
    assert_eq!(mime_from_path(Some("SVG"), b"<svg/>"), Err(ServiceError::FromString("File tyle is unknown!".to_string())));
    assert!(mime_from_path(Some("txt"), b"plain text").is_err());
    assert!(mime_from_path(None, b"").is_err());
    let mut late = vec![b' '; 9000];
    late.extend_from_slice(&PNG);
    assert!(mime_from_path(None, &late).is_err());
}

#[test]
fn media_files_are_read_as_base64() {
    assert_eq!(read_file_as_base64(b""), "");
    assert_eq!(read_file_as_base64(b"f"), "Zg==");
    assert_eq!(read_file_as_base64(b"fo"), "Zm8=");
    assert_eq!(read_file_as_base64(b"foo"), "Zm9v");
    assert_eq!(read_file_as_base64(&[0xfb, 0xff]), "+/8=");
    let service = FileSystemService::new(vec![]);
    let (kind, text) = service.read_media_file(Some("png"), &PNG, Some(12)).unwrap();
    assert_eq!(kind.mime, "image/png");
    assert_eq!(text, "iVBORw0KGgoAAAAN");
    assert_eq!(service.read_media_file(Some("png"), &PNG, Some(11)), Err(ServiceError::FileTooLarge(11)));
    assert_eq!(service.read_media_file(Some("svg"), &PNG, Some(11)), Err(ServiceError::FileTooLarge(11)));
    assert!(matches!(service.read_media_file(None, b"text", None), Err(ServiceError::FromString(_))));
}

#[test]
fn several_media_files_are_read_and_failures_passed_over() {
    let service = FileSystemService::new(vec![]);
    let sources = vec![
        MediaSource { extension: Some("png".to_string()), content: Some(PNG.to_vec()) },
        MediaSource { extension: Some("txt".to_string()), content: Some(b"plain".to_vec()) },
        MediaSource { extension: Some("png".to_string()), content: None },
        MediaSource { extension: Some("svg".to_string()), content: Some(b"<svg/>".to_vec()) },
    ];
    let read = service.read_media_files(&sources, None);
    let kinds: Vec<&str> = read.iter().map(|(kind, _)| kind.mime.as_str()).collect();
    assert_eq!(kinds, vec!["image/png", "image/svg+xml"]);
    assert_eq!(read[1].1, "PHN2Zy8+");
    let read = service.read_media_files(&sources, Some(6));
    assert_eq!(read.len(), 1);
    assert_eq!(read[0].0.extension, "svg");
}
