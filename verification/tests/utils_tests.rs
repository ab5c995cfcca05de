use std::cmp::Ordering;
use yuukips_launcher::utils::{
    compare_versions, format_file_size, get_file_extension, is_valid_url, normalize_path_separators,
    parse_version, sanitize_filename,
};

fn reference_size(size: u64) -> String {
    let units = ["B", "KB", "MB", "GB", "TB"];
    let mut s = size as f64;
    let mut i = 0;
    while s >= 1024.0 && i < units.len() - 1 {
        s /= 1024.0;
        i += 1;
    }
    if i == 0 {
        format!("{} {}", s as u64, units[i])
    } else {
        format!("{:.2} {}", s, units[i])
    }
}

#[test]
fn file_size_small_values() {
    assert_eq!(format_file_size(0), "0 B");
    assert_eq!(format_file_size(1023), "1023 B");
    assert_eq!(format_file_size(1024), "1.00 KB");
    assert_eq!(format_file_size(1536), "1.50 KB");
    assert_eq!(format_file_size(1048576), "1.00 MB");
}

#[test]
fn file_size_matches_float_formatting() {
    let mut samples: Vec<u64> = vec![
        1, 999, 1152, 1126, 1127, 2047, 5 * 1024 + 5, 10 * 1024 * 1024 + 12345,
        1024 * 1024 * 1024 - 1, 3 * 1024 * 1024 * 1024 + 7, 1u64 << 40, (1u64 << 40) * 1000,
        (1u64 << 53) + 1, (1u64 << 60) + 12345, u64::MAX,
    ];
    let mut x: u64 = 0x9e37_79b9_7f4a_7c15;
    for _ in 0..2000 {
        x ^= x << 13;
        x ^= x >> 7;
        x ^= x << 17;
        samples.push(x >> (x % 60));
    }
    for s in samples {
        assert_eq!(format_file_size(s), reference_size(s), "size {}", s);
    }
}

#[test]
fn versions_parse_and_compare() {
    assert_eq!(parse_version("1.2.3"), Ok((1, 2, 3)));
    assert_eq!(parse_version("+1.02.3"), Ok((1, 2, 3)));
    assert_eq!(
        parse_version("1.2"),
        Err("Invalid version format: 1.2. Expected format: x.y.z".to_string())
    );
    assert_eq!(parse_version("a.2.3"), Err("Invalid major version: a".to_string()));
    assert_eq!(parse_version("1..3"), Err("Invalid minor version: ".to_string()));
    assert_eq!(parse_version("1.2.4294967296"), Err("Invalid patch version: 4294967296".to_string()));
    assert_eq!(compare_versions("1.2.3", "1.2.3"), Ok(Ordering::Equal));
    assert_eq!(compare_versions("1.2.3", "1.10.0"), Ok(Ordering::Less));
    assert_eq!(compare_versions("2.0.0", "1.99.99"), Ok(Ordering::Greater));
    assert_eq!(compare_versions("x", "1.0.0"), Err("Invalid version format: x. Expected format: x.y.z".to_string()));
}

#[test]
fn version_order_laws_on_examples() {
    let vs = ["0.0.1", "1.0.0", "1.2.3", "1.10.0", "2.0.0", "1.2.3"];
    for a in vs.iter() {
        assert_eq!(compare_versions(a, a), Ok(Ordering::Equal));
        for b in vs.iter() {
            let ab = compare_versions(a, b).unwrap();
            let ba = compare_versions(b, a).unwrap();
            assert_eq!(ab, ba.reverse());
            for c in vs.iter() {
                if ab == Ordering::Less && compare_versions(b, c).unwrap() == Ordering::Less {
                    assert_eq!(compare_versions(a, c), Ok(Ordering::Less));
                }
            }
        }
    }
    for (x, y, z) in [(0u32, 0u32, 0u32), (1, 22, 333), (4294967295, 7, 10)] {
        assert_eq!(parse_version(&format!("{}.{}.{}", x, y, z)), Ok((x, y, z)));
    }
}

#[test]
fn file_names_and_paths() {
    assert_eq!(sanitize_filename("a<b>c:d\"e|f?g*h/i\\j\u{1}k"), "a_b_c_d_e_f_g_h_i_j_k");
    let once = sanitize_filename("x:y/z\u{7f}");
    assert_eq!(sanitize_filename(&once), once);
    assert_eq!(normalize_path_separators("C:\\Games\\GI/x"), "C:/Games/GI/x");
    assert_eq!(normalize_path_separators("a/b"), "a/b");
    assert!(is_valid_url("https://example.com"));
    assert!(is_valid_url("http://x"));
    assert!(!is_valid_url("ftp://x"));
    assert_eq!(get_file_extension("dir/Game.EXE"), Some("exe".to_string()));
    assert_eq!(get_file_extension("archive.tar.GZ"), Some("gz".to_string()));
    assert_eq!(get_file_extension("noext"), None);
    assert_eq!(get_file_extension("Game.EXE"), Some("exe".to_string()));
    assert_eq!(get_file_extension(".bashrc"), None);
    assert_eq!(get_file_extension("name."), Some("".to_string()));
    assert_eq!(get_file_extension("a.b.TXT"), Some("txt".to_string()));
}

#[test]
fn file_extension_of_paths_with_directories() {
    assert_eq!(get_file_extension("C:/Games/GenshinImpact.EXE"), Some("exe".to_string()));
    assert_eq!(get_file_extension("dl/archive.tar.GZ"), Some("gz".to_string()));
    assert_eq!(get_file_extension("dl/.bashrc"), None);
    assert_eq!(get_file_extension("dl/README"), None);
    assert_eq!(get_file_extension("dl.d/README"), None);
}
