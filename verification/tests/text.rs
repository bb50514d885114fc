use gofile_dl::names::sanitize_component;
use gofile_dl::paths::{join_path, parent_dir, part_destination};
use gofile_dl::text::{
    chars_of, is_before, is_blank, is_control, is_white_space, push_decimal, same_text, trim,
    trim_mark,
};
use gofile_dl::units::format_bytes;
use std::path::{Path, PathBuf};

#[test]
fn character_classes_are_those_of_std() {
    for code in 0..=0x10ffffu32 {
        if let Some(c) = char::from_u32(code) {
            assert_eq!(is_white_space(c), c.is_whitespace(), "U+{code:04X}");
            assert_eq!(is_control(c), c.is_control(), "U+{code:04X}");
        }
    }
}

#[test]
fn trimming_is_that_of_std() {
    let samples = [
        "", " ", "a", " a", "a ", "  a b  ", "\u{3000}x\u{a0}", "\t\n", ". . .", "...", "..a..",
        "é\u{2009}", "\u{200b}z\u{200b}",
    ];
    for sample in samples {
        assert_eq!(trim(sample), sample.trim());
        assert_eq!(is_blank(sample), sample.trim().is_empty());
        assert_eq!(trim_mark(sample, '.'), sample.trim_matches('.'));
        assert_eq!(chars_of(sample), sample.chars().collect::<Vec<char>>());
    }
}

#[test]
fn texts_compare_as_in_std() {
    let samples = ["", "a", "ab", "b", "Z", "é", "\u{ffff}", "\u{10000}", "a\u{10000}", "a\u{ffff}"];
    for a in samples {
        for b in samples {
            assert_eq!(is_before(a, b), a < b, "{a:?} {b:?}");
            assert_eq!(same_text(a, b), a == b, "{a:?} {b:?}");
        }
    }
}

#[test]
fn decimals_are_those_of_std() {
    for n in [0, 1, 9, 10, 11, 99, 100, 1024, 65535, u64::MAX - 1, u64::MAX] {
        let mut text = String::from("n=");
        push_decimal(&mut text, n);
        assert_eq!(text, format!("n={n}"));
    }
}

#[test]
fn sanitizes_path_components() {
    assert_eq!(sanitize_component(r#"bad/name:*?"#), "bad_name___");
    assert_eq!(sanitize_component("..."), "_");
}

#[test]
fn sanitizing_keeps_names_in_their_folder() {
    assert_eq!(sanitize_component(".."), "_");
    assert_eq!(sanitize_component("../../etc/passwd"), "_.._etc_passwd");
    assert_eq!(sanitize_component("/"), "_");
    assert_eq!(sanitize_component(""), "_");
    assert_eq!(sanitize_component("  "), "_");
    assert_eq!(sanitize_component("a\\b\"c<d>e|f\0g"), "a_b_c_d_e_f_g");
    assert_eq!(sanitize_component("tab\there\u{7f}\u{85}"), "tab_here__");
    assert_eq!(sanitize_component("  .hidden.  "), "hidden");
    assert_eq!(sanitize_component("video.mp4"), "video.mp4");
    assert_eq!(sanitize_component("日本 語.txt"), "日本 語.txt");
}

#[test]
fn sanitizing_twice_differs_only_at_bared_white_space() {
    assert_eq!(sanitize_component("a ."), "a ");
    assert_eq!(sanitize_component("a "), "a");
    for name in ["x", " y ", "z...", "a/b", "\u{1}"] {
        let once = sanitize_component(name);
        assert_eq!(sanitize_component(&once), once);
    }
}

const PATHS: [&str; 40] = [
    "", "a", "a/b", "a/b/", "a//b", "a/./b", "a/b/.", "a/b/./", "/", "//", "/a", "//a", "/a/", "/.",
    "/./a", ".", "./", "./a", "./.", "..", "../", "a/..", "../a", "/..", "a.b", "a.b/", "a.bcd///",
    "a.b.c", ".hidden", "dir/.hidden", "dir/.hidden.x", "a.", "a..", "...", "a/...", "a b.mp4",
    "日/本.語", "/a/./", "x/y.tar.gz/./.", "././a",
];

fn text(path: PathBuf) -> String {
    path.to_str().unwrap().to_string()
}

#[test]
fn joining_is_that_of_std() {
    for base in PATHS {
        for name in PATHS {
            let expected = text(Path::new(base).join(name));
            assert_eq!(join_path(base, name), expected, "{base:?} {name:?}");
        }
    }
}

#[test]
fn parents_are_those_of_std() {
    for path in PATHS {
        let expected = Path::new(path).parent().map(|dir| text(dir.to_path_buf()));
        assert_eq!(parent_dir(path), expected, "{path:?}");
    }
}

#[test]
fn incomplete_files_get_one_more_ending() {
    for path in PATHS {
        let destination = Path::new(path);
        let ending = format!(
            "{}part",
            destination
                .extension()
                .and_then(|ext| ext.to_str())
                .map(|ext| format!("{ext}."))
                .unwrap_or_default()
        );
        let expected = text(destination.with_extension(ending));
        assert_eq!(part_destination(path), expected, "{path:?}");
    }
    assert_eq!(part_destination("root/video.mp4"), "root/video.mp4.part");
    assert_eq!(part_destination("root/README"), "root/README.part");
    assert_eq!(part_destination(".."), "..");
}

#[test]
fn incomplete_files_lie_beside_the_complete_ones() {
    for path in ["root/video.mp4", "file", "/a/b/c", "a/.b"] {
        let part = part_destination(path);
        assert_ne!(part, path);
        assert_eq!(parent_dir(&part), parent_dir(path));
    }
}

fn with_floats(bytes: u64) -> String {
    const UNITS: [&str; 5] = ["B", "KiB", "MiB", "GiB", "TiB"];
    let mut value = bytes as f64;
    let mut unit = 0usize;
    while value >= 1024.0 && unit < UNITS.len() - 1 {
        value /= 1024.0;
        unit += 1;
    }
    if unit == 0 {
        format!("{bytes} {}", UNITS[unit])
    } else {
        format!("{value:.1} {}", UNITS[unit])
    }
}

#[test]
fn byte_counts_have_one_decimal_from_kib_on() {
    assert_eq!(format_bytes(0), "0 B");
    assert_eq!(format_bytes(42), "42 B");
    assert_eq!(format_bytes(1023), "1023 B");
    assert_eq!(format_bytes(1024), "1.0 KiB");
    assert_eq!(format_bytes(1536), "1.5 KiB");
    assert_eq!(format_bytes(1280), "1.2 KiB");
    assert_eq!(format_bytes(1792), "1.8 KiB");
    assert_eq!(format_bytes(1048575), "1024.0 KiB");
    assert_eq!(format_bytes(1048576), "1.0 MiB");
    assert_eq!(format_bytes(5 * 1024 * 1024 * 1024), "5.0 GiB");
    assert_eq!(format_bytes(1 << 40), "1.0 TiB");
    assert_eq!(format_bytes(u64::MAX), "16777216.0 TiB");
}

#[test]
fn byte_counts_agree_with_floating_point() {
    let mut seed: u64 = 0x9e37_79b9_7f4a_7c15;
    for round in 0..400_000u64 {
        seed ^= seed << 13;
        seed ^= seed >> 7;
        seed ^= seed << 17;
        let bytes = seed >> (round % 64);
        assert_eq!(format_bytes(bytes), with_floats(bytes), "{bytes}");
    }
    for shift in 0..64 {
        for delta in 0..3000u64 {
            let around = (1u64 << shift).wrapping_add(delta).wrapping_sub(1500);
            assert_eq!(format_bytes(around), with_floats(around), "{around}");
        }
    }
    // Ties of the tenths, and numbers next to them that only rounding to a double makes ties.
    for quarter in 0..2000u64 {
        for unit in [10u32, 20, 30, 40] {
            let tie = (1u64 << unit) + quarter * (1u64 << (unit - 2));
            for near in [tie - 1, tie, tie + 1] {
                assert_eq!(format_bytes(near), with_floats(near), "{near}");
            }
        }
        let large = (1u64 << 62) + quarter * (1u64 << 38);
        for near in [large - 300, large - 1, large, large + 1, large + 300] {
            assert_eq!(format_bytes(near), with_floats(near), "{near}");
        }
    }
}
