//! Texts, paths, figures and orders, against what the standard library says of them.
use std::path::{Component as StdComponent, Path};

use container::client::figures::{first_line, fmt_ago, fmt_bytes, fmt_clock, shorten_path};
use container::listing::{sort_entries, sort_instances};
use container::path::{
    file_name, has_parent, is_absolute, join, parent, read, same_path, starts_with, with_extension,
    with_suffix, Component, Platform,
};
use container::protocol::{DirEntry, InstanceStatResponse, RepoState, RunState};
use container::text::{
    cat5, chars_of, comes_before, decimal_of, decimal_of_i32, first_line_of, flatten, hex_of,
    in_column, is_white_space, lines, parse_u32, repeat, same, same_ignoring_case, split, string_of,
    trim, two_digits_of, words,
};

const SAMPLES: [&str; 14] = [
    "",
    "a",
    " a b ",
    "\t\u{2003}x\u{a0}",
    "one\ntwo\r\nthree",
    "one\n",
    "\n",
    "a\r\r\nb\r",
    "é ü\u{3000}ß",
    "a,b,,c,",
    "ÄÖü",
    "12",
    "x\u{85}y",
    "  ",
];

#[test]
fn white_space_is_what_the_standard_says() {
    for n in 0..=0x10ffffu32 {
        if let Some(c) = char::from_u32(n) {
            assert_eq!(is_white_space(c), c.is_whitespace(), "{n:x}");
        }
    }
}

#[test]
fn texts_are_cut_as_the_standard_cuts_them() {
    for s in SAMPLES {
        assert_eq!(trim(s), s.trim());
        assert_eq!(lines(s), s.lines().collect::<Vec<_>>(), "{s:?}");
        assert_eq!(words(s), s.split_whitespace().collect::<Vec<_>>());
        assert_eq!(split(s, ','), s.split(',').collect::<Vec<_>>());
        assert_eq!(first_line_of(s), s.lines().next().unwrap_or(""));
        assert_eq!(string_of(&chars_of(s)), s);
        for t in SAMPLES {
            assert_eq!(same(s, t), s == t);
            assert_eq!(comes_before(s, t), s < t, "{s:?} {t:?}");
            assert_eq!(same_ignoring_case(s, t), s.eq_ignore_ascii_case(t));
        }
    }
}

#[test]
fn numbers_are_written_as_the_standard_writes_them() {
    for n in [0u128, 7, 10, 99, 4096, u64::MAX as u128, u128::MAX] {
        assert_eq!(decimal_of(n), n.to_string());
        assert_eq!(hex_of(n, 32), format!("{n:032x}"));
        assert_eq!(hex_of(n, 0), if n == 0 { String::new() } else { format!("{n:x}") });
    }
    for n in [i32::MIN, -1, 0, 1, i32::MAX] {
        assert_eq!(decimal_of_i32(n), n.to_string());
    }
    for s in ["0", "+5", "-1", "", "+", "4294967295", "4294967296", "007", "1x", " 1", "99999999999"] {
        assert_eq!(parse_u32(s), s.parse::<u32>().ok(), "{s:?}");
    }
}

#[test]
fn pieces_are_put_together() {
    assert_eq!(cat5("a", "b", "", "c", "d"), "abcd");
    assert_eq!(repeat('=', 4), "====");
    assert_eq!(in_column("ab", 4), format!("{:<4}", "ab"));
    assert_eq!(in_column("abcdef", 4), format!("{:<4}", "abcdef"));
    assert_eq!(two_digits_of(5), "05");
    assert_eq!(two_digits_of(42), "42");
    assert_eq!(flatten("a\nb"), flatten("a b"));
}

const PATHS: [&str; 20] = [
    "",
    "/",
    "a",
    "/a",
    "a/b",
    "a/b/",
    "a//b",
    "./a",
    "a/./b",
    "a/.",
    "..",
    "../a",
    "a/../b",
    "/a/b.txt",
    "a/.hidden",
    "a/b.tar.gz",
    "a.b/c",
    "/..",
    "a/b.",
    "//x",
];

#[test]
fn paths_are_read_as_the_standard_reads_them() {
    for p in PATHS {
        let std_path = Path::new(p);
        let ours: Vec<String> = read(p, Platform::Unix)
            .into_iter()
            .map(|step| match step.part {
                Component::Prefix(name) => format!("prefix {name}"),
                Component::Root => "root".to_string(),
                Component::Cur => "cur".to_string(),
                Component::Parent => "parent".to_string(),
                Component::Normal(name) => format!("normal {name}"),
            })
            .collect();
        let theirs: Vec<String> = std_path
            .components()
            .map(|c| match c {
                StdComponent::Prefix(_) => "prefix".to_string(),
                StdComponent::RootDir => "root".to_string(),
                StdComponent::CurDir => "cur".to_string(),
                StdComponent::ParentDir => "parent".to_string(),
                StdComponent::Normal(n) => format!("normal {}", n.to_string_lossy()),
            })
            .collect();
        assert_eq!(ours, theirs, "{p:?}");
        assert_eq!(
            file_name(p, Platform::Unix),
            std_path.file_name().map(|n| n.to_string_lossy().into_owned()),
            "{p:?}"
        );
        assert_eq!(
            parent(p, Platform::Unix),
            std_path.parent().map(|n| n.to_string_lossy().into_owned()),
            "{p:?}"
        );
        assert_eq!(is_absolute(p, Platform::Unix), std_path.is_absolute());
        assert_eq!(
            with_extension(p, "part", Platform::Unix),
            std_path.with_extension("part").to_string_lossy(),
            "{p:?}"
        );
        for q in PATHS {
            assert_eq!(
                join(p, q, Platform::Unix),
                std_path.join(q).to_string_lossy(),
                "{p:?} {q:?}"
            );
            assert_eq!(
                starts_with(p, q, Platform::Unix),
                std_path.starts_with(q),
                "{p:?} {q:?}"
            );
            assert_eq!(same_path(p, q, Platform::Unix), std_path == Path::new(q));
        }
    }
}

#[test]
fn windows_paths_have_drives_and_shares() {
    let w = Platform::Windows;
    assert!(is_absolute("C:\\a", w));
    assert!(!is_absolute("C:a", w));
    assert!(!is_absolute("\\a", w));
    assert_eq!(join("C:\\a", "b", w), "C:\\a\\b");
    assert_eq!(join("C:\\a", "D:\\b", w), "D:\\b");
    assert_eq!(join("C:\\a", "\\b", w), "C:\\b");
    assert_eq!(parent("C:\\a\\b", w), Some("C:\\a".to_string()));
    assert_eq!(parent("C:\\", w), None);
    assert!(starts_with("c:/a/b", "C:\\a", w));
    assert!(has_parent("a\\..\\b", w));
    assert!(!has_parent("a\\..\\b", Platform::Unix));
    assert_eq!(with_extension("C:\\a\\b.txt", "part", w), "C:\\a\\b.part");
}

#[test]
fn sizes_are_rounded_as_the_standard_rounds() {
    let units = ["B", "K", "M", "G", "T"];
    let theirs = |bytes: u64| {
        let mut value = bytes as f64;
        let mut unit = 0;
        while value >= 1024.0 && unit < units.len() - 1 {
            value /= 1024.0;
            unit += 1;
        }
        if unit == 0 {
            format!("{}{}", bytes, units[0])
        } else if value < 10.0 {
            format!("{value:.1}{}", units[unit])
        } else {
            format!("{value:.0}{}", units[unit])
        }
    };
    let mut seed: u64 = 12345;
    let mut cases = vec![0, 1, 1023, 1024, 1075, 1076, 1127, 1536, 1588, 1 << 20, (1 << 30) - 1, 1 << 50];
    for k in 0..4000u64 {
        seed = seed.wrapping_mul(6364136223846793005).wrapping_add(1442695040888963407);
        cases.push(seed >> (k % 50 + 14));
        cases.push(seed >> (k % 11));
        cases.push(1024 + k);
        cases.push((1u64 << 50) + (k << 38));
    }
    cases.push(u64::MAX);
    for bytes in cases {
        assert_eq!(fmt_bytes(bytes), theirs(bytes), "{bytes}");
    }
}

#[test]
fn clocks_and_ages_are_short() {
    assert_eq!(fmt_clock(0), "00:00:00");
    assert_eq!(fmt_clock(((23 * 60 + 59) * 60 + 58) * 1000 + 999), "23:59:58");
    assert_eq!(fmt_clock(24 * 3600 * 1000), "00:00:00");
    assert_eq!(fmt_ago(59), "59s");
    assert_eq!(fmt_ago(60), "1m");
    assert_eq!(fmt_ago(3599), "59m");
    assert_eq!(fmt_ago(90_000), "25h");
}

#[test]
fn long_paths_are_cut_at_the_front() {
    assert_eq!(shorten_path("/a/b", 10), "/a/b");
    let cut = shorten_path("/a/very/long/path/indeed", 10);
    assert_eq!(cut.chars().count(), 10);
    assert!("/a/very/long/path/indeed".ends_with(cut.trim_start_matches('…')));
    assert_eq!(first_line("  one \ntwo"), "one");
    assert_eq!(first_line(&"x".repeat(61)), format!("{}…", "x".repeat(59)));
}

fn entry(name: &str, is_dir: bool) -> DirEntry {
    DirEntry { name: name.to_string(), is_dir, size: 0, modified_secs: None }
}

#[test]
fn listings_put_directories_first_and_ignore_case() {
    let sorted = sort_entries(vec![
        entry("b", false),
        entry("Z", true),
        entry("A", false),
        entry("a", true),
        entry("É", false),
    ]);
    let names: Vec<&str> = sorted.iter().map(|e| e.name.as_str()).collect();
    assert_eq!(names, ["a", "Z", "A", "b", "É"]);
}

fn instance(id: u128, name: &str) -> InstanceStatResponse {
    InstanceStatResponse {
        id,
        name: name.to_string(),
        repo: RepoState::Ready,
        run: RunState::NotRunning,
        self_managed: false,
    }
}

#[test]
fn instances_are_listed_by_name() {
    let sorted = sort_instances(vec![instance(1, "web"), instance(2, "API"), instance(3, "db")]);
    let ids: Vec<u128> = sorted.iter().map(|i| i.id).collect();
    assert_eq!(ids, [2, 3, 1]);
}

fn told(path: &str) -> Vec<String> {
    read(path, Platform::Windows)
        .into_iter()
        .map(|step| match step.part {
            Component::Prefix(p) => format!("prefix {p}"),
            Component::Root => "root".to_string(),
            Component::Cur => "cur".to_string(),
            Component::Parent => "parent".to_string(),
            Component::Normal(name) => format!("normal {name}"),
        })
        .collect()
}

#[test]
fn shares_are_equal_however_they_are_spelled() {
    let w = Platform::Windows;
    assert!(same_path("//server/share/x", r"\\server\share\x", w));
    assert!(starts_with(r"\\server\share\x", "//server/share", w));
    assert!(!same_path(r"\\server\share", r"\\server\other", w));
    assert!(same_path("//./COM1", r"\\.\COM1", w));
    assert_eq!(told("//server/share/x"), ["prefix //server/share", "root", "normal x"]);
}

#[test]
fn verbatim_paths_are_taken_word_for_word() {
    let w = Platform::Windows;
    assert_eq!(
        told(r"\\?\C:\a/b\.\c"),
        [r"prefix \\?\c:", "root", "normal a/b", "cur", "normal c"]
    );
    assert_eq!(
        told(r"\\?\UNC\server\share\x"),
        [r"prefix \\?\UNC\server\share", "root", "normal x"]
    );
    assert_eq!(told(r"\\?\pictures\a"), [r"prefix \\?\pictures", "root", "normal a"]);
    assert_eq!(told(r"\\?\C:"), [r"prefix \\?\c:"]);
    assert!(is_absolute(r"\\?\C:", w));
    assert!(same_path(r"\\?\C:\a", r"\\?\c:\a", w));
    assert!(!same_path(r"\\?\C:\a", r"C:\a", w));
    assert!(!same_path(r"\\?\c:\a", "//?/c:/a", w));
    assert_eq!(join(r"\\?\C:\a", "b/../c/./d", w), r"\\?\C:\a\c\d");
    assert_eq!(join(r"\\?\C:\a\", r"\b", w), r"\\?\C:\b");
    assert_eq!(join(r"\\?\C:\a", "", w), r"\\?\C:\a\");
    assert_eq!(join(r"\\?\C:\a", r"D:\x", w), r"D:\x");
}

#[test]
fn an_ending_is_added_to_the_name() {
    assert_eq!(with_suffix("/a/b.txt", ".part", Platform::Unix), "/a/b.txt.part");
    assert_eq!(with_suffix("/a/b//", ".part", Platform::Unix), "/a/b.part");
    assert_eq!(with_suffix("..", ".part", Platform::Unix), "...part");
    assert_eq!(with_suffix(r"C:\x\", ".part", Platform::Windows), r"C:\x.part");
}
