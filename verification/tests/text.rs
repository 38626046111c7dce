use narrowd::net::{IpAddr, IpTable};
use narrowd::paths::{file_name, join_path, normalize_path, parent_path, part_count};
use narrowd::text::{chars_of, decimal_of, parse_unsigned, split, string_of, trim, words, IntegerError};
use narrowd::time::{Duration, Instant};

#[test]
fn decimals_read_back() {
    for n in [0, 7, 10, 4096, u64::MAX] {
        let shown = decimal_of(n);
        assert_eq!(shown, format!("{n}"));
        assert_eq!(parse_unsigned(&chars_of(&shown), u64::MAX), Ok(n));
    }
    assert_eq!(parse_unsigned(&chars_of("+5"), 9), Ok(5));
    assert_eq!(parse_unsigned(&chars_of(""), 9), Err(IntegerError::Empty));
    assert_eq!(parse_unsigned(&chars_of("5x"), 9), Err(IntegerError::InvalidDigit));
    assert_eq!(parse_unsigned(&chars_of("10"), 9), Err(IntegerError::TooLarge));
}

#[test]
fn texts_are_cut_at_blanks() {
    assert_eq!(string_of(&trim(&chars_of(" \ta b\u{3000}\n"))), "a b");
    let cut: Vec<String> = words(&chars_of(" a  bc\t d ")).iter().map(string_of).collect();
    assert_eq!(cut, vec!["a", "bc", "d"]);
    let cut: Vec<String> = split(&chars_of("a,,b"), ',').iter().map(string_of).collect();
    assert_eq!(cut, vec!["a", "", "b"]);
}

#[test]
fn spans_are_shown_like_the_standard_ones() {
    for (secs, nanos) in [
        (0, 0),
        (0, 1),
        (0, 1_500),
        (0, 150_000_000),
        (15, 0),
        (1, 500_000_000),
        (3, 7),
        (u64::MAX, 999_999_999),
    ] {
        let ours = Duration { secs, nanos };
        let std = std::time::Duration::new(secs, nanos);
        assert_eq!(ours.shown(), format!("{std:?}"));
        assert_eq!(ours.as_nanos(), std.as_nanos());
        assert_eq!(ours.as_millis(), std.as_millis());
        assert_eq!(ours.is_zero(), std.is_zero());
    }
    assert_eq!(Duration::from_millis(1500), Duration { secs: 1, nanos: 500_000_000 });
    assert_eq!(Instant { nanos: 5 }.nanos_since(Instant { nanos: 9 }), 0);
}

#[test]
fn paths_are_taken_apart_like_the_standard_ones() {
    for p in ["/a/b", "a", "/", "", "a/..", "/a//b/", "./x", ".", "a/./b", "//x"] {
        let std = std::path::Path::new(p);
        let ours = chars_of(p);
        assert_eq!(
            parent_path(&ours).map(|v| string_of(&v)),
            std.parent().map(|v| v.to_str().unwrap().to_string()),
            "{p}"
        );
        assert_eq!(
            file_name(&ours).map(|v| string_of(&v)),
            std.file_name().map(|v| v.to_str().unwrap().to_string()),
            "{p}"
        );
        assert_eq!(part_count(&ours), std.components().count(), "{p}");
        assert_eq!(
            string_of(&join_path(&chars_of("/base"), &ours)),
            std::path::Path::new("/base").join(std).to_str().unwrap(),
            "{p}"
        );
    }
    assert_eq!(
        string_of(&normalize_path(&chars_of("/a"), &chars_of("b/../../c"))),
        "/c"
    );
}

#[test]
fn normalizing_carries_out_dots_and_stays_below_the_root() {
    let at = |base: &str, p: &str| string_of(&normalize_path(&chars_of(base), &chars_of(p)));
    assert_eq!(at("/home/u", "../../../etc/./passwd"), "/etc/passwd");
    assert_eq!(at("/", ".."), "/");
    assert_eq!(at("/home/u", "/a/../b"), at("/elsewhere", "/a/../b"));
    let r = at("/home/u", "a/.//b/../c");
    assert_eq!(r, "/home/u/a/c");
    assert_eq!(at("/", &r), r);
}

#[test]
fn tables_keep_both_kinds_of_addresses() {
    let mut table: IpTable<u32> = IpTable::new();
    table.insert(IpAddr::V4(1), 10);
    table.insert(IpAddr::V6(1), 20);
    assert_eq!(table.get(IpAddr::V4(1)), Some(&10));
    let listed = table.addresses();
    assert_eq!(listed.len(), 2);
    assert!(listed.contains(&IpAddr::V4(1)) && listed.contains(&IpAddr::V6(1)));
    assert_eq!(table.remove(IpAddr::V6(1)), Some(20));
    assert_eq!(table.get(IpAddr::V6(1)), None);
}
