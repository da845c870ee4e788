use nws::layout::{cache_dir, entry_file, join};

#[test]
fn join_puts_one_separator_between() {
    assert_eq!(join("/home/u", ".config"), "/home/u/.config");
    assert_eq!(join("", "x"), "/x");
    assert_eq!(join("x", ""), "x/");
    assert_eq!(join("/", "x"), "//x");
}

#[test]
fn cache_dir_is_the_key_under_the_root() {
    assert_eq!(
        cache_dir("/home/u/.config/nwscache", "https://api.weather.gov/points/1,2"),
        "/home/u/.config/nwscache/https:\u{2571}\u{2571}api.weather.gov\u{2571}points\u{2571}1,2"
    );
}

#[test]
fn entry_file_is_the_expiry_under_the_key() {
    assert_eq!(
        entry_file("/r", "a/b", "Wed, 28 Oct 2026 12:00:00 GMT"),
        "/r/a\u{2571}b/Wed, 28 Oct 2026 12:00:00 GMT"
    );
}
