use pftp::remote_path::remote_path;
use pftp::text::{char_is_whitespace, chars_of, repeated_prefix_end, trim_bounds};

#[test]
fn maps_file_below_input_root() {
    assert_eq!(remote_path("/data/in/a/b.txt", "/data/in", "/remote/out"), "/remote/out/a/b.txt");
}

#[test]
fn maps_file_directly_in_input_root() {
    assert_eq!(remote_path("/data/in/x.txt", "/data/in", "/remote/out"), "/remote/out/x.txt");
}

#[test]
fn rewrites_backslashes_to_slashes() {
    assert_eq!(remote_path("C:\\in\\a\\b.txt", "C:\\in", "/srv/out"), "/srv/out/a/b.txt");
}

#[test]
fn rewrites_only_the_local_part() {
    assert_eq!(remote_path("in\\a", "in", "out\\root"), "out\\root/a");
}

#[test]
fn takes_the_input_root_off_once() {
    assert_eq!(remote_path("/in/in/x", "/in", "/out"), "/out/in/x");
}

#[test]
fn appends_a_path_outside_the_input_root_whole() {
    assert_eq!(remote_path("/other/x", "/in", "/out"), "/out/other/x");
}

#[test]
fn maps_the_input_root_itself_to_the_output_root() {
    assert_eq!(remote_path("/in", "/in", "/out"), "/out");
}

#[test]
fn maps_with_empty_roots() {
    assert_eq!(remote_path("a\\b", "", ""), "a/b");
}

#[test]
fn keeps_characters_beyond_ascii() {
    assert_eq!(remote_path("/in/données/été.txt", "/in", "/out"), "/out/données/été.txt");
}

#[test]
fn mapping_is_a_function_of_its_arguments() {
    let first = remote_path("/in/a/b", "/in", "/out");
    let second = remote_path("/in/a/b", "/in", "/out");
    assert_eq!(first, second);
}

#[test]
fn remote_path_begins_with_output_root_and_ends_with_relative_path() {
    let locals = vec!["/r/a", "/r/a/b/c", "/r/x\\y", "/r/", "/r"];
    for local in locals {
        let remote = remote_path(local, "/r", "/o/p");
        assert!(remote.starts_with("/o/p"));
        let relative = local["/r".len()..].replace('\\', "/");
        assert_eq!(&remote["/o/p".len()..], relative);
        assert!(!remote["/o/p".len()..].contains('\\'));
    }
}

#[test]
fn chars_of_lists_every_character() {
    assert_eq!(chars_of("aé\u{3000}z"), vec!['a', 'é', '\u{3000}', 'z']);
    assert_eq!(chars_of(""), Vec::<char>::new());
}

#[test]
fn whitespace_is_the_unicode_property() {
    let white = vec![
        '\t', '\n', '\u{b}', '\u{c}', '\r', ' ', '\u{85}', '\u{a0}', '\u{1680}', '\u{2000}',
        '\u{2005}', '\u{200a}', '\u{2028}', '\u{2029}', '\u{202f}', '\u{205f}', '\u{3000}',
    ];
    for c in white {
        assert!(char_is_whitespace(c));
        assert!(c.is_whitespace());
    }
    let other = vec!['a', '0', '\u{8}', '\u{e}', '\u{200b}', '\u{180e}', '\u{feff}', '_', '\u{2060}'];
    for c in other {
        assert!(!char_is_whitespace(c));
        assert!(!c.is_whitespace());
    }
}

#[test]
fn whitespace_agrees_with_std_on_every_character() {
    let mut n: u32 = 0;
    while n <= 0x10FFFF {
        if let Some(c) = char::from_u32(n) {
            assert_eq!(char_is_whitespace(c), c.is_whitespace());
        }
        n += 1;
    }
}

#[test]
fn trim_bounds_enclose_the_trimmed_text() {
    assert_eq!(trim_bounds(&chars_of("  ab c \n")), (2, 6));
    assert_eq!(trim_bounds(&chars_of("abc")), (0, 3));
    assert_eq!(trim_bounds(&chars_of("")), (0, 0));
    assert_eq!(trim_bounds(&chars_of(" \t ")), (3, 3));
}

#[test]
fn repeated_prefix_end_skips_every_repetition() {
    assert_eq!(repeated_prefix_end(&chars_of("ababax"), &chars_of("ab")), 4);
    assert_eq!(repeated_prefix_end(&chars_of("xab"), &chars_of("ab")), 0);
    assert_eq!(repeated_prefix_end(&chars_of("abab"), &chars_of("ab")), 4);
    assert_eq!(repeated_prefix_end(&chars_of("abab"), &chars_of("")), 0);
}
