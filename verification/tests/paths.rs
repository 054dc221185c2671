use stall::path::{file_name, file_name_range};
use stall::text::{char_is_whitespace, line_end, to_chars, trim_range};

fn name(path: &str) -> Option<String> {
    file_name(path)
}

#[test]
fn file_name_is_the_last_component() {
    assert_eq!(name("a/b/file.txt"), Some("file.txt".to_string()));
    assert_eq!(name("c.txt"), Some("c.txt".to_string()));
    assert_eq!(name("/usr/bin/"), Some("bin".to_string()));
    assert_eq!(name("/x"), Some("x".to_string()));
    assert_eq!(name("a//"), Some("a".to_string()));
    assert_eq!(name("./a"), Some("a".to_string()));
    assert_eq!(name(".a"), Some(".a".to_string()));
    assert_eq!(name("..."), Some("...".to_string()));
    assert_eq!(name("a\\b"), Some("a\\b".to_string()));
    assert_eq!(name("d/ e "), Some(" e ".to_string()));
    assert_eq!(name("\u{e9}t\u{e9}/\u{1f600}.txt"), Some("\u{1f600}.txt".to_string()));
}

#[test]
fn cur_dir_components_count_for_nothing() {
    assert_eq!(name("a/."), Some("a".to_string()));
    assert_eq!(name("a/./"), Some("a".to_string()));
    assert_eq!(name("a/././/."), Some("a".to_string()));
    assert_eq!(name("./a/."), Some("a".to_string()));
}

#[test]
fn paths_without_a_file_name() {
    assert_eq!(name(""), None);
    assert_eq!(name("/"), None);
    assert_eq!(name("//"), None);
    assert_eq!(name("."), None);
    assert_eq!(name("./"), None);
    assert_eq!(name("/."), None);
    assert_eq!(name(".."), None);
    assert_eq!(name("a/.."), None);
    assert_eq!(name("/abc/.."), None);
    assert_eq!(name("a/../"), None);
    assert_eq!(name("a/.././"), None);
}

#[test]
fn file_name_range_points_into_the_path() {
    let chars = to_chars("ab/cde/.");
    assert_eq!(file_name_range(&chars), Some((3, 6)));
    let chars = to_chars("..");
    assert_eq!(file_name_range(&chars), None);
}

#[test]
fn file_name_agrees_with_the_platform_on_slash_paths() {
    let pieces = ["", "/", ".", "..", "a", "b.c", " ", "...", "//", "./", "x y"];
    for a in pieces {
        for b in pieces {
            for c in pieces {
                for d in pieces {
                    let path = format!("{a}{b}{c}{d}");
                    let expected = std::path::Path::new(&path)
                        .file_name()
                        .map(|n| n.to_str().unwrap().to_string());
                    assert_eq!(file_name(&path), expected, "path {path:?}");
                }
            }
        }
    }
}

#[test]
fn whitespace_is_what_the_platform_calls_whitespace() {
    let mut c = '\0';
    loop {
        assert_eq!(char_is_whitespace(c), c.is_whitespace(), "char {:?}", c);
        if c == char::MAX {
            break;
        }
        c = char::from_u32(c as u32 + 1).unwrap_or('\u{e000}');
    }
}

#[test]
fn trim_range_agrees_with_trim() {
    let samples = [
        "",
        " ",
        "a",
        "  a b  ",
        "\t\r\n x \u{3000}",
        "\u{a0}\u{2003}path/with space \u{85}",
        "\u{200b}zero width is no space\u{200b}",
        " \u{1680}\u{2028}\u{2029}\u{202f}\u{205f} ",
    ];
    for s in samples {
        let chars = to_chars(s);
        let (a, b) = trim_range(&chars);
        let got: String = chars[a..b].iter().collect();
        assert_eq!(got, s.trim(), "sample {s:?}");
    }
}

#[test]
fn line_end_stops_at_the_line_feed() {
    let chars = to_chars("ab\ncd\n\nef");
    assert_eq!(line_end(&chars, 0), 2);
    assert_eq!(line_end(&chars, 1), 2);
    assert_eq!(line_end(&chars, 2), 2);
    assert_eq!(line_end(&chars, 3), 5);
    assert_eq!(line_end(&chars, 6), 6);
    assert_eq!(line_end(&chars, 7), 9);
    assert_eq!(line_end(&chars, 9), 9);
}

#[test]
fn to_chars_keeps_every_character() {
    assert_eq!(to_chars(""), Vec::<char>::new());
    assert_eq!(to_chars("a\u{e9}\u{1f600}/"), vec!['a', '\u{e9}', '\u{1f600}', '/']);
}
