use smoltalk::file_name::{file_stem, stem_text, Stem};
use std::path::Path;

#[test]
fn stems_are_those_of_the_standard_library() {
    let parts = ["", "/", ".", "..", "a", "a.b", " ", ".x", "\u{e9}", "//", "/./", "/../", "c:"];
    for first in parts {
        for second in parts {
            for third in parts {
                let path = format!("{first}{second}{third}");
                let expected = Path::new(&path)
                    .file_stem()
                    .map(|stem| stem.to_str().unwrap().to_string());
                let found = file_stem(path.as_bytes())
                    .map(|stem| std::str::from_utf8(stem).unwrap().to_string());
                assert_eq!(found, expected, "{path:?}");
            }
        }
    }
}

#[test]
fn a_stem_is_text_or_not() {
    assert_eq!(stem_text(b"dir/take.wav"), Stem::Text("take".to_string()));
    assert_eq!(stem_text(b"\xfe/take.wav"), Stem::Text("take".to_string()));
    assert_eq!(stem_text(b"dir/\xfe.wav"), Stem::NotText);
    assert_eq!(stem_text(b"dir/.."), Stem::Missing);
}
