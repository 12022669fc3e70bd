use model_compressor::text::{
    escape_quotes_exec, get_extension, join_path, parse_usize, path_extension, path_file_name,
    path_stem, push_decimal, split_commas, str_eq,
};

#[test]
fn decimal_rendering() {
    let mut s = String::new();
    push_decimal(&mut s, 0);
    assert_eq!(s, "0");
    let mut s = String::from("n=");
    push_decimal(&mut s, 12345);
    assert_eq!(s, "n=12345");
    let mut s = String::new();
    push_decimal(&mut s, u64::MAX);
    assert_eq!(s, "18446744073709551615");
    let mut s = String::new();
    push_decimal(&mut s, 10);
    assert_eq!(s, "10");
}

#[test]
fn parse_usize_accepts_digits_with_optional_plus() {
    assert_eq!(parse_usize("0"), Some(0));
    assert_eq!(parse_usize("42"), Some(42));
    assert_eq!(parse_usize("+17"), Some(17));
    assert_eq!(parse_usize("007"), Some(7));
    assert_eq!(parse_usize(&usize::MAX.to_string()), Some(usize::MAX));
}

#[test]
fn parse_usize_refuses_what_rust_refuses() {
    for bad in ["", "+", "-", "-1", "12a", " 1", "1 ", "1.5", "٣", "++1"] {
        assert_eq!(parse_usize(bad), None, "input {:?}", bad);
        assert_eq!(parse_usize(bad), bad.parse::<usize>().ok(), "input {:?}", bad);
    }
    assert_eq!(parse_usize("18446744073709551616"), None);
    assert_eq!(parse_usize("99999999999999999999999"), None);
}

#[test]
fn parse_of_decimal_roundtrip() {
    for n in [0u64, 1, 9, 10, 99, 100, 65535, 4294967296, u64::MAX] {
        let mut s = String::new();
        push_decimal(&mut s, n);
        assert_eq!(parse_usize(&s), Some(n as usize));
    }
}

#[test]
fn path_extension_follows_std() {
    let cases = [
        "a/b.OBJ", ".bashrc", "a.", "dir.d/file", "a/b.tar.gz", "a/..", "x/y.obj/", "x/y.stl/.",
        "", "/", ".", "..", "model", "./model.obj", "a//b.c", "a/.hidden.ply", "..x",
    ];
    for c in cases {
        let expected = std::path::Path::new(c)
            .extension()
            .and_then(|e| e.to_str())
            .map(|s| s.to_string());
        assert_eq!(path_extension(c), expected, "path {:?}", c);
        let stem = std::path::Path::new(c)
            .file_stem()
            .and_then(|e| e.to_str())
            .map(|s| s.to_string());
        assert_eq!(path_stem(c), stem, "path {:?}", c);
        let name = std::path::Path::new(c)
            .file_name()
            .and_then(|e| e.to_str())
            .map(|s| s.to_string());
        assert_eq!(path_file_name(c), name, "path {:?}", c);
    }
}

#[test]
fn get_extension_lowercases() {
    assert_eq!(get_extension("Model.OBJ"), Some("obj".to_string()));
    assert_eq!(get_extension("scan.StL"), Some("stl".to_string()));
    assert_eq!(get_extension("noext"), None);
    assert_eq!(get_extension(".obj"), None);
}

#[test]
fn join_path_cases() {
    assert_eq!(join_path("./uploads", "x.obj"), "./uploads/x.obj");
    assert_eq!(join_path("a/", "b"), "a/b");
    assert_eq!(join_path("", "b"), "b");
    assert_eq!(join_path("a", "/b"), "/b");
    for (base, rel) in [("./uploads", "x.obj"), ("a/", "b"), ("", "b"), ("a", "/b")] {
        let expected = std::path::Path::new(base).join(rel);
        assert_eq!(join_path(base, rel), expected.to_string_lossy());
    }
}

#[test]
fn quotes_are_escaped() {
    assert_eq!(escape_quotes_exec("plain"), "plain");
    assert_eq!(escape_quotes_exec("a\"b\""), "a\\\"b\\\"");
    assert_eq!(escape_quotes_exec("é\"x"), "é\\\"x");
    assert_eq!(escape_quotes_exec("a\"b"), "a\"b".replace('"', "\\\""));
}

#[test]
fn comma_split_keeps_empty_pieces() {
    assert_eq!(split_commas("obj, STL,,"), vec!["obj", " STL", "", ""]);
    assert_eq!(split_commas(""), vec![""]);
    assert_eq!(split_commas("obj"), vec!["obj"]);
}

#[test]
fn string_equality() {
    assert!(str_eq("obj", "obj"));
    assert!(!str_eq("obj", "OBJ"));
}
