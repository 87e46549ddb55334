use tokio_console::location::{format_location, truncate_registry_path, Location};

fn file_location(file: &str) -> Location {
    Location {
        file: Some(file.to_string()),
        module: None,
        line: None,
        column: None,
    }
}

#[test]
fn test_format_location_linux() {
    let location1 = file_location(
        "/home/user/.cargo/registry/src/github.com-1ecc6299db9ec823/tokio-1.0.1/src/lib.rs",
    );
    let location2 = file_location("/home/user/.cargo/git/checkouts/tokio-1.0.1/src/lib.rs");
    let location3 = file_location("/home/user/projects/tokio-1.0.1/src/lib.rs");

    assert_eq!(
        format_location(Some(location1)),
        "<cargo>/tokio-1.0.1/src/lib.rs"
    );
    assert_eq!(
        format_location(Some(location2)),
        "<cargo>/tokio-1.0.1/src/lib.rs"
    );
    assert_eq!(
        format_location(Some(location3)),
        "/home/user/projects/tokio-1.0.1/src/lib.rs"
    );

    assert_eq!(format_location(None), "<unknown location>");
}

#[test]
fn test_format_location_macos() {
    let location1 = file_location(
        "/Users/user/.cargo/registry/src/github.com-1ecc6299db9ec823/tokio-1.0.1/src/lib.rs",
    );
    let location2 = file_location("/Users/user/.cargo/git/checkouts/tokio-1.0.1/src/lib.rs");
    let location3 = file_location("/Users/user/projects/tokio-1.0.1/src/lib.rs");

    assert_eq!(
        format_location(Some(location1)),
        "<cargo>/tokio-1.0.1/src/lib.rs"
    );
    assert_eq!(
        format_location(Some(location2)),
        "<cargo>/tokio-1.0.1/src/lib.rs"
    );
    assert_eq!(
        format_location(Some(location3)),
        "/Users/user/projects/tokio-1.0.1/src/lib.rs"
    );
}

#[test]
fn test_format_location_windows() {
    let location1 = file_location(
        "C:\\Users\\user\\.cargo\\registry\\src\\github.com-1ecc6299db9ec823\\tokio-1.0.1\\src\\lib.rs",
    );
    let location2 =
        file_location("C:\\Users\\user\\.cargo\\git\\checkouts\\tokio-1.0.1\\src\\lib.rs");
    let location3 = file_location("C:\\Users\\user\\projects\\tokio-1.0.1\\src\\lib.rs");

    assert_eq!(
        format_location(Some(location1)),
        "<cargo>/tokio-1.0.1/src/lib.rs"
    );
    assert_eq!(
        format_location(Some(location2)),
        "<cargo>/tokio-1.0.1/src/lib.rs"
    );
    assert_eq!(
        format_location(Some(location3)),
        "C:/Users/user/projects/tokio-1.0.1/src/lib.rs"
    );
}

#[test]
fn location_shows_module_line_and_column() {
    let loc = Location {
        file: Some("src/main.rs".to_string()),
        module: Some("my_app::worker".to_string()),
        line: Some(42),
        column: Some(7),
    };
    assert_eq!(format_location(Some(loc)), "my_app::worker:42:7");
    let loc = Location {
        file: Some("src/main.rs".to_string()),
        module: None,
        line: Some(3),
        column: None,
    };
    assert_eq!(format_location(Some(loc)), "src/main.rs:3");
    let loc = Location {
        file: None,
        module: None,
        line: Some(3),
        column: Some(4),
    };
    assert_eq!(format_location(Some(loc)), "<unknown location>");
}

/// The same pattern that the registry-path shortening implements.
fn reference_truncate(s: &str) -> String {
    let re = regex::Regex::new(
        r".*(/|\\)\.cargo(/|\\)(registry(/|\\)src(/|\\)[^/\\]*(/|\\)|git(/|\\)checkouts(/|\\))",
    )
    .unwrap();
    re.replace(s, "<cargo>/").replace('\\', "/")
}

#[test]
fn registry_path_shortening_agrees_with_the_pattern() {
    let cases = [
        "",
        "plain",
        "/a/.cargo/registry/src/idx/x/.cargo/git/checkouts/y/z.rs",
        "/a/.cargo/git/checkouts/y\nb/.cargo/registry/src/i/c.rs",
        "first line\n/p/.cargo/registry/src/i/a/.cargo/git/checkouts/b",
        "/p/.cargo/registry/src/no-trailing-sep",
        "/p/.cargo/registry/src/\n/",
        "\\.cargo\\git\\checkouts\\",
        "x/.cargo/registry/src//y",
        "a\nb\nc/.cargo/git/checkouts/d\ne/.cargo/git/checkouts/f",
        "/.cargo/gitcheckouts/",
    ];
    for case in cases {
        assert_eq!(
            truncate_registry_path(case.to_string()),
            reference_truncate(case),
            "input: {:?}",
            case
        );
    }
}
