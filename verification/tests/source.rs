use tilemasker::index::ExistenceIndex;
use tilemasker::source::{
    join_path, local_resolution, remote_resolution, resolve, tile_file_name, ConfigError,
    Resolution, SourceConfig, REMOTE_TIMEOUT_SECS,
};

fn local(root: &str) -> SourceConfig {
    SourceConfig::LocalVolume { root: root.to_string() }
}

fn remote(base: &str) -> SourceConfig {
    SourceConfig::RemoteOrigin { base: base.to_string() }
}

fn index_of(paths: &[&str]) -> ExistenceIndex {
    let found: Vec<String> = paths.iter().map(|path| path.to_string()).collect();
    ExistenceIndex::build(1 << 16, 100, &found).unwrap()
}

#[test]
fn one_source_must_be_given() {
    assert!(matches!(SourceConfig::from_options(None, None), Err(ConfigError::NoSource)));
    assert!(matches!(
        SourceConfig::from_options(Some("/data".to_string()), Some("http://a/".to_string())),
        Err(ConfigError::TwoSources)
    ));
    assert!(matches!(
        SourceConfig::from_options(Some("/data".to_string()), None),
        Ok(SourceConfig::LocalVolume { root }) if root == "/data"
    ));
    assert!(matches!(
        SourceConfig::from_options(None, Some("http://a/".to_string())),
        Ok(SourceConfig::RemoteOrigin { base }) if base == "http://a/"
    ));
}

#[test]
fn config_errors_say_what_is_wrong() {
    assert_eq!(
        ConfigError::NoSource.message(),
        "One of --base-url or --volume must be provided"
    );
    assert_eq!(
        ConfigError::TwoSources.message(),
        "Only one of --base-url or --volume must be provided"
    );
}

#[test]
fn tile_file_name_adds_the_extension() {
    assert_eq!(tile_file_name("1/2/3"), "1/2/3.png");
    assert_eq!(tile_file_name(""), ".png");
    assert_eq!(tile_file_name("a.png"), "a.png.png");
}

#[test]
fn join_path_puts_one_separator_between() {
    assert_eq!(join_path("/data", "1/2/3.png"), "/data/1/2/3.png");
    assert_eq!(join_path("/data/", "1/2/3.png"), "/data/1/2/3.png");
    assert_eq!(join_path("data", "x.png"), "data/x.png");
    assert_eq!(join_path("/", "x.png"), "/x.png");
    assert_eq!(join_path("", "x.png"), "x.png");
    assert_eq!(join_path("/data", ""), "/data/");
    assert_eq!(join_path("", ""), "");
    assert_eq!(join_path("/d\u{e9}", "\u{e9}.png"), "/d\u{e9}/\u{e9}.png");
}

#[test]
fn join_path_lets_an_absolute_path_stand() {
    assert_eq!(join_path("/data", "/etc/x.png"), "/etc/x.png");
    assert_eq!(join_path("", "/x.png"), "/x.png");
}

#[test]
fn join_path_agrees_with_the_standard_library() {
    for (root, rel) in [
        ("/data", "1/2/3.png"),
        ("/data/", "1/2/3.png"),
        ("data", "x.png"),
        ("", "x.png"),
        ("/data", "/etc/x.png"),
        ("/data", ""),
        ("/data//", "a//b.png"),
    ] {
        let expected = std::path::Path::new(root).join(rel);
        assert_eq!(std::path::PathBuf::from(join_path(root, rel)), expected);
        assert_eq!(join_path(root, rel), expected.to_str().unwrap());
    }
}

#[test]
fn local_tile_in_the_index_is_read() {
    let index = index_of(&["/data/1/2/3.png"]);
    assert!(matches!(
        resolve(&local("/data"), &index, "1/2/3"),
        Resolution::ReadFile { path } if path == "/data/1/2/3.png"
    ));
    assert!(matches!(
        resolve(&local("/data/"), &index, "1/2/3"),
        Resolution::ReadFile { path } if path == "/data/1/2/3.png"
    ));
}

#[test]
fn local_tile_absent_from_the_index_is_not_found() {
    let index = index_of(&["/data/1/2/3.png"]);
    assert!(matches!(resolve(&local("/data"), &index, "1/2/4"), Resolution::NotFound));
    assert!(matches!(resolve(&local("/data"), &index, "1/2/3.png"), Resolution::NotFound));
    assert!(matches!(resolve(&local("/other"), &index, "1/2/3"), Resolution::NotFound));
    assert!(matches!(resolve(&local("/data"), &index_of(&[]), "1/2/3"), Resolution::NotFound));
}

#[test]
fn local_resolution_follows_the_index() {
    assert!(matches!(
        local_resolution("/data/1.png".to_string(), true),
        Resolution::ReadFile { path } if path == "/data/1.png"
    ));
    assert!(matches!(local_resolution("/data/1.png".to_string(), false), Resolution::NotFound));
}

#[test]
fn remote_tile_is_fetched_within_bounds() {
    let index = index_of(&[]);
    match resolve(&remote("https://example.net/tiles/"), &index, "1/2/3") {
        Resolution::HttpGet { url, timeout_secs, max_bytes } => {
            assert_eq!(url, "https://example.net/tiles/1/2/3.png");
            assert_eq!(timeout_secs, 30);
            assert_eq!(max_bytes, 10_485_760);
        }
        _ => panic!("a GET was expected"),
    }
    assert_eq!(REMOTE_TIMEOUT_SECS, 30);
}

#[test]
fn remote_tile_is_resolved_against_the_base() {
    let index = index_of(&[]);
    assert!(matches!(
        resolve(&remote("https://example.net/a/b"), &index, "c"),
        Resolution::HttpGet { url, .. } if url == "https://example.net/a/c.png"
    ));
    assert!(matches!(
        resolve(&remote("https://example.net/a/b/"), &index, "/v1/c"),
        Resolution::HttpGet { url, .. } if url == "https://example.net/v1/c.png"
    ));
    assert!(matches!(
        resolve(&remote("HTTP://Example.NET"), &index, "x y"),
        Resolution::HttpGet { url, .. } if url == "http://example.net/x%20y.png"
    ));
}

#[test]
fn remote_tile_without_a_url_is_not_found() {
    let index = index_of(&[]);
    assert!(matches!(resolve(&remote("not a url"), &index, "1/2/3"), Resolution::NotFound));
    assert!(matches!(resolve(&remote(""), &index, "1/2/3"), Resolution::NotFound));
    assert!(matches!(
        resolve(&remote("mailto:someone@example.net"), &index, "1/2/3"),
        Resolution::NotFound
    ));
}

#[test]
fn remote_resolution_sets_the_bounds() {
    assert!(matches!(remote_resolution(None), Resolution::NotFound));
    assert!(matches!(
        remote_resolution(Some("http://a/1.png".to_string())),
        Resolution::HttpGet { url, timeout_secs: 30, max_bytes: 10_485_760 } if url == "http://a/1.png"
    ));
}
