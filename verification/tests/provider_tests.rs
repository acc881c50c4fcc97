use annil_server::error::ProviderError;
use annil_server::provider::{
    album_from_href, assemble_audio_info, audio_file_path, audio_path, cover_path,
    cover_stream_plan, redirects_to_url, to_io_error, BackendKind, SeafileConfig,
};

#[test]
fn audio_paths() {
    assert_eq!(audio_path("album-id", 1, 2), "album-id/1/2");
    assert_eq!(audio_path("a", 255, 10), "a/255/10");
    assert_eq!(audio_file_path("album-id", 1, 2), "album-id/1/2.flac");
}

#[test]
fn cover_paths_default_disc_to_one() {
    assert_eq!(cover_path("alb", Some(3)), "alb/3/cover.jpg");
    assert_eq!(cover_path("alb", None), "alb/1/cover.jpg");
}

#[test]
fn seafile_request_urls() {
    let cfg = SeafileConfig::new(
        String::from("tok"),
        String::from("https://sea.example"),
        String::from("repo-1"),
    );
    assert_eq!(
        cfg.dir_list_url(),
        "https://sea.example/api2/repos/repo-1/dir/?t=d"
    );
    assert_eq!(
        cfg.file_link_url(&audio_file_path("alb", 1, 3)),
        "https://sea.example/api2/repos/repo-1/file/?p=alb/1/3.flac&reuse=1"
    );
    assert_eq!(cfg.auth_header(), "Token tok");
}

#[test]
fn reload_keeps_the_snapshot() {
    let mut cfg = SeafileConfig::new(
        String::from("tok"),
        String::from("base"),
        String::from("repo"),
    );
    assert_eq!(cfg.reload(), Ok(()));
    assert_eq!(cfg.reload(), Ok(()));
    assert_eq!(cfg.token, "tok");
    assert_eq!(cfg.base, "base");
    assert_eq!(cfg.repo_id, "repo");
}

#[test]
fn album_identifiers_from_listing_hrefs() {
    assert_eq!(album_from_href("/music/album-1/"), Some(String::from("album-1")));
    assert_eq!(album_from_href("/music/album-1"), Some(String::from("album-1")));
    assert_eq!(album_from_href("a/b///"), Some(String::from("b")));
    assert_eq!(album_from_href("top-level"), None);
    assert_eq!(album_from_href("/"), None);
    assert_eq!(album_from_href(""), None);
    // A root-anchored single segment still has a separator in front.
    assert_eq!(album_from_href("/abc/"), Some(String::from("abc")));
}

#[test]
fn cover_streaming_is_unsupported_on_both_variants() {
    assert_eq!(
        cover_stream_plan(BackendKind::Proxying),
        Err(ProviderError::Unsupported)
    );
    assert_eq!(
        cover_stream_plan(BackendKind::Redirecting),
        Err(ProviderError::Unsupported)
    );
}

#[test]
fn redirect_probe() {
    assert!(redirects_to_url(BackendKind::Redirecting));
    assert!(!redirects_to_url(BackendKind::Proxying));
}

#[test]
fn audio_info_assembly() {
    let info = assemble_audio_info(1234, 10);
    assert_eq!(info.extension, "flac");
    assert_eq!(info.size, 1234);
    assert_eq!(info.duration, 10);
}

#[test]
fn error_messages() {
    assert_eq!(ProviderError::TransportError.message(), "transport error");
    assert_eq!(ProviderError::NotFound.message(), "resource not found");
    assert_eq!(ProviderError::Unsupported.message(), "operation not supported");
    assert_eq!(ProviderError::Corrupt.message(), "corrupt metadata header");
    assert_eq!(ProviderError::GeneralError.message(), "an error occurred");
}

#[test]
fn io_error_conversion_keeps_ok_values() {
    let ok: Result<u32, reqwest_dav::re_exports::reqwest::Error> = Ok(7);
    assert_eq!(to_io_error(ok).unwrap(), 7);
}
