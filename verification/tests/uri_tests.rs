use hls2mp4::{
    base_directory, referer_for, resolve_segment_uris, resolve_uri, PipelineError, Segment,
};

fn seg(uri: &str) -> Segment {
    Segment { uri: uri.to_string(), key: None }
}

#[test]
fn base_directory_strips_query_and_file_name() {
    assert_eq!(
        base_directory("https://example.com/a/b/index.m3u8?token=1&x=2"),
        Ok(Some("https://example.com/a/b/".to_string()))
    );
    assert_eq!(
        base_directory("http://example.com/index.m3u8"),
        Ok(Some("http://example.com/".to_string()))
    );
    assert_eq!(
        base_directory("https://example.com/live/"),
        Ok(Some("https://example.com/live/".to_string()))
    );
}

#[test]
fn base_directory_of_bare_host() {
    assert_eq!(base_directory("https://example.com"), Ok(Some("https://example.com/".to_string())));
}

#[test]
fn base_directory_of_local_path_is_none() {
    assert_eq!(base_directory("playlist.m3u8"), Ok(None));
    assert_eq!(base_directory("/tmp/htt/list.m3u8"), Ok(None));
    assert_eq!(base_directory(""), Ok(None));
    assert_eq!(base_directory("htt"), Ok(None));
}

#[test]
fn base_directory_rejects_bad_network_location() {
    assert_eq!(base_directory("http://"), Err(PipelineError::InvalidUri));
    assert_eq!(base_directory("httpfoo"), Err(PipelineError::InvalidUri));
}

#[test]
fn resolve_relative_against_base() {
    let base = Some("https://example.com/a/b/");
    assert_eq!(resolve_uri(base, "seg0.ts"), Ok("https://example.com/a/b/seg0.ts".to_string()));
    assert_eq!(resolve_uri(base, "../c/seg.ts"), Ok("https://example.com/a/c/seg.ts".to_string()));
    assert_eq!(resolve_uri(base, "/root.ts"), Ok("https://example.com/root.ts".to_string()));
}

#[test]
fn resolve_absolute_ignores_base() {
    let base = Some("https://example.com/a/b/");
    assert_eq!(
        resolve_uri(base, "https://cdn.example.org/x/seg.ts"),
        Ok("https://cdn.example.org/x/seg.ts".to_string())
    );
}

#[test]
fn resolve_without_base() {
    assert_eq!(resolve_uri(None, "seg0.ts"), Err(PipelineError::MissingBaseUrl));
    assert_eq!(resolve_uri(None, "../seg0.ts"), Err(PipelineError::MissingBaseUrl));
    assert_eq!(
        resolve_uri(None, "https://example.com/seg0.ts"),
        Ok("https://example.com/seg0.ts".to_string())
    );
    assert_eq!(resolve_uri(None, "http://[bad"), Err(PipelineError::InvalidUri));
}

#[test]
fn resolve_with_unusable_base() {
    assert_eq!(resolve_uri(Some("not a url"), "seg0.ts"), Err(PipelineError::InvalidUri));
    assert_eq!(
        resolve_uri(Some("https://example.com/"), "http://[bad"),
        Err(PipelineError::InvalidUri)
    );
}

#[test]
fn resolve_all_segments_in_order() {
    let segments = vec![seg("a.ts"), seg("sub/b.ts"), seg("https://other.example.com/c.ts")];
    assert_eq!(
        resolve_segment_uris(Some("https://example.com/v/"), &segments),
        Ok(vec![
            "https://example.com/v/a.ts".to_string(),
            "https://example.com/v/sub/b.ts".to_string(),
            "https://other.example.com/c.ts".to_string(),
        ])
    );
    assert_eq!(resolve_segment_uris(Some("https://example.com/v/"), &[]), Ok(Vec::new()));
}

#[test]
fn resolve_all_reports_first_error() {
    let segments = vec![seg("https://example.com/a.ts"), seg("b.ts"), seg("http://[bad")];
    assert_eq!(resolve_segment_uris(None, &segments), Err(PipelineError::MissingBaseUrl));
    let segments = vec![seg("https://example.com/a.ts"), seg("http://[bad"), seg("b.ts")];
    assert_eq!(resolve_segment_uris(None, &segments), Err(PipelineError::InvalidUri));
}

#[test]
fn referer_comes_from_domain() {
    assert_eq!(
        referer_for("https://media.example.com/a/b.m3u8?x=1"),
        Some("https://media.example.com/".to_string())
    );
    assert_eq!(referer_for("http://example.com:8080/key"), Some("https://example.com/".to_string()));
    assert_eq!(referer_for("http://127.0.0.1/key"), None);
    assert_eq!(referer_for("no url"), None);
}

#[test]
fn resolve_without_base_normalizes_the_location() {
    assert_eq!(
        resolve_uri(None, "HTTPS://Example.COM/a/../b/seg.ts"),
        Ok("https://example.com/b/seg.ts".to_string())
    );
    assert_eq!(resolve_uri(None, "http://example.com"), Ok("http://example.com/".to_string()));
}

#[test]
fn base_directory_keeps_what_follows_the_host() {
    assert_eq!(
        base_directory("HTTP://Example.com:8080/a/b/c.m3u8?x=1"),
        Ok(None)
    );
    assert_eq!(
        base_directory("http://Example.com:8080/a/b/c.m3u8?x=1"),
        Ok(Some("http://example.com:8080/a/b/".to_string()))
    );
}

#[test]
fn base_directory_leaves_the_fragment() {
    assert_eq!(
        base_directory("https://example.com/a/b.m3u8?x=1#part"),
        Ok(Some("https://example.com/a/#part".to_string()))
    );
    assert_eq!(
        resolve_uri(Some("https://example.com/a/#part"), "seg.ts"),
        Ok("https://example.com/a/seg.ts".to_string())
    );
}
