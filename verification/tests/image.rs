use aerie::image::{
    DEFAULT_MAX_IMAGE_DIM, DataUrlError, ImageFetch, ImageResolver, ShrinkPlan, data_uri,
    local_path, parse_data_url,
};

#[test]
fn parses_image_data_url() {
    let (bytes, mime) = parse_data_url("data:image/png;base64,SGVsbG8=").unwrap();
    assert_eq!(bytes, b"Hello".to_vec());
    assert_eq!(mime, "image/png");
}

#[test]
fn rejects_what_is_no_image_data_url() {
    assert_eq!(parse_data_url("https://example.com/a.png"), Err(DataUrlError::NotDataUrl));
    assert_eq!(parse_data_url("data:text/plain;base64,SGVsbG8="), Err(DataUrlError::NotDataUrl));
    assert_eq!(parse_data_url("data:image/;base64,SGVsbG8="), Err(DataUrlError::NotDataUrl));
    assert_eq!(parse_data_url("data:image/png;base64,SGVs bG8="), Err(DataUrlError::NotDataUrl));
    assert_eq!(parse_data_url("data:image/png;base64,SGVsbG8===="), Err(DataUrlError::NotDataUrl));
    assert_eq!(parse_data_url("data:image/png;utf8,SGVsbG8="), Err(DataUrlError::NotDataUrl));
}

#[test]
fn reports_bad_base64() {
    assert_eq!(parse_data_url("data:image/png;base64,SGVsbG8"), Err(DataUrlError::InvalidBase64));
    assert_eq!(parse_data_url("data:image/png;base64,-abc"), Err(DataUrlError::InvalidBase64));
}

#[test]
fn builds_data_uri() {
    assert_eq!(data_uri("image/jpeg", b"Hello"), "data:image/jpeg;base64,SGVsbG8=");
    assert_eq!(data_uri("", b""), "data:;base64,");
}

#[test]
fn data_uri_reads_back() {
    let bytes: Vec<u8> = (0u8..=255).collect();
    for mime in ["image/png", "image/jpeg", "image/webp", "image/gif"] {
        let uri = data_uri(mime, &bytes);
        assert_eq!(parse_data_url(&uri), Ok((bytes.clone(), mime.to_string())));
    }
    let one = data_uri("image/x_y", &[7]);
    assert_eq!(parse_data_url(&one), Ok((vec![7], "image/x_y".to_string())));
}

#[test]
fn local_path_strips_file_scheme() {
    assert_eq!(local_path("file:///tmp/cat.png"), "/tmp/cat.png");
    assert_eq!(local_path("/tmp/cat.png"), "/tmp/cat.png");
}

#[test]
fn default_resolver() {
    let r = ImageResolver::default();
    assert!(!r.allow_local);
    assert_eq!(r.max_size, Some((DEFAULT_MAX_IMAGE_DIM, DEFAULT_MAX_IMAGE_DIM)));
    assert_eq!(DEFAULT_MAX_IMAGE_DIM, 512);
    let local = ImageResolver::with_max_dim(true, 256);
    assert!(local.allow_local);
    assert_eq!(local.max_size, Some((256, 256)));
}

#[test]
fn fetch_plan_prefers_local_then_data_then_download() {
    let local = ImageResolver::with_max_dim(true, 512);
    let remote = ImageResolver::default();
    assert_eq!(
        local.fetch_plan("file:///tmp/cat.png", true),
        ImageFetch::ReadFile("file:///tmp/cat.png".to_string())
    );
    assert_eq!(
        remote.fetch_plan("/tmp/cat.png", true),
        ImageFetch::Download("/tmp/cat.png".to_string())
    );
    assert_eq!(
        local.fetch_plan("data:image/gif;base64,AAEC", false),
        ImageFetch::Inline(vec![0, 1, 2], "image/gif".to_string())
    );
    assert_eq!(
        remote.fetch_plan("https://example.com/cat.png", false),
        ImageFetch::Download("https://example.com/cat.png".to_string())
    );
}

#[test]
fn shrink_plan() {
    let r = ImageResolver::default();
    assert_eq!(r.shrink_plan(1024, 100, false), ShrinkPlan::Resize { width: 512, height: 512 });
    assert_eq!(r.shrink_plan(100, 513, true), ShrinkPlan::Resize { width: 512, height: 512 });
    assert_eq!(r.shrink_plan(512, 512, true), ShrinkPlan::Keep);
    assert_eq!(r.shrink_plan(512, 512, false), ShrinkPlan::Reencode);
    let unbounded = ImageResolver { allow_local: false, max_size: None };
    assert_eq!(unbounded.shrink_plan(9000, 9000, false), ShrinkPlan::Keep);
}
