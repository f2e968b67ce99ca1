use webdesk::icons::{
    absolutize_url, icon_needs_download, icon_url_from_match, looks_like_svg, origin, page_icon_url, png_to_ico,
    points_at_icon_file, safe_filename, to_ico,
};

fn png(width: u32, height: u32) -> Vec<u8> {
    let mut v = b"\x89PNG\r\n\x1a\n".to_vec();
    v.extend_from_slice(&[0, 0, 0, 13, b'I', b'H', b'D', b'R']);
    v.extend_from_slice(&width.to_be_bytes());
    v.extend_from_slice(&height.to_be_bytes());
    v.extend_from_slice(&[8, 6, 0, 0, 0]);
    v
}

#[test]
fn png_to_ico_wraps_with_header() {
    let p = png(32, 300);
    let ico = png_to_ico(&p).unwrap();
    assert_eq!(&ico[0..6], &[0, 0, 1, 0, 1, 0]);
    assert_eq!(ico[6], 32);
    assert_eq!(ico[7], 0);
    assert_eq!(&ico[8..12], &[0, 0, 1, 0]);
    assert_eq!(&ico[12..14], &[32, 0]);
    assert_eq!(&ico[14..18], &(p.len() as u32).to_le_bytes());
    assert_eq!(&ico[18..22], &[22, 0, 0, 0]);
    assert_eq!(&ico[22..], &p[..]);
}

#[test]
fn png_to_ico_refuses_other_bytes() {
    assert!(png_to_ico(b"GIF89a not a png at all....").is_none());
    assert!(png_to_ico(&png(1, 1)[..20]).is_none());
}

#[test]
fn to_ico_keeps_ico_and_wraps_png() {
    let ico = png_to_ico(&png(16, 16)).unwrap();
    assert_eq!(to_ico(&ico, |_b: &[u8]| None), Some(ico.clone()));
    assert_eq!(to_ico(&png(16, 16), |_b: &[u8]| None), Some(ico));
}

#[test]
fn to_ico_renders_svg() {
    let svg = b"  <SVG xmlns='http://www.w3.org/2000/svg'></svg>";
    assert!(looks_like_svg(svg));
    let rendered = png(48, 48);
    let r = rendered.clone();
    let out = to_ico(svg, move |_b: &[u8]| Some(r.clone())).unwrap();
    assert_eq!(out, png_to_ico(&rendered).unwrap());
    assert!(to_ico(svg, |_b: &[u8]| None).is_none());
}

#[test]
fn safe_filename_rules() {
    assert_eq!(safe_filename("https://x.com/a/icon.png?v=2"), "icon.png");
    assert_eq!(safe_filename("https://x.com/"), "favicon.ico");
    assert_eq!(safe_filename("https://x.com/path/noext"), "favicon.ico");
    assert_eq!(safe_filename("https://x.com/a/i<c>on.ico"), "icon.ico");
}

#[test]
fn icon_url_detection() {
    assert!(points_at_icon_file("https://x.com/FAVICON.ICO"));
    assert!(points_at_icon_file("https://x.com/a.png?x=1"));
    assert!(!points_at_icon_file("https://x.com/page"));
    assert!(icon_needs_download("https://x.com/a.png"));
    assert!(icon_needs_download("http://x.com/a.png"));
    assert!(!icon_needs_download("C:/icons/a.ico"));
}

#[test]
fn origin_and_absolutize() {
    assert_eq!(origin("https://x.com:8080/a/b"), "https://x.com:8080");
    assert_eq!(origin("no-scheme"), "no-scheme");
    assert_eq!(absolutize_url("https://x.com/a/", "//cdn.com/i.png"), "https://cdn.com/i.png");
    assert_eq!(absolutize_url("https://x.com/a/", "http://y.com/i.png"), "http://y.com/i.png");
    assert_eq!(absolutize_url("https://x.com/a/b", "/i.png"), "https://x.com/i.png");
    assert_eq!(absolutize_url("https://x.com/a/page.html", "icon.png"), "https://x.com/a/icon.png");
    assert_eq!(absolutize_url("https://x.com/a/", "i.png"), "https://x.com/a/i.png");
    assert_eq!(absolutize_url("https://x.com", "i.png"), "https://x.com/i.png");
    assert_eq!(absolutize_url("https://x.com/a/p?next=/b/c", "i.png"), "https://x.com/a/i.png");
    assert_eq!(absolutize_url("https://x.com/a/page.html", "//cdn.x/i.ico"), "https://cdn.x/i.ico");
    assert_eq!(absolutize_url("https://x.com/a/page.html", "/f.ico"), "https://x.com/f.ico");
}

#[test]
fn page_icon_from_html() {
    let html = r#"<html><head><link rel="shortcut icon" href="/static/fav.png"></head></html>"#;
    assert_eq!(
        page_icon_url("https://x.com/app", html),
        Some("https://x.com/static/fav.png".to_string())
    );
    assert_eq!(
        page_icon_url("https://x.com/app", "<html></html>"),
        Some("https://x.com/favicon.ico".to_string())
    );
}

#[test]
fn icon_url_from_pattern_result() {
    assert_eq!(icon_url_from_match("https://x.com/a", None), None);
    assert_eq!(
        icon_url_from_match("https://x.com/a", Some(None)),
        Some("https://x.com/favicon.ico".to_string())
    );
    assert_eq!(
        icon_url_from_match("https://x.com/a", Some(Some(String::new()))),
        Some("https://x.com/favicon.ico".to_string())
    );
    assert_eq!(
        icon_url_from_match("https://x.com/a/", Some(Some("i.png".to_string()))),
        Some("https://x.com/a/i.png".to_string())
    );
}
