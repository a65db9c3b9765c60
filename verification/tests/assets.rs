use w2m::assets::{asset_map_from_outcomes, download_plan, guess_filename, local_asset_path, sanitize};
use w2m::web_url::WebUrl;

fn url(s: &str) -> WebUrl {
    WebUrl::parse(s).unwrap()
}

#[test]
fn filename_keeps_extension() {
    let u = url("https://x/y/foo.png");
    assert_eq!(guess_filename(&u, 0), "0-foo.png");
}

#[test]
fn filename_falls_back_when_no_extension() {
    let u = url("https://x/y/");
    assert_eq!(guess_filename(&u, 3), "image-3.bin");
}

#[test]
fn filename_sanitizes_unsafe_chars() {
    let u = url("https://x/a%20b!c.png");
    let f = guess_filename(&u, 0);
    assert!(f.ends_with(".png"));
    assert!(!f.contains('!'));
}

#[test]
fn filename_uses_only_the_last_segment() {
    let u = url("https://cdn.example.org/img/2024/photo.final.jpeg?w=200");
    assert_eq!(guess_filename(&u, 12), "12-photo.final.jpeg");
}

#[test]
fn filename_without_dot_falls_back() {
    let u = url("https://x/images/raw");
    assert_eq!(guess_filename(&u, 7), "image-7.bin");
}

#[test]
fn filename_of_root_path_falls_back() {
    let u = url("https://x");
    assert_eq!(guess_filename(&u, 0), "image-0.bin");
}

#[test]
fn filename_of_cannot_be_a_base_url_falls_back() {
    let u = url("data:image/png;base64,AAAA.png");
    assert_eq!(guess_filename(&u, 5), "image-5.bin");
}

#[test]
fn sanitize_replaces_each_unsafe_char() {
    assert_eq!(sanitize("a b/c?d.e-f_g"), "a_b_c_d.e-f_g");
    assert_eq!(sanitize("été"), "_t_");
    assert_eq!(sanitize(""), "");
}

#[test]
fn local_path_is_under_assets() {
    assert_eq!(local_asset_path("0-foo.png"), "assets/0-foo.png");
}

#[test]
fn download_failures_are_skipped_in_the_map() {
    let plan = vec![
        ("https://x/a.png".to_string(), "0-a.png".to_string()),
        ("https://x/missing".to_string(), "image-1.bin".to_string()),
        ("https://x/b.jpg".to_string(), "2-b.jpg".to_string()),
    ];
    let map = asset_map_from_outcomes(&plan, &vec![true, false, true]);
    assert_eq!(map.len(), 2);
    assert_eq!(map.get("https://x/a.png").map(|s| s.as_str()), Some("assets/0-a.png"));
    assert_eq!(map.get("https://x/b.jpg").map(|s| s.as_str()), Some("assets/2-b.jpg"));
    assert!(map.get("https://x/missing").is_none());
}

#[test]
fn all_failures_give_an_empty_map() {
    let plan = vec![("https://x/missing".to_string(), "image-0.bin".to_string())];
    let map = asset_map_from_outcomes(&plan, &vec![false]);
    assert!(map.is_empty());
}

#[test]
fn download_plan_names_each_image() {
    let urls = vec![url("https://x/y/foo.png"), url("https://x/y/")];
    let plan = download_plan(&urls);
    assert_eq!(plan.len(), 2);
    assert_eq!(plan[0], ("https://x/y/foo.png".to_string(), "0-foo.png".to_string()));
    assert_eq!(plan[1], ("https://x/y/".to_string(), "image-1.bin".to_string()));
}

#[test]
fn filenames_differ_across_indices() {
    let a = url("https://x/1-foo.png");
    let b = url("https://x/foo.png");
    assert_ne!(guess_filename(&a, 0), guess_filename(&b, 1));
    assert_ne!(guess_filename(&url("https://x/"), 1), guess_filename(&url("https://x/"), 11));
}
