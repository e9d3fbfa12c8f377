use topcoat::router::file_router::FileRouter;
use topcoat::router::router::{FilePage, HandlerId};
use topcoat::router::segment::{Segment, SegmentKind};

fn router(root: &'static str) -> FileRouter {
    FileRouter::new(root)
}

fn seg(file: &'static str, kind: Option<SegmentKind>, rename: Option<&'static str>) -> Segment {
    Segment::new(file, kind, rename)
}

#[test]
fn strip_rs_extension() {
    assert_eq!(
        FileRouter::strip_module_suffix("src/app/about.rs"),
        "src/app/about"
    );
}

#[test]
fn strip_mod_rs() {
    assert_eq!(FileRouter::strip_module_suffix("src/app/mod.rs"), "src/app");
}

#[test]
fn strip_mod_unix() {
    assert_eq!(FileRouter::strip_module_suffix("src/app/mod"), "src/app");
}

#[test]
fn strip_mod_windows() {
    assert_eq!(FileRouter::strip_module_suffix("src\\app\\mod"), "src\\app");
}

#[test]
fn strip_no_suffix() {
    assert_eq!(FileRouter::strip_module_suffix("src/app"), "src/app");
}

#[test]
fn root_page() {
    let r = router("src/app/mod.rs");
    assert_eq!(r.file_to_path("src/app/mod.rs").to_string(), "");
}

#[test]
fn simple_page() {
    let r = router("src/app/mod.rs");
    assert_eq!(r.file_to_path("src/app/about.rs").to_string(), "/about");
}

#[test]
fn nested_page() {
    let r = router("src/app/mod.rs");
    assert_eq!(
        r.file_to_path("src/app/settings/profile.rs").to_string(),
        "/settings/profile"
    );
}

#[test]
fn nested_mod() {
    let r = router("src/app/mod.rs");
    assert_eq!(
        r.file_to_path("src/app/settings/mod.rs").to_string(),
        "/settings"
    );
}

#[test]
fn static_segment_is_kebab_cased() {
    let r = router("src/app/mod.rs");
    assert_eq!(r.file_to_path("src/app/my_page.rs").to_string(), "/my-page");
}

#[test]
fn nested_static_segments_are_kebab_cased() {
    let r = router("src/app/mod.rs");
    assert_eq!(
        r.file_to_path("src/app/user_settings/change_password.rs")
            .to_string(),
        "/user-settings/change-password"
    );
}

#[test]
fn group_segment() {
    let r = router("src/app/mod.rs");
    assert_eq!(
        r.file_to_path("src/app/_group/contact.rs").to_string(),
        "/(_group)/contact"
    );
}

#[test]
fn group_mod() {
    let r = router("src/app/mod.rs");
    assert_eq!(
        r.file_to_path("src/app/_group/mod.rs").to_string(),
        "/(_group)"
    );
}

#[test]
fn nested_groups() {
    let r = router("src/app/mod.rs");
    assert_eq!(
        r.file_to_path("src/app/_auth/_admin/dashboard.rs")
            .to_string(),
        "/(_auth)/(_admin)/dashboard"
    );
}

#[test]
fn override_static_to_param() {
    let r = router("src/app/mod.rs").segment(seg(
        "src/app/user_id.rs",
        Some(SegmentKind::Param),
        None,
    ));
    assert_eq!(
        r.file_to_path("src/app/user_id.rs").to_string(),
        "/{user_id}"
    );
}

#[test]
fn override_static_to_catch_all() {
    let r = router("src/app/mod.rs").segment(seg(
        "src/app/rest.rs",
        Some(SegmentKind::CatchAll),
        None,
    ));
    assert_eq!(r.file_to_path("src/app/rest.rs").to_string(), "/{*rest}");
}

#[test]
fn override_group_to_static() {
    let r = router("src/app/mod.rs").segment(seg(
        "src/app/_internal/mod.rs",
        Some(SegmentKind::Static),
        None,
    ));
    // Overridden to static, so kebab-case is applied to the "_internal" name.
    assert_eq!(
        r.file_to_path("src/app/_internal/page.rs").to_string(),
        "/internal/page"
    );
}

#[test]
fn rename_segment() {
    let r = router("src/app/mod.rs").segment(seg("src/app/blog_post.rs", None, Some("posts")));
    assert_eq!(r.file_to_path("src/app/blog_post.rs").to_string(), "/posts");
}

#[test]
fn rename_and_kind_override() {
    let r = router("src/app/mod.rs").segment(seg(
        "src/app/slug.rs",
        Some(SegmentKind::Param),
        Some("id"),
    ));
    assert_eq!(r.file_to_path("src/app/slug.rs").to_string(), "/{id}");
}

#[test]
fn param_in_nested_path() {
    let r = router("src/app/mod.rs").segment(seg(
        "src/app/users/id/mod.rs",
        Some(SegmentKind::Param),
        None,
    ));
    assert_eq!(
        r.file_to_path("src/app/users/id/mod.rs").to_string(),
        "/users/{id}"
    );
    assert_eq!(
        r.file_to_path("src/app/users/id/settings.rs").to_string(),
        "/users/{id}/settings"
    );
}

#[test]
fn catch_all_nested() {
    let r = router("src/app/mod.rs").segment(seg(
        "src/app/docs/path/mod.rs",
        Some(SegmentKind::CatchAll),
        None,
    ));
    assert_eq!(
        r.file_to_path("src/app/docs/path/mod.rs").to_string(),
        "/docs/{*path}"
    );
}

#[test]
fn multiple_segments() {
    let r = router("src/app/mod.rs")
        .segment(seg(
            "src/app/users/id/mod.rs",
            Some(SegmentKind::Param),
            None,
        ))
        .segment(seg(
            "src/app/users/id/posts/post_id.rs",
            Some(SegmentKind::Param),
            None,
        ));
    assert_eq!(
        r.file_to_path("src/app/users/id/posts/post_id.rs")
            .to_string(),
        "/users/{id}/posts/{post_id}"
    );
}

#[test]
fn windows_separator() {
    let r = router("src\\app\\mod.rs");
    assert_eq!(r.file_to_path("src\\app\\about.rs").to_string(), "/about");
}

#[test]
fn page_registers_route_path_of_its_module() {
    let r = router("src/app/mod.rs").page(FilePage::new("src/app/my_page.rs", HandlerId(7)));
    let table = r.into_router();
    assert!(!table.is_empty());
}

#[test]
fn root_module_file_beside_its_folder() {
    let r = router("src/app.rs");
    assert!(r.can_route("src/app.rs"));
    assert_eq!(r.file_to_path("src/app.rs").to_string(), "");
    assert!(r.can_route("src/app/about_us.rs"));
    assert_eq!(r.file_to_path("src/app/about_us.rs").to_string(), "/about-us");
}

#[test]
fn file_sharing_the_root_prefix() {
    let r = router("src/app/mod.rs");
    assert!(r.covers("src/apple.rs"));
    assert!(r.can_route("src/apple.rs"));
    assert_eq!(r.file_to_path("src/apple.rs").to_string(), "");
    assert!(r.can_route("src/apple/x.rs"));
    assert_eq!(r.file_to_path("src/apple/x.rs").to_string(), "/x");
    assert!(!r.covers("lib/app.rs"));
    assert!(!r.can_route("lib/app.rs"));
}

#[test]
fn key_cut_inside_a_character_is_refused() {
    // The first name's two bytes shift the key of `x` to end inside `é`.
    let r = router("src/app/mod.rs");
    assert!(!r.can_route("src/appé/éx.rs"));
}
