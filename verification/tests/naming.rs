use celily::naming::{bridge_name, instance_name, sanitized_image_prefix};

const U: u128 = 0xdeadbeef_1234_5678_9abc_def012345678;

#[test]
fn instance_name_truncates_uuid() {
    let name = instance_name("/tmp/x", "/home/user", "img", U);
    assert!(name.ends_with("-deadbeef"), "got: {name}");
}

#[test]
fn bridge_name_truncates_uuid() {
    let name = bridge_name("myimage", U);
    assert_eq!(name, "myimag-deadbeef");
}

#[test]
fn instance_name_format() {
    let name = instance_name("/home/user/projects/celily", "/home/user", "celily", U);
    assert!(name.starts_with("celily-"), "starts with celily-: {name}");
    assert!(name.len() >= 13, "min length: {name}");
    let parts: Vec<&str> = name.split('-').collect();
    assert!(parts.len() >= 3, "at least 3 parts: {name}");
    let uuid_part = parts.last().unwrap();
    assert_eq!(uuid_part.len(), 8, "uuid part len: {name}");
    assert!(uuid_part.chars().all(|c| c.is_ascii_hexdigit()), "uuid hex: {name}");
}

#[test]
fn instance_name_under_63_chars() {
    let name = instance_name("/home/user/short", "/home/user", "images:ubuntu/24.04", U);
    assert!(name.len() <= 63, "name is {} chars: {name}", name.len());
    assert!(name.starts_with("2404-"), "starts with 2404-: {name}");
}

#[test]
fn instance_name_long_path_truncated() {
    let long_segment = "a".repeat(80);
    let cwd = format!("/home/user/{long_segment}");
    let name = instance_name(&cwd, "/home/user", "pi", U);
    assert!(name.len() <= 63, "name is {} chars: {name}", name.len());
}

#[test]
fn instance_name_image_prefix() {
    let name = instance_name(
        "/home/user/projects/celily",
        "/home/user",
        "images:archlinux/current/default",
        U,
    );
    assert!(name.starts_with("default-"), "got name: {name}");
}

#[test]
fn instance_name_outside_home() {
    let name = instance_name("/tmp/build", "/home/user", "celily", U);
    assert!(name.starts_with("celily-"));
    assert!(name.len() <= 63);
}

#[test]
fn bridge_name_length() {
    let name = bridge_name("images:archlinux/current/default", U);
    assert_eq!(name.len(), 15, "bridge name is {} chars: {name}", name.len());
    assert_eq!(name, "defaul-deadbeef");
}

#[test]
fn bridge_name_from_short_image() {
    let name = bridge_name("celily", U);
    assert!(name.len() <= 15);
    assert_eq!(name, "celily-deadbeef");
}

#[test]
fn sanitized_image_prefix_basic() {
    assert_eq!(sanitized_image_prefix("celily"), "celily");
    assert_eq!(sanitized_image_prefix("images:ubuntu/22.04"), "2204");
    assert_eq!(sanitized_image_prefix("images:archlinux/current/default"), "default");
}

#[test]
fn sanitized_image_prefix_empty_fallback() {
    assert_eq!(sanitized_image_prefix("://"), "inst");
}

#[test]
fn sanitized_image_prefix_long() {
    let very_long = format!("images:{}", "a".repeat(100));
    let prefix = sanitized_image_prefix(&very_long);
    assert_eq!(prefix.len(), 20);
}

#[test]
fn instance_name_exact_text() {
    assert_eq!(
        instance_name("/home/user/projects/celily", "/home/user", "celily", U),
        "celily-home-projects-celily-deadbeef"
    );
    assert_eq!(instance_name("/tmp/build", "/home/user", "celily", U), "celily-tmp-build-deadbeef");
}

#[test]
fn names_stay_within_lxd_limits() {
    for img in ["", "x", "images:ubuntu/24.04", &"b".repeat(90)] {
        for cwd in ["/", "/home/user", &format!("/home/user/{}", "c-".repeat(60))] {
            let n = instance_name(cwd, "/home/user", img, u128::MAX);
            assert!(n.len() <= 63, "{n}");
            let b = bridge_name(img, 0);
            assert!(b.len() <= 15, "{b}");
        }
    }
}
