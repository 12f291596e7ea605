use static_runtime::addon::package::{common_root, first_component_of, install_path, manifest_entry, strip_root};
use std::path::{Path, PathBuf};

fn names(v: &[&str]) -> Vec<String> {
    v.iter().map(|s| s.to_string()).collect()
}

#[test]
fn the_root_manifest_is_found() {
    assert_eq!(manifest_entry(&names(&["icon.png", "manifest.toml", "shaders/crt.wgsl"])), Some(1));
}

#[test]
fn a_manifest_inside_one_folder_is_found() {
    assert_eq!(manifest_entry(&names(&["crt/", "crt/manifest.toml"])), Some(1));
}

#[test]
fn the_first_manifest_in_archive_order_wins() {
    assert_eq!(manifest_entry(&names(&["a/manifest.toml", "manifest.toml"])), Some(0));
}

#[test]
fn no_manifest_is_none() {
    assert_eq!(manifest_entry(&names(&["readme.txt", "mymanifest.toml.bak", "xmanifest.toml"])), None);
}

#[test]
fn a_single_top_level_folder_is_the_common_root() {
    assert_eq!(common_root(&names(&["crt/", "crt/manifest.toml", "crt/shaders/crt.wgsl"])), Some("crt".to_string()));
}

#[test]
fn entries_at_the_archive_root_have_no_common_root_unless_alone() {
    assert_eq!(common_root(&names(&["manifest.toml", "shaders/main.wgsl"])), None);
    assert_eq!(common_root(&names(&["manifest.toml"])), Some("manifest.toml".to_string()));
    assert_eq!(common_root(&names(&[])), None);
}

#[test]
fn first_component_stops_at_the_first_slash() {
    assert_eq!(first_component_of("a/b/c"), "a");
    assert_eq!(first_component_of("abc"), "abc");
    assert_eq!(first_component_of("/x"), "");
}

#[test]
fn install_path_joins_id() {
    let p = install_path(Path::new("/addons").to_str().unwrap(), "io.static.crt");
    assert_eq!(PathBuf::from(p), PathBuf::from("/addons/io.static.crt"));
}

#[test]
fn install_path_joins_as_a_path_does() {
    for (root, id) in [("/addons/", "x"), ("", "x"), ("rel", "x"), ("/addons", "/abs/x"), ("a", "b/c")] {
        assert_eq!(PathBuf::from(install_path(root, id)), Path::new(root).join(id));
    }
}

#[test]
fn entries_lose_the_common_root_folder() {
    assert_eq!(strip_root("pkg/shader.wgsl", "pkg"), "shader.wgsl");
    assert_eq!(strip_root("pkg/sub/a.png", "pkg"), "sub/a.png");
    assert_eq!(strip_root("pkg/", "pkg"), "pkg/", "the root folder's own entry stays");
    assert_eq!(strip_root("pkg", "pkg"), "pkg");
    assert_eq!(strip_root("pkgx/a", "pkg"), "pkgx/a", "a sibling with a longer name is not under the root");
}
