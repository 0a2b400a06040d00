use lpm::staging::{staging_key, InvalidArtifactName, StagingArea};
use std::path::Path;

fn std_stem(path: &str) -> Option<String> {
    Path::new(path).file_stem().map(|s| s.to_str().unwrap().to_string())
}

#[test]
fn key_is_the_file_stem() {
    assert_eq!(staging_key("foo-1.0.0.pkg"), Ok("foo-1.0.0".to_string()));
    assert_eq!(staging_key("/var/cache/pkgs/foo-1.0.0.pkg"), Ok("foo-1.0.0".to_string()));
    assert_eq!(staging_key("relative/dir/bar.tar.gz"), Ok("bar.tar".to_string()));
    assert_eq!(staging_key("noextension"), Ok("noextension".to_string()));
}

#[test]
fn key_of_a_name_that_begins_with_a_dot() {
    assert_eq!(staging_key(".hidden"), Ok(".hidden".to_string()));
    assert_eq!(staging_key("dir/.hidden.pkg"), Ok(".hidden".to_string()));
    assert_eq!(staging_key("trailing."), Ok("trailing".to_string()));
}

#[test]
fn key_agrees_with_the_standard_file_stem() {
    for path in [
        "foo-1.0.0.pkg",
        "/a/b/c.d.e",
        "x/.profile",
        "x/y.z/w",
        "a.b",
        "name.",
        "./here.txt",
        "../up.txt",
        "/abs",
        "with space.pkg",
        "d\u{e9}j\u{e0}.vu",
    ] {
        assert_eq!(staging_key(path).ok(), std_stem(path), "{}", path);
    }
}

#[test]
fn key_is_refused_where_the_path_names_no_file() {
    assert_eq!(staging_key(""), Err(InvalidArtifactName));
    assert_eq!(staging_key("/"), Err(InvalidArtifactName));
    assert_eq!(staging_key("dir/"), Err(InvalidArtifactName));
    assert_eq!(staging_key("."), Err(InvalidArtifactName));
    assert_eq!(staging_key(".."), Err(InvalidArtifactName));
    assert_eq!(staging_key("a/.."), Err(InvalidArtifactName));
}

#[test]
fn key_is_refused_where_the_stem_would_leave_the_root() {
    assert_eq!(staging_key("..pkg"), Err(InvalidArtifactName));
    assert_eq!(staging_key("dir/...."), Ok("...".to_string()));
    assert_eq!(staging_key("dir/..."), Err(InvalidArtifactName));
}

#[test]
fn locate_derives_the_directories() {
    let area = StagingArea::new("/tmp/lpm");
    let location = area.locate("foo-1.0.0").unwrap();
    assert_eq!(location.root(), "/tmp/lpm");
    assert_eq!(location.key(), "foo-1.0.0");
    assert_eq!(location.dir(), "/tmp/lpm/foo-1.0.0");
    assert_eq!(location.meta_dir(), "/tmp/lpm/foo-1.0.0/meta/");
    assert_eq!(location.program_dir(), "/tmp/lpm/foo-1.0.0/program/");
}

#[test]
fn locate_is_repeatable() {
    let area = StagingArea::new("stage");
    let first = area.locate("bar").unwrap();
    let second = area.locate("bar").unwrap();
    assert_eq!(first, second);
    assert_eq!(first.clone().dir(), second.dir());
}

#[test]
fn locate_refuses_keys_that_are_no_single_component() {
    let area = StagingArea::new("stage");
    assert_eq!(area.locate(""), Err(InvalidArtifactName));
    assert_eq!(area.locate("."), Err(InvalidArtifactName));
    assert_eq!(area.locate(".."), Err(InvalidArtifactName));
    assert_eq!(area.locate("a/b"), Err(InvalidArtifactName));
    assert_eq!(area.locate("/"), Err(InvalidArtifactName));
    assert!(area.locate("a.b").is_ok());
}

#[test]
fn locate_artifact_goes_through_the_stem() {
    let area = StagingArea::new("/stage");
    let location = area.locate_artifact("/downloads/foo-1.0.0.pkg").unwrap();
    assert_eq!(location.dir(), "/stage/foo-1.0.0");
    assert_eq!(area.locate_artifact("/downloads/"), Err(InvalidArtifactName));
}

#[test]
fn same_stem_collides_and_different_versions_do_not() {
    let area = StagingArea::new("/stage");
    let a = area.locate_artifact("/one/foo-1.0.0.pkg").unwrap();
    let b = area.locate_artifact("/two/foo-1.0.0.tar").unwrap();
    let c = area.locate_artifact("/one/foo-1.1.0.pkg").unwrap();
    assert_eq!(a.dir(), b.dir());
    assert_ne!(a.dir(), c.dir());
}
