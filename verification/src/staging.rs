//! Staging locations: where the contents of an artifact are kept until the
//! installation completes or is abandoned.
//!
//! A location is keyed by the stem of the artifact's file name. The key is a
//! single path component, so a location always lies directly under the staging
//! root. Nothing here touches the disk: this module derives paths only.

use crate::text::{chars_of, find_first, find_last};
use vstd::prelude::*;
use vstd::string::*;

verus! {

/// The artifact path has no file name that can key a staging location.
#[derive(Clone, Copy, Debug, PartialEq, Eq)]
pub struct InvalidArtifactName;

/// The part of `path` after its last separator: all of it, if it has none.
pub open spec fn file_name_of(path: Seq<char>) -> Seq<char> {
    match path.index_of_last('/') {
        Some(i) => path.subrange(i + 1, path.len() as int),
        None => path,
    }
}

/// The file name without its extension. The extension begins at the last dot,
/// unless that dot is the first character of the name.
pub open spec fn stem_of(name: Seq<char>) -> Seq<char> {
    match name.index_of_last('.') {
        Some(i) => if i > 0 {
            name.subrange(0, i)
        } else {
            name
        },
        None => name,
    }
}

/// A key is one path component that names neither the directory itself nor
/// its parent.
pub open spec fn valid_key(key: Seq<char>) -> bool {
    &&& key.len() > 0
    &&& !key.contains('/')
    &&& key != seq!['.']
    &&& key != seq!['.', '.']
}

/// The staging key of the artifact at `path`, if its file name yields one.
pub open spec fn staging_key_spec(path: Seq<char>) -> Option<Seq<char>> {
    let stem = stem_of(file_name_of(path));
    if valid_key(stem) {
        Some(stem)
    } else {
        None
    }
}

/// The directory of the location with this key under this root.
pub open spec fn dir_spec(root: Seq<char>, key: Seq<char>) -> Seq<char> {
    root + seq!['/'] + key
}

/// The directory that holds the package's metadata document.
pub open spec fn meta_dir_spec(root: Seq<char>, key: Seq<char>) -> Seq<char> {
    dir_spec(root, key) + seq!['/', 'm', 'e', 't', 'a', '/']
}

/// The directory that holds the files to be installed.
pub open spec fn program_dir_spec(root: Seq<char>, key: Seq<char>) -> Seq<char> {
    dir_spec(root, key) + seq!['/', 'p', 'r', 'o', 'g', 'r', 'a', 'm', '/']
}

/// Tells whether the characters of `chars` between `from` and `to` make a valid key.
fn check_key(chars: &Vec<char>, from: usize, to: usize) -> (ok: bool)
    requires
        from <= to <= chars@.len(),
    ensures
        ok == valid_key(chars@.subrange(from as int, to as int)),
{
    let ghost key = chars@.subrange(from as int, to as int);
    let len = to - from;
    if len == 0 {
        return false;
    }
    if len == 1 && chars[from] == '.' {
        assert(key =~= seq!['.']);
        return false;
    }
    if len == 2 && chars[from] == '.' && chars[from + 1] == '.' {
        assert(key =~= seq!['.', '.']);
        return false;
    }
    proof {
        key.index_of_first_ensures('/');
        assert(seq!['.'].len() == 1);
        assert(seq!['.', '.'].len() == 2);
        if len == 1 {
            assert(key[0] != '.');
            assert(seq!['.'][0] == '.');
        }
        if len == 2 {
            assert(key[0] != '.' || key[1] != '.');
            assert(seq!['.', '.'][0] == '.');
            assert(seq!['.', '.'][1] == '.');
        }
    }
    find_first(chars, from, to, '/').is_none()
}

/// Derives the staging key from the path of an artifact.
///
/// The key is the file name of the path without its extension. It is refused
/// when the path names no file, or when what is left of the name is `.` or `..`.
pub fn staging_key(artifact_path: &str) -> (r: Result<String, InvalidArtifactName>)
    ensures
        match r {
            Ok(key) => staging_key_spec(artifact_path@) == Some(key@) && valid_key(key@),
            Err(_) => staging_key_spec(artifact_path@) is None,
        },
{
    let chars = chars_of(artifact_path);
    let n = chars.len();
    assert(chars@.subrange(0, n as int) =~= artifact_path@);
    let start = match find_last(&chars, 0, n, '/') {
        Some(i) => i + 1,
        None => 0,
    };
    let ghost name = file_name_of(artifact_path@);
    assert(name =~= chars@.subrange(start as int, n as int));
    let end = match find_last(&chars, start, n, '.') {
        Some(i) => if i > start {
            i
        } else {
            n
        },
        None => n,
    };
    assert(stem_of(name) =~= chars@.subrange(start as int, end as int));
    if check_key(&chars, start, end) {
        Ok(String::from_str(artifact_path.substring_char(start, end)))
    } else {
        Err(InvalidArtifactName)
    }
}

/// A staging location: a directory under the staging root, with one subtree
/// for the metadata and one for the program.
#[derive(Debug, PartialEq, Eq)]
pub struct StagingLocation {
    root: String,
    key: String,
}

/// What a staging location is: its root and its key.
pub struct StagingLocationView {
    pub root: Seq<char>,
    pub key: Seq<char>,
}

impl View for StagingLocation {
    type V = StagingLocationView;

    closed spec fn view(&self) -> StagingLocationView {
        StagingLocationView { root: self.root@, key: self.key@ }
    }
}

impl Clone for StagingLocation {
    fn clone(&self) -> (r: Self)
        ensures
            r@ == self@,
    {
        proof {
            use_type_invariant(self);
        }
        StagingLocation { root: self.root.clone(), key: self.key.clone() }
    }
}

impl StagingLocation {
    #[verifier::type_invariant]
    spec fn well_formed(&self) -> bool {
        valid_key(self.key@)
    }

    /// The staging root.
    pub fn root(&self) -> (r: &str)
        ensures
            r@ == self@.root,
    {
        self.root.as_str()
    }

    /// The key: always one path component, never `.` or `..`.
    pub fn key(&self) -> (k: &str)
        ensures
            k@ == self@.key,
            valid_key(k@),
    {
        proof {
            use_type_invariant(self);
        }
        self.key.as_str()
    }

    /// The directory of this location.
    pub fn dir(&self) -> (p: String)
        ensures
            p@ == dir_spec(self@.root, self@.key),
    {
        proof {
            reveal_strlit("/");
        }
        let mut p = self.root.clone();
        p.append("/");
        p.append(self.key.as_str());
        assert(p@ =~= dir_spec(self@.root, self@.key));
        p
    }

    /// The directory of the metadata subtree.
    pub fn meta_dir(&self) -> (p: String)
        ensures
            p@ == meta_dir_spec(self@.root, self@.key),
    {
        proof {
            reveal_strlit("/meta/");
        }
        let mut p = self.dir();
        p.append("/meta/");
        assert(p@ =~= meta_dir_spec(self@.root, self@.key));
        p
    }

    /// The directory of the program subtree.
    pub fn program_dir(&self) -> (p: String)
        ensures
            p@ == program_dir_spec(self@.root, self@.key),
    {
        proof {
            reveal_strlit("/program/");
        }
        let mut p = self.dir();
        p.append("/program/");
        assert(p@ =~= program_dir_spec(self@.root, self@.key));
        p
    }
}

/// The staging area: the root under which every location lies.
#[derive(Debug, PartialEq, Eq)]
pub struct StagingArea {
    root: String,
}

impl View for StagingArea {
    type V = Seq<char>;

    closed spec fn view(&self) -> Seq<char> {
        self.root@
    }
}

impl Clone for StagingArea {
    fn clone(&self) -> (r: Self)
        ensures
            r@ == self@,
    {
        StagingArea { root: self.root.clone() }
    }
}

impl StagingArea {
    /// The staging area rooted at `root`.
    pub fn new(root: &str) -> (area: StagingArea)
        ensures
            area@ == root@,
    {
        StagingArea { root: String::from_str(root) }
    }

    /// The location that the key `artifact_stem` stands for.
    ///
    /// This derives a path and nothing else: the same key always gives the same
    /// location. A key that is not a single path component is refused.
    pub fn locate(&self, artifact_stem: &str) -> (r: Result<StagingLocation, InvalidArtifactName>)
        ensures
            match r {
                Ok(location) => {
                    &&& valid_key(artifact_stem@)
                    &&& location@ == (StagingLocationView { root: self@, key: artifact_stem@ })
                },
                Err(_) => !valid_key(artifact_stem@),
            },
    {
        let chars = chars_of(artifact_stem);
        assert(chars@.subrange(0, chars@.len() as int) =~= artifact_stem@);
        if check_key(&chars, 0, chars.len()) {
            Ok(StagingLocation { root: self.root.clone(), key: String::from_str(artifact_stem) })
        } else {
            Err(InvalidArtifactName)
        }
    }

    /// The location of the artifact at `artifact_path`.
    pub fn locate_artifact(&self, artifact_path: &str) -> (r: Result<
        StagingLocation,
        InvalidArtifactName,
    >)
        ensures
            match r {
                Ok(location) => staging_key_spec(artifact_path@) == Some(location@.key)
                    && location@.root == self@,
                Err(_) => staging_key_spec(artifact_path@) is None,
            },
    {
        match staging_key(artifact_path) {
            Ok(key) => Ok(StagingLocation { root: self.root.clone(), key }),
            Err(e) => Err(e),
        }
    }
}

/// The directory of a location is the root, one separator, and one component
/// that is neither `.` nor `..`: it lies directly under the root.
pub proof fn lemma_location_under_root(root: Seq<char>, key: Seq<char>)
    requires
        valid_key(key),
    ensures
        dir_spec(root, key).len() == root.len() + 1 + key.len(),
        dir_spec(root, key).subrange(0, root.len() as int) == root,
        dir_spec(root, key)[root.len() as int] == '/',
        dir_spec(root, key).subrange(root.len() as int + 1, dir_spec(root, key).len() as int) == key,
        !key.contains('/'),
{
    let d = dir_spec(root, key);
    assert(d.subrange(0, root.len() as int) =~= root);
    assert(d.subrange(root.len() as int + 1, d.len() as int) =~= key);
}

/// Artifacts whose file names have the same stem share one staging location,
/// whatever directory they lie in and whatever their extension is.
pub proof fn lemma_same_stem_collides(root: Seq<char>, first: Seq<char>, second: Seq<char>)
    requires
        stem_of(file_name_of(first)) == stem_of(file_name_of(second)),
    ensures
        staging_key_spec(first) == staging_key_spec(second),
        staging_key_spec(first) matches Some(k) ==> dir_spec(root, k) == dir_spec(
            root,
            staging_key_spec(second).unwrap(),
        ),
{
}

/// Locations with different keys have different directories.
pub proof fn lemma_distinct_keys_distinct_dirs(root: Seq<char>, first: Seq<char>, second: Seq<char>)
    requires
        first != second,
    ensures
        dir_spec(root, first) != dir_spec(root, second),
{
    let a = dir_spec(root, first);
    let b = dir_spec(root, second);
    if a == b {
        assert(a.subrange(root.len() as int + 1, a.len() as int) =~= first);
        assert(b.subrange(root.len() as int + 1, b.len() as int) =~= second);
    }
}

} // verus!
