//! Version identifiers: `major.minor.patch`, with an optional tag after a hyphen.
//!
//! A version is written as three decimal numbers separated by dots. A tag, if
//! there is one, follows the first hyphen and runs to the end of the text.
//! Versions are ordered by their numbers first. Among versions with the same
//! numbers a tagged one comes before the untagged one, and two tags are ordered
//! character by character, upper case before lower case.

use crate::decimal::{
    dec_digits, dec_value, is_canonical_numeral, is_digit, is_numeral, lemma_dec_digits,
    lemma_dec_value_digits, lemma_numeral_is_canonical, read_numeral, write_numeral,
};
use crate::text::{
    chars_of, common_prefix, common_prefix_len, find_first, lemma_absent, lemma_common_prefix_len,
    lemma_common_prefix_unique, lemma_first_at,
};
use core::cmp::Ordering;
use vstd::prelude::*;
use vstd::string::*;

verus! {

/// What a version is: three numbers and, possibly, a tag.
pub struct VersionView {
    pub major: nat,
    pub minor: nat,
    pub patch: nat,
    pub tag: Option<Seq<char>>,
}

/// Why a text is not a version.
#[derive(Clone, Copy, Debug, PartialEq, Eq)]
pub enum ParseError {
    /// The part before the tag is not three numbers separated by dots,
    /// or one of the numbers does not fit in 32 bits.
    Number,
    /// The tag is empty or holds a character that no tag may hold.
    Tag,
}

/// A version identifier together with its rendering.
#[derive(Debug, PartialEq, Eq)]
pub struct Version {
    major: u32,
    minor: u32,
    patch: u32,
    tag: Option<String>,
    readable_format: String,
}

/// A character that may stand in a tag: an ASCII letter or digit, or one of `. - + _`.
pub open spec fn is_tag_char(c: char) -> bool {
    ||| '0' <= c <= '9'
    ||| 'a' <= c <= 'z'
    ||| 'A' <= c <= 'Z'
    ||| c == '.'
    ||| c == '-'
    ||| c == '+'
    ||| c == '_'
}

/// A tag is not empty and holds tag characters only.
pub open spec fn valid_tag(t: Seq<char>) -> bool {
    t.len() > 0 && forall|i: int| 0 <= i < t.len() ==> is_tag_char(#[trigger] t[i])
}

/// The versions that can be held: each number fits in 32 bits and the tag, if any, is valid.
pub open spec fn valid(v: VersionView) -> bool {
    &&& v.major <= u32::MAX
    &&& v.minor <= u32::MAX
    &&& v.patch <= u32::MAX
    &&& v.tag matches Some(t) ==> valid_tag(t)
}

/// What follows the numbers in a rendering: nothing, or a hyphen and the tag.
pub open spec fn tag_suffix(tag: Option<Seq<char>>) -> Seq<char> {
    match tag {
        Some(t) => seq!['-'] + t,
        None => Seq::empty(),
    }
}

/// The rendering of a version.
pub open spec fn render_spec(v: VersionView) -> Seq<char> {
    dec_digits(v.major) + seq!['.'] + dec_digits(v.minor) + seq!['.'] + dec_digits(v.patch)
        + tag_suffix(v.tag)
}

/// The part of `text` before its first hyphen: all of it, if it has none.
pub open spec fn core_of(text: Seq<char>) -> Seq<char> {
    match text.index_of_first('-') {
        Some(i) => text.subrange(0, i),
        None => text,
    }
}

/// The part of `text` after its first hyphen, if it has one.
pub open spec fn tag_of(text: Seq<char>) -> Option<Seq<char>> {
    match text.index_of_first('-') {
        Some(i) => Some(text.subrange(i + 1, text.len() as int)),
        None => None,
    }
}

/// The three parts of `core` around its first two dots, if it has two.
pub open spec fn segments_of(core: Seq<char>) -> Option<(Seq<char>, Seq<char>, Seq<char>)> {
    match core.index_of_first('.') {
        Some(i) => {
            let rest = core.subrange(i + 1, core.len() as int);
            match rest.index_of_first('.') {
                Some(j) => Some(
                    (core.subrange(0, i), rest.subrange(0, j), rest.subrange(j + 1, rest.len() as int)),
                ),
                None => None,
            }
        },
        None => None,
    }
}

/// The version that `text` denotes, or why it denotes none.
pub open spec fn parse_spec(text: Seq<char>) -> Result<VersionView, ParseError> {
    match segments_of(core_of(text)) {
        Some((a, b, c)) => {
            if !(is_numeral(a) && is_numeral(b) && is_numeral(c)) {
                Err(ParseError::Number)
            } else if tag_of(text) matches Some(t) && !valid_tag(t) {
                Err(ParseError::Tag)
            } else {
                Ok(
                    VersionView {
                        major: dec_value(a),
                        minor: dec_value(b),
                        patch: dec_value(c),
                        tag: tag_of(text),
                    },
                )
            }
        },
        None => Err(ParseError::Number),
    }
}

/// The order of two numbers.
pub open spec fn compare_nat(a: nat, b: nat) -> Ordering {
    if a < b {
        Ordering::Less
    } else if a > b {
        Ordering::Greater
    } else {
        Ordering::Equal
    }
}

/// The order of two texts: by the first character in which they differ; a text
/// comes after each of its proper prefixes.
pub open spec fn compare_text(a: Seq<char>, b: Seq<char>) -> Ordering {
    let k = common_prefix_len(a, b);
    if k == a.len() && k == b.len() {
        Ordering::Equal
    } else if k == a.len() {
        Ordering::Less
    } else if k == b.len() {
        Ordering::Greater
    } else if a[k] < b[k] {
        Ordering::Less
    } else {
        Ordering::Greater
    }
}

/// The order of two tags: a missing tag comes after every tag.
pub open spec fn compare_tag(a: Option<Seq<char>>, b: Option<Seq<char>>) -> Ordering {
    match (a, b) {
        (None, None) => Ordering::Equal,
        (None, Some(_)) => Ordering::Greater,
        (Some(_), None) => Ordering::Less,
        (Some(x), Some(y)) => compare_text(x, y),
    }
}

/// The order of two versions: by major, minor and patch number, then by tag.
pub open spec fn compare_spec(a: VersionView, b: VersionView) -> Ordering {
    if a.major != b.major {
        compare_nat(a.major, b.major)
    } else if a.minor != b.minor {
        compare_nat(a.minor, b.minor)
    } else if a.patch != b.patch {
        compare_nat(a.patch, b.patch)
    } else {
        compare_tag(a.tag, b.tag)
    }
}

/// The tag that an optional text stands for.
pub open spec fn tag_view(tag: Option<String>) -> Option<Seq<char>> {
    match tag {
        Some(t) => Some(t@),
        None => None,
    }
}

impl View for Version {
    type V = VersionView;

    closed spec fn view(&self) -> VersionView {
        VersionView {
            major: self.major as nat,
            minor: self.minor as nat,
            patch: self.patch as nat,
            tag: tag_view(self.tag),
        }
    }
}

impl Clone for Version {
    fn clone(&self) -> (r: Self)
        ensures
            r@ == self@,
    {
        proof {
            use_type_invariant(self);
        }
        let tag = match &self.tag {
            Some(t) => Some(t.clone()),
            None => None,
        };
        Version {
            major: self.major,
            minor: self.minor,
            patch: self.patch,
            tag,
            readable_format: self.readable_format.clone(),
        }
    }
}

/// Tells whether the characters of `chars` between `from` and `to` make a valid tag.
fn check_tag(chars: &Vec<char>, from: usize, to: usize) -> (ok: bool)
    requires
        from <= to <= chars@.len(),
    ensures
        ok == valid_tag(chars@.subrange(from as int, to as int)),
{
    let ghost t = chars@.subrange(from as int, to as int);
    if from == to {
        return false;
    }
    let mut i: usize = from;
    while i < to
        invariant
            from <= i <= to <= chars@.len(),
            t == chars@.subrange(from as int, to as int),
            forall|j: int| 0 <= j < i - from ==> is_tag_char(#[trigger] t[j]),
        decreases to - i,
    {
        let c: char = chars[i];
        assert(c == t[i - from]);
        let ok = ('0' <= c && c <= '9') || ('a' <= c && c <= 'z') || ('A' <= c && c <= 'Z') || c
            == '.' || c == '-' || c == '+' || c == '_';
        if !ok {
            return false;
        }
        i = i + 1;
    }
    true
}

/// Writes the rendering of the version with these numbers and this tag.
fn render_parts(major: u32, minor: u32, patch: u32, tag: &Option<String>) -> (out: String)
    ensures
        out@ == render_spec(
            VersionView {
                major: major as nat,
                minor: minor as nat,
                patch: patch as nat,
                tag: tag_view(*tag),
            },
        ),
{
    proof {
        reveal_strlit(".");
        reveal_strlit("-");
    }
    let mut out = String::new();
    write_numeral(&mut out, major);
    out.append(".");
    write_numeral(&mut out, minor);
    out.append(".");
    write_numeral(&mut out, patch);
    match tag {
        Some(t) => {
            out.append("-");
            out.append(t.as_str());
        },
        None => {},
    }
    assert("."@ =~= seq!['.']);
    assert("-"@ =~= seq!['-']);
    assert(out@ =~= render_spec(
        VersionView {
            major: major as nat,
            minor: minor as nat,
            patch: patch as nat,
            tag: tag_view(*tag),
        },
    ));
    out
}

impl Version {
    #[verifier::type_invariant]
    spec fn well_formed(&self) -> bool {
        &&& valid(self@)
        &&& self.readable_format@ == render_spec(self@)
    }

    /// The version with these numbers and this tag.
    ///
    /// Fails with [`ParseError::Tag`] exactly when there is a tag and it is not valid.
    pub fn new(major: u32, minor: u32, patch: u32, tag: Option<String>) -> (r: Result<
        Version,
        ParseError,
    >)
        ensures
            match r {
                Ok(v) => {
                    &&& valid(v@)
                    &&& v@ == (VersionView {
                        major: major as nat,
                        minor: minor as nat,
                        patch: patch as nat,
                        tag: tag_view(tag),
                    })
                },
                Err(e) => e == ParseError::Tag && (tag matches Some(t) && !valid_tag(t@)),
            },
    {
        match &tag {
            Some(t) => {
                let chars = chars_of(t.as_str());
                assert(chars@.subrange(0, chars@.len() as int) =~= t@);
                if !check_tag(&chars, 0, chars.len()) {
                    return Err(ParseError::Tag);
                }
            },
            None => {},
        }
        let readable_format = render_parts(major, minor, patch, &tag);
        Ok(Version { major, minor, patch, tag, readable_format })
    }

    /// Reads a version from its text.
    pub fn parse(text: &str) -> (r: Result<Version, ParseError>)
        ensures
            match r {
                Ok(v) => valid(v@) && parse_spec(text@) == Ok::<VersionView, ParseError>(v@),
                Err(e) => parse_spec(text@) == Err::<VersionView, ParseError>(e),
            },
    {
        let chars = chars_of(text);
        let n = chars.len();
        let ghost core = core_of(text@);
        assert(chars@.subrange(0, n as int) =~= text@);
        let dash = find_first(&chars, 0, n, '-');
        let core_end = match dash {
            Some(i) => i,
            None => n,
        };
        assert(core =~= chars@.subrange(0, core_end as int));
        let first_dot = match find_first(&chars, 0, core_end, '.') {
            Some(i) => i,
            None => {
                return Err(ParseError::Number);
            },
        };
        let ghost rest = core.subrange(first_dot + 1, core.len() as int);
        assert(rest =~= chars@.subrange(first_dot + 1, core_end as int));
        let second_dot = match find_first(&chars, first_dot + 1, core_end, '.') {
            Some(j) => j,
            None => {
                return Err(ParseError::Number);
            },
        };
        proof {
            let j = second_dot - (first_dot + 1);
            assert(core.subrange(0, first_dot as int) =~= chars@.subrange(0, first_dot as int));
            assert(rest.subrange(0, j) =~= chars@.subrange(first_dot + 1, second_dot as int));
            assert(rest.subrange(j + 1, rest.len() as int) =~= chars@.subrange(
                second_dot + 1,
                core_end as int,
            ));
        }
        let major = read_numeral(&chars, 0, first_dot);
        let minor = read_numeral(&chars, first_dot + 1, second_dot);
        let patch = read_numeral(&chars, second_dot + 1, core_end);
        let (major, minor, patch) = match (major, minor, patch) {
            (Some(a), Some(b), Some(c)) => (a, b, c),
            _ => {
                return Err(ParseError::Number);
            },
        };
        let tag = match dash {
            Some(i) => {
                assert(tag_of(text@) == Some(chars@.subrange(i + 1, n as int)));
                if !check_tag(&chars, i + 1, n) {
                    return Err(ParseError::Tag);
                }
                Some(String::from_str(text.substring_char(i + 1, n)))
            },
            None => None,
        };
        let readable_format = render_parts(major, minor, patch, &tag);
        Ok(Version { major, minor, patch, tag, readable_format })
    }

    /// The rendering of this version.
    pub fn render(&self) -> (out: String)
        ensures
            out@ == render_spec(self@),
            valid(self@),
    {
        proof {
            use_type_invariant(self);
        }
        self.readable_format.clone()
    }

    /// The rendering of this version, as it is kept beside the numbers.
    pub fn readable_format(&self) -> (out: &str)
        ensures
            out@ == render_spec(self@),
    {
        proof {
            use_type_invariant(self);
        }
        self.readable_format.as_str()
    }

    /// The major number.
    pub fn major(&self) -> (n: u32)
        ensures
            n == self@.major,
    {
        self.major
    }

    /// The minor number.
    pub fn minor(&self) -> (n: u32)
        ensures
            n == self@.minor,
    {
        self.minor
    }

    /// The patch number.
    pub fn patch(&self) -> (n: u32)
        ensures
            n == self@.patch,
    {
        self.patch
    }

    /// The tag, if there is one.
    pub fn tag(&self) -> (t: &Option<String>)
        ensures
            tag_view(*t) == self@.tag,
    {
        &self.tag
    }

    /// The order of this version and `other`.
    pub fn compare(&self, other: &Version) -> (r: Ordering)
        ensures
            r == compare_spec(self@, other@),
    {
        if self.major < other.major {
            return Ordering::Less;
        }
        if self.major > other.major {
            return Ordering::Greater;
        }
        if self.minor < other.minor {
            return Ordering::Less;
        }
        if self.minor > other.minor {
            return Ordering::Greater;
        }
        if self.patch < other.patch {
            return Ordering::Less;
        }
        if self.patch > other.patch {
            return Ordering::Greater;
        }
        match (&self.tag, &other.tag) {
            (None, None) => Ordering::Equal,
            (None, Some(_)) => Ordering::Greater,
            (Some(_), None) => Ordering::Less,
            (Some(x), Some(y)) => order_of_text(x.as_str(), y.as_str()),
        }
    }

    /// Tells whether this version and `other` have the same numbers and the same tag.
    pub fn same_as(&self, other: &Version) -> (r: bool)
        ensures
            r == (self@ == other@),
    {
        let same_tag = match (&self.tag, &other.tag) {
            (None, None) => true,
            (Some(x), Some(y)) => *x == *y,
            _ => false,
        };
        self.major == other.major && self.minor == other.minor && self.patch == other.patch
            && same_tag
    }
}

/// The order of two texts.
fn order_of_text(a: &str, b: &str) -> (r: Ordering)
    ensures
        r == compare_text(a@, b@),
{
    let x = chars_of(a);
    let y = chars_of(b);
    let k = common_prefix(&x, &y);
    proof {
        lemma_common_prefix_len(x@, y@);
    }
    if k == x.len() && k == y.len() {
        Ordering::Equal
    } else if k == x.len() {
        Ordering::Less
    } else if k == y.len() {
        Ordering::Greater
    } else if x[k] < y[k] {
        Ordering::Less
    } else {
        Ordering::Greater
    }
}

/// Reading the rendering of a version gives that version back.
pub proof fn lemma_parse_render(v: VersionView)
    requires
        valid(v),
    ensures
        parse_spec(render_spec(v)) == Ok::<VersionView, ParseError>(v),
        segments_of(core_of(render_spec(v))) == Some(
            (dec_digits(v.major), dec_digits(v.minor), dec_digits(v.patch)),
        ),
{
    let a = dec_digits(v.major);
    let b = dec_digits(v.minor);
    let c = dec_digits(v.patch);
    lemma_dec_digits(v.major);
    lemma_dec_digits(v.minor);
    lemma_dec_digits(v.patch);
    let rest = b + seq!['.'] + c;
    let core = a + seq!['.'] + rest;
    let text = render_spec(v);
    assert(text =~= core + tag_suffix(v.tag));
    assert forall|j: int| 0 <= j < core.len() implies core[j] != '-' by {
        if j < a.len() {
            assert(is_digit(a[j]));
        } else if j > a.len() && j - a.len() - 1 < b.len() {
            assert(is_digit(b[j - a.len() - 1]));
        } else if j > a.len() + b.len() + 1 {
            assert(is_digit(c[j - a.len() - b.len() - 2]));
        }
    }
    match v.tag {
        Some(t) => {
            assert(text[core.len() as int] == '-');
            assert forall|j: int| 0 <= j < core.len() implies text[j] != '-' by {
                assert(text[j] == core[j]);
            }
            lemma_first_at(text, '-', core.len() as int);
            assert(text.subrange(0, core.len() as int) =~= core);
            assert(text.subrange(core.len() as int + 1, text.len() as int) =~= t);
        },
        None => {
            assert(text =~= core);
            lemma_absent(text, '-');
        },
    }
    assert(core_of(text) == core);
    assert(tag_of(text) == v.tag);
    assert forall|j: int| 0 <= j < a.len() implies core[j] != '.' by {
        assert(is_digit(a[j]));
    }
    lemma_first_at(core, '.', a.len() as int);
    assert(core.subrange(a.len() as int + 1, core.len() as int) =~= rest);
    assert forall|j: int| 0 <= j < b.len() implies rest[j] != '.' by {
        assert(is_digit(b[j]));
    }
    lemma_first_at(rest, '.', b.len() as int);
    assert(core.subrange(0, a.len() as int) =~= a);
    assert(rest.subrange(0, b.len() as int) =~= b);
    assert(rest.subrange(b.len() as int + 1, rest.len() as int) =~= c);
    assert(segments_of(core) == Some((a, b, c)));
}

/// The text is written as a rendering is: none of its numbers has needless
/// zeros in front.
pub open spec fn is_canonical(text: Seq<char>) -> bool {
    segments_of(core_of(text)) matches Some((a, b, c)) && is_canonical_numeral(a)
        && is_canonical_numeral(b) && is_canonical_numeral(c)
}

/// Rendering the version that a text denotes gives that text back, if the
/// text is written as a rendering is.
pub proof fn lemma_render_parse(text: Seq<char>, v: VersionView)
    requires
        parse_spec(text) == Ok::<VersionView, ParseError>(v),
        is_canonical(text),
    ensures
        render_spec(v) == text,
        valid(v),
{
    let core = core_of(text);
    text.index_of_first_ensures('-');
    core.index_of_first_ensures('.');
    let i = core.index_of_first('.').unwrap();
    let rest = core.subrange(i + 1, core.len() as int);
    rest.index_of_first_ensures('.');
    let j = rest.index_of_first('.').unwrap();
    let a = core.subrange(0, i);
    let b = rest.subrange(0, j);
    let c = rest.subrange(j + 1, rest.len() as int);
    lemma_dec_value_digits(a);
    lemma_dec_value_digits(b);
    lemma_dec_value_digits(c);
    assert(rest =~= b + seq!['.'] + c);
    assert(core =~= a + seq!['.'] + rest);
    assert(core =~= a + seq!['.'] + b + seq!['.'] + c);
    assert(text =~= core + tag_suffix(v.tag));
    assert(render_spec(v) =~= text);
}

/// Every rendering is written without needless zeros.
pub proof fn lemma_render_is_canonical(v: VersionView)
    requires
        valid(v),
    ensures
        is_canonical(render_spec(v)),
{
    lemma_parse_render(v);
    lemma_numeral_is_canonical(v.major);
    lemma_numeral_is_canonical(v.minor);
    lemma_numeral_is_canonical(v.patch);
}

/// Two texts are equal in order exactly when they are the same text.
pub proof fn lemma_compare_text_equal(x: Seq<char>, y: Seq<char>)
    ensures
        compare_text(x, y) == Ordering::Equal <==> x == y,
{
    lemma_common_prefix_len(x, y);
    if compare_text(x, y) == Ordering::Equal {
        assert(x =~= y);
    }
}

/// Swapping two texts reverses their order.
pub proof fn lemma_compare_text_swap(x: Seq<char>, y: Seq<char>)
    ensures
        compare_text(x, y) == Ordering::Less <==> compare_text(y, x) == Ordering::Greater,
        compare_text(x, y) == Ordering::Greater <==> compare_text(y, x) == Ordering::Less,
        compare_text(x, y) == Ordering::Equal <==> compare_text(y, x) == Ordering::Equal,
{
    lemma_common_prefix_len(x, y);
    lemma_common_prefix_unique(y, x, common_prefix_len(x, y));
}

/// The order of texts is transitive.
pub proof fn lemma_compare_text_transitive(x: Seq<char>, y: Seq<char>, z: Seq<char>)
    requires
        compare_text(x, y) != Ordering::Greater,
        compare_text(y, z) != Ordering::Greater,
    ensures
        compare_text(x, z) != Ordering::Greater,
        compare_text(x, z) == Ordering::Equal ==> x == y && y == z,
{
    lemma_common_prefix_len(x, y);
    lemma_common_prefix_len(y, z);
    lemma_common_prefix_len(x, z);
    lemma_compare_text_equal(x, y);
    lemma_compare_text_equal(y, z);
    lemma_compare_text_equal(x, z);
    let kxy = common_prefix_len(x, y);
    let kyz = common_prefix_len(y, z);
    let k = if kxy <= kyz {
        kxy
    } else {
        kyz
    };
    assert forall|j: int| 0 <= j < k implies x[j] == z[j] by {
        assert(x[j] == y[j]);
        assert(y[j] == z[j]);
    }
    if x == y || y == z {
    } else if kxy < kyz {
        if kxy < x.len() {
            assert(y[kxy] == z[kxy]);
        }
        lemma_common_prefix_unique(x, z, kxy);
    } else if kyz < kxy {
        assert(x[kyz] == y[kyz]);
        lemma_common_prefix_unique(x, z, kyz);
    } else {
        lemma_common_prefix_unique(x, z, k);
    }
}

/// Two versions are equal in order exactly when they are the same version.
pub proof fn lemma_compare_equal(a: VersionView, b: VersionView)
    ensures
        compare_spec(a, b) == Ordering::Equal <==> a == b,
{
    match (a.tag, b.tag) {
        (Some(x), Some(y)) => {
            lemma_compare_text_equal(x, y);
        },
        _ => {},
    }
}

/// Swapping two versions reverses their order.
pub proof fn lemma_compare_antisymmetric(a: VersionView, b: VersionView)
    ensures
        compare_spec(a, b) == Ordering::Less <==> compare_spec(b, a) == Ordering::Greater,
        compare_spec(a, b) == Ordering::Greater <==> compare_spec(b, a) == Ordering::Less,
        compare_spec(a, b) == Ordering::Equal <==> compare_spec(b, a) == Ordering::Equal,
{
    match (a.tag, b.tag) {
        (Some(x), Some(y)) => {
            lemma_compare_text_swap(x, y);
        },
        _ => {},
    }
}

/// The order of versions is transitive.
pub proof fn lemma_compare_transitive(a: VersionView, b: VersionView, c: VersionView)
    requires
        compare_spec(a, b) != Ordering::Greater,
        compare_spec(b, c) != Ordering::Greater,
    ensures
        compare_spec(a, c) != Ordering::Greater,
        compare_spec(a, c) == Ordering::Equal ==> a == b && b == c,
{
    lemma_compare_equal(a, b);
    lemma_compare_equal(b, c);
    lemma_compare_equal(a, c);
    match (a.tag, b.tag, c.tag) {
        (Some(x), Some(y), Some(z)) => {
            if a.major == b.major && b.major == c.major && a.minor == b.minor && b.minor == c.minor
                && a.patch == b.patch && b.patch == c.patch {
                lemma_compare_text_transitive(x, y, z);
            }
        },
        _ => {},
    }
}

/// With the same numbers, the version without a tag comes after every tagged one.
pub proof fn lemma_untagged_is_last(a: VersionView, b: VersionView)
    requires
        a.major == b.major,
        a.minor == b.minor,
        a.patch == b.patch,
        a.tag is None,
        b.tag is Some,
    ensures
        compare_spec(a, b) == Ordering::Greater,
        compare_spec(b, a) == Ordering::Less,
{
}

} // verus!
