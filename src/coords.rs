//! Repository coordinates on the hosting service.
use vstd::prelude::*;

use crate::record::Entry;
use crate::text::{chars_of, push_all, string_of};

verus! {

/// The prefix of a repository URL on the hosting service.
pub const HOST_PREFIX: &'static str = "https://github.com/";

/// The start of the address at which the service describes a repository's
/// license.
pub const API_PREFIX: &'static str = "https://api.github.com/repos/";

/// The end of that address.
pub const API_SUFFIX: &'static str = "/license";

/// A repository on the hosting service: its owner and its name.
pub struct Coordinates {
    pub user: String,
    pub project: String,
}

/// Why no coordinates come from a repository URL.
#[derive(PartialEq, Eq, Structural, Clone, Copy, Debug)]
pub enum CoordinateError {
    /// The dependency names no repository.
    MissingRepository,
    /// The URL is not on the hosting service.
    NotAHostedRepository,
    /// The path holds fewer than two `/`-separated segments.
    InsufficientPathSegments,
}

/// The first index at or after `i` that holds a `/`, or the length.
pub open spec fn seg_end(s: Seq<char>, i: int) -> int
    decreases s.len() - i,
{
    if i >= s.len() {
        s.len() as int
    } else if s[i] == '/' {
        i
    } else {
        seg_end(s, i + 1)
    }
}

/// Owner and project from the path after the host: the first two segments.
pub open spec fn raw_coordinates(s: Seq<char>) -> Result<(Seq<char>, Seq<char>), CoordinateError> {
    let e1 = seg_end(s, 0);
    if e1 >= s.len() {
        Err(CoordinateError::InsufficientPathSegments)
    } else {
        Ok((s.subrange(0, e1), s.subrange(e1 + 1, seg_end(s, e1 + 1))))
    }
}

pub open spec fn has_prefix(s: Seq<char>, p: Seq<char>) -> bool {
    p.len() <= s.len() && s.subrange(0, p.len() as int) == p
}

/// Owner and project from an optional repository URL.
pub open spec fn coordinates_of(repo: Option<Seq<char>>) -> Result<
    (Seq<char>, Seq<char>),
    CoordinateError,
> {
    match repo {
        None => Err(CoordinateError::MissingRepository),
        Some(r) => if has_prefix(r, HOST_PREFIX@) {
            raw_coordinates(r.subrange(HOST_PREFIX@.len() as int, r.len() as int))
        } else {
            Err(CoordinateError::NotAHostedRepository)
        },
    }
}

pub open spec fn coords_view(r: Result<Coordinates, CoordinateError>) -> Result<
    (Seq<char>, Seq<char>),
    CoordinateError,
> {
    match r {
        Ok(c) => Ok((c.user@, c.project@)),
        Err(e) => Err(e),
    }
}

proof fn lemma_seg_end_bounds(s: Seq<char>, i: int)
    requires
        0 <= i <= s.len(),
    ensures
        i <= seg_end(s, i) <= s.len(),
        seg_end(s, i) < s.len() ==> s[seg_end(s, i)] == '/',
        forall|j: int| i <= j < seg_end(s, i) ==> s[j] != '/',
    decreases s.len() - i,
{
    if i < s.len() && s[i] != '/' {
        lemma_seg_end_bounds(s, i + 1);
    }
}

/// The first index at or after `from` that holds a `/`, or the length.
fn find_slash(v: &Vec<char>, from: usize) -> (r: usize)
    requires
        from <= v@.len(),
    ensures
        r == seg_end(v@, from as int),
{
    let mut i = from;
    while i < v.len() && v[i] != '/'
        invariant
            from <= i <= v@.len(),
            seg_end(v@, from as int) == seg_end(v@, i as int),
        decreases v.len() - i,
    {
        i = i + 1;
    }
    i
}

/// The characters of `v` from `a` up to `b`.
fn slice_chars(v: &Vec<char>, a: usize, b: usize) -> (r: Vec<char>)
    requires
        a <= b <= v@.len(),
    ensures
        r@ == v@.subrange(a as int, b as int),
{
    let mut r: Vec<char> = Vec::new();
    let mut i = a;
    while i < b
        invariant
            a <= i <= b <= v@.len(),
            r@ == v@.subrange(a as int, i as int),
        decreases b - i,
    {
        r.push(v[i]);
        i = i + 1;
    }
    r
}

/// Owner and project from the path that follows the host in a repository
/// URL.
pub fn get_raw_coordinates(suffix: &str) -> (r: Result<Coordinates, CoordinateError>)
    ensures
        coords_view(r) == raw_coordinates(suffix@),
{
    let v = chars_of(suffix);
    let e1 = find_slash(&v, 0);
    if e1 >= v.len() {
        return Err(CoordinateError::InsufficientPathSegments);
    }
    let e2 = find_slash(&v, e1 + 1);
    proof {
        lemma_seg_end_bounds(v@, e1 + 1);
    }
    let user = string_of(&slice_chars(&v, 0, e1));
    let project = string_of(&slice_chars(&v, e1 + 1, e2));
    Ok(Coordinates { user, project })
}

/// Whether `v` begins with `p`.
fn starts_with(v: &Vec<char>, p: &Vec<char>) -> (r: bool)
    ensures
        r == has_prefix(v@, p@),
{
    if v.len() < p.len() {
        return false;
    }
    let mut i: usize = 0;
    while i < p.len()
        invariant
            p@.len() <= v@.len(),
            i <= p@.len(),
            v@.subrange(0, i as int) == p@.subrange(0, i as int),
        decreases p.len() - i,
    {
        if v[i] != p[i] {
            assert(v@.subrange(0, p@.len() as int)[i as int] != p@[i as int]);
            return false;
        }
        assert(v@.subrange(0, i + 1) =~= v@.subrange(0, i as int).push(v@[i as int]));
        assert(p@.subrange(0, i + 1) =~= p@.subrange(0, i as int).push(p@[i as int]));
        i = i + 1;
    }
    assert(p@.subrange(0, p@.len() as int) =~= p@);
    true
}

/// Owner and project of a dependency's repository on the hosting service.
pub fn get_coordinates(entry: &Entry) -> (r: Result<Coordinates, CoordinateError>)
    ensures
        coords_view(r) == coordinates_of(crate::record::opt_view(entry.repository)),
{
    match &entry.repository {
        None => Err(CoordinateError::MissingRepository),
        Some(repo) => {
            let v = chars_of(repo.as_str());
            let p = chars_of(HOST_PREFIX);
            if !starts_with(&v, &p) {
                return Err(CoordinateError::NotAHostedRepository);
            }
            let rest = string_of(&slice_chars(&v, p.len(), v.len()));
            get_raw_coordinates(rest.as_str())
        },
    }
}

impl Coordinates {
    /// The address at which the service describes this repository's license.
    pub fn license_url(&self) -> (r: String)
        ensures
            r@ == API_PREFIX@ + self.user@ + seq!['/'] + self.project@ + API_SUFFIX@,
    {
        let mut out: Vec<char> = Vec::new();
        push_all(&mut out, API_PREFIX);
        push_all(&mut out, self.user.as_str());
        out.push('/');
        push_all(&mut out, self.project.as_str());
        push_all(&mut out, API_SUFFIX);
        string_of(&out)
    }
}

} // verus!
