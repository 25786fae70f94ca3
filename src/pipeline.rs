//! The run over an import list: which dependencies are reported, and where
//! each one's license comes from.
use vstd::prelude::*;

use crate::coords::{coordinates_of, get_coordinates, CoordinateError, Coordinates};
use crate::decode::{blob_text, decode_blob, DecodeError};
use crate::expr::{judge, outcome, views, Rejection, RejectionView};
use crate::license::{license_name, license_text, lookup, Configuration};
use crate::record::{opt_view, Entry};

verus! {

/// The expression checked for a dependency that declares none.
pub const UNKNOWN_LICENSE: &'static str = "UNKNOWN";

/// Shown for a missing repository or description.
pub const NONE_SPECIFIED: &'static str = "none specified";

/// Shown for missing authors.
pub const NOT_SPECIFIED: &'static str = "not specified";

/// Why a remote license lookup failed.
pub enum LookupError {
    /// No coordinates come from the repository URL.
    Coordinates(CoordinateError),
    /// The transport failed; its message.
    Transport(String),
    /// The text that came back does not decode.
    Decode(DecodeError),
}

pub enum LookupErrorView {
    Coordinates(CoordinateError),
    Transport(Seq<char>),
    Decode(DecodeError),
}

impl View for LookupError {
    type V = LookupErrorView;

    open spec fn view(&self) -> LookupErrorView {
        match self {
            LookupError::Coordinates(c) => LookupErrorView::Coordinates(*c),
            LookupError::Transport(m) => LookupErrorView::Transport(m@),
            LookupError::Decode(d) => LookupErrorView::Decode(*d),
        }
    }
}

/// What stops a run at one dependency.
pub enum Failure {
    /// The configured license data does not decode.
    MalformedOverride(DecodeError),
    /// The declared license is not accepted.
    Rejected(Rejection),
    /// The remote lookup failed.
    Lookup(LookupError),
}

pub enum FailureView {
    MalformedOverride(DecodeError),
    Rejected(RejectionView),
    Lookup(LookupErrorView),
}

impl View for Failure {
    type V = FailureView;

    open spec fn view(&self) -> FailureView {
        match self {
            Failure::MalformedOverride(d) => FailureView::MalformedOverride(*d),
            Failure::Rejected(r) => FailureView::Rejected(r@),
            Failure::Lookup(l) => FailureView::Lookup(l@),
        }
    }
}

/// A failure at the dependency at `index` of the import list, named `name`.
pub struct ResolveError {
    pub index: usize,
    pub name: String,
    pub cause: Failure,
}

impl View for ResolveError {
    type V = (int, Seq<char>, FailureView);

    open spec fn view(&self) -> (int, Seq<char>, FailureView) {
        (self.index as int, self.name@, self.cause@)
    }
}

/// Where a reported dependency's license comes from.
pub enum Source {
    /// The operator's configured data, already decoded.
    Override { license_name: String, license_text: String },
    /// A remote lookup for the repository at these coordinates.
    Remote(Coordinates),
}

pub enum SourceView {
    Override { license_name: Seq<char>, license_text: Seq<char> },
    Remote { user: Seq<char>, project: Seq<char> },
}

impl View for Source {
    type V = SourceView;

    open spec fn view(&self) -> SourceView {
        match self {
            Source::Override { license_name, license_text } => SourceView::Override {
                license_name: license_name@,
                license_text: license_text@,
            },
            Source::Remote(c) => SourceView::Remote { user: c.user@, project: c.project@ },
        }
    }
}

/// A dependency to report: its place in the import list and its license
/// source.
pub struct Planned {
    pub index: usize,
    pub source: Source,
}

impl View for Planned {
    type V = (int, SourceView);

    open spec fn view(&self) -> (int, SourceView) {
        (self.index as int, self.source@)
    }
}

/// One dependency of the report.
pub struct ResolvedRecord {
    pub name: String,
    pub repository: String,
    pub authors: String,
    pub description: String,
    pub license_name: String,
    pub license_text: String,
}

/// The expression checked for a dependency.
pub open spec fn declared_of(e: Entry) -> Seq<char> {
    match e.license {
        Some(l) => l@,
        None => UNKNOWN_LICENSE@,
    }
}

/// An optional field as shown, `placeholder` standing in for a missing one.
pub open spec fn shown(o: Option<String>, placeholder: Seq<char>) -> Seq<char> {
    match o {
        Some(s) => s@,
        None => placeholder,
    }
}

/// Whether the entry at `i` is reported: its name is not ignored and no
/// earlier entry has it.
pub open spec fn first_kept(c: Configuration, es: Seq<Entry>, i: int) -> bool {
    !views(c.ignore@).contains(es[i].name@) && forall|j: int|
        0 <= j < i ==> (#[trigger] es[j]).name@ != es[i].name@
}

/// Where the license of one reported dependency comes from: the configured
/// data when there is some, else the declared expression must be accepted
/// and the repository must be on the hosting service.
pub open spec fn decide(c: Configuration, e: Entry) -> Result<SourceView, FailureView> {
    match lookup(c.crates@, e.name@) {
        Some(d) => match license_text(d) {
            Err(de) => Err(FailureView::MalformedOverride(de)),
            Ok(t) => Ok(SourceView::Override { license_name: license_name(d), license_text: t }),
        },
        None => match judge(c.policy, declared_of(e), views(c.allowed_licenses@)) {
            Err(r) => Err(FailureView::Rejected(r)),
            Ok(()) => match coordinates_of(opt_view(e.repository)) {
                Err(ce) => Err(FailureView::Lookup(LookupErrorView::Coordinates(ce))),
                Ok((u, p)) => Ok(SourceView::Remote { user: u, project: p }),
            },
        },
    }
}

/// The plan of a run from the entry at `i` on: the reported dependencies in
/// order, up to the first failure, and that failure.
pub open spec fn plan_from(c: Configuration, es: Seq<Entry>, i: int) -> (
    Seq<(int, SourceView)>,
    Option<(int, Seq<char>, FailureView)>,
)
    decreases es.len() - i,
{
    if i < 0 || i >= es.len() {
        (Seq::empty(), None)
    } else if !first_kept(c, es, i) {
        plan_from(c, es, i + 1)
    } else {
        match decide(c, es[i]) {
            Err(f) => (Seq::empty(), Some((i, es[i].name@, f))),
            Ok(s) => {
                let rest = plan_from(c, es, i + 1);
                (seq![(i, s)] + rest.0, rest.1)
            },
        }
    }
}

pub open spec fn plan_view(r: (Vec<Planned>, Option<ResolveError>)) -> (
    Seq<(int, SourceView)>,
    Option<(int, Seq<char>, FailureView)>,
) {
    (
        r.0@.map_values(|p: Planned| p@),
        match r.1 {
            Some(e) => Some(e@),
            None => None,
        },
    )
}

/// The source of one dependency's license.
pub fn resolve_source(config: &Configuration, entry: &Entry) -> (r: Result<Source, Failure>)
    ensures
        match r {
            Ok(s) => decide(*config, *entry) == Ok::<_, FailureView>(s@),
            Err(f) => decide(*config, *entry) == Err::<SourceView, _>(f@),
        },
{
    match config.get_license_data(entry.name.as_str()) {
        Some(data) => match data.content() {
            Err(de) => Err(Failure::MalformedOverride(de)),
            Ok(t) => Ok(Source::Override { license_name: data.name(), license_text: t }),
        },
        None => {
            let declared = match &entry.license {
                Some(l) => l.clone(),
                None => UNKNOWN_LICENSE.to_owned(),
            };
            match config.verify_allowed(declared.as_str()) {
                Err(r) => Err(Failure::Rejected(r)),
                Ok(()) => match get_coordinates(entry) {
                    Err(ce) => Err(Failure::Lookup(LookupError::Coordinates(ce))),
                    Ok(c) => Ok(Source::Remote(c)),
                },
            }
        },
    }
}

/// The unchanged part of a plan once the entries before `i` are handled.
proof fn lemma_plan_step(c: Configuration, es: Seq<Entry>, i: int)
    requires
        0 <= i < es.len(),
    ensures
        !first_kept(c, es, i) ==> plan_from(c, es, i) == plan_from(c, es, i + 1),
{
}

/// Decides a whole run: walks the import list in order, skips ignored names
/// and names already seen, and gives each remaining dependency its license
/// source, up to the first dependency at which the run fails.
pub fn plan(config: &Configuration, entries: &Vec<Entry>) -> (r: (Vec<Planned>, Option<ResolveError>))
    ensures
        plan_view(r) == plan_from(*config, entries@, 0),
{
    let ghost es = entries@;
    let mut out: Vec<Planned> = Vec::new();
    let mut seen: Vec<String> = Vec::new();
    let mut i: usize = 0;
    while i < entries.len()
        invariant
            es == entries@,
            i <= es.len(),
            plan_from(*config, es, 0) == (
                out@.map_values(|p: Planned| p@) + plan_from(*config, es, i as int).0,
                plan_from(*config, es, i as int).1,
            ),
            forall|n: Seq<char>|
                !views(config.ignore@).contains(n) ==> (views(seen@).contains(n) <==> exists|
                    j: int,
                | 0 <= j < i && (#[trigger] es[j]).name@ == n),
        decreases entries.len() - i,
    {
        let e = &entries[i];
        if config.ignore(e.name.as_str()) {
            proof {
                lemma_plan_step(*config, es, i as int);
                assert forall|n: Seq<char>| !views(config.ignore@).contains(n) implies (views(
                    seen@,
                ).contains(n) <==> exists|j: int| 0 <= j < i + 1 && (#[trigger] es[j]).name@ == n) by {
                    if exists|j: int| 0 <= j < i + 1 && (#[trigger] es[j]).name@ == n {
                        let j = choose|j: int| 0 <= j < i + 1 && (#[trigger] es[j]).name@ == n;
                        assert(j != i);
                    }
                }
            }
            i = i + 1;
            continue;
        }
        if crate::expr::contains_str(&seen, &e.name) {
            proof {
                let j = choose|j: int| 0 <= j < i && (#[trigger] es[j]).name@ == e.name@;
                assert(!first_kept(*config, es, i as int));
                lemma_plan_step(*config, es, i as int);
                assert forall|n: Seq<char>| !views(config.ignore@).contains(n) implies (views(
                    seen@,
                ).contains(n) <==> exists|j: int| 0 <= j < i + 1 && (#[trigger] es[j]).name@ == n) by {
                    if exists|j: int| 0 <= j < i + 1 && (#[trigger] es[j]).name@ == n {
                        let k = choose|k: int| 0 <= k < i + 1 && (#[trigger] es[k]).name@ == n;
                        if k == i {
                            assert(es[j].name@ == n);
                        }
                    }
                }
            }
            i = i + 1;
            continue;
        }
        let ghost before = views(seen@);
        seen.push(e.name.clone());
        assert(views(seen@) =~= before.push(e.name@));
        assert forall|n: Seq<char>| !views(config.ignore@).contains(n) implies (views(
            seen@,
        ).contains(n) <==> exists|j: int| 0 <= j < i + 1 && (#[trigger] es[j]).name@ == n) by {
            if n == e.name@ {
                assert(views(seen@)[before.len() as int] == n);
                assert(es[i as int].name@ == n);
            } else {
                assert(es[i as int].name@ != n);
                if views(seen@).contains(n) {
                    let k = choose|k: int| 0 <= k < views(seen@).len() && views(seen@)[k] == n;
                    assert(before[k] == n);
                    assert(before.contains(n));
                }
                if before.contains(n) {
                    let k = choose|k: int| 0 <= k < before.len() && before[k] == n;
                    assert(views(seen@)[k] == n);
                }
                if exists|j: int| 0 <= j < i + 1 && (#[trigger] es[j]).name@ == n {
                    let k = choose|k: int| 0 <= k < i + 1 && (#[trigger] es[k]).name@ == n;
                    assert(k != i);
                    assert(exists|j: int| 0 <= j < i && (#[trigger] es[j]).name@ == n);
                }
            }
        }
        assert(first_kept(*config, es, i as int));
        match resolve_source(config, e) {
            Err(f) => {
                let err = ResolveError { index: i, name: e.name.clone(), cause: f };
                return (out, Some(err));
            },
            Ok(s) => {
                let ghost prev = out@.map_values(|p: Planned| p@);
                out.push(Planned { index: i, source: s });
                assert(out@.map_values(|p: Planned| p@) =~= prev.push((i as int, s@)));
                assert(prev + plan_from(*config, es, i as int).0 =~= prev.push((i as int, s@))
                    + plan_from(*config, es, i + 1).0);
            },
        }
        i = i + 1;
    }
    assert(out@.map_values(|p: Planned| p@) + Seq::<(int, SourceView)>::empty() =~= out@.map_values(
        |p: Planned| p@,
    ));
    (out, None)
}

/// Each reported dependency of a plan from `i` on is a first occurrence of a
/// name that is not ignored, at or after `i`, reported in import-list order
/// with the source that `decide` gives it; and so is the dependency at which
/// the plan fails.
pub proof fn lemma_plan_shape(c: Configuration, es: Seq<Entry>, i: int)
    requires
        0 <= i,
    ensures
        forall|k: int|
            0 <= k < plan_from(c, es, i).0.len() ==> {
                let p = #[trigger] plan_from(c, es, i).0[k];
                &&& i <= p.0 < es.len()
                &&& first_kept(c, es, p.0)
                &&& decide(c, es[p.0]) == Ok::<_, FailureView>(p.1)
            },
        forall|k1: int, k2: int|
            0 <= k1 < k2 < plan_from(c, es, i).0.len() ==> (#[trigger] plan_from(c, es, i).0[k1]).0
                < (#[trigger] plan_from(c, es, i).0[k2]).0,
        plan_from(c, es, i).1 matches Some(f) ==> {
            &&& i <= f.0 < es.len()
            &&& first_kept(c, es, f.0)
            &&& f.1 == es[f.0].name@
            &&& decide(c, es[f.0]) == Err::<SourceView, _>(f.2)
        },
    decreases es.len() - i,
{
    if i < es.len() {
        lemma_plan_shape(c, es, i + 1);
        if first_kept(c, es, i) {
            if let Ok(s) = decide(c, es[i]) {
                let rest = plan_from(c, es, i + 1);
                let all = plan_from(c, es, i);
                assert(all.0 == seq![(i, s)] + rest.0);
                assert forall|k: int| 0 < k < all.0.len() implies all.0[k] == rest.0[k - 1] by {}
            }
        }
    }
}

/// Where a run fails at no dependency, every first occurrence of a name
/// that is not ignored, at or after `i`, is reported.
pub proof fn lemma_plan_complete(c: Configuration, es: Seq<Entry>, i: int, m: int)
    requires
        0 <= i <= m < es.len(),
        first_kept(c, es, m),
        plan_from(c, es, i).1 is None,
    ensures
        exists|k: int|
            0 <= k < plan_from(c, es, i).0.len() && (#[trigger] plan_from(c, es, i).0[k]).0 == m,
    decreases es.len() - i,
{
    let all = plan_from(c, es, i);
    if i == m {
        assert(all.0[0].0 == m);
    } else {
        lemma_plan_complete(c, es, i + 1, m);
        let rest = plan_from(c, es, i + 1);
        let k = choose|k: int| 0 <= k < rest.0.len() && (#[trigger] rest.0[k]).0 == m;
        if first_kept(c, es, i) {
            assert(all.0[k + 1] == rest.0[k]);
        } else {
            assert(all.0[k] == rest.0[k]);
        }
    }
}

/// A dependency whose name occurs twice in the import list is reported once
/// at most, from its first occurrence: no later occurrence is reported, no
/// two reported dependencies share a name, and where the run does not fail
/// and the name is not ignored the first occurrence is reported.
pub proof fn lemma_dedup(c: Configuration, es: Seq<Entry>, first: int, later: int)
    requires
        0 <= first < later < es.len(),
        es[first].name@ == es[later].name@,
        forall|j: int| 0 <= j < first ==> (#[trigger] es[j]).name@ != es[first].name@,
    ensures
        forall|k: int|
            0 <= k < plan_from(c, es, 0).0.len() ==> (#[trigger] plan_from(c, es, 0).0[k]).0
                != later,
        forall|k1: int, k2: int|
            0 <= k1 < plan_from(c, es, 0).0.len() && 0 <= k2 < plan_from(c, es, 0).0.len()
                && es[(#[trigger] plan_from(c, es, 0).0[k1]).0].name@ == es[(
            #[trigger] plan_from(c, es, 0).0[k2]).0].name@ ==> k1 == k2,
        plan_from(c, es, 0).1 is None && !views(c.ignore@).contains(es[first].name@) ==> exists|
            k: int,
        | 0 <= k < plan_from(c, es, 0).0.len() && (#[trigger] plan_from(c, es, 0).0[k]).0 == first,
{
    lemma_plan_shape(c, es, 0);
    let ps = plan_from(c, es, 0).0;
    assert forall|k: int| 0 <= k < ps.len() implies (#[trigger] ps[k]).0 != later by {
        if ps[k].0 == later {
            assert(es[first].name@ == es[later].name@);
        }
    }
    assert forall|k1: int, k2: int|
        0 <= k1 < ps.len() && 0 <= k2 < ps.len() && es[(#[trigger] ps[k1]).0].name@ == es[(
        #[trigger] ps[k2]).0].name@ implies k1 == k2 by {
        if k1 < k2 {
            assert(es[ps[k1].0].name@ == es[ps[k2].0].name@);
        } else if k2 < k1 {
            assert(es[ps[k2].0].name@ == es[ps[k1].0].name@);
        }
    }
    if plan_from(c, es, 0).1 is None && !views(c.ignore@).contains(es[first].name@) {
        assert(first_kept(c, es, first));
        lemma_plan_complete(c, es, 0, first);
    }
}

/// An ignored name is never reported, and a run never fails at it.
pub proof fn lemma_ignored_skipped(c: Configuration, es: Seq<Entry>, name: Seq<char>)
    requires
        views(c.ignore@).contains(name),
    ensures
        forall|k: int|
            0 <= k < plan_from(c, es, 0).0.len() ==> es[(#[trigger] plan_from(c, es, 0).0[k]).0].name@
                != name,
        plan_from(c, es, 0).1 matches Some(f) ==> f.1 != name,
{
    lemma_plan_shape(c, es, 0);
}

/// A dependency with configured license data is reported with that data's
/// name and text, whatever license it declares; and a run fails at it only
/// when that data does not decode.
pub proof fn lemma_override_precedence(c: Configuration, es: Seq<Entry>)
    ensures
        forall|k: int|
            0 <= k < plan_from(c, es, 0).0.len() ==> {
                let p = #[trigger] plan_from(c, es, 0).0[k];
                lookup(c.crates@, es[p.0].name@) matches Some(d) ==> license_text(d) matches Ok(t)
                    && p.1 == (SourceView::Override { license_name: license_name(d), license_text: t })
            },
        plan_from(c, es, 0).1 matches Some(f) ==> (lookup(c.crates@, f.1) is Some
            ==> f.2 is MalformedOverride),
{
    lemma_plan_shape(c, es, 0);
}

/// A run depends on its configuration and import list alone: two runs on
/// the same inputs plan the same.
pub proof fn lemma_plan_repeatable(
    c: Configuration,
    es: Seq<Entry>,
    r1: (Vec<Planned>, Option<ResolveError>),
    r2: (Vec<Planned>, Option<ResolveError>),
)
    requires
        plan_view(r1) == plan_from(c, es, 0),
        plan_view(r2) == plan_from(c, es, 0),
    ensures
        plan_view(r1) == plan_view(r2),
{
}

/// The record shown for a dependency, with placeholders for what the
/// import list left out.
pub fn resolved_record(entry: &Entry, license_name: String, license_text: String) -> (r:
    ResolvedRecord)
    ensures
        r.name@ == entry.name@,
        r.repository@ == shown(entry.repository, NONE_SPECIFIED@),
        r.authors@ == shown(entry.authors, NOT_SPECIFIED@),
        r.description@ == shown(entry.description, NONE_SPECIFIED@),
        r.license_name@ == license_name@,
        r.license_text@ == license_text@,
{
    let repository = match &entry.repository {
        Some(s) => s.clone(),
        None => NONE_SPECIFIED.to_owned(),
    };
    let authors = match &entry.authors {
        Some(s) => s.clone(),
        None => NOT_SPECIFIED.to_owned(),
    };
    let description = match &entry.description {
        Some(s) => s.clone(),
        None => NONE_SPECIFIED.to_owned(),
    };
    ResolvedRecord {
        name: entry.name.clone(),
        repository,
        authors,
        description,
        license_name,
        license_text,
    }
}

/// The license of a remote lookup's answer: its name, and the text of its
/// base64 blob, white space in the blob left out.
pub fn remote_license(license_name: String, blob: &str) -> (r: Result<(String, String), LookupError>)
    ensures
        match r {
            Ok((n, t)) => n@ == license_name@ && blob_text(blob@) == Ok::<_, DecodeError>(t@),
            Err(e) => blob_text(blob@) matches Err(d) && e@ == LookupErrorView::Decode(d),
        },
{
    match decode_blob(blob) {
        Ok(t) => Ok((license_name, t)),
        Err(d) => Err(LookupError::Decode(d)),
    }
}

} // verus!
