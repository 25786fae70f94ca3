//! SPDX license expressions checked against an allow-list.
use vstd::prelude::*;

use crate::outside::{parse_terms, spdx_parsed};

verus! {

/// A node of a parsed SPDX expression, in postfix order.
pub enum Term {
    And,
    Or,
    /// A recognised SPDX license identifier.
    Spdx(String),
    /// A license reference outside the SPDX list.
    Other,
}

/// The mathematical value of a [`Term`].
pub enum TermView {
    And,
    Or,
    Spdx(Seq<char>),
    Other,
}

impl View for Term {
    type V = TermView;

    open spec fn view(&self) -> TermView {
        match self {
            Term::And => TermView::And,
            Term::Or => TermView::Or,
            Term::Spdx(id) => TermView::Spdx(id@),
            Term::Other => TermView::Other,
        }
    }
}

/// Why a declared license expression is not accepted.
pub enum Rejection {
    /// The expression does not parse; the parser's message.
    ExpressionParseError(String),
    /// The expression holds an `AND`.
    ConjunctionNotAllowed,
    /// The expression names a license outside the SPDX list.
    UnrecognizedLicenseType,
    /// No license that the expression offers is on the allow-list.
    NoAllowedLicenseFound(String),
}

pub enum RejectionView {
    ExpressionParseError(Seq<char>),
    ConjunctionNotAllowed,
    UnrecognizedLicenseType,
    NoAllowedLicenseFound(Seq<char>),
}

impl View for Rejection {
    type V = RejectionView;

    open spec fn view(&self) -> RejectionView {
        match self {
            Rejection::ExpressionParseError(m) => RejectionView::ExpressionParseError(m@),
            Rejection::ConjunctionNotAllowed => RejectionView::ConjunctionNotAllowed,
            Rejection::UnrecognizedLicenseType => RejectionView::UnrecognizedLicenseType,
            Rejection::NoAllowedLicenseFound(e) => RejectionView::NoAllowedLicenseFound(e@),
        }
    }
}

/// How declared license expressions are held against the allow-list.
#[derive(PartialEq, Eq, Structural, Clone, Copy)]
pub enum Policy {
    /// Parse the expression; every `OR` branch may satisfy the allow-list.
    Strict,
    /// Compare the whole expression text with the allow-list entries.
    Verbatim,
}

pub open spec fn views(v: Seq<String>) -> Seq<Seq<char>> {
    v.map_values(|s: String| s@)
}

pub open spec fn term_views(v: Seq<Term>) -> Seq<TermView> {
    v.map_values(|t: Term| t@)
}

pub open spec fn outcome(r: Result<(), Rejection>) -> Result<(), RejectionView> {
    match r {
        Ok(()) => Ok(()),
        Err(e) => Err(e@),
    }
}

/// The identifiers that a run of nodes offers, or the first node that makes
/// the expression unacceptable.
pub open spec fn scan(ts: Seq<TermView>) -> Result<Seq<Seq<char>>, RejectionView>
    decreases ts.len(),
{
    if ts.len() == 0 {
        Ok(Seq::empty())
    } else {
        match scan(ts.drop_last()) {
            Err(e) => Err(e),
            Ok(ids) => match ts.last() {
                TermView::And => Err(RejectionView::ConjunctionNotAllowed),
                TermView::Or => Ok(ids),
                TermView::Spdx(id) => Ok(ids.push(id)),
                TermView::Other => Err(RejectionView::UnrecognizedLicenseType),
            },
        }
    }
}

/// Whether some identifier of `ids` is on the allow-list.
pub open spec fn any_allowed(ids: Seq<Seq<char>>, allow: Seq<Seq<char>>) -> bool {
    exists|k: int| 0 <= k < ids.len() && allow.contains(#[trigger] ids[k])
}

/// The verdict on parsed nodes of `expression`.
pub open spec fn judge_terms(
    ts: Seq<TermView>,
    allow: Seq<Seq<char>>,
    expression: Seq<char>,
) -> Result<(), RejectionView> {
    match scan(ts) {
        Err(e) => Err(e),
        Ok(ids) => if any_allowed(ids, allow) {
            Ok(())
        } else {
            Err(RejectionView::NoAllowedLicenseFound(expression))
        },
    }
}

/// The verdict on a declared license expression under a policy.
pub open spec fn judge(policy: Policy, expression: Seq<char>, allow: Seq<Seq<char>>) -> Result<
    (),
    RejectionView,
> {
    match policy {
        Policy::Verbatim => if allow.contains(expression) {
            Ok(())
        } else {
            Err(RejectionView::NoAllowedLicenseFound(expression))
        },
        Policy::Strict => match spdx_parsed(expression) {
            Err(m) => Err(RejectionView::ExpressionParseError(m)),
            Ok(ts) => judge_terms(ts, allow, expression),
        },
    }
}

/// Whether `s` equals an entry of `list`.
pub fn contains_str(list: &Vec<String>, s: &String) -> (r: bool)
    ensures
        r == views(list@).contains(s@),
{
    let mut i: usize = 0;
    while i < list.len()
        invariant
            i <= list@.len(),
            forall|j: int| 0 <= j < i ==> list@[j]@ != s@,
        decreases list.len() - i,
    {
        if list[i] == *s {
            assert(views(list@)[i as int] == s@);
            return true;
        }
        i = i + 1;
    }
    assert(!views(list@).contains(s@));
    false
}

/// Checks parsed nodes of `expression` against the allow-list: an `AND` or a
/// non-SPDX license anywhere rejects it, `OR` offers both sides, and one
/// offered identifier on the list accepts it.
pub fn check_terms(terms: &Vec<Term>, allow: &Vec<String>, expression: &str) -> (r: Result<
    (),
    Rejection,
>)
    ensures
        outcome(r) == judge_terms(term_views(terms@), views(allow@), expression@),
{
    let ghost ts = term_views(terms@);
    let mut ids: Vec<String> = Vec::new();
    let mut i: usize = 0;
    assert(views(ids@) =~= Seq::<Seq<char>>::empty());
    assert(ts.subrange(0, 0) =~= Seq::<TermView>::empty());
    while i < terms.len()
        invariant
            i <= terms@.len(),
            ts == term_views(terms@),
            scan(ts.subrange(0, i as int)) == Ok::<_, RejectionView>(views(ids@)),
        decreases terms.len() - i,
    {
        assert(ts.subrange(0, i + 1).drop_last() =~= ts.subrange(0, i as int));
        assert(ts.subrange(0, i + 1).last() == terms@[i as int]@);
        match &terms[i] {
            Term::And => {
                assert(scan(ts) == scan(ts.subrange(0, i + 1))) by {
                    lemma_scan_stops(ts, i + 1);
                }
                return Err(Rejection::ConjunctionNotAllowed);
            },
            Term::Other => {
                assert(scan(ts) == scan(ts.subrange(0, i + 1))) by {
                    lemma_scan_stops(ts, i + 1);
                }
                return Err(Rejection::UnrecognizedLicenseType);
            },
            Term::Or => {},
            Term::Spdx(id) => {
                let ghost before = views(ids@);
                ids.push(id.clone());
                assert(views(ids@) =~= before.push(id@));
            },
        }
        i = i + 1;
    }
    assert(ts.subrange(0, i as int) =~= ts);
    let mut k: usize = 0;
    while k < ids.len()
        invariant
            k <= ids@.len(),
            ts == term_views(terms@),
            scan(ts) == Ok::<_, RejectionView>(views(ids@)),
            forall|j: int| 0 <= j < k ==> !views(allow@).contains(#[trigger] views(ids@)[j]),
        decreases ids.len() - k,
    {
        if contains_str(allow, &ids[k]) {
            assert(views(allow@).contains(views(ids@)[k as int]));
            return Ok(());
        }
        k = k + 1;
    }
    Err(Rejection::NoAllowedLicenseFound(expression.to_owned()))
}

/// Once a prefix of the nodes is rejected, so is the whole run, for the same
/// reason.
pub proof fn lemma_scan_stops(ts: Seq<TermView>, n: int)
    requires
        0 <= n <= ts.len(),
        scan(ts.subrange(0, n)) is Err,
    ensures
        scan(ts) == scan(ts.subrange(0, n)),
    decreases ts.len() - n,
{
    if n < ts.len() {
        assert(ts.subrange(0, n + 1).drop_last() =~= ts.subrange(0, n));
        lemma_scan_stops(ts, n + 1);
    } else {
        assert(ts.subrange(0, n) =~= ts);
    }
}

/// Checks a declared license expression against the allow-list under
/// `policy`.
pub fn evaluate(policy: Policy, expression: &str, allow: &Vec<String>) -> (r: Result<
    (),
    Rejection,
>)
    ensures
        outcome(r) == judge(policy, expression@, views(allow@)),
{
    match policy {
        Policy::Verbatim => {
            let e = expression.to_owned();
            if contains_str(allow, &e) {
                Ok(())
            } else {
                Err(Rejection::NoAllowedLicenseFound(e))
            }
        },
        Policy::Strict => match parse_terms(expression) {
            Err(m) => Err(Rejection::ExpressionParseError(m)),
            Ok(terms) => check_terms(&terms, allow, expression),
        },
    }
}

} // verus!
