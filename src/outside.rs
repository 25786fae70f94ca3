use spdx::expression::{ExprNode, Operator};
use spdx::LicenseItem;
use vstd::prelude::*;

use crate::expr::{Term, TermView};

verus! {

/// Relies on `FromIterator<char> for String`: the string holds exactly the
/// given characters, in order.
#[verifier::external_body]
pub(crate) fn string_from_chars(v: &Vec<char>) -> (r: String)
    ensures
        r@ == v@,
{
    v.iter().collect()
}

/// The bytes that `base64::decode` (standard alphabet, padded) makes of a
/// text, or none where the text is not valid base64.
pub uninterp spec fn base64_decoded(s: Seq<char>) -> Option<Seq<u8>>;

/// Relies on `base64::decode`, which decodes with the standard engine.
#[verifier::external_body]
#[allow(deprecated)]
pub(crate) fn decode_base64(s: &str) -> (r: Option<Vec<u8>>)
    ensures
        base64_decoded(s@) == match r {
            Some(b) => Some(b@),
            None => None::<Seq<u8>>,
        },
{
    base64::decode(s).ok()
}

/// The text whose UTF-8 encoding the bytes are, or none where they are not
/// valid UTF-8.
pub uninterp spec fn utf8_text(b: Seq<u8>) -> Option<Seq<char>>;

/// Relies on `String::from_utf8`, which accepts exactly the valid UTF-8
/// sequences.
#[verifier::external_body]
pub(crate) fn string_from_utf8(b: Vec<u8>) -> (r: Option<String>)
    ensures
        utf8_text(b@) == match r {
            Some(s) => Some(s@),
            None => None::<Seq<char>>,
        },
{
    String::from_utf8(b).ok()
}

/// What `spdx::Expression::parse_mode` makes of a text, with the SPDX
/// identifiers of the strict mode and the deprecated ones accepted: the
/// expression's nodes in postfix order, or the `Display` text of its error.
pub uninterp spec fn spdx_parsed(s: Seq<char>) -> Result<Seq<TermView>, Seq<char>>;

/// Relies on `spdx::Expression::parse_mode` and `Expression::iter`; each node
/// is carried over variant for variant, an identifier by its `name`.
#[verifier::external_body]
pub(crate) fn parse_terms(s: &str) -> (r: Result<Vec<Term>, String>)
    ensures
        spdx_parsed(s@) == match r {
            Ok(v) => Ok::<_, Seq<char>>(v@.map_values(|t: Term| t@)),
            Err(m) => Err::<Seq<TermView>, _>(m@),
        },
{
    let mode = spdx::ParseMode { allow_deprecated: true, ..spdx::ParseMode::STRICT };
    let e = spdx::Expression::parse_mode(s, mode).map_err(|e| e.to_string())?;
    let mut v = Vec::new();
    for n in e.iter() {
        v.push(match n {
            ExprNode::Op(Operator::And) => Term::And,
            ExprNode::Op(Operator::Or) => Term::Or,
            ExprNode::Req(r) => match &r.req.license {
                LicenseItem::Spdx { id, .. } => Term::Spdx(id.name.to_string()),
                LicenseItem::Other(_) => Term::Other,
            },
        });
    }
    Ok(v)
}

} // verus!
