//! License data that the operator supplies for a dependency, and the
//! configuration that holds it.
use vstd::prelude::*;

use crate::decode::{decode_text, decoded_text, text_view, DecodeError};
use crate::expr::{evaluate, judge, outcome, views, Policy, Rejection};
use crate::text::{push_all, string_of};

verus! {

/// The name under which the stock template is reported.
pub const MIT_NAME: &'static str = "MIT";

/// A copyright line of the stock template.
pub struct Copyright {
    pub year: u16,
    pub holder: String,
}

impl View for Copyright {
    type V = (u16, Seq<char>);

    open spec fn view(&self) -> (u16, Seq<char>) {
        (self.year, self.holder@)
    }
}

/// A license whose text the operator supplies, as base64.
pub struct CustomLicense {
    pub name: String,
    pub content: String,
}

/// License data configured for one dependency.
pub enum LicenseData {
    /// A fully custom license, its text in base64.
    Custom(CustomLicense),
    /// The stock MIT license with generated copyright lines.
    Mit(Vec<Copyright>),
}

/// The decimal digit for `d`.
pub open spec fn digit_of(d: int) -> char {
    if d == 0 {
        '0'
    } else if d == 1 {
        '1'
    } else if d == 2 {
        '2'
    } else if d == 3 {
        '3'
    } else if d == 4 {
        '4'
    } else if d == 5 {
        '5'
    } else if d == 6 {
        '6'
    } else if d == 7 {
        '7'
    } else if d == 8 {
        '8'
    } else {
        '9'
    }
}

/// The decimal notation of `n`, without leading zeros.
pub open spec fn decimal(n: nat) -> Seq<char>
    decreases n,
{
    if n < 10 {
        seq![digit_of(n as int)]
    } else {
        decimal(n / 10).push(digit_of((n % 10) as int))
    }
}

/// `copyright <year> <holder>` and a line feed.
pub open spec fn copyright_line(c: (u16, Seq<char>)) -> Seq<char> {
    COPYRIGHT_WORD@ + decimal(c.0 as nat) + seq![' '] + c.1 + seq!['\n']
}

/// One line per copyright, in order.
pub open spec fn copyright_lines(cs: Seq<(u16, Seq<char>)>) -> Seq<char>
    decreases cs.len(),
{
    if cs.len() == 0 {
        Seq::empty()
    } else {
        copyright_lines(cs.drop_last()) + copyright_line(cs.last())
    }
}

/// The stock license text: the copyright lines, a blank line and the body.
pub open spec fn mit_text(cs: Seq<(u16, Seq<char>)>) -> Seq<char> {
    copyright_lines(cs) + seq!['\n'] + MIT_TEXT@
}

pub open spec fn copyright_views(cs: Seq<Copyright>) -> Seq<(u16, Seq<char>)> {
    cs.map_values(|c: Copyright| c@)
}

/// The license name that the data reports.
pub open spec fn license_name(d: LicenseData) -> Seq<char> {
    match d {
        LicenseData::Custom(c) => c.name@,
        LicenseData::Mit(_) => MIT_NAME@,
    }
}

/// The license text that the data stands for.
pub open spec fn license_text(d: LicenseData) -> Result<Seq<char>, DecodeError> {
    match d {
        LicenseData::Custom(c) => decoded_text(c.content@),
        LicenseData::Mit(cs) => Ok(mit_text(copyright_views(cs@))),
    }
}

/// The digit character for `d`.
fn digit_char(d: u16) -> (r: char)
    requires
        d < 10,
    ensures
        r == digit_of(d as int),
{
    if d == 0 {
        '0'
    } else if d == 1 {
        '1'
    } else if d == 2 {
        '2'
    } else if d == 3 {
        '3'
    } else if d == 4 {
        '4'
    } else if d == 5 {
        '5'
    } else if d == 6 {
        '6'
    } else if d == 7 {
        '7'
    } else if d == 8 {
        '8'
    } else {
        '9'
    }
}

/// Appends the decimal notation of `n`.
pub fn push_decimal(out: &mut Vec<char>, n: u16)
    ensures
        final(out)@ == old(out)@ + decimal(n as nat),
    decreases n,
{
    if n >= 10 {
        push_decimal(out, n / 10);
    }
    out.push(digit_char(n % 10));
    assert(final(out)@ =~= old(out)@ + decimal(n as nat));
}

/// The stock license text for the given copyright lines.
pub fn render_mit(copyrights: &Vec<Copyright>) -> (r: String)
    ensures
        r@ == mit_text(copyright_views(copyrights@)),
{
    let ghost cs = copyright_views(copyrights@);
    let mut out: Vec<char> = Vec::new();
    let mut i: usize = 0;
    assert(cs.subrange(0, 0) =~= Seq::<(u16, Seq<char>)>::empty());
    while i < copyrights.len()
        invariant
            i <= copyrights@.len(),
            cs == copyright_views(copyrights@),
            out@ == copyright_lines(cs.subrange(0, i as int)),
        decreases copyrights.len() - i,
    {
        let c = &copyrights[i];
        assert(cs.subrange(0, i + 1).drop_last() =~= cs.subrange(0, i as int));
        assert(cs.subrange(0, i + 1).last() == c@);
        push_all(&mut out, COPYRIGHT_WORD);
        push_decimal(&mut out, c.year);
        out.push(' ');
        push_all(&mut out, c.holder.as_str());
        out.push('\n');
        assert(out@ =~= copyright_lines(cs.subrange(0, i + 1)));
        i = i + 1;
    }
    assert(cs.subrange(0, i as int) =~= cs);
    out.push('\n');
    push_all(&mut out, MIT_TEXT);
    string_of(&out)
}

impl LicenseData {
    /// The license name to report.
    pub fn name(&self) -> (r: String)
        ensures
            r@ == license_name(*self),
    {
        match self {
            LicenseData::Custom(x) => x.name.clone(),
            LicenseData::Mit(_) => MIT_NAME.to_owned(),
        }
    }

    /// The license text: a custom text decoded, or the stock text rendered.
    pub fn content(&self) -> (r: Result<String, DecodeError>)
        ensures
            text_view(r) == license_text(*self),
    {
        match self {
            LicenseData::Custom(x) => decode_text(x.content.as_str()),
            LicenseData::Mit(copyrights) => Ok(render_mit(copyrights)),
        }
    }
}

/// The data that the first entry keyed `key` holds.
pub open spec fn lookup(t: Seq<(String, LicenseData)>, key: Seq<char>) -> Option<LicenseData>
    decreases t.len(),
{
    if t.len() == 0 {
        None
    } else if t[0].0@ == key {
        Some(t[0].1)
    } else {
        lookup(t.drop_first(), key)
    }
}

/// The first entry of `t` keyed `key`.
fn find_entry<'a>(t: &'a Vec<(String, LicenseData)>, key: &str) -> (r: Option<&'a LicenseData>)
    ensures
        r == match lookup(t@, key@) {
            Some(d) => Some(&d),
            None => None::<&LicenseData>,
        },
{
    let k = key.to_owned();
    let mut i: usize = 0;
    assert(t@.subrange(0, t@.len() as int) =~= t@);
    while i < t.len()
        invariant
            i <= t@.len(),
            k@ == key@,
            lookup(t@, key@) == lookup(t@.subrange(i as int, t@.len() as int), key@),
        decreases t.len() - i,
    {
        assert(t@.subrange(i as int, t@.len() as int).drop_first() =~= t@.subrange(
            i + 1,
            t@.len() as int,
        ));
        if t[i].0 == k {
            return Some(&t[i].1);
        }
        i = i + 1;
    }
    None
}

/// The operator's configuration of a run.
pub struct Configuration {
    /// Dependencies left out of the report.
    pub ignore: Vec<String>,
    /// License identifiers, or whole expressions, that are accepted.
    pub allowed_licenses: Vec<String>,
    /// License data configured per dependency name.
    pub crates: Vec<(String, LicenseData)>,
    /// How declared expressions are held against `allowed_licenses`.
    pub policy: Policy,
}

impl Configuration {
    /// The license data configured for a dependency.
    pub fn get_license_data(&self, crate_name: &str) -> (r: Option<&LicenseData>)
        ensures
            r == match lookup(self.crates@, crate_name@) {
                Some(d) => Some(&d),
                None => None::<&LicenseData>,
            },
    {
        find_entry(&self.crates, crate_name)
    }

    /// Checks a declared license expression under the configured policy.
    pub fn verify_allowed(&self, license: &str) -> (r: Result<(), Rejection>)
        ensures
            outcome(r) == judge(self.policy, license@, views(self.allowed_licenses@)),
    {
        evaluate(self.policy, license, &self.allowed_licenses)
    }

    /// Whether a dependency is left out of the report.
    pub fn ignore(&self, name: &str) -> (r: bool)
        ensures
            r == views(self.ignore@).contains(name@),
    {
        crate::expr::contains_str(&self.ignore, &name.to_owned())
    }
}

/// A table of license data keyed by dependency name.
pub struct LicenseTable {
    map: Vec<(String, LicenseData)>,
}

impl LicenseTable {
    pub closed spec fn entries(&self) -> Seq<(String, LicenseData)> {
        self.map@
    }

    /// The license data kept for a dependency.
    pub fn get(&self, name: &str) -> (r: Option<&LicenseData>)
        ensures
            r == match lookup(self.entries(), name@) {
                Some(d) => Some(&d),
                None => None::<&LicenseData>,
            },
    {
        find_entry(&self.map, name)
    }
}

/// A table of the given entries; where a name occurs twice the first entry
/// counts.
pub fn get_license_table(entries: Vec<(String, LicenseData)>) -> (r: LicenseTable)
    ensures
        r.entries() == entries@,
{
    LicenseTable { map: entries }
}

/// The word that opens a copyright line.
pub const COPYRIGHT_WORD: &'static str = "copyright ";

/// The body of the stock MIT license.
pub const MIT_TEXT: &'static str = "
Permission is hereby granted, free of charge, to any person obtaining a copy of this software and associated documentation files
(the \"Software\"), to deal in the Software without restriction, including without limitation the rights to use, copy, modify, merge,
publish, distribute, sublicense, and/or sell copies of the Software, and to permit persons to whom the Software is furnished to do so,
subject to the following conditions:

The above copyright notice and this permission notice shall be included in all copies or substantial portions of the Software.

THE SOFTWARE IS PROVIDED \"AS IS\", WITHOUT WARRANTY OF ANY KIND, EXPRESS OR IMPLIED, INCLUDING BUT NOT LIMITED TO
THE WARRANTIES OF MERCHANTABILITY, FITNESS FOR A PARTICULAR PURPOSE AND NONINFRINGEMENT. IN NO EVENT SHALL THE
AUTHORS OR COPYRIGHT HOLDERS BE LIABLE FOR ANY CLAIM, DAMAGES OR OTHER LIABILITY, WHETHER IN AN ACTION OF
CONTRACT, TORT OR OTHERWISE, ARISING FROM, OUT OF OR IN CONNECTION WITH THE SOFTWARE OR THE USE OR OTHER
DEALINGS IN THE SOFTWARE.
";

} // verus!
