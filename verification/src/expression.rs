use vstd::prelude::*;

use crate::text::{chars_of, occurs_at, occurs_at_exec};

verus! {

#[verifier::external_type_specification]
#[verifier::external_body]
pub struct ExSpdxExpressionError(spdx_expression::SpdxExpressionError);

/// A simple license expression, as a parsed SPDX expression lists them: a
/// license identifier, the document it refers to, and whether it is a
/// user-defined `LicenseRef`.
#[derive(Clone, Debug, PartialEq, Eq)]
pub struct SimpleLicense {
    pub identifier: String,
    pub document_ref: Option<String>,
    pub license_ref: bool,
}

pub struct SimpleLicenseView {
    pub identifier: Seq<char>,
    pub document_ref: Option<Seq<char>>,
    pub license_ref: bool,
}

pub open spec fn opt_view(o: Option<String>) -> Option<Seq<char>> {
    match o {
        Some(s) => Some(s@),
        None => None,
    }
}

pub open spec fn strings_view(v: Seq<String>) -> Seq<Seq<char>> {
    v.map_values(|s: String| s@)
}

impl View for SimpleLicense {
    type V = SimpleLicenseView;

    open spec fn view(&self) -> SimpleLicenseView {
        SimpleLicenseView {
            identifier: self.identifier@,
            document_ref: opt_view(self.document_ref),
            license_ref: self.license_ref,
        }
    }
}

pub open spec fn simple_licenses_view(v: Seq<SimpleLicense>) -> Seq<SimpleLicenseView> {
    v.map_values(|l: SimpleLicense| l@)
}

pub open spec fn identifiers_of(v: Seq<SimpleLicenseView>) -> Seq<Seq<char>> {
    v.map_values(|l: SimpleLicenseView| l.identifier)
}

/// The set of simple licenses that `SpdxExpression::parse` finds in
/// `expression` and `licenses()` lists, or `None` where the parse fails.
pub uninterp spec fn spdx_expression_licenses(expression: Seq<char>) -> Option<Set<SimpleLicenseView>>;

/// `listing` lists the licenses of the parsed `expression`: each once, in
/// some order.
pub open spec fn lists_licenses_of(expression: Seq<char>, listing: Seq<SimpleLicenseView>) -> bool {
    match spdx_expression_licenses(expression) {
        Some(set) => listing.no_duplicates() && listing.to_set() == set,
        None => false,
    }
}

/// A character that may stand in an SPDX id string: an ASCII letter or digit,
/// `-` or `.`.
pub open spec fn is_id_char(c: char) -> bool {
    ||| ('a' <= c && c <= 'z')
    ||| ('A' <= c && c <= 'Z')
    ||| ('0' <= c && c <= '9')
    ||| c == '-'
    ||| c == '.'
}

/// Every character of `t` from position `p` on is an id character.
pub open spec fn all_id_from(t: Seq<char>, p: int) -> bool {
    forall|k: int| p <= k < t.len() ==> is_id_char(#[trigger] t[k])
}

/// A character that the parser's `multispace` rules skip.
pub open spec fn is_space(c: char) -> bool {
    c == ' ' || c == '\t' || c == '\r' || c == '\n'
}

/// A character that can end a term of an SPDX expression (or stand after it):
/// white space, the `+` of a license id, or a closing parenthesis.
pub open spec fn ends_term(c: char) -> bool {
    is_space(c) || c == '+' || c == ')'
}

/// An `AND` or `OR` keyword (in any case) ends just before position `q`, and
/// stands where a term can have ended.
pub open spec fn keyword_before(t: Seq<char>, q: int) -> bool {
    ||| (q >= 4 && q <= t.len() && (t[q - 3] == 'a' || t[q - 3] == 'A') && (t[q - 2] == 'n' || t[q - 2] == 'N')
        && (t[q - 1] == 'd' || t[q - 1] == 'D') && ends_term(t[q - 4]))
    ||| (q >= 3 && q <= t.len() && (t[q - 2] == 'o' || t[q - 2] == 'O') && (t[q - 1] == 'r' || t[q - 1] == 'R')
        && ends_term(t[q - 3]))
}

/// Position `q` is one where the parser can begin reading a term: the start
/// of the text, just after an opening parenthesis, or just after a keyword.
pub open spec fn term_may_start(t: Seq<char>, q: int) -> bool {
    q == 0 || (0 < q <= t.len() && t[q - 1] == '(') || keyword_before(t, q)
}

/// From `q` to `i` there is only white space.
pub open spec fn all_space(t: Seq<char>, q: int, i: int) -> bool {
    forall|k: int| q <= k < i ==> is_space(#[trigger] t[k])
}

/// The text from `i` on is `DocumentRef-` and a non-empty id string, with no
/// `:` after it.
pub open spec fn document_ref_tail_at(t: Seq<char>, i: int) -> bool {
    &&& occurs_at(t, "DocumentRef-"@, i)
    &&& i + "DocumentRef-"@.len() < t.len()
    &&& all_id_from(t, i + "DocumentRef-"@.len())
}

/// The text ends with `DocumentRef-` and an id string, at a place where a
/// term may start (after white space at most). The parser of
/// `spdx-expression` panics only on such texts: its `DocumentRef-` rule reads
/// the `:` with a streaming parser, which asks for more input at the end of
/// the text, and the parser then panics when it finishes. Not every such text
/// makes it panic (the place may be one that the parse never reaches): this
/// is a safe over-approximation.
pub open spec fn parser_may_panic(t: Seq<char>) -> bool {
    exists|q: int, i: int| #![trigger all_space(t, q, i), document_ref_tail_at(t, i)]
        0 <= q <= i && all_space(t, q, i) && term_may_start(t, q) && document_ref_tail_at(t, i)
}

fn is_id_char_exec(c: char) -> (r: bool)
    ensures
        r == is_id_char(c),
{
    ('a' <= c && c <= 'z') || ('A' <= c && c <= 'Z') || ('0' <= c && c <= '9') || c == '-' || c == '.'
}

fn is_space_exec(c: char) -> (r: bool)
    ensures
        r == is_space(c),
{
    c == ' ' || c == '\t' || c == '\r' || c == '\n'
}

fn term_may_start_exec(t: &Vec<char>, q: usize) -> (r: bool)
    requires
        q <= t@.len(),
    ensures
        r == term_may_start(t@, q as int),
{
    if q == 0 {
        return true;
    }
    if t[q - 1] == '(' {
        return true;
    }
    let and_kw = q >= 4 && (t[q - 3] == 'a' || t[q - 3] == 'A') && (t[q - 2] == 'n' || t[q - 2] == 'N')
        && (t[q - 1] == 'd' || t[q - 1] == 'D') && (is_space_exec(t[q - 4]) || t[q - 4] == '+' || t[q - 4] == ')');
    let or_kw = q >= 3 && (t[q - 2] == 'o' || t[q - 2] == 'O') && (t[q - 1] == 'r' || t[q - 1] == 'R')
        && (is_space_exec(t[q - 3]) || t[q - 3] == '+' || t[q - 3] == ')');
    and_kw || or_kw
}

/// The start of the run of white space that ends at `i`.
fn space_run_start(t: &Vec<char>, i: usize) -> (q: usize)
    requires
        i <= t@.len(),
    ensures
        q <= i,
        all_space(t@, q as int, i as int),
        q == 0 || !is_space(t@[q - 1]),
{
    let mut q = i;
    while q > 0
        invariant
            q <= i <= t@.len(),
            all_space(t@, q as int, i as int),
        decreases q,
    {
        if !is_space_exec(t[q - 1]) {
            return q;
        }
        q = q - 1;
    }
    q
}

proof fn run_start_decides(t: Seq<char>, q0: int, i: int)
    requires
        0 <= q0 <= i <= t.len(),
        all_space(t, q0, i),
        q0 == 0 || !is_space(t[q0 - 1]),
    ensures
        (exists|q: int| 0 <= q <= i && all_space(t, q, i) && term_may_start(t, q)) <==> term_may_start(t, q0),
{
    assert forall|q: int| 0 <= q <= i && all_space(t, q, i) && term_may_start(t, q) implies term_may_start(t, q0) by {
        if q > q0 {
            assert(is_space(t[q - 1]));
        } else if q < q0 {
            assert(is_space(t[q0 - 1]));
        }
    }
}

/// Whether the text may make the parser panic (see `parser_may_panic`).
pub fn text_parser_may_panic(text: &str) -> (r: bool)
    ensures
        r == parser_may_panic(text@),
{
    let t = chars_of(text);
    let needle = chars_of("DocumentRef-");
    let n = t.len();
    let m = needle.len();
    let mut j: usize = n;
    loop
        invariant
            j <= n,
            n == t@.len(),
            all_id_from(t@, j as int),
        ensures
            j <= n,
            all_id_from(t@, j as int),
            j == 0 || !is_id_char(t@[j - 1]),
        decreases j,
    {
        if j == 0 {
            break;
        }
        if !is_id_char_exec(t[j - 1]) {
            break;
        }
        j = j - 1;
    }
    let mut i: usize = 0;
    while i < n
        invariant
            i <= n,
            j <= n,
            n == t@.len(),
            m == needle@.len(),
            t@ == text@,
            needle@ == "DocumentRef-"@,
            all_id_from(t@, j as int),
            j == 0 || !is_id_char(t@[j - 1]),
            forall|k: int| 0 <= k < i ==> !(document_ref_tail_at(text@, k)
                && exists|q: int| 0 <= q <= k && all_space(text@, q, k) && term_may_start(text@, q)),
        decreases n - i,
    {
        if m < n - i {
            assert(i + m < j ==> !all_id_from(t@, i + m)) by {
                if i + m < j {
                    assert(0 < j <= n);
                    assert(i + m <= j - 1 < t@.len());
                    assert(!is_id_char(t@[j - 1]));
                }
            }
            if i + m >= j && occurs_at_exec(&t, &needle, i) {
                let q = space_run_start(&t, i);
                proof { run_start_decides(t@, q as int, i as int); }
                if term_may_start_exec(&t, q) {
                    assert(all_space(text@, q as int, i as int) && document_ref_tail_at(text@, i as int));
                    return true;
                }
            }
        }
        i = i + 1;
    }
    assert forall|q: int, k: int| 0 <= q <= k && all_space(text@, q, k) && term_may_start(text@, q)
        implies !document_ref_tail_at(text@, k) by {
        if document_ref_tail_at(text@, k) {
            assert(k < n);
        }
    }
    false
}

/// Calls `spdx_expression::SpdxExpression::parse` on `expression` and, where
/// it succeeds, `licenses()` on the result. Claimed: the parse succeeds or
/// fails as a function of the text alone, and on success the returned list
/// holds each element of the (deterministic) license set exactly once. The
/// order is that of a `HashSet` walk and is left unsaid. Texts on which the
/// parser may panic (see `parser_may_panic`) are left out.
#[verifier::external_body]
pub(crate) fn parse_expression_licenses(expression: &str) -> (r: Result<Vec<SimpleLicense>, spdx_expression::SpdxExpressionError>)
    requires
        !parser_may_panic(expression@),
    ensures
        r is Ok <==> spdx_expression_licenses(expression@) is Some,
        r matches Ok(v) ==> lists_licenses_of(expression@, simple_licenses_view(v@)),
{
    match spdx_expression::SpdxExpression::parse(expression) {
        Ok(parsed) => Ok(parsed.licenses().into_iter().map(|l| SimpleLicense {
            identifier: l.identifier.clone(),
            document_ref: l.document_ref.clone(),
            license_ref: l.license_ref,
        }).collect()),
        Err(e) => Err(e),
    }
}

} // verus!
