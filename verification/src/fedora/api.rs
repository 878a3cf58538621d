use vstd::prelude::*;

use crate::expression::{
    identifiers_of, parser_may_panic, lists_licenses_of, parse_expression_licenses,
    simple_licenses_view, spdx_expression_licenses, strings_view, text_parser_may_panic,
    SimpleLicense, SimpleLicenseView,
};
use crate::fedora::license::LicenseInfo;
use crate::text::{contains_str, contains_text};

verus! {

/// A row of the Fedora lookup table: a Fedora abbreviation, the SPDX
/// identifier (or expression) it stands for, and its approval status.
#[derive(Clone, Debug, PartialEq, Eq)]
pub struct FedoraLicenseRecord {
    pub fedora_abbrev: String,
    pub spdx_abbrev: String,
    pub approved: String,
}

pub struct FedoraLicenseRecordView {
    pub fedora_abbrev: Seq<char>,
    pub spdx_abbrev: Seq<char>,
    pub approved: Seq<char>,
}

impl View for FedoraLicenseRecord {
    type V = FedoraLicenseRecordView;

    open spec fn view(&self) -> FedoraLicenseRecordView {
        FedoraLicenseRecordView {
            fedora_abbrev: self.fedora_abbrev@,
            spdx_abbrev: self.spdx_abbrev@,
            approved: self.approved@,
        }
    }
}

/// Errors while loading Fedora's license data into the lookup table.
#[allow(non_camel_case_types)]
#[derive(Debug)]
pub enum FedoraLicenserError {
    licenseFetcherError(String),
    spdxExpressionError(spdx_expression::SpdxExpressionError),
    fetcherInitError(String),
    dbError(String),
}

pub open spec fn records_view(v: Seq<FedoraLicenseRecord>) -> Seq<FedoraLicenseRecordView> {
    v.map_values(|r: FedoraLicenseRecord| r@)
}

pub open spec fn record(fedora_abbrev: Seq<char>, spdx_abbrev: Seq<char>, approved: Seq<char>) -> FedoraLicenseRecordView {
    FedoraLicenseRecordView { fedora_abbrev, spdx_abbrev, approved }
}

/// One row per Fedora abbreviation, all for the same SPDX text.
pub open spec fn abbrevs_records(abbrevs: Seq<Seq<char>>, spdx: Seq<char>, approved: Seq<char>) -> Seq<FedoraLicenseRecordView> {
    abbrevs.map_values(|a: Seq<char>| record(a, spdx, approved))
}

/// One row per SPDX identifier, all for the same Fedora abbreviation.
pub open spec fn ids_records(ids: Seq<Seq<char>>, fedora_abbrev: Seq<char>, approved: Seq<char>) -> Seq<FedoraLicenseRecordView> {
    ids.map_values(|id: Seq<char>| record(fedora_abbrev, id, approved))
}

/// For each SPDX identifier in turn, one row per Fedora abbreviation.
pub open spec fn cross_records(ids: Seq<Seq<char>>, abbrevs: Seq<Seq<char>>, approved: Seq<char>) -> Seq<FedoraLicenseRecordView>
    decreases ids.len(),
{
    if ids.len() == 0 {
        Seq::empty()
    } else {
        cross_records(ids.drop_last(), abbrevs, approved) + abbrevs_records(abbrevs, ids.last(), approved)
    }
}

/// An expression that names a `LicenseRef-` is kept whole and not parsed.
pub open spec fn is_license_ref_text(s: Seq<char>) -> bool {
    contains_text(s, "LicenseRef-"@)
}

/// The entry's SPDX expression, where the entry has both an SPDX and a Fedora
/// part and the expression must be parsed.
pub open spec fn expression_to_parse(info: LicenseInfo) -> Option<Seq<char>> {
    match (info.license, info.fedora) {
        (Some(spdx), Some(_)) => if !is_license_ref_text(spdx.expression@) { Some(spdx.expression@) } else { None },
        _ => None,
    }
}

/// The entry's `spdx_abbrev`, where it has both abbreviations and it must be
/// parsed.
pub open spec fn abbrev_to_parse(info: LicenseInfo) -> Option<Seq<char>> {
    match (info.spdx_abbrev, info.fedora_abbrev) {
        (Some(spdx), Some(_)) => if !is_license_ref_text(spdx@) { Some(spdx@) } else { None },
        _ => None,
    }
}

/// The rows from the entry's SPDX and Fedora parts, given the licenses that
/// its expression lists.
pub open spec fn expression_records(info: LicenseInfo, listing: Seq<SimpleLicenseView>) -> Seq<FedoraLicenseRecordView> {
    match (info.license, info.fedora) {
        (Some(spdx), Some(fedora)) => match fedora.legacy_abbreviation {
            Some(abbrevs) => if !is_license_ref_text(spdx.expression@) {
                cross_records(identifiers_of(listing), strings_view(abbrevs@), info.approved@)
            } else {
                abbrevs_records(strings_view(abbrevs@), spdx.expression@, info.approved@)
            },
            None => Seq::empty(),
        },
        _ => Seq::empty(),
    }
}

/// The rows from the entry's two abbreviations, given the licenses that its
/// `spdx_abbrev` lists.
pub open spec fn abbrev_records(info: LicenseInfo, listing: Seq<SimpleLicenseView>) -> Seq<FedoraLicenseRecordView> {
    match (info.spdx_abbrev, info.fedora_abbrev) {
        (Some(spdx), Some(fedora)) => if !is_license_ref_text(spdx@) {
            ids_records(identifiers_of(listing), fedora@, info.approved@)
        } else {
            seq![record(fedora@, spdx@, info.approved@)]
        },
        _ => Seq::empty(),
    }
}

/// All rows of one entry.
pub open spec fn info_records(info: LicenseInfo, expression_listing: Seq<SimpleLicenseView>, abbrev_listing: Seq<SimpleLicenseView>) -> Seq<FedoraLicenseRecordView> {
    expression_records(info, expression_listing) + abbrev_records(info, abbrev_listing)
}

fn push_abbrev_records(out: &mut Vec<FedoraLicenseRecord>, abbrevs: &Vec<String>, spdx: &String, approved: &String)
    ensures
        records_view(final(out)@) == records_view(old(out)@) + abbrevs_records(strings_view(abbrevs@), spdx@, approved@),
{
    let ghost start = records_view(out@);
    for i in 0..abbrevs.len()
        invariant
            records_view(out@) == start + abbrevs_records(strings_view(abbrevs@.take(i as int)), spdx@, approved@),
    {
        let ghost before = records_view(out@);
        out.push(FedoraLicenseRecord { fedora_abbrev: abbrevs[i].clone(), spdx_abbrev: spdx.clone(), approved: approved.clone() });
        assert(records_view(out@) =~= before.push(record(abbrevs@[i as int]@, spdx@, approved@)));
        assert(strings_view(abbrevs@.take(i + 1)) =~= strings_view(abbrevs@.take(i as int)).push(abbrevs@[i as int]@));
        assert(abbrevs_records(strings_view(abbrevs@.take(i + 1)), spdx@, approved@) =~= abbrevs_records(strings_view(abbrevs@.take(i as int)), spdx@, approved@).push(record(abbrevs@[i as int]@, spdx@, approved@)));
    }
    assert(abbrevs@.take(abbrevs@.len() as int) =~= abbrevs@);
}

fn push_id_records(out: &mut Vec<FedoraLicenseRecord>, licenses: &Vec<SimpleLicense>, fedora_abbrev: &String, approved: &String)
    ensures
        records_view(final(out)@) == records_view(old(out)@) + ids_records(identifiers_of(simple_licenses_view(licenses@)), fedora_abbrev@, approved@),
{
    let ghost start = records_view(out@);
    for i in 0..licenses.len()
        invariant
            records_view(out@) == start + ids_records(identifiers_of(simple_licenses_view(licenses@.take(i as int))), fedora_abbrev@, approved@),
    {
        let ghost before = records_view(out@);
        out.push(FedoraLicenseRecord { fedora_abbrev: fedora_abbrev.clone(), spdx_abbrev: licenses[i].identifier.clone(), approved: approved.clone() });
        assert(records_view(out@) =~= before.push(record(fedora_abbrev@, licenses@[i as int].identifier@, approved@)));
        assert(identifiers_of(simple_licenses_view(licenses@.take(i + 1))) =~= identifiers_of(simple_licenses_view(licenses@.take(i as int))).push(licenses@[i as int].identifier@));
        assert(ids_records(identifiers_of(simple_licenses_view(licenses@.take(i + 1))), fedora_abbrev@, approved@) =~= ids_records(identifiers_of(simple_licenses_view(licenses@.take(i as int))), fedora_abbrev@, approved@).push(record(fedora_abbrev@, licenses@[i as int].identifier@, approved@)));
    }
    assert(licenses@.take(licenses@.len() as int) =~= licenses@);
}

fn push_cross_records(out: &mut Vec<FedoraLicenseRecord>, licenses: &Vec<SimpleLicense>, abbrevs: &Vec<String>, approved: &String)
    ensures
        records_view(final(out)@) == records_view(old(out)@) + cross_records(identifiers_of(simple_licenses_view(licenses@)), strings_view(abbrevs@), approved@),
{
    let ghost start = records_view(out@);
    for i in 0..licenses.len()
        invariant
            records_view(out@) == start + cross_records(identifiers_of(simple_licenses_view(licenses@.take(i as int))), strings_view(abbrevs@), approved@),
    {
        let ghost before = records_view(out@);
        push_abbrev_records(out, abbrevs, &licenses[i].identifier, approved);
        let ghost ids = identifiers_of(simple_licenses_view(licenses@.take(i + 1)));
        assert(ids.drop_last() =~= identifiers_of(simple_licenses_view(licenses@.take(i as int))));
        assert(ids.last() == licenses@[i as int].identifier@);
        assert(records_view(out@) =~= start + cross_records(ids, strings_view(abbrevs@), approved@));
    }
    assert(licenses@.take(licenses@.len() as int) =~= licenses@);
}

/// The rows of one entry of Fedora's license data, given the licenses listed
/// by parsing its expression and its `spdx_abbrev` (each list is used only
/// where that text is parsed). For each SPDX license of the expression, in
/// the given order, one row per legacy abbreviation; where the expression
/// names a `LicenseRef-`, one row per legacy abbreviation with the whole
/// expression. Then, from the two abbreviations, one row per license of
/// `spdx_abbrev`, or a single row with `spdx_abbrev` whole where it names a
/// `LicenseRef-`. Every row carries the entry's approval status.
pub fn license_info_records(info: &LicenseInfo, expression_licenses: &Vec<SimpleLicense>, abbrev_licenses: &Vec<SimpleLicense>) -> (records: Vec<FedoraLicenseRecord>)
    ensures
        records_view(records@) == info_records(*info, simple_licenses_view(expression_licenses@), simple_licenses_view(abbrev_licenses@)),
{
    let mut out: Vec<FedoraLicenseRecord> = Vec::new();
    let approved = &info.approved;
    match (&info.license, &info.fedora) {
        (Some(spdx), Some(fedora)) => {
            match &fedora.legacy_abbreviation {
                Some(abbrevs) => {
                    if !contains_str(spdx.expression.as_str(), "LicenseRef-") {
                        push_cross_records(&mut out, expression_licenses, abbrevs, approved);
                    } else {
                        push_abbrev_records(&mut out, abbrevs, &spdx.expression, approved);
                    }
                },
                None => {},
            }
        },
        _ => {},
    }
    assert(records_view(out@) =~= expression_records(*info, simple_licenses_view(expression_licenses@)));
    let ghost first = records_view(out@);
    match (&info.spdx_abbrev, &info.fedora_abbrev) {
        (Some(spdx), Some(fedora)) => {
            if !contains_str(spdx.as_str(), "LicenseRef-") {
                push_id_records(&mut out, abbrev_licenses, fedora, approved);
            } else {
                out.push(FedoraLicenseRecord { fedora_abbrev: fedora.clone(), spdx_abbrev: spdx.clone(), approved: approved.clone() });
            }
        },
        _ => {},
    }
    assert(records_view(out@) =~= first + abbrev_records(*info, simple_licenses_view(abbrev_licenses@)));
    out
}

/// `listing` fits the text to parse: it lists the parsed licenses where
/// there is a text to parse, and is empty where there is none.
pub open spec fn listing_fits(text: Option<Seq<char>>, listing: Seq<SimpleLicenseView>) -> bool {
    match text {
        Some(t) => lists_licenses_of(t, listing),
        None => listing.len() == 0,
    }
}

/// `text`, where given, is one that is safe to parse (see
/// `parser_may_panic`) and that the parser rejects.
pub open spec fn text_fails(text: Option<Seq<char>>) -> bool {
    text matches Some(t) && !parser_may_panic(t) && spdx_expression_licenses(t) is None
}

/// `text`, where given, is one that the parser may panic on (a safe
/// over-approximation: see `parser_may_panic`); it is not handed to the
/// parser.
pub open spec fn text_may_panic(text: Option<Seq<char>>) -> bool {
    text matches Some(t) && parser_may_panic(t)
}

/// `text` is absent, or is safe to parse and parses.
pub open spec fn text_parses(text: Option<Seq<char>>) -> bool {
    match text {
        Some(t) => !parser_may_panic(t) && spdx_expression_licenses(t) is Some,
        None => true,
    }
}

/// Parsing the entry's texts, expression first, fails with an error.
pub open spec fn parse_fails(info: LicenseInfo) -> bool {
    ||| text_fails(expression_to_parse(info))
    ||| (text_parses(expression_to_parse(info)) && text_fails(abbrev_to_parse(info)))
}

/// Parsing the entry's texts, expression first, reaches a text that the
/// parser may panic on.
pub open spec fn parse_may_panic(info: LicenseInfo) -> bool {
    ||| text_may_panic(expression_to_parse(info))
    ||| (text_parses(expression_to_parse(info)) && text_may_panic(abbrev_to_parse(info)))
}

/// Parsing the entries in order stops at an error before it reaches any text
/// that the parser may panic on.
pub open spec fn parses_safely(infos: Seq<LicenseInfo>) -> bool {
    forall|i: int| 0 <= i < infos.len() && parse_may_panic(#[trigger] infos[i])
        ==> exists|k: int| 0 <= k < i && parse_fails(#[trigger] infos[k])
}

/// `listings` holds, for each entry, a fitting listing of its expression and
/// of its `spdx_abbrev`.
pub open spec fn listings_fit(infos: Seq<LicenseInfo>, listings: Seq<(Seq<SimpleLicenseView>, Seq<SimpleLicenseView>)>) -> bool {
    &&& listings.len() == infos.len()
    &&& forall|i: int| #![trigger infos[i]] 0 <= i < infos.len() ==> {
        &&& listing_fits(expression_to_parse(infos[i]), listings[i].0)
        &&& listing_fits(abbrev_to_parse(infos[i]), listings[i].1)
    }
}

/// The rows of all entries, entry after entry.
pub open spec fn all_records(infos: Seq<LicenseInfo>, listings: Seq<(Seq<SimpleLicenseView>, Seq<SimpleLicenseView>)>) -> Seq<FedoraLicenseRecordView>
    decreases infos.len(),
{
    if infos.len() == 0 {
        Seq::empty()
    } else {
        all_records(infos.drop_last(), listings.drop_last())
            + info_records(infos.last(), listings.last().0, listings.last().1)
    }
}

/// Parses `text` where it is given, and returns the licenses it lists, or an
/// empty list where there is nothing to parse.
fn listing_for(text: Option<&String>) -> (r: Result<Vec<SimpleLicense>, spdx_expression::SpdxExpressionError>)
    requires
        text matches Some(t) ==> !parser_may_panic(t@),
    ensures
        r is Err <==> (text matches Some(t) && spdx_expression_licenses(t@) is None),
        r matches Ok(v) ==> listing_fits(
            match text { Some(t) => Some(t@), None => None },
            simple_licenses_view(v@),
        ),
{
    match text {
        Some(t) => parse_expression_licenses(t.as_str()),
        None => {
            let v: Vec<SimpleLicense> = Vec::new();
            assert(simple_licenses_view(v@) =~= Seq::empty());
            Ok(v)
        },
    }
}

/// The text of `info` that goes to the parser for its SPDX/Fedora part.
fn expression_text(info: &LicenseInfo) -> (r: Option<&String>)
    ensures
        expression_to_parse(*info) == match r { Some(t) => Some(t@), None => None },
{
    match (&info.license, &info.fedora) {
        (Some(spdx), Some(_)) => if !contains_str(spdx.expression.as_str(), "LicenseRef-") { Some(&spdx.expression) } else { None },
        _ => None,
    }
}

/// The text of `info` that goes to the parser for its two abbreviations.
fn abbrev_text(info: &LicenseInfo) -> (r: Option<&String>)
    ensures
        abbrev_to_parse(*info) == match r { Some(t) => Some(t@), None => None },
{
    match (&info.spdx_abbrev, &info.fedora_abbrev) {
        (Some(spdx), Some(_)) => if !contains_str(spdx.as_str(), "LicenseRef-") { Some(spdx) } else { None },
        _ => None,
    }
}

/// What making the rows of `infos` comes to: it fails, with the parser's
/// error, exactly where some entry has a text to parse that is no SPDX
/// expression; otherwise the rows are those of some fitting listings.
pub open spec fn records_outcome(infos: Seq<LicenseInfo>, r: Result<Vec<FedoraLicenseRecord>, FedoraLicenserError>) -> bool {
    &&& (r is Err <==> exists|i: int| 0 <= i < infos.len() && parse_fails(#[trigger] infos[i]))
    &&& (r matches Err(e) ==> e is spdxExpressionError)
    &&& (r matches Ok(v) ==> exists|listings: Seq<(Seq<SimpleLicenseView>, Seq<SimpleLicenseView>)>|
            listings_fit(infos, listings) && records_view(v@) == all_records(infos, listings))
}

/// The rows of the Fedora lookup table made from Fedora's license data, entry
/// after entry (see `license_info_records`). Fails, with the parser's error,
/// exactly where some entry has a text to parse that is no SPDX expression.
/// The licenses of a parsed expression come in an order that the parser
/// leaves open; whatever it is, the rows are those of some fitting listings.
/// Inputs where the parse would reach a text that the parser may panic on
/// before an error stops the work are left out.
pub fn fedora_license_records(infos: &Vec<LicenseInfo>) -> (r: Result<Vec<FedoraLicenseRecord>, FedoraLicenserError>)
    requires
        parses_safely(infos@),
    ensures
        r is Err <==> exists|i: int| 0 <= i < infos@.len() && parse_fails(#[trigger] infos@[i]),
        r matches Err(e) ==> e is spdxExpressionError,
        r matches Ok(v) ==> exists|listings: Seq<(Seq<SimpleLicenseView>, Seq<SimpleLicenseView>)>|
            listings_fit(infos@, listings) && records_view(v@) == all_records(infos@, listings),
{
    let mut out: Vec<FedoraLicenseRecord> = Vec::new();
    let ghost mut listings: Seq<(Seq<SimpleLicenseView>, Seq<SimpleLicenseView>)> = Seq::empty();
    for i in 0..infos.len()
        invariant
            parses_safely(infos@),
            listings_fit(infos@.take(i as int), listings),
            records_view(out@) == all_records(infos@.take(i as int), listings),
            forall|k: int| 0 <= k < i ==> !parse_fails(#[trigger] infos@[k]),
    {
        let info = &infos[i];
        assert(!parse_may_panic(infos@[i as int])) by {
            if parse_may_panic(infos@[i as int]) {
                let k = choose|k: int| 0 <= k < i && parse_fails(#[trigger] infos@[k]);
            }
        }
        let expression_licenses = match listing_for(expression_text(info)) {
            Ok(v) => v,
            Err(e) => {
                assert(parse_fails(infos@[i as int]));
                return Err(FedoraLicenserError::spdxExpressionError(e));
            },
        };
        let abbrev_licenses = match listing_for(abbrev_text(info)) {
            Ok(v) => v,
            Err(e) => {
                assert(parse_fails(infos@[i as int]));
                return Err(FedoraLicenserError::spdxExpressionError(e));
            },
        };
        let mut rows = license_info_records(info, &expression_licenses, &abbrev_licenses);
        let ghost prev = listings;
        proof {
            listings = listings.push((simple_licenses_view(expression_licenses@), simple_licenses_view(abbrev_licenses@)));
        }
        let ghost before = records_view(out@);
        out.append(&mut rows);
        assert(records_view(out@) =~= before + info_records(*info, simple_licenses_view(expression_licenses@), simple_licenses_view(abbrev_licenses@)));
        assert(infos@.take(i + 1).drop_last() =~= infos@.take(i as int));
        assert(listings.drop_last() =~= prev);
        assert(listings_fit(infos@.take(i + 1), listings)) by {
            assert forall|k: int| 0 <= k < i + 1 implies {
                &&& listing_fits(expression_to_parse(#[trigger] infos@.take(i + 1)[k]), listings[k].0)
                &&& listing_fits(abbrev_to_parse(infos@.take(i + 1)[k]), listings[k].1)
            } by {
                if k < i {
                    assert(infos@.take(i + 1)[k] == infos@.take(i as int)[k]);
                }
            }
        }
    }
    assert(infos@.take(infos@.len() as int) =~= infos@);
    assert(!exists|i: int| 0 <= i < infos@.len() && parse_fails(#[trigger] infos@[i]));
    Ok(out)
}

/// Whether parsing the entries' texts in order would stop at an error before
/// it reaches a text that the parser may panic on (see `parses_safely`).
pub fn fedora_data_parses_safely(infos: &Vec<LicenseInfo>) -> (r: bool)
    ensures
        r == parses_safely(infos@),
{
    for i in 0..infos.len()
        invariant
            forall|k: int| 0 <= k < i ==> !parse_fails(#[trigger] infos@[k]) && !parse_may_panic(infos@[k]),
    {
        let info = &infos[i];
        let e = expression_text(info);
        match e {
            Some(t) => {
                if text_parser_may_panic(t.as_str()) {
                    assert(parse_may_panic(infos@[i as int]));
                    return false;
                }
                match parse_expression_licenses(t.as_str()) {
                    Ok(_) => {},
                    Err(_) => {
                        proof { lemma_stops_at_failure(infos@, i as int); }
                        return true;
                    },
                }
            },
            None => {},
        }
        match abbrev_text(info) {
            Some(t) => {
                if text_parser_may_panic(t.as_str()) {
                    assert(parse_may_panic(infos@[i as int]));
                    return false;
                }
                match parse_expression_licenses(t.as_str()) {
                    Ok(_) => {},
                    Err(_) => {
                        proof { lemma_stops_at_failure(infos@, i as int); }
                        return true;
                    },
                }
            },
            None => {},
        }
        assert(!parse_fails(infos@[i as int]) && !parse_may_panic(infos@[i as int]));
    }
    true
}

proof fn lemma_stops_at_failure(infos: Seq<LicenseInfo>, i: int)
    requires
        0 <= i < infos.len(),
        parse_fails(infos[i]),
        !parse_may_panic(infos[i]),
        forall|k: int| 0 <= k < i ==> !parse_fails(#[trigger] infos[k]) && !parse_may_panic(infos[k]),
    ensures
        parses_safely(infos),
{
    assert forall|j: int| 0 <= j < infos.len() && parse_may_panic(#[trigger] infos[j])
        implies exists|k: int| 0 <= k < j && parse_fails(#[trigger] infos[k]) by {
        assert(j > i);
        assert(parse_fails(infos[i]));
    }
}

/// The rows of the Fedora lookup table made from Fedora's license data, where
/// making them is safe: `None` exactly where parsing the entries in order
/// would reach a text that the parser may panic on before an error stops it;
/// otherwise the outcome of `fedora_license_records`.
pub fn fedora_license_records_checked(infos: &Vec<LicenseInfo>) -> (r: Option<Result<Vec<FedoraLicenseRecord>, FedoraLicenserError>>)
    ensures
        r is None <==> !parses_safely(infos@),
        r matches Some(res) ==> records_outcome(infos@, res),
{
    if fedora_data_parses_safely(infos) {
        Some(fedora_license_records(infos))
    } else {
        None
    }
}

} // verus!
