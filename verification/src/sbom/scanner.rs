use vstd::prelude::*;
use vstd::string::StringExecFns;

use crate::common::copy_opt_string;
use crate::expression::{opt_view, simple_licenses_view, strings_view, SimpleLicenseView};
use crate::fedora::api::{records_view, FedoraLicenseRecord, FedoraLicenseRecordView};
use crate::sbom::document::{
    ExternalPackageReference, OtherLicensingInformationDetected, PackageInformation, Sbom,
    SpdxDocument,
};
use crate::sbom::model::{
    licenses_view, packages_view, PackageLicense, PackageLicenseView, SbomLicense, SbomLicenseView,
    SbomPackage, SbomPackageView,
};
use crate::spdx::api::{spdx_records_view, SpdxLicenseRecord, SpdxLicenseRecordView};
use crate::text::{contains_str, contains_text};

verus! {

/// What the Fedora lookup table answers for a Fedora abbreviation.
pub type FedoraTable = spec_fn(Seq<char>) -> Seq<FedoraLicenseRecordView>;

/// What the SPDX lookup table answers for an SPDX identifier.
pub type SpdxTable = spec_fn(Seq<char>) -> Seq<SpdxLicenseRecordView>;

/// The package URL of a package: the locator of its first reference of type
/// `purl`, or empty where it has none.
pub open spec fn purl_of(refs: Seq<ExternalPackageReference>) -> Seq<char>
    decreases refs.len(),
{
    if refs.len() == 0 {
        Seq::empty()
    } else if refs[0].reference_type@ == "purl"@ {
        refs[0].reference_locator@
    } else {
        purl_of(refs.drop_first())
    }
}

/// Some creator of the document names Red Hat.
pub open spec fn is_red_hat(doc: SpdxDocument) -> bool {
    exists|i: int| 0 <= i < doc.creators@.len() && contains_text(#[trigger] doc.creators@[i]@, "Red Hat"@)
}

/// A license that the document defines, as a package license (with no HTML
/// text).
pub open spec fn extracted_license(o: OtherLicensingInformationDetected) -> PackageLicenseView {
    PackageLicenseView {
        license_id: o.license_identifier@,
        name: o.license_name@,
        license_text: o.extracted_text@,
        license_text_html: Seq::empty(),
    }
}

/// The first license that the document defines whose identifier holds `id`.
pub open spec fn extracted_for(others: Seq<OtherLicensingInformationDetected>, id: Seq<char>) -> Option<PackageLicenseView>
    decreases others.len(),
{
    if others.len() == 0 {
        None
    } else if contains_text(others[0].license_identifier@, id) {
        Some(extracted_license(others[0]))
    } else {
        extracted_for(others.drop_first(), id)
    }
}

/// A row of the SPDX lookup table as a package license.
pub open spec fn spdx_license_of(r: SpdxLicenseRecordView) -> PackageLicenseView {
    PackageLicenseView {
        license_id: r.spdx_id,
        name: r.spdx_name,
        license_text: r.licenseText,
        license_text_html: r.licenseTextHtml,
    }
}

pub open spec fn spdx_licenses(rows: Seq<SpdxLicenseRecordView>) -> Seq<PackageLicenseView> {
    rows.map_values(|r: SpdxLicenseRecordView| spdx_license_of(r))
}

/// The SPDX identifiers that rows of the Fedora lookup table point to.
pub open spec fn fedora_spdx_ids(rows: Seq<FedoraLicenseRecordView>) -> Seq<Seq<char>> {
    rows.map_values(|r: FedoraLicenseRecordView| r.spdx_abbrev)
}

/// The licenses that the SPDX table holds for `ids[k..]`, identifier after
/// identifier.
pub open spec fn queue_licenses(ids: Seq<Seq<char>>, k: int, spdx: SpdxTable) -> Seq<PackageLicenseView>
    decreases ids.len() - k,
{
    if k < 0 || k >= ids.len() {
        Seq::empty()
    } else {
        spdx_licenses(spdx(ids[k])) + queue_licenses(ids, k + 1, spdx)
    }
}

/// The licenses found for one simple license of a declared expression: a
/// `LicenseRef` is looked up among the licenses that the document defines;
/// in a Red Hat document, an identifier is a Fedora abbreviation whose SPDX
/// identifiers are each looked up in the SPDX table; otherwise it is looked up
/// in the SPDX table directly.
pub open spec fn term_licenses(doc: SpdxDocument, red_hat: bool, t: SimpleLicenseView, fedora: FedoraTable, spdx: SpdxTable) -> Seq<PackageLicenseView> {
    if t.license_ref {
        match extracted_for(doc.other_licensing_information_detected@, t.identifier) {
            Some(l) => seq![l],
            None => Seq::empty(),
        }
    } else if red_hat {
        queue_licenses(fedora_spdx_ids(fedora(t.identifier)), 0, spdx)
    } else {
        spdx_licenses(spdx(t.identifier))
    }
}

/// The simple licenses of a package's declared license (none where it has no
/// declared license).
pub open spec fn declared_terms(p: PackageInformation) -> Seq<SimpleLicenseView> {
    match p.declared_license {
        Some(v) => simple_licenses_view(v@),
        None => Seq::empty(),
    }
}

/// The licenses found for `terms[j..]`, term after term.
pub open spec fn terms_licenses(doc: SpdxDocument, red_hat: bool, terms: Seq<SimpleLicenseView>, j: int, fedora: FedoraTable, spdx: SpdxTable) -> Seq<PackageLicenseView>
    decreases terms.len() - j,
{
    if j < 0 || j >= terms.len() {
        Seq::empty()
    } else {
        term_licenses(doc, red_hat, terms[j], fedora, spdx) + terms_licenses(doc, red_hat, terms, j + 1, fedora, spdx)
    }
}

/// A package of the result: name, version, package URL and supplier of `p`,
/// with the given licenses.
pub open spec fn package_with(p: PackageInformation, licenses: Seq<PackageLicenseView>) -> SbomPackageView {
    SbomPackageView {
        name: p.package_name@,
        version: opt_view(p.package_version),
        purl: purl_of(p.external_reference@),
        supplier: opt_view(p.package_supplier),
        licenses,
    }
}

pub open spec fn package_result(doc: SpdxDocument, red_hat: bool, p: PackageInformation, fedora: FedoraTable, spdx: SpdxTable) -> SbomPackageView {
    package_with(p, terms_licenses(doc, red_hat, declared_terms(p), 0, fedora, spdx))
}

/// The packages of the result from the `i`-th package of the document on.
pub open spec fn packages_result(doc: SpdxDocument, red_hat: bool, i: int, fedora: FedoraTable, spdx: SpdxTable) -> Seq<SbomPackageView>
    decreases doc.package_information@.len() - i,
{
    if i < 0 || i >= doc.package_information@.len() {
        Seq::empty()
    } else {
        seq![package_result(doc, red_hat, doc.package_information@[i], fedora, spdx)]
            + packages_result(doc, red_hat, i + 1, fedora, spdx)
    }
}

/// The licenses of an SPDX document whose lookups the two tables answer: the
/// document's name, and one package per package of the document, in order.
pub open spec fn scan_result(doc: SpdxDocument, fedora: FedoraTable, spdx: SpdxTable) -> SbomLicenseView {
    SbomLicenseView {
        sbom_name: doc.document_name@,
        packages: packages_result(doc, is_red_hat(doc), 0, fedora, spdx),
    }
}

/// The licenses of an SBOM: those of an SPDX document; nothing (and an empty
/// name) for a CycloneDX one.
pub open spec fn sbom_result(sbom: Sbom, fedora: FedoraTable, spdx: SpdxTable) -> SbomLicenseView {
    match sbom {
        Sbom::Spdx(doc) => scan_result(doc, fedora, spdx),
        Sbom::CycloneDx => SbomLicenseView { sbom_name: Seq::empty(), packages: Seq::empty() },
    }
}

/// A lookup in one of the two tables, by its key.
pub enum Lookup {
    /// In the Fedora table, by Fedora abbreviation.
    Fedora(Seq<char>),
    /// In the SPDX table, by SPDX identifier.
    Spdx(Seq<char>),
}

/// SPDX lookups of the identifiers, in order.
pub open spec fn spdx_lookups(ids: Seq<Seq<char>>) -> Seq<Lookup> {
    ids.map_values(|id: Seq<char>| Lookup::Spdx(id))
}

/// The lookups made for one simple license of a declared expression: none
/// for a `LicenseRef`; in a Red Hat document, the Fedora lookup of the
/// identifier, then the SPDX lookup of each SPDX identifier that the Fedora
/// table answers; otherwise the SPDX lookup of the identifier.
pub open spec fn term_lookups(red_hat: bool, t: SimpleLicenseView, fedora: FedoraTable) -> Seq<Lookup> {
    if t.license_ref {
        Seq::empty()
    } else if red_hat {
        seq![Lookup::Fedora(t.identifier)] + spdx_lookups(fedora_spdx_ids(fedora(t.identifier)))
    } else {
        seq![Lookup::Spdx(t.identifier)]
    }
}

/// The lookups made for `terms[j..]`, term after term.
pub open spec fn terms_lookups(red_hat: bool, terms: Seq<SimpleLicenseView>, j: int, fedora: FedoraTable) -> Seq<Lookup>
    decreases terms.len() - j,
{
    if j < 0 || j >= terms.len() {
        Seq::empty()
    } else {
        term_lookups(red_hat, terms[j], fedora) + terms_lookups(red_hat, terms, j + 1, fedora)
    }
}

/// The lookups made for the packages of the document from the `i`-th on.
pub open spec fn packages_lookups(doc: SpdxDocument, red_hat: bool, i: int, fedora: FedoraTable) -> Seq<Lookup>
    decreases doc.package_information@.len() - i,
{
    if i < 0 || i >= doc.package_information@.len() {
        Seq::empty()
    } else {
        terms_lookups(red_hat, declared_terms(doc.package_information@[i]), 0, fedora)
            + packages_lookups(doc, red_hat, i + 1, fedora)
    }
}

/// The lookups that the scan of an SPDX document asks for, in order, where
/// the Fedora table answers as `fedora` does.
pub open spec fn scan_lookups(doc: SpdxDocument, fedora: FedoraTable) -> Seq<Lookup> {
    packages_lookups(doc, is_red_hat(doc), 0, fedora)
}

/// The lookups that the scan of an SBOM asks for: none for a CycloneDX one.
pub open spec fn sbom_lookups(sbom: Sbom, fedora: FedoraTable) -> Seq<Lookup> {
    match sbom {
        Sbom::Spdx(doc) => scan_lookups(doc, fedora),
        Sbom::CycloneDx => Seq::empty(),
    }
}

/// A lookup that the scan needs answered.
#[derive(Clone, Debug, PartialEq, Eq)]
pub enum ScanRequest {
    /// The rows of the Fedora lookup table for a Fedora abbreviation.
    FedoraByAbbrev(String),
    /// The rows of the SPDX lookup table for an SPDX identifier.
    SpdxById(String),
}

/// The rows that answer a lookup.
#[derive(Clone, Debug, PartialEq, Eq)]
pub enum ScanReply {
    Fedora(Vec<FedoraLicenseRecord>),
    Spdx(Vec<SpdxLicenseRecord>),
}

/// The licenses that the answer to a pending lookup will bring.
pub open spec fn pending_licenses(pending: Option<ScanRequest>, fedora: FedoraTable, spdx: SpdxTable) -> Seq<PackageLicenseView> {
    match pending {
        None => Seq::empty(),
        Some(ScanRequest::FedoraByAbbrev(a)) => queue_licenses(fedora_spdx_ids(fedora(a@)), 0, spdx),
        Some(ScanRequest::SpdxById(id)) => spdx_licenses(spdx(id@)),
    }
}

/// The lookup that a request asks for.
pub open spec fn request_lookup(r: ScanRequest) -> Lookup {
    match r {
        ScanRequest::FedoraByAbbrev(a) => Lookup::Fedora(a@),
        ScanRequest::SpdxById(id) => Lookup::Spdx(id@),
    }
}

/// The lookups still to come of a pending request: the request itself and,
/// after a Fedora lookup, the SPDX lookups of its answer.
pub open spec fn pending_lookups(pending: Option<ScanRequest>, fedora: FedoraTable) -> Seq<Lookup> {
    match pending {
        None => Seq::empty(),
        Some(ScanRequest::FedoraByAbbrev(a)) => seq![Lookup::Fedora(a@)] + spdx_lookups(fedora_spdx_ids(fedora(a@))),
        Some(ScanRequest::SpdxById(id)) => seq![Lookup::Spdx(id@)],
    }
}

/// `x` comes strictly before `y` in lexicographic order.
pub open spec fn lex_below(x: (nat, nat, nat, nat, nat), y: (nat, nat, nat, nat, nat)) -> bool {
    ||| x.0 < y.0
    ||| (x.0 == y.0 && x.1 < y.1)
    ||| (x.0 == y.0 && x.1 == y.1 && x.2 < y.2)
    ||| (x.0 == y.0 && x.1 == y.1 && x.2 == y.2 && x.3 < y.3)
    ||| (x.0 == y.0 && x.1 == y.1 && x.2 == y.2 && x.3 == y.3 && x.4 < y.4)
}

/// The scan of an SPDX document's packages for their licenses. It walks the
/// packages and the simple licenses of their declared expressions, asks for
/// each lookup in the database that it needs, and is handed the answer.
pub struct SbomScan {
    doc: SpdxDocument,
    red_hat: bool,
    pkg: usize,
    term: usize,
    queue: Vec<String>,
    next: usize,
    pending: Option<ScanRequest>,
    licenses: Vec<PackageLicense>,
    packages: Vec<SbomPackage>,
}

impl SbomScan {
    /// The scanned document.
    pub closed spec fn document(self) -> SpdxDocument {
        self.doc
    }

    pub closed spec fn wf(self) -> bool {
        let n = self.doc.package_information@.len();
        &&& self.red_hat == is_red_hat(self.doc)
        &&& self.pkg <= n
        &&& self.next <= self.queue@.len()
        &&& self.pkg < n ==> self.term <= declared_terms(self.doc.package_information@[self.pkg as int]).len()
        &&& self.pkg == n ==> self.pending is None && self.next == self.queue@.len()
        &&& (self.pending matches Some(ScanRequest::FedoraByAbbrev(_))) ==> self.next == self.queue@.len()
    }

    /// All packages have been scanned.
    pub closed spec fn finished(self) -> bool {
        self.pkg >= self.doc.package_information@.len()
    }

    /// The lookup that the scan waits for, if any.
    pub closed spec fn pending_request(self) -> Option<ScanRequest> {
        self.pending
    }

    /// The packages scanned so far, under the document's name.
    pub closed spec fn completed(self) -> SbomLicenseView {
        SbomLicenseView { sbom_name: self.doc.document_name@, packages: packages_view(self.packages@) }
    }

    closed spec fn current_licenses(self, fedora: FedoraTable, spdx: SpdxTable) -> Seq<PackageLicenseView> {
        licenses_view(self.licenses@)
            + pending_licenses(self.pending, fedora, spdx)
            + queue_licenses(strings_view(self.queue@), self.next as int, spdx)
            + terms_licenses(self.doc, self.red_hat, declared_terms(self.doc.package_information@[self.pkg as int]), self.term as int, fedora, spdx)
    }

    /// What the scan will end with where every lookup from now on is answered
    /// by the two tables.
    pub closed spec fn outcome(self, fedora: FedoraTable, spdx: SpdxTable) -> SbomLicenseView {
        let n = self.doc.package_information@.len();
        SbomLicenseView {
            sbom_name: self.doc.document_name@,
            packages: packages_view(self.packages@) + if self.pkg < n {
                seq![package_with(self.doc.package_information@[self.pkg as int], self.current_licenses(fedora, spdx))]
                    + packages_result(self.doc, self.red_hat, self.pkg + 1, fedora, spdx)
            } else {
                Seq::empty()
            },
        }
    }

    /// The lookups that the scan still asks for (starting with the one it
    /// waits for, if any), where the Fedora table answers as `fedora` does.
    pub closed spec fn remaining_lookups(self, fedora: FedoraTable) -> Seq<Lookup> {
        let n = self.doc.package_information@.len();
        pending_lookups(self.pending, fedora)
            + spdx_lookups(strings_view(self.queue@).skip(self.next as int))
            + if self.pkg < n {
                terms_lookups(self.red_hat, declared_terms(self.doc.package_information@[self.pkg as int]), self.term as int, fedora)
                    + packages_lookups(self.doc, self.red_hat, self.pkg + 1, fedora)
            } else {
                Seq::empty()
            }
    }

    proof fn lemma_pending_first(self)
        requires
            self.pending is Some,
        ensures
            forall|fedora: FedoraTable| #![trigger self.remaining_lookups(fedora)]
                self.remaining_lookups(fedora).len() > 0
                && self.remaining_lookups(fedora)[0] == request_lookup(self.pending->0),
    {
        assert forall|fedora: FedoraTable| #![trigger self.remaining_lookups(fedora)]
            self.remaining_lookups(fedora).len() > 0
            && self.remaining_lookups(fedora)[0] == request_lookup(self.pending->0) by {
            assert(pending_lookups(self.pending, fedora)[0] == request_lookup(self.pending->0));
        }
    }

    proof fn lemma_finished_no_lookups(self)
        requires
            self.wf(),
            self.finished(),
        ensures
            forall|fedora: FedoraTable| #[trigger] self.remaining_lookups(fedora).len() == 0,
    {
        assert forall|fedora: FedoraTable| #[trigger] self.remaining_lookups(fedora).len() == 0 by {
            assert(spdx_lookups(strings_view(self.queue@).skip(self.next as int)) =~= Seq::empty());
        }
    }

    /// How far the scan still has to go, in lexicographic order: packages,
    /// terms of the current package, an awaited Fedora answer, queued SPDX
    /// lookups, an awaited answer.
    pub closed spec fn rank(self) -> (nat, nat, nat, nat, nat) {
        let n = self.doc.package_information@.len();
        (
            (n - self.pkg) as nat,
            if self.pkg < n { (declared_terms(self.doc.package_information@[self.pkg as int]).len() - self.term) as nat } else { 0 },
            if self.pending matches Some(ScanRequest::FedoraByAbbrev(_)) { 1 } else { 0 },
            (self.queue@.len() - self.next) as nat,
            if self.pending is Some { 1 } else { 0 },
        )
    }
}

/// The package URL of a package (see `purl_of`).
pub fn package_purl(refs: &Vec<ExternalPackageReference>) -> (r: String)
    ensures
        r@ == purl_of(refs@),
{
    let purl = String::from_str("purl");
    let mut i: usize = 0;
    assert(refs@.skip(0) =~= refs@);
    while i < refs.len()
        invariant
            i <= refs@.len(),
            purl@ == "purl"@,
            purl_of(refs@) == purl_of(refs@.skip(i as int)),
        decreases refs@.len() - i,
    {
        assert(refs@.skip(i as int).drop_first() =~= refs@.skip(i + 1));
        if refs[i].reference_type == purl {
            return refs[i].reference_locator.clone();
        }
        i = i + 1;
    }
    assert(refs@.skip(i as int) =~= Seq::<ExternalPackageReference>::empty());
    String::new()
}

/// The first license that the document defines whose identifier holds `id`,
/// as a package license (see `extracted_for`).
pub fn find_extracted(others: &Vec<OtherLicensingInformationDetected>, id: &String) -> (r: Option<PackageLicense>)
    ensures
        extracted_for(others@, id@) == match r {
            Some(l) => Some(l@),
            None => None,
        },
{
    let mut i: usize = 0;
    assert(others@.skip(0) =~= others@);
    while i < others.len()
        invariant
            i <= others@.len(),
            extracted_for(others@, id@) == extracted_for(others@.skip(i as int), id@),
        decreases others@.len() - i,
    {
        assert(others@.skip(i as int).drop_first() =~= others@.skip(i + 1));
        let o = &others[i];
        if contains_str(o.license_identifier.as_str(), id.as_str()) {
            return Some(PackageLicense {
                license_id: o.license_identifier.clone(),
                name: o.license_name.clone(),
                license_text: o.extracted_text.clone(),
                license_text_html: String::new(),
            });
        }
        i = i + 1;
    }
    assert(others@.skip(i as int) =~= Seq::<OtherLicensingInformationDetected>::empty());
    None
}

/// Whether some creator of the document names Red Hat.
pub fn names_red_hat(doc: &SpdxDocument) -> (r: bool)
    ensures
        r == is_red_hat(*doc),
{
    let mut i: usize = 0;
    while i < doc.creators.len()
        invariant
            i <= doc.creators@.len(),
            forall|k: int| 0 <= k < i ==> !contains_text(#[trigger] doc.creators@[k]@, "Red Hat"@),
        decreases doc.creators@.len() - i,
    {
        if contains_str(doc.creators[i].as_str(), "Red Hat") {
            return true;
        }
        i = i + 1;
    }
    false
}

fn copy_request(req: &ScanRequest) -> (r: ScanRequest)
    ensures
        r == *req,
{
    match req {
        ScanRequest::FedoraByAbbrev(a) => ScanRequest::FedoraByAbbrev(a.clone()),
        ScanRequest::SpdxById(id) => ScanRequest::SpdxById(id.clone()),
    }
}

fn empty_document() -> (doc: SpdxDocument)
    ensures
        doc.document_name@ == Seq::<char>::empty(),
        doc.creators@.len() == 0,
        doc.package_information@.len() == 0,
        doc.other_licensing_information_detected@.len() == 0,
{
    SpdxDocument {
        document_name: String::new(),
        creators: Vec::new(),
        package_information: Vec::new(),
        other_licensing_information_detected: Vec::new(),
    }
}

impl SbomScan {
    /// The scan of `doc`, before its first lookup.
    pub fn new(doc: SpdxDocument) -> (scan: Self)
        ensures
            scan.wf(),
            scan.document() == doc,
            scan.pending_request() is None,
            scan.finished() <==> doc.package_information@.len() == 0,
            forall|fedora: FedoraTable, spdx: SpdxTable| #[trigger] scan.outcome(fedora, spdx) == scan_result(doc, fedora, spdx),
            forall|fedora: FedoraTable| #[trigger] scan.remaining_lookups(fedora) == scan_lookups(doc, fedora),
    {
        let red_hat = names_red_hat(&doc);
        let scan = SbomScan {
            doc,
            red_hat,
            pkg: 0,
            term: 0,
            queue: Vec::new(),
            next: 0,
            pending: None,
            licenses: Vec::new(),
            packages: Vec::new(),
        };
        assert forall|fedora: FedoraTable, spdx: SpdxTable| #[trigger] scan.outcome(fedora, spdx) == scan_result(doc, fedora, spdx) by {
            assert(licenses_view(scan.licenses@) =~= Seq::empty());
            assert(packages_view(scan.packages@) =~= Seq::empty());
            assert(strings_view(scan.queue@) =~= Seq::empty());
            if doc.package_information@.len() > 0 {
                assert(scan.current_licenses(fedora, spdx) =~= terms_licenses(doc, red_hat, declared_terms(doc.package_information@[0]), 0, fedora, spdx));
            }
            assert(scan.outcome(fedora, spdx).packages =~= packages_result(doc, red_hat, 0, fedora, spdx));
        }
        assert forall|fedora: FedoraTable| #[trigger] scan.remaining_lookups(fedora) == scan_lookups(doc, fedora) by {
            assert(spdx_lookups(strings_view(scan.queue@).skip(0)) =~= Seq::empty());
            assert(scan.remaining_lookups(fedora) =~= scan_lookups(doc, fedora));
        }
        scan
    }

    /// The scan of an SBOM: that of its SPDX document, or, for a CycloneDX
    /// SBOM, a scan that has nothing to look up and ends with no packages
    /// under an empty name.
    pub fn for_sbom(sbom: Sbom) -> (scan: Self)
        ensures
            scan.wf(),
            scan.pending_request() is None,
            sbom is CycloneDx ==> scan.finished(),
            sbom matches Sbom::Spdx(doc) ==> (scan.finished() <==> doc.package_information@.len() == 0),
            forall|fedora: FedoraTable, spdx: SpdxTable| #[trigger] scan.outcome(fedora, spdx) == sbom_result(sbom, fedora, spdx),
            forall|fedora: FedoraTable| #[trigger] scan.remaining_lookups(fedora) == sbom_lookups(sbom, fedora),
    {
        match sbom {
            Sbom::Spdx(doc) => SbomScan::new(doc),
            Sbom::CycloneDx => {
                let scan = SbomScan::new(empty_document());
                assert forall|fedora: FedoraTable, spdx: SpdxTable| #[trigger] scan.outcome(fedora, spdx) == sbom_result(sbom, fedora, spdx) by {
                    assert(scan.outcome(fedora, spdx).packages =~= Seq::empty());
                }
                assert forall|fedora: FedoraTable| #[trigger] scan.remaining_lookups(fedora) == sbom_lookups(sbom, fedora) by {
                    assert(scan.remaining_lookups(fedora) =~= Seq::empty());
                }
                scan
            },
        }
    }

    /// Whether all packages have been scanned.
    pub fn is_finished(&self) -> (r: bool)
        requires
            self.wf(),
        ensures
            r == self.finished(),
    {
        self.pkg >= self.doc.package_information.len()
    }

    /// The next lookup that the scan needs answered; `None` once every
    /// package has been scanned. Licenses that the document defines are
    /// resolved on the way, without a lookup. A lookup already asked for and
    /// not yet answered is asked for again. What the scan will end with, for
    /// any tables, stays as it was.
    #[verifier::spinoff_prover]
    #[verifier::rlimit(50)]
    pub fn next_request(&mut self) -> (r: Option<ScanRequest>)
        requires
            old(self).wf(),
        ensures
            final(self).wf(),
            final(self).document() == old(self).document(),
            forall|fedora: FedoraTable, spdx: SpdxTable| #[trigger] final(self).outcome(fedora, spdx) == old(self).outcome(fedora, spdx),
            r == final(self).pending_request(),
            r is None <==> final(self).finished(),
            old(self).finished() ==> *final(self) == *old(self),
            old(self).pending_request() is Some ==> *final(self) == *old(self),
            final(self).rank() == old(self).rank() || lex_below(final(self).rank(), old(self).rank()),
            forall|fedora: FedoraTable| #[trigger] final(self).remaining_lookups(fedora) == old(self).remaining_lookups(fedora),
            r matches Some(req) ==> forall|fedora: FedoraTable| #![trigger final(self).remaining_lookups(fedora)]
                final(self).remaining_lookups(fedora).len() > 0 && final(self).remaining_lookups(fedora)[0] == request_lookup(req),
            r is None ==> forall|fedora: FedoraTable| #[trigger] final(self).remaining_lookups(fedora).len() == 0,
    {
        match &self.pending {
            Some(req) => {
                let r = copy_request(req);
                proof { self.lemma_pending_first(); }
                return Some(r);
            },
            None => {},
        }
        if self.pkg >= self.doc.package_information.len() {
            proof { self.lemma_finished_no_lookups(); }
            return None;
        }
        let ghost start = *self;
        loop
            invariant
                self.wf(),
                !start.finished(),
                start.pending is None,
                self.pending is None,
                start == *old(self),
                self.doc == start.doc,
                forall|fedora: FedoraTable, spdx: SpdxTable| #[trigger] self.outcome(fedora, spdx) == start.outcome(fedora, spdx),
                forall|fedora: FedoraTable| #[trigger] self.remaining_lookups(fedora) == start.remaining_lookups(fedora),
                self.rank() == start.rank() || lex_below(self.rank(), start.rank()),
            decreases self.rank().0, self.rank().1, self.rank().3,
        {
            if self.next < self.queue.len() {
                let ghost before = *self;
                let id = self.queue[self.next].clone();
                self.next = self.next + 1;
                self.pending = Some(ScanRequest::SpdxById(id.clone()));
                proof {
                    assert forall|fedora: FedoraTable, spdx: SpdxTable| #[trigger] self.outcome(fedora, spdx) == before.outcome(fedora, spdx) by {
                        assert(strings_view(self.queue@)[before.next as int] == id@);
                        assert(self.current_licenses(fedora, spdx) =~= before.current_licenses(fedora, spdx));
                        assert(self.outcome(fedora, spdx).packages =~= before.outcome(fedora, spdx).packages);
                    }
                    assert forall|fedora: FedoraTable| #[trigger] self.remaining_lookups(fedora) == before.remaining_lookups(fedora) by {
                        let q = strings_view(self.queue@);
                        assert(q.skip(before.next as int) =~= seq![id@] + q.skip(self.next as int));
                        assert(spdx_lookups(q.skip(before.next as int)) =~= seq![Lookup::Spdx(id@)] + spdx_lookups(q.skip(self.next as int)));
                        assert(self.remaining_lookups(fedora) =~= before.remaining_lookups(fedora));
                    }
                    self.lemma_pending_first();
                }
                return Some(ScanRequest::SpdxById(id));
            }
            if self.pkg >= self.doc.package_information.len() {
                proof { self.lemma_finished_no_lookups(); }
                return None;
            }
            let pkg = self.pkg;
            match declared_term(&self.doc.package_information[pkg], self.term) {
                Some((identifier, license_ref)) => {
                    let ghost before = *self;
                    let ghost terms = declared_terms(self.doc.package_information@[pkg as int]);
                    self.term = self.term + 1;
                    if license_ref {
                        match find_extracted(&self.doc.other_licensing_information_detected, &identifier) {
                            Some(l) => {
                                self.licenses.push(l);
                            },
                            None => {},
                        }
                        proof {
                            assert forall|fedora: FedoraTable, spdx: SpdxTable| #[trigger] self.outcome(fedora, spdx) == before.outcome(fedora, spdx) by {
                                assert(self.current_licenses(fedora, spdx) =~= before.current_licenses(fedora, spdx));
                                assert(self.outcome(fedora, spdx).packages =~= before.outcome(fedora, spdx).packages);
                            }
                            assert forall|fedora: FedoraTable| #[trigger] self.remaining_lookups(fedora) == before.remaining_lookups(fedora) by {
                                assert(spdx_lookups(strings_view(self.queue@).skip(self.next as int)) =~= Seq::empty());
                                assert(self.remaining_lookups(fedora) =~= before.remaining_lookups(fedora));
                            }
                        }
                    } else if self.red_hat {
                        self.pending = Some(ScanRequest::FedoraByAbbrev(identifier.clone()));
                        proof {
                            assert forall|fedora: FedoraTable, spdx: SpdxTable| #[trigger] self.outcome(fedora, spdx) == before.outcome(fedora, spdx) by {
                                assert(self.current_licenses(fedora, spdx) =~= before.current_licenses(fedora, spdx));
                                assert(self.outcome(fedora, spdx).packages =~= before.outcome(fedora, spdx).packages);
                            }
                            assert forall|fedora: FedoraTable| #[trigger] self.remaining_lookups(fedora) == before.remaining_lookups(fedora) by {
                                assert(spdx_lookups(strings_view(self.queue@).skip(self.next as int)) =~= Seq::empty());
                                assert(self.remaining_lookups(fedora) =~= before.remaining_lookups(fedora));
                            }
                            self.lemma_pending_first();
                        }
                        return Some(ScanRequest::FedoraByAbbrev(identifier));
                    } else {
                        self.pending = Some(ScanRequest::SpdxById(identifier.clone()));
                        proof {
                            assert forall|fedora: FedoraTable, spdx: SpdxTable| #[trigger] self.outcome(fedora, spdx) == before.outcome(fedora, spdx) by {
                                assert(self.current_licenses(fedora, spdx) =~= before.current_licenses(fedora, spdx));
                                assert(self.outcome(fedora, spdx).packages =~= before.outcome(fedora, spdx).packages);
                            }
                            assert forall|fedora: FedoraTable| #[trigger] self.remaining_lookups(fedora) == before.remaining_lookups(fedora) by {
                                assert(spdx_lookups(strings_view(self.queue@).skip(self.next as int)) =~= Seq::empty());
                                assert(self.remaining_lookups(fedora) =~= before.remaining_lookups(fedora));
                            }
                            self.lemma_pending_first();
                        }
                        return Some(ScanRequest::SpdxById(identifier));
                    }
                },
                None => {
                    let ghost before = *self;
                    let mut done: Vec<PackageLicense> = Vec::new();
                    std::mem::swap(&mut done, &mut self.licenses);
                    let p = &self.doc.package_information[pkg];
                    let package = SbomPackage {
                        name: p.package_name.clone(),
                        version: copy_opt_string(&p.package_version),
                        purl: package_purl(&p.external_reference),
                        supplier: copy_opt_string(&p.package_supplier),
                        licenses: done,
                    };
                    self.packages.push(package);
                    self.term = 0;
                    self.pkg = pkg + 1;
                    proof {
                        assert forall|fedora: FedoraTable, spdx: SpdxTable| #[trigger] self.outcome(fedora, spdx) == before.outcome(fedora, spdx) by {
                            assert(before.current_licenses(fedora, spdx) =~= licenses_view(done@));
                            assert(package@ == package_with(self.doc.package_information@[pkg as int], before.current_licenses(fedora, spdx)));
                            assert(packages_view(self.packages@) =~= packages_view(before.packages@).push(package@));
                            if self.pkg < self.doc.package_information@.len() {
                                assert(licenses_view(self.licenses@) =~= Seq::empty());
                                assert(self.current_licenses(fedora, spdx) =~= terms_licenses(self.doc, self.red_hat, declared_terms(self.doc.package_information@[self.pkg as int]), 0, fedora, spdx));
                            }
                            assert(self.outcome(fedora, spdx).packages =~= before.outcome(fedora, spdx).packages);
                        }
                        assert forall|fedora: FedoraTable| #[trigger] self.remaining_lookups(fedora) == before.remaining_lookups(fedora) by {
                            assert(spdx_lookups(strings_view(self.queue@).skip(self.next as int)) =~= Seq::empty());
                            assert(self.remaining_lookups(fedora) =~= before.remaining_lookups(fedora));
                        }
                    }
                },
            }
        }
    }

    /// Hands the scan the answer to the lookup it waits for: the rows of the
    /// Fedora table for an abbreviation, whose SPDX identifiers are then
    /// looked up in turn, or the rows of the SPDX table for an identifier,
    /// whose licenses are added to the package. Where the answer is the
    /// table's, what the scan will end with stays as it was, and the scan has
    /// moved on. An answer of the other kind, or with no lookup pending,
    /// changes nothing.
    pub fn answer(&mut self, reply: ScanReply)
        requires
            old(self).wf(),
        ensures
            final(self).wf(),
            final(self).document() == old(self).document(),
            match (old(self).pending_request(), reply) {
                (Some(ScanRequest::FedoraByAbbrev(a)), ScanReply::Fedora(rows)) => {
                    &&& final(self).pending_request() is None
                    &&& lex_below(final(self).rank(), old(self).rank())
                    &&& forall|fedora: FedoraTable, spdx: SpdxTable| fedora(a@) == records_view(rows@)
                        ==> #[trigger] final(self).outcome(fedora, spdx) == old(self).outcome(fedora, spdx)
                    &&& forall|fedora: FedoraTable| fedora(a@) == records_view(rows@)
                        ==> #[trigger] final(self).remaining_lookups(fedora) == old(self).remaining_lookups(fedora).drop_first()
                },
                (Some(ScanRequest::SpdxById(id)), ScanReply::Spdx(rows)) => {
                    &&& final(self).pending_request() is None
                    &&& lex_below(final(self).rank(), old(self).rank())
                    &&& forall|fedora: FedoraTable, spdx: SpdxTable| spdx(id@) == spdx_records_view(rows@)
                        ==> #[trigger] final(self).outcome(fedora, spdx) == old(self).outcome(fedora, spdx)
                    &&& forall|fedora: FedoraTable|
                        #[trigger] final(self).remaining_lookups(fedora) == old(self).remaining_lookups(fedora).drop_first()
                },
                _ => *final(self) == *old(self),
            },
    {
        let ghost before = *self;
        let waits_fedora = match &self.pending {
            Some(ScanRequest::FedoraByAbbrev(_)) => true,
            _ => false,
        };
        let waits_spdx = match &self.pending {
            Some(ScanRequest::SpdxById(_)) => true,
            _ => false,
        };
        match reply {
            ScanReply::Fedora(rows) => {
                if waits_fedora {
                    let queue = fedora_ids(&rows);
                    self.pending = None;
                    self.next = 0;
                    self.queue = queue;
                    proof {
                        let a = before.pending->0->FedoraByAbbrev_0;
                        assert forall|fedora: FedoraTable, spdx: SpdxTable| fedora(a@) == records_view(rows@)
                            implies #[trigger] self.outcome(fedora, spdx) == before.outcome(fedora, spdx) by {
                            assert(self.current_licenses(fedora, spdx) =~= before.current_licenses(fedora, spdx));
                            assert(self.outcome(fedora, spdx).packages =~= before.outcome(fedora, spdx).packages);
                        }
                        assert forall|fedora: FedoraTable| fedora(a@) == records_view(rows@)
                            implies #[trigger] self.remaining_lookups(fedora) == before.remaining_lookups(fedora).drop_first() by {
                            assert(strings_view(self.queue@).skip(0) =~= strings_view(self.queue@));
                            assert(spdx_lookups(strings_view(before.queue@).skip(before.next as int)) =~= Seq::empty());
                            assert(self.remaining_lookups(fedora) =~= before.remaining_lookups(fedora).drop_first());
                        }
                    }
                }
            },
            ScanReply::Spdx(rows) => {
                if waits_spdx {
                    let mut found = spdx_rows_licenses(&rows);
                    let ghost old_licenses = licenses_view(self.licenses@);
                    self.licenses.append(&mut found);
                    self.pending = None;
                    proof {
                        let id = before.pending->0->SpdxById_0;
                        assert(licenses_view(self.licenses@) =~= old_licenses + spdx_licenses(spdx_records_view(rows@)));
                        assert forall|fedora: FedoraTable, spdx: SpdxTable| spdx(id@) == spdx_records_view(rows@)
                            implies #[trigger] self.outcome(fedora, spdx) == before.outcome(fedora, spdx) by {
                            assert(self.current_licenses(fedora, spdx) =~= before.current_licenses(fedora, spdx));
                            assert(self.outcome(fedora, spdx).packages =~= before.outcome(fedora, spdx).packages);
                        }
                        assert forall|fedora: FedoraTable|
                            #[trigger] self.remaining_lookups(fedora) == before.remaining_lookups(fedora).drop_first() by {
                            assert(self.remaining_lookups(fedora) =~= before.remaining_lookups(fedora).drop_first());
                        }
                    }
                }
            },
        }
    }

    /// The result of the scan: the packages scanned so far under the
    /// document's name; once the scan is finished, what it ends with.
    pub fn into_result(self) -> (r: SbomLicense)
        ensures
            r@ == self.completed(),
            self.finished() ==> forall|fedora: FedoraTable, spdx: SpdxTable| #[trigger] self.outcome(fedora, spdx) == r@,
    {
        let r = SbomLicense { sbom_name: self.doc.document_name, packages: self.packages };
        assert(self.finished() ==> forall|fedora: FedoraTable, spdx: SpdxTable| #[trigger] self.outcome(fedora, spdx) == r@) by {
            if self.finished() {
                assert forall|fedora: FedoraTable, spdx: SpdxTable| #[trigger] self.outcome(fedora, spdx) == r@ by {
                    assert(self.outcome(fedora, spdx).packages =~= r@.packages);
                }
            }
        }
        r
    }
}

/// The identifier and `LicenseRef` flag of the `j`-th simple license of a
/// package's declared license, if it has one.
fn declared_term(p: &PackageInformation, j: usize) -> (r: Option<(String, bool)>)
    ensures
        r is Some <==> j < declared_terms(*p).len(),
        r is Some ==> j < usize::MAX,
        r matches Some((identifier, license_ref)) ==> {
            &&& identifier@ == declared_terms(*p)[j as int].identifier
            &&& license_ref == declared_terms(*p)[j as int].license_ref
        },
{
    match &p.declared_license {
        Some(v) => {
            if j < v.len() {
                Some((v[j].identifier.clone(), v[j].license_ref))
            } else {
                None
            }
        },
        None => None,
    }
}

/// The SPDX identifiers that rows of the Fedora table point to.
fn fedora_ids(rows: &Vec<FedoraLicenseRecord>) -> (ids: Vec<String>)
    ensures
        strings_view(ids@) == fedora_spdx_ids(records_view(rows@)),
{
    let mut ids: Vec<String> = Vec::new();
    for i in 0..rows.len()
        invariant
            strings_view(ids@) == fedora_spdx_ids(records_view(rows@.take(i as int))),
    {
        let ghost before = strings_view(ids@);
        ids.push(rows[i].spdx_abbrev.clone());
        assert(strings_view(ids@) =~= before.push(rows@[i as int].spdx_abbrev@));
        assert(fedora_spdx_ids(records_view(rows@.take(i + 1))) =~= fedora_spdx_ids(records_view(rows@.take(i as int))).push(rows@[i as int].spdx_abbrev@));
        assert(records_view(rows@.take(i + 1)) =~= records_view(rows@.take(i as int)).push(rows@[i as int]@));
        assert(strings_view(ids@) =~= fedora_spdx_ids(records_view(rows@.take(i + 1))));
    }
    assert(rows@.take(rows@.len() as int) =~= rows@);
    ids
}

/// Rows of the SPDX table as package licenses.
fn spdx_rows_licenses(rows: &Vec<SpdxLicenseRecord>) -> (found: Vec<PackageLicense>)
    ensures
        licenses_view(found@) == spdx_licenses(spdx_records_view(rows@)),
{
    let mut found: Vec<PackageLicense> = Vec::new();
    for i in 0..rows.len()
        invariant
            licenses_view(found@) == spdx_licenses(spdx_records_view(rows@.take(i as int))),
    {
        let r = &rows[i];
        let ghost before = licenses_view(found@);
        found.push(PackageLicense {
            license_id: r.spdx_id.clone(),
            name: r.spdx_name.clone(),
            license_text: r.licenseText.clone(),
            license_text_html: r.licenseTextHtml.clone(),
        });
        assert(spdx_records_view(rows@.take(i + 1)) =~= spdx_records_view(rows@.take(i as int)).push(rows@[i as int]@));
        assert(licenses_view(found@) =~= before.push(spdx_license_of(rows@[i as int]@)));
        assert(spdx_licenses(spdx_records_view(rows@.take(i + 1))) =~= spdx_licenses(spdx_records_view(rows@.take(i as int))).push(spdx_license_of(rows@[i as int]@)));
        assert(licenses_view(found@) =~= spdx_licenses(spdx_records_view(rows@.take(i + 1))));
    }
    assert(rows@.take(rows@.len() as int) =~= rows@);
    found
}

} // verus!
