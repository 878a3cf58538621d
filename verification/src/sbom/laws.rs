use vstd::prelude::*;

use crate::expression::opt_view;
use crate::sbom::document::{
    ExternalPackageReference, OtherLicensingInformationDetected, PackageInformation, SpdxDocument,
};
use crate::sbom::model::PackageLicenseView;
use crate::sbom::scanner::extracted_for;
use crate::text::contains_text;
use crate::sbom::scanner::{
    declared_terms, is_red_hat, packages_lookups, packages_result, purl_of, scan_lookups,
    scan_result, term_licenses, terms_licenses, terms_lookups, FedoraTable, Lookup, SpdxTable,
};
use crate::expression::SimpleLicenseView;

verus! {

proof fn terms_ignore_fedora(doc: SpdxDocument, terms: Seq<SimpleLicenseView>, j: int, f1: FedoraTable, f2: FedoraTable, spdx: SpdxTable)
    ensures
        terms_licenses(doc, false, terms, j, f1, spdx) == terms_licenses(doc, false, terms, j, f2, spdx),
    decreases terms.len() - j,
{
    if 0 <= j < terms.len() {
        terms_ignore_fedora(doc, terms, j + 1, f1, f2, spdx);
        assert(term_licenses(doc, false, terms[j], f1, spdx) == term_licenses(doc, false, terms[j], f2, spdx));
    }
}

proof fn packages_ignore_fedora(doc: SpdxDocument, i: int, f1: FedoraTable, f2: FedoraTable, spdx: SpdxTable)
    ensures
        packages_result(doc, false, i, f1, spdx) == packages_result(doc, false, i, f2, spdx),
    decreases doc.package_information@.len() - i,
{
    if 0 <= i < doc.package_information@.len() {
        packages_ignore_fedora(doc, i + 1, f1, f2, spdx);
        terms_ignore_fedora(doc, declared_terms(doc.package_information@[i]), 0, f1, f2, spdx);
    }
}

/// A document that no Red Hat creator made is scanned without the Fedora
/// table: whatever that table holds, the result is the same.
pub proof fn lemma_fedora_table_unused_outside_red_hat(doc: SpdxDocument, f1: FedoraTable, f2: FedoraTable, spdx: SpdxTable)
    requires
        !is_red_hat(doc),
    ensures
        scan_result(doc, f1, spdx) == scan_result(doc, f2, spdx),
{
    packages_ignore_fedora(doc, 0, f1, f2, spdx);
}

/// Every simple license of the terms is a `LicenseRef`.
pub open spec fn only_license_refs(terms: Seq<SimpleLicenseView>) -> bool {
    forall|k: int| 0 <= k < terms.len() ==> (#[trigger] terms[k]).license_ref
}

proof fn refs_ignore_tables(doc: SpdxDocument, red_hat: bool, terms: Seq<SimpleLicenseView>, j: int, f1: FedoraTable, s1: SpdxTable, f2: FedoraTable, s2: SpdxTable)
    requires
        only_license_refs(terms),
    ensures
        terms_licenses(doc, red_hat, terms, j, f1, s1) == terms_licenses(doc, red_hat, terms, j, f2, s2),
    decreases terms.len() - j,
{
    if 0 <= j < terms.len() {
        refs_ignore_tables(doc, red_hat, terms, j + 1, f1, s1, f2, s2);
        assert(terms[j].license_ref);
    }
}

/// The licenses of a package whose declared license names only `LicenseRef`s
/// come from the document alone: no table is consulted for them.
pub proof fn lemma_license_refs_resolved_from_document(
    doc: SpdxDocument,
    red_hat: bool,
    p: PackageInformation,
    f1: FedoraTable,
    s1: SpdxTable,
    f2: FedoraTable,
    s2: SpdxTable,
)
    requires
        only_license_refs(declared_terms(p)),
    ensures
        terms_licenses(doc, red_hat, declared_terms(p), 0, f1, s1) == terms_licenses(doc, red_hat, declared_terms(p), 0, f2, s2),
{
    refs_ignore_tables(doc, red_hat, declared_terms(p), 0, f1, s1, f2, s2);
}

proof fn packages_shape(doc: SpdxDocument, red_hat: bool, i: int, fedora: FedoraTable, spdx: SpdxTable)
    requires
        0 <= i <= doc.package_information@.len(),
    ensures
        packages_result(doc, red_hat, i, fedora, spdx).len() == doc.package_information@.len() - i,
        forall|k: int| 0 <= k < doc.package_information@.len() - i ==> {
            let r = #[trigger] packages_result(doc, red_hat, i, fedora, spdx)[k];
            let p = doc.package_information@[i + k];
            &&& r.name == p.package_name@
            &&& r.version == opt_view(p.package_version)
            &&& r.purl == purl_of(p.external_reference@)
            &&& r.supplier == opt_view(p.package_supplier)
            &&& r.licenses == terms_licenses(doc, red_hat, declared_terms(p), 0, fedora, spdx)
        },
    decreases doc.package_information@.len() - i,
{
    if i < doc.package_information@.len() {
        packages_shape(doc, red_hat, i + 1, fedora, spdx);
        let rest = packages_result(doc, red_hat, i + 1, fedora, spdx);
        assert forall|k: int| 0 < k < doc.package_information@.len() - i implies
            packages_result(doc, red_hat, i, fedora, spdx)[k] == rest[k - 1] by {}
    }
}

/// The scan keeps the document's packages: one result package per package,
/// in order, with its name, version, package URL and supplier, and the
/// licenses found for its declared license (none where it declares none).
pub proof fn lemma_scan_keeps_packages(doc: SpdxDocument, fedora: FedoraTable, spdx: SpdxTable)
    ensures
        scan_result(doc, fedora, spdx).sbom_name == doc.document_name@,
        scan_result(doc, fedora, spdx).packages.len() == doc.package_information@.len(),
        forall|k: int| 0 <= k < doc.package_information@.len() ==> {
            let r = #[trigger] scan_result(doc, fedora, spdx).packages[k];
            let p = doc.package_information@[k];
            &&& r.name == p.package_name@
            &&& r.version == opt_view(p.package_version)
            &&& r.purl == purl_of(p.external_reference@)
            &&& r.supplier == opt_view(p.package_supplier)
            &&& r.licenses == terms_licenses(doc, is_red_hat(doc), declared_terms(p), 0, fedora, spdx)
            &&& p.declared_license is None ==> r.licenses.len() == 0
        },
{
    packages_shape(doc, is_red_hat(doc), 0, fedora, spdx);
    assert forall|k: int| 0 <= k < doc.package_information@.len() implies
        (doc.package_information@[k].declared_license is None ==> (#[trigger] scan_result(doc, fedora, spdx).packages[k]).licenses.len() == 0) by {
        assert(doc.package_information@[0 + k] == doc.package_information@[k]);
    }
}

proof fn refs_need_no_lookups(red_hat: bool, terms: Seq<SimpleLicenseView>, j: int, fedora: FedoraTable)
    requires
        only_license_refs(terms),
    ensures
        terms_lookups(red_hat, terms, j, fedora) == Seq::<Lookup>::empty(),
    decreases terms.len() - j,
{
    if 0 <= j < terms.len() {
        refs_need_no_lookups(red_hat, terms, j + 1, fedora);
        assert(terms[j].license_ref);
        assert(terms_lookups(red_hat, terms, j, fedora) =~= Seq::<Lookup>::empty());
    }
}

/// No lookup is asked for a package whose declared license names only
/// `LicenseRef`s, nor for one that declares no license.
pub proof fn lemma_no_lookups_for_license_refs(red_hat: bool, p: PackageInformation, fedora: FedoraTable)
    requires
        p.declared_license is None || only_license_refs(declared_terms(p)),
    ensures
        terms_lookups(red_hat, declared_terms(p), 0, fedora) == Seq::<Lookup>::empty(),
{
    refs_need_no_lookups(red_hat, declared_terms(p), 0, fedora);
}

proof fn terms_lookups_are_spdx(terms: Seq<SimpleLicenseView>, j: int, fedora: FedoraTable)
    ensures
        forall|k: int| 0 <= k < terms_lookups(false, terms, j, fedora).len()
            ==> (#[trigger] terms_lookups(false, terms, j, fedora)[k]) is Spdx,
    decreases terms.len() - j,
{
    if 0 <= j < terms.len() {
        terms_lookups_are_spdx(terms, j + 1, fedora);
        let head = crate::sbom::scanner::term_lookups(false, terms[j], fedora);
        let rest = terms_lookups(false, terms, j + 1, fedora);
        assert forall|k: int| 0 <= k < terms_lookups(false, terms, j, fedora).len()
            implies (#[trigger] terms_lookups(false, terms, j, fedora)[k]) is Spdx by {
            if k >= head.len() {
                assert(terms_lookups(false, terms, j, fedora)[k] == rest[k - head.len()]);
            }
        }
    }
}

proof fn packages_lookups_are_spdx(doc: SpdxDocument, i: int, fedora: FedoraTable)
    ensures
        forall|k: int| 0 <= k < packages_lookups(doc, false, i, fedora).len()
            ==> (#[trigger] packages_lookups(doc, false, i, fedora)[k]) is Spdx,
    decreases doc.package_information@.len() - i,
{
    if 0 <= i < doc.package_information@.len() {
        packages_lookups_are_spdx(doc, i + 1, fedora);
        let head = terms_lookups(false, declared_terms(doc.package_information@[i]), 0, fedora);
        let rest = packages_lookups(doc, false, i + 1, fedora);
        terms_lookups_are_spdx(declared_terms(doc.package_information@[i]), 0, fedora);
        assert forall|k: int| 0 <= k < packages_lookups(doc, false, i, fedora).len()
            implies (#[trigger] packages_lookups(doc, false, i, fedora)[k]) is Spdx by {
            if k < head.len() {
                assert(packages_lookups(doc, false, i, fedora)[k] == head[k]);
            } else {
                assert(packages_lookups(doc, false, i, fedora)[k] == rest[k - head.len()]);
            }
        }
    }
}

/// A document that no Red Hat creator made asks only for SPDX lookups.
pub proof fn lemma_only_spdx_lookups_outside_red_hat(doc: SpdxDocument, fedora: FedoraTable)
    requires
        !is_red_hat(doc),
    ensures
        forall|k: int| 0 <= k < scan_lookups(doc, fedora).len() ==> (#[trigger] scan_lookups(doc, fedora)[k]) is Spdx,
{
    packages_lookups_are_spdx(doc, 0, fedora);
}

/// A creator naming Red Hat at any position makes the document a Red Hat
/// one (so the scan goes through the Fedora table).
pub proof fn lemma_red_hat_creator_anywhere(doc: SpdxDocument, i: int)
    requires
        0 <= i < doc.creators@.len(),
        contains_text(doc.creators@[i]@, "Red Hat"@),
    ensures
        is_red_hat(doc),
{
    assert(contains_text(doc.creators@[i]@, "Red Hat"@));
}

/// A document is a Red Hat one only through a creator that names Red Hat.
pub proof fn lemma_red_hat_only_by_creator(doc: SpdxDocument)
    requires
        is_red_hat(doc),
    ensures
        exists|i: int| 0 <= i < doc.creators@.len() && contains_text(#[trigger] doc.creators@[i]@, "Red Hat"@),
{
}

/// A `LicenseRef` resolves to the first license defined by the document
/// whose identifier holds it, carried over whole: its identifier, its name,
/// its extracted text unchanged, and no HTML text.
pub proof fn lemma_license_ref_takes_first_match(others: Seq<OtherLicensingInformationDetected>, id: Seq<char>, k: int)
    requires
        0 <= k < others.len(),
        contains_text(others[k].license_identifier@, id),
        forall|j: int| 0 <= j < k ==> !contains_text(#[trigger] others[j].license_identifier@, id),
    ensures
        extracted_for(others, id) == Some(PackageLicenseView {
            license_id: others[k].license_identifier@,
            name: others[k].license_name@,
            license_text: others[k].extracted_text@,
            license_text_html: Seq::empty(),
        }),
    decreases k,
{
    if k > 0 {
        let rest = others.drop_first();
        assert(!contains_text(others[0].license_identifier@, id));
        assert forall|j: int| 0 <= j < k - 1 implies !contains_text(#[trigger] rest[j].license_identifier@, id) by {
            assert(rest[j] == others[j + 1]);
        }
        assert(rest[k - 1] == others[k]);
        lemma_license_ref_takes_first_match(rest, id, k - 1);
    }
}

/// A `LicenseRef` that no license defined by the document holds resolves to
/// nothing.
pub proof fn lemma_license_ref_without_match(others: Seq<OtherLicensingInformationDetected>, id: Seq<char>)
    requires
        forall|j: int| 0 <= j < others.len() ==> !contains_text(#[trigger] others[j].license_identifier@, id),
    ensures
        extracted_for(others, id) is None,
    decreases others.len(),
{
    if others.len() > 0 {
        let rest = others.drop_first();
        assert(!contains_text(others[0].license_identifier@, id));
        assert forall|j: int| 0 <= j < rest.len() implies !contains_text(#[trigger] rest[j].license_identifier@, id) by {
            assert(rest[j] == others[j + 1]);
        }
        lemma_license_ref_without_match(rest, id);
    }
}

/// The package URL is the locator of the first reference of type `purl`,
/// wherever it stands.
pub proof fn lemma_purl_is_first_purl_reference(refs: Seq<ExternalPackageReference>, k: int)
    requires
        0 <= k < refs.len(),
        refs[k].reference_type@ == "purl"@,
        forall|j: int| 0 <= j < k ==> (#[trigger] refs[j]).reference_type@ != "purl"@,
    ensures
        purl_of(refs) == refs[k].reference_locator@,
    decreases k,
{
    if k > 0 {
        let rest = refs.drop_first();
        assert(refs[0].reference_type@ != "purl"@);
        assert forall|j: int| 0 <= j < k - 1 implies (#[trigger] rest[j]).reference_type@ != "purl"@ by {
            assert(rest[j] == refs[j + 1]);
        }
        assert(rest[k - 1] == refs[k]);
        lemma_purl_is_first_purl_reference(rest, k - 1);
    }
}

/// The package URL is empty exactly where no reference has type `purl`.
pub proof fn lemma_purl_empty_without_purl_reference(refs: Seq<ExternalPackageReference>)
    requires
        forall|j: int| 0 <= j < refs.len() ==> (#[trigger] refs[j]).reference_type@ != "purl"@,
    ensures
        purl_of(refs) == Seq::<char>::empty(),
    decreases refs.len(),
{
    if refs.len() > 0 {
        let rest = refs.drop_first();
        assert(refs[0].reference_type@ != "purl"@);
        assert forall|j: int| 0 <= j < rest.len() implies (#[trigger] rest[j]).reference_type@ != "purl"@ by {
            assert(rest[j] == refs[j + 1]);
        }
        lemma_purl_empty_without_purl_reference(rest);
    }
}

} // verus!
