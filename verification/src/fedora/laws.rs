use vstd::prelude::*;

use crate::expression::{identifiers_of, SimpleLicenseView};
use crate::fedora::api::{
    abbrev_records, abbrev_to_parse, abbrevs_records, all_records, cross_records,
    expression_records, expression_to_parse, ids_records, info_records, listing_fits,
    listings_fit, record, FedoraLicenseRecordView,
};
use crate::text::contains_text;
use crate::fedora::license::LicenseInfo;

verus! {

broadcast use vstd::seq_lib::group_to_multiset_ensures, vstd::multiset::group_multiset_axioms;

/// `g` applied to each element in turn, the results joined.
pub open spec fn flat<A, B>(s: Seq<A>, g: spec_fn(A) -> Seq<B>) -> Seq<B>
    decreases s.len(),
{
    if s.len() == 0 {
        Seq::empty()
    } else {
        flat(s.drop_last(), g) + g(s.last())
    }
}

proof fn flat_concat<A, B>(x: Seq<A>, y: Seq<A>, g: spec_fn(A) -> Seq<B>)
    ensures
        flat(x + y, g) == flat(x, g) + flat(y, g),
    decreases y.len(),
{
    if y.len() == 0 {
        assert(x + y =~= x);
        assert(flat(x, g) + flat(y, g) =~= flat(x, g));
    } else {
        flat_concat(x, y.drop_last(), g);
        assert((x + y).drop_last() =~= x + y.drop_last());
        assert((x + y).last() == y.last());
        assert(flat(x + y, g) =~= flat(x, g) + flat(y, g));
    }
}

proof fn flat_single<A, B>(a: A, g: spec_fn(A) -> Seq<B>)
    ensures
        flat(seq![a], g) == g(a),
{
    assert(seq![a].drop_last() =~= Seq::<A>::empty());
    assert(flat(seq![a].drop_last(), g) =~= Seq::<B>::empty());
    assert(seq![a].last() == a);
    assert(flat(seq![a], g) =~= g(a));
}

proof fn multiset_sum3<B>(x: Seq<B>, y: Seq<B>, z: Seq<B>)
    ensures
        (x + y + z).to_multiset() == x.to_multiset().add(y.to_multiset()).add(z.to_multiset()),
{
    vstd::seq_lib::lemma_multiset_commutative(x + y, z);
    vstd::seq_lib::lemma_multiset_commutative(x, y);
}

/// Joining the results of `g` over two sequences with the same elements
/// (counted with multiplicity) gives the same elements.
proof fn flat_multiset<A, B>(a: Seq<A>, b: Seq<A>, g: spec_fn(A) -> Seq<B>)
    requires
        a.to_multiset() == b.to_multiset(),
    ensures
        flat(a, g).to_multiset() == flat(b, g).to_multiset(),
    decreases a.len(),
{
    if a.len() == 0 {
        assert(b.to_multiset().len() == 0);
        assert(b =~= Seq::<A>::empty());
    } else {
        let x = a.last();
        let a1 = a.drop_last();
        assert(a1.push(x) =~= a);
        assert(a.to_multiset() == a1.to_multiset().insert(x));
        assert(b.to_multiset().count(x) > 0);
        assert(b.contains(x));
        let i = choose|i: int| 0 <= i < b.len() && b[i] == x;
        let b1 = b.subrange(0, i);
        let b2 = b.subrange(i + 1, b.len() as int);
        assert(b.remove(i) =~= b1 + b2);
        assert(b.remove(i).to_multiset() =~= b.to_multiset().remove(x));
        assert(a1.to_multiset() =~= a.to_multiset().remove(x));
        flat_multiset(a1, b1 + b2, g);
        flat_concat(b1, b2, g);
        assert(b =~= b1 + seq![x] + b2);
        flat_concat(b1 + seq![x], b2, g);
        flat_concat(b1, seq![x], g);
        flat_single(x, g);
        multiset_sum3(flat(b1, g), g(x), flat(b2, g));
        vstd::seq_lib::lemma_multiset_commutative(flat(b1, g), flat(b2, g));
        vstd::seq_lib::lemma_multiset_commutative(flat(a1, g), g(x));
        assert(flat(a, g) == flat(a1, g) + g(x));
        assert(flat(a, g).to_multiset() =~= flat(b, g).to_multiset());
    }
}

proof fn cross_is_flat(l: Seq<SimpleLicenseView>, abbrevs: Seq<Seq<char>>, approved: Seq<char>)
    ensures
        cross_records(identifiers_of(l), abbrevs, approved)
            == flat(l, |t: SimpleLicenseView| abbrevs_records(abbrevs, t.identifier, approved)),
    decreases l.len(),
{
    if l.len() > 0 {
        cross_is_flat(l.drop_last(), abbrevs, approved);
        assert(identifiers_of(l).drop_last() =~= identifiers_of(l.drop_last()));
    }
}

proof fn ids_is_flat(l: Seq<SimpleLicenseView>, fedora: Seq<char>, approved: Seq<char>)
    ensures
        ids_records(identifiers_of(l), fedora, approved)
            == flat(l, |t: SimpleLicenseView| seq![record(fedora, t.identifier, approved)]),
    decreases l.len(),
{
    if l.len() > 0 {
        ids_is_flat(l.drop_last(), fedora, approved);
        assert(ids_records(identifiers_of(l), fedora, approved) =~= ids_records(identifiers_of(l.drop_last()), fedora, approved)
            + seq![record(fedora, l.last().identifier, approved)]);
    } else {
        assert(ids_records(identifiers_of(l), fedora, approved) =~= Seq::empty());
    }
}

/// Two listings of one parsed expression hold the same licenses.
proof fn listings_same_multiset(text: Option<Seq<char>>, l1: Seq<SimpleLicenseView>, l2: Seq<SimpleLicenseView>)
    requires
        listing_fits(text, l1),
        listing_fits(text, l2),
    ensures
        l1.to_multiset() == l2.to_multiset(),
{
    match text {
        Some(t) => {
            l1.lemma_multiset_has_no_duplicates();
            l2.lemma_multiset_has_no_duplicates();
            assert forall|x: SimpleLicenseView| l1.to_multiset().count(x) == l2.to_multiset().count(x) by {
                assert(l1.contains(x) <==> l1.to_set().contains(x));
                assert(l2.contains(x) <==> l2.to_set().contains(x));
            }
            assert(l1.to_multiset() =~= l2.to_multiset());
        },
        None => {
            assert(l1 =~= l2);
        },
    }
}

proof fn info_records_multiset(info: LicenseInfo, e1: Seq<SimpleLicenseView>, a1: Seq<SimpleLicenseView>, e2: Seq<SimpleLicenseView>, a2: Seq<SimpleLicenseView>)
    requires
        listing_fits(expression_to_parse(info), e1),
        listing_fits(expression_to_parse(info), e2),
        listing_fits(abbrev_to_parse(info), a1),
        listing_fits(abbrev_to_parse(info), a2),
    ensures
        info_records(info, e1, a1).to_multiset() == info_records(info, e2, a2).to_multiset(),
{
    listings_same_multiset(expression_to_parse(info), e1, e2);
    listings_same_multiset(abbrev_to_parse(info), a1, a2);
    let approved = info.approved@;
    match (info.license, info.fedora) {
        (Some(spdx), Some(fedora)) => match fedora.legacy_abbreviation {
            Some(abbrevs) => {
                let ab = crate::expression::strings_view(abbrevs@);
                cross_is_flat(e1, ab, approved);
                cross_is_flat(e2, ab, approved);
                flat_multiset(e1, e2, |t: SimpleLicenseView| abbrevs_records(ab, t.identifier, approved));
            },
            None => {},
        },
        _ => {},
    }
    match (info.spdx_abbrev, info.fedora_abbrev) {
        (Some(spdx), Some(fedora)) => {
            ids_is_flat(a1, fedora@, approved);
            ids_is_flat(a2, fedora@, approved);
            flat_multiset(a1, a2, |t: SimpleLicenseView| seq![record(fedora@, t.identifier, approved)]);
        },
        _ => {},
    }
    assert(expression_records(info, e1).to_multiset() == expression_records(info, e2).to_multiset());
    assert(abbrev_records(info, a1).to_multiset() == abbrev_records(info, a2).to_multiset());
    vstd::seq_lib::lemma_multiset_commutative(expression_records(info, e1), abbrev_records(info, a1));
    vstd::seq_lib::lemma_multiset_commutative(expression_records(info, e2), abbrev_records(info, a2));
}

/// The rows made from Fedora's license data do not depend on the order in
/// which the parser lists the licenses of an expression: for any two fitting
/// listings, the same rows come out, each as often.
pub proof fn lemma_rows_independent_of_listing_order(
    infos: Seq<LicenseInfo>,
    l1: Seq<(Seq<SimpleLicenseView>, Seq<SimpleLicenseView>)>,
    l2: Seq<(Seq<SimpleLicenseView>, Seq<SimpleLicenseView>)>,
)
    requires
        listings_fit(infos, l1),
        listings_fit(infos, l2),
    ensures
        all_records(infos, l1).to_multiset() == all_records(infos, l2).to_multiset(),
    decreases infos.len(),
{
    if infos.len() > 0 {
        let n = infos.len() - 1;
        assert(listings_fit(infos.drop_last(), l1.drop_last())) by {
            assert forall|i: int| 0 <= i < infos.drop_last().len() implies infos.drop_last()[i] == infos[i] by {}
        }
        assert(listings_fit(infos.drop_last(), l2.drop_last())) by {
            assert forall|i: int| 0 <= i < infos.drop_last().len() implies infos.drop_last()[i] == infos[i] by {}
        }
        lemma_rows_independent_of_listing_order(infos.drop_last(), l1.drop_last(), l2.drop_last());
        assert(infos[n] == infos.last());
        info_records_multiset(infos.last(), l1.last().0, l1.last().1, l2.last().0, l2.last().1);
        vstd::seq_lib::lemma_multiset_commutative(all_records(infos.drop_last(), l1.drop_last()), info_records(infos.last(), l1.last().0, l1.last().1));
        vstd::seq_lib::lemma_multiset_commutative(all_records(infos.drop_last(), l2.drop_last()), info_records(infos.last(), l2.last().0, l2.last().1));
    }
}

proof fn cross_carries_approval(ids: Seq<Seq<char>>, abbrevs: Seq<Seq<char>>, approved: Seq<char>)
    ensures
        forall|k: int| 0 <= k < cross_records(ids, abbrevs, approved).len()
            ==> (#[trigger] cross_records(ids, abbrevs, approved)[k]).approved == approved,
    decreases ids.len(),
{
    if ids.len() > 0 {
        cross_carries_approval(ids.drop_last(), abbrevs, approved);
        let front = cross_records(ids.drop_last(), abbrevs, approved);
        let back = abbrevs_records(abbrevs, ids.last(), approved);
        assert forall|k: int| 0 <= k < cross_records(ids, abbrevs, approved).len()
            implies (#[trigger] cross_records(ids, abbrevs, approved)[k]).approved == approved by {
            if k < front.len() {
                assert(cross_records(ids, abbrevs, approved)[k] == front[k]);
            } else {
                assert(cross_records(ids, abbrevs, approved)[k] == back[k - front.len()]);
            }
        }
    }
}

/// Every row made from an entry carries the entry's approval status.
pub proof fn lemma_rows_carry_approval(info: LicenseInfo, expression_listing: Seq<SimpleLicenseView>, abbrev_listing: Seq<SimpleLicenseView>)
    ensures
        forall|k: int| 0 <= k < info_records(info, expression_listing, abbrev_listing).len()
            ==> (#[trigger] info_records(info, expression_listing, abbrev_listing)[k]).approved == info.approved@,
{
    let first = expression_records(info, expression_listing);
    let second = abbrev_records(info, abbrev_listing);
    match (info.license, info.fedora) {
        (Some(spdx), Some(fedora)) => match fedora.legacy_abbreviation {
            Some(abbrevs) => {
                cross_carries_approval(identifiers_of(expression_listing), crate::expression::strings_view(abbrevs@), info.approved@);
            },
            None => {},
        },
        _ => {},
    }
    assert forall|k: int| 0 <= k < info_records(info, expression_listing, abbrev_listing).len()
        implies (#[trigger] info_records(info, expression_listing, abbrev_listing)[k]).approved == info.approved@ by {
        if k < first.len() {
            assert(info_records(info, expression_listing, abbrev_listing)[k] == first[k]);
        } else {
            assert(info_records(info, expression_listing, abbrev_listing)[k] == second[k - first.len()]);
        }
    }
}

/// Where an entry has both abbreviations and its `spdx_abbrev` is parsed
/// (it names no `LicenseRef-`), the rows after those of its SPDX/Fedora part
/// are one per listed license, in order: the Fedora abbreviation, that
/// license's identifier, and the entry's approval status; whatever the two
/// abbreviations are.
pub proof fn lemma_abbreviation_rows(info: LicenseInfo, expression_listing: Seq<SimpleLicenseView>, abbrev_listing: Seq<SimpleLicenseView>)
    requires
        info.spdx_abbrev is Some,
        info.fedora_abbrev is Some,
        !contains_text(info.spdx_abbrev->0@, "LicenseRef-"@),
    ensures
        ({
            let rows = info_records(info, expression_listing, abbrev_listing);
            let start = expression_records(info, expression_listing).len() as int;
            &&& rows.len() == start + abbrev_listing.len()
            &&& forall|k: int| 0 <= k < abbrev_listing.len() ==> #[trigger] rows[start + k] == FedoraLicenseRecordView {
                fedora_abbrev: info.fedora_abbrev->0@,
                spdx_abbrev: abbrev_listing[k].identifier,
                approved: info.approved@,
            }
        }),
{
}

/// Where an entry has both abbreviations and its `spdx_abbrev` names a
/// `LicenseRef-`, its last row keeps that text whole for the Fedora
/// abbreviation.
pub proof fn lemma_abbreviation_license_ref_row(info: LicenseInfo, expression_listing: Seq<SimpleLicenseView>, abbrev_listing: Seq<SimpleLicenseView>)
    requires
        info.spdx_abbrev is Some,
        info.fedora_abbrev is Some,
        contains_text(info.spdx_abbrev->0@, "LicenseRef-"@),
    ensures
        ({
            let rows = info_records(info, expression_listing, abbrev_listing);
            let start = expression_records(info, expression_listing).len() as int;
            &&& rows.len() == start + 1
            &&& rows[start] == FedoraLicenseRecordView {
                fedora_abbrev: info.fedora_abbrev->0@,
                spdx_abbrev: info.spdx_abbrev->0@,
                approved: info.approved@,
            }
        }),
{
}

proof fn cross_shape(ids: Seq<Seq<char>>, abbrevs: Seq<Seq<char>>, approved: Seq<char>)
    ensures
        cross_records(ids, abbrevs, approved).len() == ids.len() * abbrevs.len(),
        forall|k: int, m: int| 0 <= k < ids.len() && 0 <= m < abbrevs.len()
            ==> #[trigger] cross_records(ids, abbrevs, approved)[k * abbrevs.len() + m]
                == (FedoraLicenseRecordView { fedora_abbrev: abbrevs[m], spdx_abbrev: ids[k], approved }),
    decreases ids.len(),
{
    let a = abbrevs.len();
    if ids.len() > 0 {
        let n = ids.len();
        let front = ids.drop_last();
        cross_shape(front, abbrevs, approved);
        assert((n - 1) * a + a == n * a) by (nonlinear_arith);
        let rows = cross_records(ids, abbrevs, approved);
        let first = cross_records(front, abbrevs, approved);
        assert forall|k: int, m: int| 0 <= k < n && 0 <= m < a implies #[trigger] rows[k * a + m]
            == (FedoraLicenseRecordView { fedora_abbrev: abbrevs[m], spdx_abbrev: ids[k], approved }) by {
            if k < n - 1 {
                assert(k * a + m < (n - 1) * a) by (nonlinear_arith)
                    requires 0 <= k < n - 1, 0 <= m < a;
                assert(k * a >= 0) by (nonlinear_arith)
                    requires 0 <= k, 0 <= a;
                assert(rows[k * a + m] == first[k * a + m]);
                assert(front[k] == ids[k]);
            } else {
                assert(k * a == (n - 1) * a);
                assert(rows[k * a + m] == abbrevs_records(abbrevs, ids.last(), approved)[m]);
            }
        }
    } else {
        assert(0 * a == 0) by (nonlinear_arith);
    }
}

/// Where an entry has an SPDX part with an expression that is parsed and a
/// Fedora part with legacy abbreviations, its first rows cross them: one
/// row per listed license and legacy abbreviation, license after license,
/// each with the entry's approval status.
pub proof fn lemma_expression_rows(info: LicenseInfo, expression_listing: Seq<SimpleLicenseView>, abbrev_listing: Seq<SimpleLicenseView>)
    requires
        info.license is Some,
        info.fedora is Some,
        info.fedora->0.legacy_abbreviation is Some,
        !contains_text(info.license->0.expression@, "LicenseRef-"@),
    ensures
        ({
            let abbrevs = info.fedora->0.legacy_abbreviation->0@;
            let rows = info_records(info, expression_listing, abbrev_listing);
            &&& expression_records(info, expression_listing).len() == expression_listing.len() * abbrevs.len()
            &&& forall|k: int, m: int| 0 <= k < expression_listing.len() && 0 <= m < abbrevs.len()
                ==> #[trigger] rows[k * abbrevs.len() + m] == (FedoraLicenseRecordView {
                    fedora_abbrev: abbrevs[m]@,
                    spdx_abbrev: expression_listing[k].identifier,
                    approved: info.approved@,
                })
        }),
{
    let abbrevs = info.fedora->0.legacy_abbreviation->0@;
    let ab = crate::expression::strings_view(abbrevs);
    let ids = identifiers_of(expression_listing);
    cross_shape(ids, ab, info.approved@);
    let first = expression_records(info, expression_listing);
    let rows = info_records(info, expression_listing, abbrev_listing);
    assert forall|k: int, m: int| 0 <= k < expression_listing.len() && 0 <= m < abbrevs.len()
        implies #[trigger] rows[k * abbrevs.len() + m] == (FedoraLicenseRecordView {
            fedora_abbrev: abbrevs[m]@,
            spdx_abbrev: expression_listing[k].identifier,
            approved: info.approved@,
        }) by {
        assert(k * ab.len() + m < ids.len() * ab.len()) by (nonlinear_arith)
            requires 0 <= k < ids.len(), 0 <= m < ab.len();
        assert(k * ab.len() >= 0) by (nonlinear_arith)
            requires 0 <= k, 0 <= ab.len();
        assert(rows[k * abbrevs.len() + m] == first[k * abbrevs.len() + m]);
    }
}

} // verus!
