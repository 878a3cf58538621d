use vstd::prelude::*;

use crate::spdx::license::{License, LicenseDetail};

verus! {

/// A row of the SPDX lookup table.
#[allow(non_snake_case)]
#[derive(Clone, Debug, PartialEq, Eq)]
pub struct SpdxLicenseRecord {
    pub spdx_id: String,
    pub spdx_name: String,
    pub detailsUrl: String,
    pub licenseText: String,
    pub licenseComments: String,
    pub licenseTextHtml: String,
}

#[allow(non_snake_case)]
pub struct SpdxLicenseRecordView {
    pub spdx_id: Seq<char>,
    pub spdx_name: Seq<char>,
    pub detailsUrl: Seq<char>,
    pub licenseText: Seq<char>,
    pub licenseComments: Seq<char>,
    pub licenseTextHtml: Seq<char>,
}

impl View for SpdxLicenseRecord {
    type V = SpdxLicenseRecordView;

    open spec fn view(&self) -> SpdxLicenseRecordView {
        SpdxLicenseRecordView {
            spdx_id: self.spdx_id@,
            spdx_name: self.spdx_name@,
            detailsUrl: self.detailsUrl@,
            licenseText: self.licenseText@,
            licenseComments: self.licenseComments@,
            licenseTextHtml: self.licenseTextHtml@,
        }
    }
}

pub open spec fn spdx_records_view(v: Seq<SpdxLicenseRecord>) -> Seq<SpdxLicenseRecordView> {
    v.map_values(|r: SpdxLicenseRecord| r@)
}

/// The row of a listed license whose details were read: its identifier, name
/// and details address from the list, its text, text in HTML and comments
/// (empty where there are none) from the details.
pub open spec fn record_of(license: License, detail: LicenseDetail) -> SpdxLicenseRecordView {
    SpdxLicenseRecordView {
        spdx_id: license.licenseId@,
        spdx_name: license.name@,
        detailsUrl: license.detailsUrl@,
        licenseText: detail.license_text@,
        licenseComments: match detail.license_comments {
            Some(c) => c@,
            None => Seq::empty(),
        },
        licenseTextHtml: detail.license_text_html@,
    }
}

/// The rows of the listed licenses, in order, skipping those whose details
/// could not be read.
pub open spec fn fetched_records(fetched: Seq<(License, Option<LicenseDetail>)>) -> Seq<SpdxLicenseRecordView>
    decreases fetched.len(),
{
    if fetched.len() == 0 {
        Seq::empty()
    } else {
        let rest = fetched_records(fetched.drop_last());
        match fetched.last().1 {
            Some(detail) => rest.push(record_of(fetched.last().0, detail)),
            None => rest,
        }
    }
}

/// The lookup row of a listed license and its details.
pub fn spdx_license_record(license: &License, detail: &LicenseDetail) -> (r: SpdxLicenseRecord)
    ensures
        r@ == record_of(*license, *detail),
{
    let comments = match &detail.license_comments {
        Some(c) => c.clone(),
        None => String::new(),
    };
    SpdxLicenseRecord {
        spdx_id: license.licenseId.clone(),
        spdx_name: license.name.clone(),
        detailsUrl: license.detailsUrl.clone(),
        licenseText: detail.license_text.clone(),
        licenseComments: comments,
        licenseTextHtml: detail.license_text_html.clone(),
    }
}

/// The lookup rows of the listed licenses, each paired with its details where
/// they could be read: in list order, one row per license with details.
pub fn spdx_license_records(fetched: &Vec<(License, Option<LicenseDetail>)>) -> (rows: Vec<SpdxLicenseRecord>)
    ensures
        spdx_records_view(rows@) == fetched_records(fetched@),
{
    let mut rows: Vec<SpdxLicenseRecord> = Vec::new();
    for i in 0..fetched.len()
        invariant
            spdx_records_view(rows@) == fetched_records(fetched@.take(i as int)),
    {
        let ghost before = spdx_records_view(rows@);
        assert(fetched@.take(i + 1).drop_last() =~= fetched@.take(i as int));
        let (license, detail) = &fetched[i];
        match detail {
            Some(d) => {
                rows.push(spdx_license_record(license, d));
                assert(spdx_records_view(rows@) =~= before.push(record_of(*license, *d)));
            },
            None => {},
        }
    }
    assert(fetched@.take(fetched@.len() as int) =~= fetched@);
    rows
}

} // verus!
