use vstd::prelude::*;

use crate::spdx::api::{fetched_records, SpdxLicenseRecordView};
use crate::spdx::license::{License, LicenseDetail};

verus! {

/// The listed licenses whose details could be read, in list order.
pub open spec fn read_entries(fetched: Seq<(License, Option<LicenseDetail>)>) -> Seq<(License, Option<LicenseDetail>)> {
    fetched.filter(|e: (License, Option<LicenseDetail>)| e.1 is Some)
}

/// Every listed license whose details could be read gives exactly one row,
/// in list order, whatever its other flags: its identifier, name and details
/// address from the list; its text, HTML text and comments (empty where
/// there are none) from the details.
pub proof fn lemma_one_row_per_read_license(fetched: Seq<(License, Option<LicenseDetail>)>)
    ensures
        fetched_records(fetched).len() == read_entries(fetched).len(),
        forall|j: int| 0 <= j < read_entries(fetched).len() ==> #[trigger] fetched_records(fetched)[j] == ({
            let e = read_entries(fetched)[j];
            let d = e.1->0;
            SpdxLicenseRecordView {
                spdx_id: e.0.licenseId@,
                spdx_name: e.0.name@,
                detailsUrl: e.0.detailsUrl@,
                licenseText: d.license_text@,
                licenseComments: match d.license_comments {
                    Some(c) => c@,
                    None => Seq::empty(),
                },
                licenseTextHtml: d.license_text_html@,
            }
        }),
    decreases fetched.len(),
{
    reveal_with_fuel(Seq::<(License, Option<LicenseDetail>)>::filter, 1);
    if fetched.len() > 0 {
        lemma_one_row_per_read_license(fetched.drop_last());
        let front = read_entries(fetched.drop_last());
        let rows = fetched_records(fetched.drop_last());
        assert forall|j: int| 0 <= j < read_entries(fetched).len() implies #[trigger] fetched_records(fetched)[j] == ({
            let e = read_entries(fetched)[j];
            let d = e.1->0;
            SpdxLicenseRecordView {
                spdx_id: e.0.licenseId@,
                spdx_name: e.0.name@,
                detailsUrl: e.0.detailsUrl@,
                licenseText: d.license_text@,
                licenseComments: match d.license_comments {
                    Some(c) => c@,
                    None => Seq::empty(),
                },
                licenseTextHtml: d.license_text_html@,
            }
        }) by {
            if j < front.len() {
                assert(read_entries(fetched)[j] == front[j]);
                assert(fetched_records(fetched)[j] == rows[j]);
            }
        }
    }
}

} // verus!
