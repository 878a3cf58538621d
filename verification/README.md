# sbom_license_scanner

Finds the licenses of the packages of an SBOM. Two lookup tables are filled
from published license data: Fedora's license data (Fedora abbreviations and
the SPDX identifiers they stand for) and the SPDX license list (identifiers,
names and texts). An SPDX document is then scanned package by package: each
simple license of a package's declared license is resolved from the document
itself (`LicenseRef`s), through the Fedora table and then the SPDX table
(documents made by Red Hat), or in the SPDX table directly.

Layout:

- `src/` — the library, verified with Verus:
  - `text.rs`: substring search on strings.
  - `expression.rs`: simple licenses and the call into `spdx-expression`.
  - `fedora/`: Fedora's license data and the rows made from it, with laws.
  - `spdx/`: the SPDX license list and the rows made from it.
  - `sbom/`: the document model, the result model, the scan (a state
    machine that asks for each database lookup it needs), and laws.
  - `common.rs`: the database connection string.
- `app/` — the program around the library: fetching over HTTP, JSON
  decoding, the database (sea-orm entities, queries and inserts), and the loop
  that answers the scan's lookups.
- `tests/` — tests of the library.
