# journal_trace

A verified reader of the NTFS update sequence number (USN) change journal and the
master file table, with an anti-forensics audit on top: journal records are parsed
from raw bytes, their full paths are rebuilt as they were at each record's time,
deleted records are carved out of unallocated clusters, and the audit flags
journal purges, sequence gaps, timestomping, deletion bursts, prefetch wiping,
attribute masking and stream tricks.

## Layout

- `src/` — the library, verified with Verus.
  - `bytes`, `text`: little-endian fields, character-sequence helpers, decimal and
    hexadecimal text.
  - `usn_record`, `journal`, `worker`: journal records, read requests and the
    decisions of the scan loop (how a read buffer is cut into records, when to stop,
    the scan summary).
  - `mft`, `mft_stream`, `volume`: master file table records (fixups, attributes,
    data runs), streaming the table, boot sector geometry and volume errors.
  - `rewind`: path reconstruction from the link history of the records.
  - `unallocated`: carving records out of raw clusters.
  - `search`, `ui`: the search box, the reason filter, the top bar and audit window
    decisions.
  - `antiforensics`: the detectors and the overall rating.
  - `reporting`: what the CSV and JSON exports hold.
- `tests/` — tests on concrete values.
- `app/` — the desktop program: Windows volume access, the background thread, the
  egui window and the export files.
