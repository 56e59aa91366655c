# chunkmydocs

The decision and text-processing core of a document-chunking service,
written in Verus with its behaviour stated in contracts and proved.

- `src/text.rs`: whitespace trimming, bullet stripping, splitting at the
  first '.', reading and writing `i32` in decimal.
- `src/segment.rs`: segment types and records, HTML and Markdown rendering,
  creation of segments from layout-analysis records.
- `src/ocr.rs`: which segments go to OCR, how outcomes are recorded, and the
  OCR worker's status updates.
- `src/task.rs`: the pipeline steps of a task and the worker's decisions
  between steps and on failure.
- `src/auth.rs`: generation of prefixed API keys and their stored records.
- `src/billing.rs`: Stripe customer resolution and webhook dispatch.
- `app/`: wire formats (serde, utoipa, postgres), the database schema, HTTP
  routes and queue workers, over service traits that a deployment implements.
- `tests/`: tests of the library on concrete inputs.
