# vegafusion

Verified kernels of VegaFusion, the server-side runtime for Vega charts.

- `src/calendar.rs`: the proleptic Gregorian calendar and Unix time as
  mathematics, with the proof that a timestamp has one calendar date-time.
- `src/date_parts.rs`: Vega's date-part functions (`year`, `utcmonth`, ...)
  on timestamp columns, with the calendar computed by the `time` crate.
- `src/extent.rs`: the `extent` transform.
- `src/length.rs`, `src/is_valid.rs`: Vega's `length` and `isValid`.
- `src/comm.rs`: what the chart driver registers, requests and applies.
- `app/`: DataFusion scalar functions and serde types around the kernels.
- `tests/`: tests of the library.
