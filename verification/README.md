# Audit log

A verified library that keeps an audit trail of the tool calls of a gateway. It
makes one record before a call and one after it, and never denies a call.

## Layout

- `src/plugin.rs`: which calls are audited, the numbering of records, the
  manifest, shutdown.
- `src/event.rs`: the records, and what they may hold of arguments and results.
- `src/summary.rs`: summaries of tool results.
- `src/digest.rs`, `src/json_text.rs`: digests of payloads.
- `src/config.rs`: the configuration, its defaults, and which sink options are
  refused.
- `src/sinks.rs`, `src/delivery.rs`: where records go, what is counted on the
  way, and how long a shutdown waits.
- `src/clock.rs`: timestamps.
- `src/json.rs`, `src/text.rs`, `src/text_order.rs`: payloads, numbers and bytes
  as text, and the order of texts.
- `app/`: the plugin as a gateway loads it, with its writer thread.

## What is proved

- Every call is allowed. A call is recorded exactly if the filter says so.
- Records are numbered from zero, in the order of the calls and without gaps.
- The two records of a call name the same call and hold the same of its
  arguments, and their numbers follow each other where nothing comes between.
- Whatever is configured, every payload in a record and the digest of the
  arguments come out of the redactor. By default no payload is in a record, and of a
  result only its summary and its redacted `_meta.audit` show.
- A digest depends only on what the redactor leaves of a payload.
- A summary holds the sorted set of content types.
- Sink options that a sink does not have are refused, and the retired one is
  refused with its reason.
- Every failed write is counted.
- Timestamps show the day of the Gregorian calendar and the time of day of a
  clock reading, cut to milliseconds.

Matching tool names against patterns and redacting payloads are functions that
the caller hands in; the library is verified for every such function.

What is trusted is stated in the doc comments of the items that call `serde_json`,
`sha2`, `uuid` and the standard library's clock.
