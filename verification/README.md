# stryke-aws

The AWS package of stryke: S3, DynamoDB, SQS, Lambda and STS on the command line, these and SNS,
SSM, Secrets Manager, SES and CloudWatch behind exported functions that take and return JSON.

## Layout

- `src/` is the verified library. It reads options, builds requests, words answers, and holds the
  rules that need no service: ARNs, S3 URIs and URLs, names, regions, endpoints, attribute values,
  paging, batching. Each function states in its contract what it returns.
- `app/` makes the SDK calls and does the reading and writing. `main.rs` is the command line,
  `ffi.rs` the exported functions.
- `tests/` runs the library on concrete values, with the outside crates linked.

## Reading the contracts

`json::JsonView` is the mathematical JSON value: objects are maps, numbers stand for the text that
they are written as. `attribute::AvView` is the same for DynamoDB attribute values. A `String` is
the sequence of its characters.

Functions that call `serde_json`, `base64`, `aws-sdk-s3` or an unspecified part of `std` do so
through small functions marked `external_body`, in `json.rs`, `wire.rs`, `bytes.rs`, `s3.rs` and
`text.rs`. What these return is trusted; the comment above each says what is claimed.

Laws that hold between functions (what one call undoes, what stays the same) are the public proof
functions named `law_...`.
