//! Rules that names must keep: buckets, object keys, queues and accounts.
use vstd::prelude::*;
use vstd::string::*;
use vstd::utf8::encode_utf8;
use vstd::utf8::is_ascii_chars;
use vstd::utf8::is_ascii_chars_encode_utf8;

use crate::decimal::decimal;
use crate::decimal::lemma_decimal;
use crate::decimal::lemma_digits_are_decimal;
use crate::decimal::read_digits;
use crate::json::fields_view;
use crate::json::int_json;
use crate::json::outcome;
use crate::json::put;
use crate::json::text_or_null;
use crate::json::Json;
use crate::json::JsonView;
use crate::split::all_fields;
use crate::split::split_all;
use crate::split::strs_view;
use crate::text::before_tail;
use crate::text::chars_of;
use crate::text::cut;
use crate::text::is_digit;
use crate::text::is_letter;
use crate::text::split_once;
use crate::text::starts_with;
use crate::text::str_view;
use crate::text::strip_suffix;

verus! {

/// A verdict on `subject`, which is reported under `name`: whether it is valid, and the reason if
/// it is not.
pub open spec fn verdict(
    name: Seq<char>,
    subject: Seq<char>,
    reason: Option<Seq<char>>,
) -> Map<Seq<char>, JsonView> {
    map![
        name => JsonView::Text(subject),
        "valid"@ => JsonView::Bool(reason is None),
        "reason"@ => text_or_null(reason),
    ]
}

/// A set of characters that a name may be made of.
#[derive(Clone, Copy)]
pub enum Class {
    /// Lower-case letters, digits, dots and hyphens.
    Bucket,
    /// Letters, digits, hyphens and underscores.
    Queue,
    /// Letters, digits and underscores.
    Word,
    /// Digits.
    Digit,
    /// Letters and digits.
    Alphanumeric,
}

/// `c` is in the set.
pub open spec fn in_class(c: char, class: Class) -> bool {
    match class {
        Class::Bucket => 'a' <= c <= 'z' || is_digit(c) || c == '.' || c == '-',
        Class::Queue => is_letter(c) || is_digit(c) || c == '-' || c == '_',
        Class::Word => is_letter(c) || is_digit(c) || c == '_',
        Class::Digit => is_digit(c),
        Class::Alphanumeric => is_letter(c) || is_digit(c),
    }
}

/// Every character of `text` is in the set.
pub open spec fn made_of(text: Seq<char>, class: Class) -> bool {
    forall|i: int| 0 <= i < text.len() ==> in_class(#[trigger] text[i], class)
}

/// A number from 0 to 255 in decimal notation.
pub open spec fn is_octet(text: Seq<char>) -> bool {
    exists|n: u8| text == #[trigger] decimal(n as nat)
}

/// An IPv4 address: four octets with dots between them.
pub open spec fn is_ipv4(text: Seq<char>) -> bool {
    let fields = all_fields(text, "."@);
    fields.len() == 4 && forall|i: int| 0 <= i < 4 ==> is_octet(#[trigger] fields[i])
}

/// Why a text is not a bucket name, if it is not.
pub open spec fn bucket_fault(name: Seq<char>) -> Option<Seq<char>> {
    let size = encode_utf8(name).len();
    if size < 3 || size > 63 {
        Some("must be 3-63 characters"@)
    } else if !made_of(name, Class::Bucket) {
        Some("only lowercase letters, numbers, dots, and hyphens"@)
    } else if !in_class(name.first(), Class::Alphanumeric) || !in_class(
        name.last(),
        Class::Alphanumeric,
    ) {
        Some("must start and end with a letter or number"@)
    } else if cut(name, ".."@) is Some {
        Some("must not contain two adjacent periods"@)
    } else if is_ipv4(name) {
        Some("must not be formatted as an IP address"@)
    } else if "xn--"@.is_prefix_of(name) {
        Some("must not start with `xn--`"@)
    } else if "-s3alias"@.is_suffix_of(name) {
        Some("must not end with `-s3alias`"@)
    } else {
        None
    }
}

/// What `op_valid_bucket_name` answers.
pub open spec fn valid_bucket_name(opts: JsonView) -> Result<JsonView, Seq<char>> {
    match opts.text_field("name"@) {
        None => Err("missing name"@),
        Some(name) => Ok(JsonView::Object(verdict("name"@, name, bucket_fault(name)))),
    }
}

/// Why a text is not an object key, if it is not.
pub open spec fn key_fault(key: Seq<char>) -> Option<Seq<char>> {
    if key.len() == 0 {
        Some("must not be empty"@)
    } else if encode_utf8(key).len() > 1024 {
        Some("UTF-8 encoding must be at most 1024 bytes"@)
    } else {
        None
    }
}

/// What `op_valid_s3_key` answers.
pub open spec fn valid_s3_key(opts: JsonView) -> Result<JsonView, Seq<char>> {
    match opts.text_field_or("key"@, "name"@) {
        None => Err("missing key"@),
        Some(key) => Ok(
            JsonView::Object(
                verdict("key"@, key, key_fault(key)).insert(
                    "bytes"@,
                    int_json(encode_utf8(key).len() as int),
                ),
            ),
        ),
    }
}

/// What stands before the suffix of a FIFO queue's name; of another queue, its whole name.
pub open spec fn queue_base(name: Seq<char>) -> Seq<char> {
    before_tail(name, ".fifo"@).unwrap_or(name)
}

/// The name of a FIFO queue.
pub open spec fn is_fifo(name: Seq<char>) -> bool {
    ".fifo"@.is_suffix_of(name)
}

/// Why a text is not a queue name, if it is not.
pub open spec fn queue_fault(name: Seq<char>) -> Option<Seq<char>> {
    if name.len() == 0 {
        Some("must not be empty"@)
    } else if encode_utf8(name).len() > 80 {
        Some("must be at most 80 characters (including any .fifo suffix)"@)
    } else if is_fifo(name) && queue_base(name).len() == 0 {
        Some("FIFO queue name needs a base name before the .fifo suffix"@)
    } else if !made_of(queue_base(name), Class::Queue) {
        if is_fifo(name) {
            Some(
                "only alphanumeric characters, hyphens, and underscores before the .fifo suffix"@,
            )
        } else {
            Some(
                "only alphanumeric characters, hyphens, and underscores (a `.` is allowed only in a .fifo suffix)"@,
            )
        }
    } else {
        None
    }
}

/// What `op_valid_sqs_queue_name` answers.
pub open spec fn valid_sqs_queue_name(opts: JsonView) -> Result<JsonView, Seq<char>> {
    match opts.text_field("name"@) {
        None => Err("missing name"@),
        Some(name) => Ok(
            JsonView::Object(
                verdict("name"@, name, queue_fault(name)).insert(
                    "fifo"@,
                    JsonView::Bool(is_fifo(name)),
                ),
            ),
        ),
    }
}

/// Why a text is not an account ID, if it is not.
pub open spec fn account_fault(id: Seq<char>) -> Option<Seq<char>> {
    if encode_utf8(id).len() != 12 {
        Some("must be exactly 12 digits"@)
    } else if !made_of(id, Class::Digit) {
        Some("must contain only digits"@)
    } else {
        None
    }
}

/// The account ID in the options, under the first of its three names that is there at all.
pub open spec fn account_option(opts: JsonView) -> Option<Seq<char>> {
    if opts.field("account_id"@) is Some {
        opts.text_field("account_id"@)
    } else {
        opts.text_field_or("id"@, "value"@)
    }
}

/// What `op_valid_account_id` answers.
pub open spec fn valid_account_id(opts: JsonView) -> Result<JsonView, Seq<char>> {
    match account_option(opts) {
        None => Err("missing account_id"@),
        Some(id) => Ok(JsonView::Object(verdict("account_id"@, id, account_fault(id)))),
    }
}

/// Characters of every set take one byte each.
proof fn lemma_class_is_ascii(text: Seq<char>, class: Class)
    requires
        made_of(text, class),
    ensures
        encode_utf8(text).len() == text.len(),
{
    assert forall|i: int| 0 <= i < text.len() implies '\0' <= #[trigger] text[i]
        <= '\u{7f}' by {
        assert(in_class(text[i], class));
    }
    assert(is_ascii_chars(text));
    is_ascii_chars_encode_utf8(text);
}

/// The rules of bucket names: 3 to 63 lower-case letters, digits, dots and hyphens, a letter or a
/// digit at either end, no two dots in a row, no IP address, and neither of the two reserved
/// forms.
pub proof fn law_bucket_rules(name: Seq<char>)
    ensures
        bucket_fault(name) is None <==> {
            &&& 3 <= name.len() <= 63
            &&& made_of(name, Class::Bucket)
            &&& in_class(name.first(), Class::Alphanumeric)
            &&& in_class(name.last(), Class::Alphanumeric)
            &&& cut(name, ".."@) is None
            &&& !is_ipv4(name)
            &&& !"xn--"@.is_prefix_of(name)
            &&& !"-s3alias"@.is_suffix_of(name)
        },
{
    if made_of(name, Class::Bucket) {
        lemma_class_is_ascii(name, Class::Bucket);
    }
}

/// The rules of queue names: letters, digits, hyphens and underscores, at least one of them,
/// behind which `.fifo` may stand; 80 characters at most with that.
pub proof fn law_queue_rules(name: Seq<char>)
    ensures
        queue_fault(name) is None <==> exists|base: Seq<char>|
            {
                &&& #[trigger] made_of(base, Class::Queue)
                &&& base.len() > 0
                &&& name == base || name == base + ".fifo"@
                &&& name.len() <= 80
            },
{
    reveal_strlit(".fifo");
    let base = queue_base(name);
    let tail = ".fifo"@;
    if made_of(base, Class::Queue) {
        lemma_class_is_ascii(base, Class::Queue);
        if is_fifo(name) {
            assert(name =~= base + tail);
        }
        lemma_fifo_size(name);
    }
    if exists|b: Seq<char>|
        {
            &&& #[trigger] made_of(b, Class::Queue)
            &&& b.len() > 0
            &&& name == b || name == b + tail
            &&& name.len() <= 80
        } {
        let b = choose|b: Seq<char>|
            {
                &&& #[trigger] made_of(b, Class::Queue)
                &&& b.len() > 0
                &&& name == b || name == b + tail
                &&& name.len() <= 80
            };
        if name == b + tail {
            assert(name.subrange(name.len() - 5, name.len() as int) =~= tail);
            assert(name.take(name.len() - 5) =~= b);
            assert(base == b);
        } else {
            if is_fifo(name) {
                assert(name.subrange(name.len() - 5, name.len() as int)[0] == tail[0]);
                assert(in_class(b[b.len() - 5], Class::Queue));
            }
            assert(base == b);
        }
    }
}

/// A queue name whose base is made of queue characters takes one byte for each character.
proof fn lemma_fifo_size(name: Seq<char>)
    requires
        made_of(queue_base(name), Class::Queue),
    ensures
        encode_utf8(name).len() == name.len(),
{
    reveal_strlit(".fifo");
    let base = queue_base(name);
    if is_fifo(name) {
        assert(name =~= base + ".fifo"@);
    }
    assert forall|i: int| 0 <= i < name.len() implies '\0' <= #[trigger] name[i]
        <= '\u{7f}' by {
        if i < base.len() {
            assert(in_class(base[i], Class::Queue));
            assert(name[i] == base[i]);
        } else {
            assert(name[i] == ".fifo"@[i - base.len()]);
        }
    }
    assert(is_ascii_chars(name));
    is_ascii_chars_encode_utf8(name);
}

/// The rule of account IDs: twelve digits.
pub proof fn law_account_rule(id: Seq<char>)
    ensures
        account_fault(id) is None <==> id.len() == 12 && made_of(id, Class::Digit),
{
    if made_of(id, Class::Digit) {
        lemma_class_is_ascii(id, Class::Digit);
    }
}

/// Whether `c` is in the set.
fn class_has(c: char, class: Class) -> (found: bool)
    ensures
        found == in_class(c, class),
{
    let lower_case = 'a' <= c && c <= 'z';
    let letter = lower_case || ('A' <= c && c <= 'Z');
    let digit = '0' <= c && c <= '9';
    match class {
        Class::Bucket => lower_case || digit || c == '.' || c == '-',
        Class::Queue => letter || digit || c == '-' || c == '_',
        Class::Word => letter || digit || c == '_',
        Class::Digit => digit,
        Class::Alphanumeric => letter || digit,
    }
}

/// Whether every character of `text` is in the set.
pub(crate) fn all_in_class(text: &str, class: Class) -> (all: bool)
    ensures
        all == made_of(text@, class),
{
    let chars = chars_of(text);
    let mut i: usize = 0;
    while i < chars.len()
        invariant
            i <= chars@.len(),
            chars@ == text@,
            forall|j: int| 0 <= j < i ==> in_class(#[trigger] text@[j], class),
        decreases chars@.len() - i,
    {
        if !class_has(chars[i], class) {
            assert(!in_class(text@[i as int], class));
            return false;
        }
        i = i + 1;
    }
    true
}

/// Whether `text` is a number from 0 to 255 in decimal notation.
fn octet(text: &str) -> (found: bool)
    ensures
        found == is_octet(text@),
{
    let chars = chars_of(text);
    proof {
        if is_octet(text@) {
            let n = choose|n: u8| text@ == #[trigger] decimal(n as nat);
            lemma_decimal(n as nat);
        }
        assert(chars@.skip(0) =~= chars@);
    }
    if chars.len() == 0 || (chars[0] == '0' && chars.len() > 1) {
        return false;
    }
    match read_digits(&chars, 0, 255) {
        Some(v) => {
            proof {
                lemma_digits_are_decimal(text@);
                assert(text@ == decimal((v as u8) as nat));
            }
            true
        },
        None => false,
    }
}

/// Whether `text` is an IPv4 address.
fn ipv4(text: &str) -> (found: bool)
    ensures
        found == is_ipv4(text@),
{
    proof {
        reveal_strlit(".");
    }
    let fields = split_all(text, ".");
    let ghost views = strs_view(fields@);
    if fields.len() != 4 {
        return false;
    }
    assert(views[0] == fields@[0]@ && views[1] == fields@[1]@);
    assert(views[2] == fields@[2]@ && views[3] == fields@[3]@);
    octet(fields[0]) && octet(fields[1]) && octet(fields[2]) && octet(fields[3])
}

/// The answer to a verdict.
pub(crate) fn verdict_fields(name: &str, subject: &str, reason: Option<&str>) -> (out: Vec<
    (String, Json),
>)
    ensures
        fields_view(out@) == verdict(name@, subject@, str_view(reason)),
{
    let mut out: Vec<(String, Json)> = Vec::new();
    put(&mut out, name, Json::text(subject));
    put(&mut out, "valid", Json::Bool(reason.is_none()));
    put(&mut out, "reason", Json::text_or_null(reason));
    out
}

/// Says whether `name` is a bucket name, and if not, why.
pub fn op_valid_bucket_name(opts: Json) -> (answer: Result<Json, String>)
    ensures
        outcome(answer) == valid_bucket_name(opts@),
{
    let name = match opts.text_at("name") {
        Some(name) => name,
        None => return Err("missing name".to_owned()),
    };
    let size = name.as_bytes().len();
    let chars = chars_of(name);
    proof {
        reveal_strlit("..");
    }
    let reason: Option<&str> = if size < 3 || size > 63 {
        Some("must be 3-63 characters")
    } else if !all_in_class(name, Class::Bucket) {
        Some("only lowercase letters, numbers, dots, and hyphens")
    } else {
        proof {
            lemma_class_is_ascii(name@, Class::Bucket);
        }
        if !class_has(chars[0], Class::Alphanumeric) || !class_has(
            chars[chars.len() - 1],
            Class::Alphanumeric,
        ) {
            Some("must start and end with a letter or number")
        } else if split_once(name, "..").is_some() {
            Some("must not contain two adjacent periods")
        } else if ipv4(name) {
            Some("must not be formatted as an IP address")
        } else if starts_with(name, "xn--") {
            Some("must not start with `xn--`")
        } else if strip_suffix(name, "-s3alias").is_some() {
            Some("must not end with `-s3alias`")
        } else {
            None
        }
    };
    Ok(Json::Object(verdict_fields("name", name, reason)))
}

/// Says whether `key` (or `name`) is an object key, and if not, why; and how many bytes it takes.
pub fn op_valid_s3_key(opts: Json) -> (answer: Result<Json, String>)
    ensures
        outcome(answer) == valid_s3_key(opts@),
{
    let key = match opts.text_at_either("key", "name") {
        Some(key) => key,
        None => return Err("missing key".to_owned()),
    };
    let size = key.as_bytes().len();
    let reason: Option<&str> = if key.is_empty() {
        Some("must not be empty")
    } else if size > 1024 {
        Some("UTF-8 encoding must be at most 1024 bytes")
    } else {
        None
    };
    let mut out = verdict_fields("key", key, reason);
    put(&mut out, "bytes", Json::count(size as u64));
    Ok(Json::Object(out))
}

/// Says whether `name` is a queue name, and if not, why; and whether it names a FIFO queue.
pub fn op_valid_sqs_queue_name(opts: Json) -> (answer: Result<Json, String>)
    ensures
        outcome(answer) == valid_sqs_queue_name(opts@),
{
    let name = match opts.text_at("name") {
        Some(name) => name,
        None => return Err("missing name".to_owned()),
    };
    let (base, fifo): (&str, bool) = match strip_suffix(name, ".fifo") {
        Some(base) => (base, true),
        None => (name, false),
    };
    let reason: Option<&str> = if name.is_empty() {
        Some("must not be empty")
    } else if name.as_bytes().len() > 80 {
        Some("must be at most 80 characters (including any .fifo suffix)")
    } else if fifo && base.is_empty() {
        Some("FIFO queue name needs a base name before the .fifo suffix")
    } else if !all_in_class(base, Class::Queue) {
        if fifo {
            Some("only alphanumeric characters, hyphens, and underscores before the .fifo suffix")
        } else {
            Some(
                "only alphanumeric characters, hyphens, and underscores (a `.` is allowed only in a .fifo suffix)",
            )
        }
    } else {
        None
    };
    let mut out = verdict_fields("name", name, reason);
    put(&mut out, "fifo", Json::Bool(fifo));
    Ok(Json::Object(out))
}

/// Says whether `account_id` (or `id`, or `value`) is an account ID, and if not, why.
pub fn op_valid_account_id(opts: Json) -> (answer: Result<Json, String>)
    ensures
        outcome(answer) == valid_account_id(opts@),
{
    let found = match opts.get("account_id") {
        Some(value) => value.as_str(),
        None => opts.text_at_either("id", "value"),
    };
    let id = match found {
        Some(id) => id,
        None => return Err("missing account_id".to_owned()),
    };
    let reason: Option<&str> = if id.as_bytes().len() != 12 {
        Some("must be exactly 12 digits")
    } else if !all_in_class(id, Class::Digit) {
        Some("must contain only digits")
    } else {
        None
    };
    Ok(Json::Object(verdict_fields("account_id", id, reason)))
}

}
