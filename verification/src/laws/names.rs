//! Laws on the names that buckets, object keys, queues and accounts may have.
use vstd::prelude::*;
use vstd::string::*;
use vstd::utf8::encode_utf8;

use crate::decimal::decimal;
use crate::decimal::lemma_decimal;
use crate::json::int_json;
use crate::json::JsonView;
use crate::laws::strings::joined;
use crate::laws::strings::law_all_fields;
use crate::laws::strings::law_cut;
use crate::split::all_fields;
use crate::split::fields_up_to;
use crate::split::lacks;
use crate::split::lemma_cut_back;
use crate::split::lemma_cut_char;
use crate::split::lemma_fields_enough;
use crate::text::cut;
use crate::text::is_digit;
use crate::validate::account_fault;
use crate::validate::account_option;
use crate::validate::bucket_fault;
use crate::validate::in_class;
use crate::validate::is_fifo;
use crate::validate::is_ipv4;
use crate::validate::is_octet;
use crate::validate::key_fault;
use crate::validate::made_of;
use crate::validate::queue_fault;
use crate::validate::valid_account_id;
use crate::validate::valid_bucket_name;
use crate::validate::valid_s3_key;
use crate::validate::valid_sqs_queue_name;
use crate::validate::Class;

verus! {

/// Four numbers from 0 to 255 in decimal notation, with dots between them.
pub open spec fn dotted(a: u8, b: u8, c: u8, d: u8) -> Seq<char> {
    decimal(a as nat) + seq!['.'] + decimal(b as nat) + seq!['.'] + decimal(c as nat) + seq!['.']
        + decimal(d as nat)
}

proof fn lemma_no_dot(n: nat)
    ensures
        lacks(decimal(n), '.'),
{
    lemma_decimal(n);
    assert forall|i: int| 0 <= i < decimal(n).len() implies #[trigger] decimal(n)[i] != '.' by {
        assert(is_digit(decimal(n)[i]));
    }
}

/// An IPv4 address is four numbers from 0 to 255 with dots between them.
pub proof fn law_ipv4(text: Seq<char>)
    ensures
        is_ipv4(text) <==> exists|a: u8, b: u8, c: u8, d: u8| text == #[trigger] dotted(a, b, c, d),
{
    reveal_strlit(".");
    assert("."@ =~= seq!['.']);
    let fields = all_fields(text, "."@);
    if is_ipv4(text) {
        law_all_fields(text, '.');
        assert(is_octet(fields[0]) && is_octet(fields[1]) && is_octet(fields[2]) && is_octet(
            fields[3],
        ));
        let a = choose|n: u8| fields[0] == #[trigger] decimal(n as nat);
        let b = choose|n: u8| fields[1] == #[trigger] decimal(n as nat);
        let c = choose|n: u8| fields[2] == #[trigger] decimal(n as nat);
        let d = choose|n: u8| fields[3] == #[trigger] decimal(n as nat);
        reveal_with_fuel(joined, 4);
        assert(fields.skip(1)[0] == fields[1]);
        assert(fields.skip(1).skip(1)[0] == fields[2]);
        assert(fields.skip(1).skip(1).skip(1)[0] == fields[3]);
        assert(text =~= dotted(a, b, c, d));
    }
    assert forall|a: u8, b: u8, c: u8, d: u8| text == #[trigger] dotted(a, b, c, d) implies is_ipv4(
        text,
    ) by {
        let (w, x, y, z) = (
            decimal(a as nat),
            decimal(b as nat),
            decimal(c as nat),
            decimal(d as nat),
        );
        lemma_no_dot(a as nat);
        lemma_no_dot(b as nat);
        lemma_no_dot(c as nat);
        lemma_no_dot(d as nat);
        let r3 = z;
        let r2 = y + seq!['.'] + r3;
        let r1 = x + seq!['.'] + r2;
        assert(text =~= w + seq!['.'] + r1);
        lemma_cut_back(w, '.', r1);
        lemma_cut_back(x, '.', r2);
        lemma_cut_back(y, '.', r3);
        lemma_cut_char(z, '.');
        let n = (text.len() + 5) as nat;
        lemma_fields_enough(text, "."@, n);
        reveal_with_fuel(fields_up_to, 5);
        assert(fields =~= seq![w, x, y, z]);
        assert(is_octet(w) && is_octet(x) && is_octet(y) && is_octet(z));
    }
}

/// The bucket rules, one by one: the size in bytes, the characters, both ends, two dots in a row, IP
/// addresses, `xn--` and `-s3alias`. The first rule that is broken is the reason, and a name that
/// breaks none is valid.
pub proof fn law_bucket_reasons(name: Seq<char>)
    ensures
        bucket_fault(name) == if encode_utf8(name).len() < 3 || encode_utf8(name).len() > 63 {
            Some("must be 3-63 characters"@)
        } else if exists|i: int|
            0 <= i < name.len() && !({
                let n = #[trigger] name[i] as int;
                97 <= n <= 122 || 48 <= n <= 57 || n == 46 || n == 45
            }) {
            Some("only lowercase letters, numbers, dots, and hyphens"@)
        } else if name[0] == '.' || name[0] == '-' || name[name.len() - 1] == '.' || name[name.len()
            - 1] == '-' {
            Some("must start and end with a letter or number"@)
        } else if exists|i: int| 0 <= i < name.len() - 1 && #[trigger] name[i] == '.' && name[i + 1]
            == '.' {
            Some("must not contain two adjacent periods"@)
        } else if exists|a: u8, b: u8, c: u8, d: u8| name == #[trigger] dotted(a, b, c, d) {
            Some("must not be formatted as an IP address"@)
        } else if "xn--"@.is_prefix_of(name) {
            Some("must not start with `xn--`"@)
        } else if "-s3alias"@.is_suffix_of(name) {
            Some("must not end with `-s3alias`"@)
        } else {
            None
        },
{
    reveal_strlit("..");
    law_ipv4(name);
    law_cut(name, ".."@);
    assert(forall|c: char| #[trigger] in_class(c, Class::Bucket) <==> {
        let n = c as int;
        97 <= n <= 122 || 48 <= n <= 57 || n == 46 || n == 45
    });
    if name.len() == 0 {
        assert(encode_utf8(name).len() == 0);
    }
    assert(made_of(name, Class::Bucket) <==> !exists|i: int|
        0 <= i < name.len() && !({
            let n = #[trigger] name[i] as int;
            97 <= n <= 122 || 48 <= n <= 57 || n == 46 || n == 45
        })) by {
        if !made_of(name, Class::Bucket) {
            let i = choose|i: int| 0 <= i < name.len() && !in_class(#[trigger] name[i], Class::Bucket);
            assert(!({
                let n = name[i] as int;
                97 <= n <= 122 || 48 <= n <= 57 || n == 46 || n == 45
            }));
        }
    }
    if made_of(name, Class::Bucket) && name.len() > 0 {
        assert(in_class(name[0], Class::Bucket) && in_class(name[name.len() - 1], Class::Bucket));
    }
    let twice = exists|i: int|
        0 <= i < name.len() - 1 && #[trigger] name[i] == '.' && name[i + 1] == '.';
    assert(cut(name, ".."@) is Some <==> twice) by {
        if twice {
            let i = choose|i: int|
                0 <= i < name.len() - 1 && #[trigger] name[i] == '.' && name[i + 1] == '.';
            assert(name.subrange(i, i + 2) =~= ".."@);
        }
        if let Some((before, after)) = cut(name, ".."@) {
            let i = before.len() as int;
            assert(name[i] == ".."@[0] && name[i + 1] == ".."@[1]);
            assert(name[i] == '.' && name[i + 1] == '.');
        }
    }
}

/// A key is valid where it is not empty and takes no more than 1024 bytes.
pub proof fn law_key_reasons(key: Seq<char>)
    ensures
        key_fault(key) == if key == Seq::<char>::empty() {
            Some("must not be empty"@)
        } else if encode_utf8(key).len() > 1024 {
            Some("UTF-8 encoding must be at most 1024 bytes"@)
        } else {
            None
        },
{
    if key.len() == 0 {
        assert(key =~= Seq::<char>::empty());
    }
}

/// A character that the name of a queue may hold: a letter, a digit, a hyphen or an underscore.
pub open spec fn queue_character(n: int) -> bool {
    65 <= n <= 90 || 97 <= n <= 122 || 48 <= n <= 57 || n == 45 || n == 95
}

/// The rules of queue names, with `.fifo` behind them and without: not empty, 80 bytes at most with
/// that, and nothing but letters, digits, hyphens and underscores before it.
pub proof fn law_queue_reasons(name: Seq<char>, base: Seq<char>)
    ensures
        queue_fault(base + ".fifo"@) == if encode_utf8(base + ".fifo"@).len() > 80 {
            Some("must be at most 80 characters (including any .fifo suffix)"@)
        } else if base.len() == 0 {
            Some("FIFO queue name needs a base name before the .fifo suffix"@)
        } else if exists|i: int| 0 <= i < base.len() && !queue_character(#[trigger] base[i] as int) {
            Some(
                "only alphanumeric characters, hyphens, and underscores before the .fifo suffix"@,
            )
        } else {
            None
        },
        is_fifo(base + ".fifo"@),
        !".fifo"@.is_suffix_of(name) ==> !is_fifo(name) && queue_fault(name) == if name.len() == 0 {
            Some("must not be empty"@)
        } else if encode_utf8(name).len() > 80 {
            Some("must be at most 80 characters (including any .fifo suffix)"@)
        } else if exists|i: int| 0 <= i < name.len() && !queue_character(#[trigger] name[i] as int) {
            Some(
                "only alphanumeric characters, hyphens, and underscores (a `.` is allowed only in a .fifo suffix)"@,
            )
        } else {
            None
        },
{
    reveal_strlit(".fifo");
    let whole = base + ".fifo"@;
    let n = whole.len() as int;
    assert(whole.subrange(n - 5, n) =~= ".fifo"@);
    assert(whole.take(n - 5) =~= base);
    lemma_queue_characters(base);
    lemma_queue_characters(name);
}

proof fn lemma_queue_characters(text: Seq<char>)
    ensures
        made_of(text, Class::Queue) <==> !exists|i: int|
            0 <= i < text.len() && !queue_character(#[trigger] text[i] as int),
{
    assert(forall|c: char| #[trigger] in_class(c, Class::Queue) <==> queue_character(c as int));
    if !made_of(text, Class::Queue) {
        let i = choose|i: int| 0 <= i < text.len() && !in_class(#[trigger] text[i], Class::Queue);
        assert(!queue_character(text[i] as int));
    }
}

/// An account ID is twelve digits: the size in bytes comes first, then the digits.
pub proof fn law_account_reasons(id: Seq<char>)
    ensures
        account_fault(id) == if encode_utf8(id).len() != 12 {
            Some("must be exactly 12 digits"@)
        } else if exists|i: int| 0 <= i < id.len() && !(48 <= #[trigger] id[i] as int <= 57) {
            Some("must contain only digits"@)
        } else {
            None
        },
{
    assert(forall|c: char| #[trigger] in_class(c, Class::Digit) <==> 48 <= c as int <= 57);
    if !made_of(id, Class::Digit) {
        let i = choose|i: int| 0 <= i < id.len() && !in_class(#[trigger] id[i], Class::Digit);
        assert(!(48 <= id[i] as int <= 57));
    }
}

proof fn lemma_names()
    ensures
        "name"@.len() == 4,
        "fifo"@.len() == 4,
        "name"@ != "fifo"@,
        "key"@.len() == 3,
        "valid"@.len() == 5,
        "bytes"@.len() == 5,
        "valid"@ != "bytes"@,
        "reason"@.len() == 6,
        "account_id"@.len() == 10,
{
    reveal_strlit("name");
    reveal_strlit("fifo");
    reveal_strlit("key");
    reveal_strlit("valid");
    reveal_strlit("bytes");
    reveal_strlit("reason");
    reveal_strlit("account_id");
    assert("name"@[0] == 'n' && "fifo"@[0] == 'f' && "valid"@[0] == 'v' && "bytes"@[0] == 'b');
}

/// An answer that says whether something is valid: it repeats what was asked about under a name,
/// says yes with null for a reason, or no with the reason.
pub open spec fn judged(
    said: JsonView,
    name: Seq<char>,
    subject: Seq<char>,
    fault: Option<Seq<char>>,
) -> bool {
    &&& said.text_field(name) == Some(subject)
    &&& match fault {
        None => said.bool_field("valid"@) == Some(true) && said.field("reason"@) == Some(
            JsonView::Null,
        ),
        Some(why) => said.bool_field("valid"@) == Some(false) && said.text_field("reason"@) == Some(
            why,
        ),
    }
}

/// What is answered of a bucket's name.
pub proof fn law_bucket_name_is_judged(opts: JsonView)
    ensures
        match opts.text_field("name"@) {
            None => valid_bucket_name(opts) == Err::<JsonView, Seq<char>>("missing name"@),
            Some(name) => {
                &&& valid_bucket_name(opts) is Ok
                &&& judged(valid_bucket_name(opts)->Ok_0, "name"@, name, bucket_fault(name))
                &&& valid_bucket_name(opts)->Ok_0->Object_0.dom() == set![
                    "name"@,
                    "valid"@,
                    "reason"@,
                ]
            },
        },
{
    lemma_names();
    if opts.text_field("name"@) is Some {
        assert(valid_bucket_name(opts)->Ok_0->Object_0.dom() =~= set![
            "name"@,
            "valid"@,
            "reason"@,
        ]);
    }
}

/// What is answered of a key: the verdict, and how many bytes it takes.
pub proof fn law_key_is_judged(opts: JsonView)
    ensures
        match opts.text_field_or("key"@, "name"@) {
            None => valid_s3_key(opts) == Err::<JsonView, Seq<char>>("missing key"@),
            Some(key) => {
                let said = valid_s3_key(opts)->Ok_0;
                &&& valid_s3_key(opts) is Ok
                &&& judged(said, "key"@, key, key_fault(key))
                &&& said.field("bytes"@) == Some(int_json(encode_utf8(key).len() as int))
                &&& said->Object_0.dom() == set!["key"@, "valid"@, "reason"@, "bytes"@]
            },
        },
{
    lemma_names();
    if opts.text_field_or("key"@, "name"@) is Some {
        assert(valid_s3_key(opts)->Ok_0->Object_0.dom() =~= set![
            "key"@,
            "valid"@,
            "reason"@,
            "bytes"@,
        ]);
    }
}

/// What is answered of a queue's name: the verdict, and whether it ends in `.fifo`.
pub proof fn law_queue_name_is_judged(opts: JsonView)
    ensures
        match opts.text_field("name"@) {
            None => valid_sqs_queue_name(opts) == Err::<JsonView, Seq<char>>("missing name"@),
            Some(name) => {
                let said = valid_sqs_queue_name(opts)->Ok_0;
                &&& valid_sqs_queue_name(opts) is Ok
                &&& judged(said, "name"@, name, queue_fault(name))
                &&& said.bool_field("fifo"@) == Some(".fifo"@.is_suffix_of(name))
                &&& said->Object_0.dom() == set!["name"@, "valid"@, "reason"@, "fifo"@]
            },
        },
{
    lemma_names();
    if opts.text_field("name"@) is Some {
        assert(valid_sqs_queue_name(opts)->Ok_0->Object_0.dom() =~= set![
            "name"@,
            "valid"@,
            "reason"@,
            "fifo"@,
        ]);
    }
}

/// What is answered of an account ID, under whichever of its three names it comes.
pub proof fn law_account_is_judged(opts: JsonView)
    ensures
        ({
            let id = if opts.field("account_id"@) is Some {
                opts.text_field("account_id"@)
            } else if opts.field("id"@) is Some {
                opts.text_field("id"@)
            } else {
                opts.text_field("value"@)
            };
            match id {
                None => valid_account_id(opts) == Err::<JsonView, Seq<char>>("missing account_id"@),
                Some(id) => {
                    let said = valid_account_id(opts)->Ok_0;
                    &&& valid_account_id(opts) is Ok
                    &&& judged(said, "account_id"@, id, account_fault(id))
                    &&& said->Object_0.dom() == set!["account_id"@, "valid"@, "reason"@]
                },
            }
        }),
{
    lemma_names();
    if account_option(opts) is Some {
        assert(valid_account_id(opts)->Ok_0->Object_0.dom() =~= set![
            "account_id"@,
            "valid"@,
            "reason"@,
        ]);
    }
}

}
