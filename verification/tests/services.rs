use stryke_aws::attribute::AttributeValue;
use stryke_aws::ddb::Write;
use stryke_aws::json::Json;
use stryke_aws::ops::cloudwatch;
use stryke_aws::ops::ddb;
use stryke_aws::ops::lambda;
use stryke_aws::ops::s3;
use stryke_aws::ops::secrets;
use stryke_aws::ops::ses;
use stryke_aws::ops::sns;
use stryke_aws::ops::sqs;
use stryke_aws::ops::ssm;
use stryke_aws::ops::sts;
use stryke_aws::s3::ObjectEntry;
use stryke_aws::sts::Credentials;
use stryke_aws::wire::parse_json;
use stryke_aws::wire::write_json;

fn j(text: &str) -> Json {
    parse_json(text).unwrap()
}

fn own(text: &str) -> Option<String> {
    Some(text.to_string())
}

fn s(text: &str) -> AttributeValue {
    AttributeValue::S(text.to_string())
}

fn n(text: &str) -> AttributeValue {
    AttributeValue::N(text.to_string())
}

fn concat(parts: &[&str]) -> String {
    parts.concat()
}

fn field(name: &str, av: AttributeValue) -> (String, AttributeValue) {
    (name.to_string(), av)
}

#[test]
fn s3_requests() {
    let at = s3::op_s3_object_request(&j(r#"{"bucket":"b","key":"k"}"#)).unwrap();
    assert_eq!((at.bucket.as_str(), at.key.as_str()), ("b", "k"));
    assert_eq!(s3::op_s3_object_request(&j(r#"{"key":"k"}"#)).unwrap_err(), "missing bucket");
    assert_eq!(s3::op_s3_object_request(&j(r#"{"bucket":"b"}"#)).unwrap_err(), "missing key");
    let under = s3::op_s3_list_objects_request(&j(r#"{"bucket":"b"}"#)).unwrap();
    assert_eq!((under.bucket.as_str(), under.prefix.as_str()), ("b", ""));
    assert!(under.delimiter.is_none());
    let grouped =
        s3::op_s3_list_objects_request(&j(r#"{"bucket":"b","prefix":"p/","delimiter":"/"}"#)).unwrap();
    assert_eq!((grouped.prefix.as_str(), grouped.delimiter.as_deref()), ("p/", Some("/")));
    assert_eq!(s3::op_s3_list_objects_request(&Json::Null).unwrap_err(), "missing bucket");
    let up = s3::op_s3_put_object_request(&j(r#"{"bucket":"b","key":"k","body":"é"}"#)).unwrap();
    assert_eq!(up.body, "é".as_bytes());
    assert!(s3::op_s3_put_object_request(&j(r#"{"bucket":"b","key":"k"}"#)).unwrap().body.is_empty());
    let copy = s3::op_s3_copy_object_request(&j(
        r#"{"source_bucket":"sb","source_key":"x/y","bucket":"b","key":"k"}"#,
    ))
    .unwrap();
    assert_eq!(copy.source, "sb/x/y");
    assert_eq!(s3::op_s3_copy_object_request(&Json::Null).unwrap_err(), "missing source_bucket");
    assert_eq!(
        s3::op_s3_copy_object_request(&j(r#"{"source_bucket":"a"}"#)).unwrap_err(),
        "missing source_key"
    );
    let del = s3::op_s3_delete_objects_request(&j(r#"{"bucket":"b","keys":["x","y"]}"#)).unwrap();
    assert_eq!(del.keys, vec!["x", "y"]);
    assert_eq!(
        s3::op_s3_delete_objects_request(&j(r#"{"bucket":"b"}"#)).unwrap_err(),
        "keys must be a non-empty array"
    );
    assert_eq!(
        s3::op_s3_delete_objects_request(&j(r#"{"bucket":"b","keys":[1]}"#)).unwrap_err(),
        "non-string in array"
    );
}

#[test]
fn s3_replies() {
    assert_eq!(
        write_json(&s3::op_s3_list_buckets_reply(vec![own("a"), None, own("b")])),
        r#"{"buckets":["a","b"]}"#
    );
    assert_eq!(
        write_json(&s3::op_s3_list_objects_reply(
            "b",
            vec![own("p/"), None],
            &vec![
                ObjectEntry {
                    key: own("k"),
                    size: Some(1),
                    etag: own("\"e\""),
                    last_modified: own("d"),
                    storage_class: own("STANDARD"),
                },
                ObjectEntry {
                    key: None,
                    size: None,
                    etag: None,
                    last_modified: None,
                    storage_class: None,
                },
            ]
        )),
        concat(&[
            r#"{"bucket":"b","objects":[{"key":"p/","type":"prefix"},"#,
            r#"{"etag":"e","key":"k","last_modified":"d","size":1,"storage_class":"STANDARD","type":"object"},"#,
            r#"{"etag":null,"key":"","last_modified":null,"size":null,"storage_class":null,"type":"object"}]}"#,
        ])
    );
    assert_eq!(
        write_json(&s3::op_s3_get_object_reply("b", "k", "héllo".as_bytes())),
        r#"{"body":"héllo","bucket":"b","key":"k"}"#
    );
    assert_eq!(
        write_json(&s3::op_s3_get_object_reply("b", "k", &[0xff, 0x00])),
        r#"{"body":"base64:/wA=","bucket":"b","key":"k"}"#
    );
    assert_eq!(
        write_json(&s3::op_s3_put_object_reply("b", "k", None)),
        r#"{"bucket":"b","etag":"","key":"k"}"#
    );
    assert_eq!(
        write_json(&s3::op_s3_delete_object_reply("b", "k")),
        r#"{"bucket":"b","deleted":true,"key":"k"}"#
    );
    let head = s3::ObjectHead {
        content_length: Some(9),
        content_type: own("t"),
        etag: None,
        last_modified: None,
    };
    assert_eq!(
        write_json(&s3::op_s3_head_object_reply("b", "k", &head)),
        r#"{"bucket":"b","content_length":9,"content_type":"t","etag":null,"key":"k","last_modified":null}"#
    );
    assert_eq!(
        write_json(&s3::op_s3_delete_objects_reply("b", vec![None, own("x")])),
        r#"{"bucket":"b","deleted":["x"]}"#
    );
}

#[test]
fn stored_text_is_fetched_as_it_was() {
    let up = s3::op_s3_put_object_request(&j(r#"{"bucket":"b","key":"k","body":"naïve ☃"}"#)).unwrap();
    let back = s3::op_s3_get_object_reply("b", "k", &up.body);
    assert_eq!(back.get("body"), Some(&Json::text("naïve ☃")));
}

#[test]
fn sts_ops() {
    let role = sts::op_sts_assume_role_request(&j(r#"{"role_arn":"r"}"#)).unwrap();
    assert_eq!((role.role_arn.as_str(), role.session_name.as_str()), ("r", "stryke-aws"));
    assert_eq!(sts::op_sts_assume_role_request(&Json::Null).unwrap_err(), "missing role_arn");
    assert_eq!(
        write_json(&sts::op_sts_caller_identity_reply(own("1"), None, None)),
        r#"{"account":"1","arn":"","user_id":""}"#
    );
    assert_eq!(
        write_json(&sts::op_sts_assume_role_reply(None, None)),
        r#"{"access_key_id":null,"assumed_role":null,"expiration":null,"secret_access_key":null,"session_token":null}"#
    );
    let creds = Credentials {
        access_key_id: "a".into(),
        secret_access_key: "s".into(),
        session_token: "t".into(),
        expiration: "e".into(),
    };
    assert_eq!(
        write_json(&sts::op_sts_assume_role_reply(own("r"), Some(creds))),
        r#"{"access_key_id":"a","assumed_role":"r","expiration":"e","secret_access_key":"s","session_token":"t"}"#
    );
}

#[test]
fn items_go_in_by_type() {
    let what = ddb::op_ddb_put_item_request(&j(
        r#"{"table":"t","item":{"a":"x","b":1,"c":true,"d":null,"e":[1],"f":{"g":"base64:YQ=="}}}"#,
    ))
    .unwrap();
    assert_eq!(
        what.item,
        vec![
            field("a", s("x")),
            field("b", n("1")),
            field("c", AttributeValue::Bool(true)),
            field("d", AttributeValue::Null(true)),
            field("e", AttributeValue::L(vec![n("1")])),
            field("f", AttributeValue::M(vec![field("g", AttributeValue::B(b"a".to_vec()))])),
        ]
    );
    let tags = ddb::op_ddb_put_item_request(&j(r#"{"table":"t","item":{"tags":["a"]}}"#)).unwrap();
    assert_eq!(tags.table, "t");
    assert_eq!(tags.item, vec![field("tags", AttributeValue::L(vec![s("a")]))]);
    // What was stored is fetched as it was.
    assert_eq!(
        write_json(&ddb::op_ddb_get_item_reply("t", Some(tags.item))),
        r#"{"item":{"tags":["a"]},"table":"t"}"#
    );
    assert_eq!(
        ddb::op_ddb_put_item_request(&j(r#"{"table":"t","item":[]}"#)).unwrap_err(),
        "missing item (object)"
    );
    assert_eq!(ddb::op_ddb_put_item_request(&Json::Null).unwrap_err(), "missing table");
    assert_eq!(write_json(&ddb::op_ddb_put_item_reply("t")), r#"{"put":true,"table":"t"}"#);
}

#[test]
fn keys_go_in_by_type() {
    let what =
        ddb::op_ddb_get_item_request(&j(r#"{"table":"t","key":{"a":"x","b":1,"c":true,"d":null}}"#))
            .unwrap();
    assert_eq!(
        what.item,
        vec![
            field("a", s("x")),
            field("b", n("1")),
            field("c", AttributeValue::Bool(true)),
            field("d", AttributeValue::Null(true)),
        ]
    );
    assert_eq!(
        ddb::op_ddb_get_item_request(&j(r#"{"table":"t"}"#)).unwrap_err(),
        "missing key (object)"
    );
    assert_eq!(
        write_json(&ddb::op_ddb_get_item_reply("t", None)),
        r#"{"item":null,"table":"t"}"#
    );
    assert_eq!(
        write_json(&ddb::op_ddb_get_item_reply("t", Some(vec![field("a", n("1.5"))]))),
        r#"{"item":{"a":1.5},"table":"t"}"#
    );
    let del = ddb::op_ddb_delete_item_request(&j(r#"{"table":"t","key":{"a":[1]}}"#)).unwrap();
    assert_eq!(del.item, vec![field("a", AttributeValue::L(vec![n("1")]))]);
    assert_eq!(write_json(&ddb::op_ddb_delete_item_reply("t")), r#"{"deleted":true,"table":"t"}"#);
}

#[test]
fn queries_and_scans() {
    let q = ddb::op_ddb_query_request(&j(
        r##"{"table":"t","key_condition":"#i = :i","values":{":i":[1]},"names":{"#i":"id","#x":3},"filter":"f","index":"ix","limit":7}"##,
    ))
    .unwrap();
    assert_eq!(q.condition, "#i = :i");
    assert_eq!(q.values.unwrap(), vec![field(":i", AttributeValue::L(vec![n("1")]))]);
    assert_eq!(q.names.unwrap(), vec![("#i".to_string(), "id".to_string())]);
    assert_eq!((q.filter.as_deref(), q.index.as_deref(), q.limit), (Some("f"), Some("ix"), Some(7)));
    assert_eq!(
        ddb::op_ddb_query_request(&j(r#"{"table":"t"}"#)).unwrap_err(),
        "missing key_condition (a KeyConditionExpression)"
    );
    let bare = ddb::op_ddb_scan_request(&j(r#"{"table":"t","limit":4294967297}"#)).unwrap();
    assert_eq!(bare.limit, Some(1));
    assert!(bare.filter.is_none() && bare.values.is_none() && bare.names.is_none());
    let named = ddb::op_ddb_scan_request(&j(
        r##"{"table":"t","filter":"#s = :s","values":{":s":true},"names":{"#s":"status"}}"##,
    ))
    .unwrap();
    assert_eq!(named.names.unwrap(), vec![("#s".to_string(), "status".to_string())]);
    assert_eq!(named.values.unwrap(), vec![field(":s", AttributeValue::Bool(true))]);
    let items = vec![vec![field("a", n("1"))]];
    assert_eq!(
        write_json(&ddb::op_ddb_query_reply("t", &items, 1)),
        r#"{"count":1,"items":[{"a":1}],"table":"t"}"#
    );
    assert_eq!(
        write_json(&ddb::op_ddb_scan_reply("t", &items, 1, 9)),
        r#"{"count":1,"items":[{"a":1}],"scanned":9,"table":"t"}"#
    );
}

#[test]
fn names_listed_twice_count_once() {
    let opts = Json::Object(vec![
        ("table".to_string(), Json::text("t")),
        ("key_condition".to_string(), Json::text("c")),
        (
            "names".to_string(),
            Json::Object(vec![
                ("#a".to_string(), Json::text("old")),
                ("#b".to_string(), Json::text("kept")),
                ("#a".to_string(), Json::Null),
            ]),
        ),
    ]);
    assert_eq!(
        ddb::op_ddb_query_request(&opts).unwrap().names.unwrap(),
        vec![("#b".to_string(), "kept".to_string())]
    );
}

#[test]
fn tables_are_described() {
    assert_eq!(
        write_json(&ddb::op_ddb_list_tables_reply(&vec!["a".to_string()])),
        r#"{"tables":["a"]}"#
    );
    assert_eq!(ddb::op_ddb_table_request(&j(r#"{"table":"t"}"#)).unwrap(), "t");
    assert_eq!(
        write_json(&ddb::op_ddb_describe_table_reply("t", None)),
        r#"{"arn":null,"item_count":null,"key_schema":null,"size_bytes":null,"status":null,"table":"t"}"#
    );
    let state = ddb::TableState {
        status: own("ACTIVE"),
        item_count: Some(2),
        size_bytes: Some(3),
        arn: own("a"),
        key_schema: vec![("id".to_string(), "HASH".to_string())],
    };
    assert_eq!(
        write_json(&ddb::op_ddb_describe_table_reply("t", Some(state))),
        r#"{"arn":"a","item_count":2,"key_schema":[{"name":"id","type":"HASH"}],"size_bytes":3,"status":"ACTIVE","table":"t"}"#
    );
}

#[test]
fn an_update_sets_each_attribute_once() {
    let fields: Vec<String> = (0..12).map(|i| format!("\"attr{i:02}\":{i}")).collect();
    let u = ddb::op_ddb_update_item_request(&j(&format!(
        "{{\"table\":\"t\",\"key\":{{\"id\":1}},\"updates\":{{{}}}}}",
        fields.join(",")
    )))
    .unwrap();
    assert_eq!(u.key, vec![field("id", n("1"))]);
    assert!(u.expression.starts_with("SET #a0 = :v0, #a1 = :v1, "));
    assert!(u.expression.ends_with(", #a10 = :v10, #a11 = :v11"));
    assert_eq!(u.names[11], ("#a11".to_string(), "attr11".to_string()));
    assert_eq!(u.values[11], field(":v11", n("11")));
    assert_eq!((u.names.len(), u.values.len()), (12, 12));
    let one = ddb::op_ddb_update_item_request(&j(
        r#"{"table":"t","key":{"id":1},"updates":{"status":{"x":1}}}"#,
    ))
    .unwrap();
    assert_eq!(one.expression, "SET #a0 = :v0");
    assert_eq!(one.values, vec![field(":v0", AttributeValue::M(vec![field("x", n("1"))]))]);
}

#[test]
fn an_update_of_an_attribute_listed_twice_sets_the_later_value() {
    let opts = Json::Object(vec![
        ("table".to_string(), Json::text("t")),
        ("key".to_string(), Json::Object(vec![])),
        (
            "updates".to_string(),
            Json::Object(vec![
                ("a".to_string(), Json::whole(1)),
                ("b".to_string(), Json::whole(2)),
                ("a".to_string(), Json::whole(3)),
            ]),
        ),
    ]);
    let u = ddb::op_ddb_update_item_request(&opts).unwrap();
    assert_eq!(u.expression, "SET #a0 = :v0, #a1 = :v1");
    assert_eq!(
        u.names,
        vec![("#a0".to_string(), "a".to_string()), ("#a1".to_string(), "b".to_string())]
    );
    assert_eq!(u.values, vec![field(":v0", n("3")), field(":v1", n("2"))]);
}

#[test]
fn an_update_numbers_attributes_in_the_order_of_their_names() {
    let u = ddb::op_ddb_update_item_request(&j(
        r#"{"table":"t","key":{"id":1},"updates":{"b":2,"é":5,"ab":1,"":0,"z":4,"B":3,"abc":6}}"#,
    ))
    .unwrap();
    let names: Vec<&str> = u.names.iter().map(|(_, name)| name.as_str()).collect();
    assert_eq!(names, vec!["", "B", "ab", "abc", "b", "z", "é"]);
    let values: Vec<AttributeValue> = u.values.into_iter().map(|(_, v)| v).collect();
    assert_eq!(values, vec![n("0"), n("3"), n("1"), n("6"), n("2"), n("4"), n("5")]);
}

#[test]
fn updates_are_refused() {
    let why = |text: &str| ddb::op_ddb_update_item_request(&j(text)).unwrap_err();
    assert_eq!(why("{}"), "missing table");
    assert_eq!(why(r#"{"table":"t"}"#), "missing key (object)");
    assert_eq!(
        why(r#"{"table":"t","key":{}}"#),
        "missing updates (object of attr => value)"
    );
    assert_eq!(why(r#"{"table":"t","key":{},"updates":{}}"#), "updates must be non-empty");
    assert_eq!(write_json(&ddb::op_ddb_update_item_reply("t")), r#"{"table":"t","updated":true}"#);
}

#[test]
fn batches_of_items() {
    let keys = ddb::op_ddb_batch_get_item_request(&j(r#"{"table":"t","keys":[{"id":1},{"id":"base64:Yg=="}]}"#))
        .unwrap();
    assert_eq!(
        keys.keys,
        vec![vec![field("id", n("1"))], vec![field("id", AttributeValue::B(b"b".to_vec()))]]
    );
    let why = |text: &str| ddb::op_ddb_batch_get_item_request(&j(text)).unwrap_err();
    assert_eq!(why(r#"{"table":"t"}"#), "missing keys (array of key objects)");
    assert_eq!(why(r#"{"table":"t","keys":[]}"#), "keys must be non-empty");
    assert_eq!(why(r#"{"table":"t","keys":[{},1]}"#), "each key must be an object");
    assert_eq!(
        write_json(&ddb::op_ddb_batch_get_item_reply("t", None)),
        r#"{"items":[],"table":"t"}"#
    );
    assert_eq!(
        write_json(&ddb::op_ddb_batch_get_item_reply("t", Some(vec![vec![field("a", s("b"))]]))),
        r#"{"items":[{"a":"b"}],"table":"t"}"#
    );
}

#[test]
fn batches_of_writes() {
    let what = ddb::op_ddb_batch_write_item_request(&j(
        r#"{"table":"t","puts":[{"a":1},{"b":["x"]}],"deletes":[{"id":2}]}"#,
    ))
    .unwrap();
    assert_eq!(what.writes.len(), 3);
    assert!(matches!(&what.writes[0], Write::Put(i) if *i == vec![field("a", n("1"))]));
    assert!(matches!(&what.writes[1], Write::Put(i) if *i == vec![field("b", AttributeValue::L(vec![s("x")]))]));
    assert!(matches!(&what.writes[2], Write::Delete(k) if *k == vec![field("id", n("2"))]));
    let why = |text: &str| ddb::op_ddb_batch_write_item_request(&j(text)).unwrap_err();
    assert_eq!(why(r#"{"table":"t"}"#), "provide puts and/or deletes");
    assert_eq!(why(r#"{"table":"t","puts":[1],"deletes":[2]}"#), "each put must be an item object");
    assert_eq!(why(r#"{"table":"t","puts":[],"deletes":[2]}"#), "each delete must be a key object");
    assert_eq!(
        why(r#"{"table":"t","puts":[{}, 1]}"#),
        "item was missing: item was not specified but it is required when building PutRequest"
    );
    assert_eq!(
        why(r#"{"table":"t","deletes":[{"a":1},{}]}"#),
        "key was missing: key was not specified but it is required when building DeleteRequest"
    );
    assert_eq!(
        write_json(&ddb::op_ddb_batch_write_item_reply("t", 3)),
        r#"{"table":"t","written":3}"#
    );
}

#[test]
fn the_messages_for_empty_writes_are_those_of_the_request_builders() {
    let put = aws_sdk_dynamodb::types::PutRequest::builder().build().unwrap_err();
    let delete = aws_sdk_dynamodb::types::DeleteRequest::builder().build().unwrap_err();
    let why = |text: &str| ddb::op_ddb_batch_write_item_request(&j(text)).unwrap_err();
    assert_eq!(why(r#"{"table":"t","puts":[{}]}"#), put.to_string());
    assert_eq!(why(r#"{"table":"t","deletes":[{}]}"#), delete.to_string());
}

#[test]
fn sqs_ops() {
    assert_eq!(sqs::op_sqs_queue_request(&Json::Null).unwrap_err(), "missing queue_url");
    let q = r#"{"queue_url":"q","body":"hi","max":3,"receipt_handle":"r"}"#;
    assert_eq!(sqs::op_sqs_queue_request(&j(q)).unwrap(), "q");
    assert_eq!(sqs::op_sqs_send_message_request(&j(q)).unwrap().body, "hi");
    assert_eq!(
        sqs::op_sqs_send_message_request(&j(r#"{"queue_url":"q"}"#)).unwrap_err(),
        "missing body"
    );
    let later = sqs::op_sqs_send_message_request(&j(
        r#"{"queue_url":"q","body":"b","delay_seconds":5,"dedup_id":"d","group_id":"g"}"#,
    ))
    .unwrap();
    assert_eq!(
        (later.delay_seconds, later.dedup_id.as_deref(), later.group_id.as_deref()),
        (Some(5), Some("d"), Some("g"))
    );
    let plain = sqs::op_sqs_send_message_request(&j(q)).unwrap();
    assert!(plain.delay_seconds.is_none() && plain.dedup_id.is_none() && plain.group_id.is_none());
    let poll = sqs::op_sqs_receive_message_request(&j(
        r#"{"queue_url":"q","max":10,"wait":20,"visibility":30}"#,
    ))
    .unwrap();
    assert_eq!((poll.max, poll.wait, poll.visibility), (10, Some(20), Some(30)));
    let once = sqs::op_sqs_receive_message_request(&j(q)).unwrap();
    assert!(once.wait.is_none() && once.visibility.is_none());
    assert_eq!(sqs::op_sqs_receive_message_request(&j(q)).unwrap().max, 3);
    assert_eq!(sqs::op_sqs_receive_message_request(&j(r#"{"queue_url":"q"}"#)).unwrap().max, 1);
    assert_eq!(sqs::op_sqs_delete_message_request(&j(q)).unwrap().receipt_handle, "r");
    assert_eq!(
        sqs::op_sqs_delete_message_request(&j(r#"{"queue_url":"q"}"#)).unwrap_err(),
        "missing receipt_handle"
    );
    assert_eq!(
        write_json(&sqs::op_sqs_purge_queue_reply("q")),
        r#"{"purged":true,"queue_url":"q"}"#
    );
    assert_eq!(
        write_json(&sqs::op_sqs_get_queue_attributes_reply(
            "q",
            &vec![("A".to_string(), "1".to_string())]
        )),
        r#"{"attributes":{"A":"1"},"queue_url":"q"}"#
    );
    assert_eq!(
        write_json(&sqs::op_sqs_list_queues_reply(&vec!["u".to_string()])),
        r#"{"queues":["u"]}"#
    );
    assert_eq!(
        write_json(&sqs::op_sqs_send_message_reply("q", None)),
        r#"{"message_id":"","queue_url":"q"}"#
    );
    assert_eq!(
        write_json(&sqs::op_sqs_receive_message_reply(
            "q",
            &vec![sqs::Received { message_id: own("m"), receipt_handle: None, body: own("b") }]
        )),
        r#"{"messages":[{"body":"b","message_id":"m","receipt_handle":""}],"queue_url":"q"}"#
    );
    assert_eq!(write_json(&sqs::op_sqs_delete_message_reply()), r#"{"deleted":true}"#);
}

#[test]
fn lambda_ops() {
    let what =
        lambda::op_lambda_invoke_request(&j(r#"{"function":"f","payload":{"b":1,"a":[]}}"#)).unwrap();
    assert_eq!((what.function.as_str(), what.payload.as_str()), ("f", r#"{"a":[],"b":1}"#));
    assert_eq!(lambda::op_lambda_invoke_request(&j(r#"{"function":"f"}"#)).unwrap().payload, "null");
    assert_eq!(lambda::op_lambda_invoke_request(&Json::Null).unwrap_err(), "missing function");
    let of = |payload: Option<&[u8]>| {
        write_json(&lambda::op_lambda_invoke_reply("f", 200, payload.map(|p| p.to_vec())))
    };
    assert_eq!(of(Some(b"[1]")), r#"{"function":"f","result":[1],"status_code":200}"#);
    assert_eq!(of(Some(b"oops")), r#"{"function":"f","result":"oops","status_code":200}"#);
    assert_eq!(of(Some(b"\xff")), r#"{"function":"f","result":"","status_code":200}"#);
    assert_eq!(of(None), r#"{"function":"f","result":"","status_code":200}"#);
    assert_eq!(
        write_json(&lambda::op_lambda_list_functions_reply(vec![own("a"), None])),
        r#"{"functions":["a"]}"#
    );
}

#[test]
fn sns_ops() {
    let of = |text: &str| sns::op_sns_publish_request(&j(text));
    let all = of(r#"{"message":"m","topic_arn":"t","phone_number":"p","target_arn":"x","subject":"s"}"#)
        .unwrap();
    assert!(matches!(&all.target, sns::Target::Topic(t) if t == "t"));
    assert_eq!(all.subject.as_deref(), Some("s"));
    assert!(matches!(
        of(r#"{"message":"m","phone_number":"p","target_arn":"x"}"#).unwrap().target,
        sns::Target::Phone(p) if p == "p"
    ));
    assert!(matches!(
        of(r#"{"message":"m","target_arn":"x"}"#).unwrap().target,
        sns::Target::Target(x) if x == "x"
    ));
    assert_eq!(
        of(r#"{"message":"m"}"#).unwrap_err(),
        "need topic_arn, target_arn, or phone_number"
    );
    assert_eq!(of("{}").unwrap_err(), "missing message");
    assert_eq!(sns::op_sns_create_topic_request(&j(r#"{"name":"n"}"#)).unwrap(), "n");
    assert_eq!(sns::op_sns_create_topic_request(&Json::Null).unwrap_err(), "missing name");
    let sub =
        sns::op_sns_subscribe_request(&j(r#"{"topic_arn":"t","protocol":"sqs","endpoint":"e"}"#))
            .unwrap();
    assert_eq!(
        (sub.topic_arn.as_str(), sub.protocol.as_str(), sub.endpoint.as_str()),
        ("t", "sqs", "e")
    );
    let why = |text: &str| sns::op_sns_subscribe_request(&j(text)).unwrap_err();
    assert_eq!(why("{}"), "missing topic_arn");
    assert_eq!(why(r#"{"topic_arn":"t"}"#), "missing protocol");
    assert_eq!(why(r#"{"topic_arn":"t","protocol":"p"}"#), "missing endpoint");
    assert_eq!(
        write_json(&sns::op_sns_list_topics_reply(vec![None, own("t")])),
        r#"{"topics":["t"]}"#
    );
    assert_eq!(write_json(&sns::op_sns_publish_reply(own("m"))), r#"{"message_id":"m"}"#);
    assert_eq!(write_json(&sns::op_sns_create_topic_reply(None)), r#"{"topic_arn":""}"#);
    assert_eq!(
        write_json(&sns::op_sns_subscribe_reply(own("s"))),
        r#"{"subscription_arn":"s"}"#
    );
}

#[test]
fn ssm_ops() {
    let get = ssm::op_ssm_get_parameter_request(&j(r#"{"name":"n","with_decryption":true}"#)).unwrap();
    assert_eq!((get.name.as_str(), get.decrypt), ("n", true));
    assert!(!ssm::op_ssm_get_parameter_request(&j(r#"{"name":"n"}"#)).unwrap().decrypt);
    assert_eq!(ssm::op_ssm_get_parameter_request(&Json::Null).unwrap_err(), "missing name");
    let put = ssm::op_ssm_put_parameter_request(&j(r#"{"name":"n","value":"v"}"#)).unwrap();
    assert_eq!((put.kind.as_str(), put.overwrite), ("String", false));
    let put = ssm::op_ssm_put_parameter_request(&j(
        r#"{"name":"n","value":"v","type":"SecureString","overwrite":true}"#,
    ))
    .unwrap();
    assert_eq!((put.kind.as_str(), put.overwrite), ("SecureString", true));
    assert_eq!(
        ssm::op_ssm_put_parameter_request(&j(r#"{"name":"n"}"#)).unwrap_err(),
        "missing value"
    );
    let by = ssm::op_ssm_get_parameters_by_path_request(&j(r#"{"path":"/a","recursive":true}"#)).unwrap();
    assert_eq!((by.path.as_str(), by.recursive, by.decrypt), ("/a", true, false));
    assert_eq!(
        ssm::op_ssm_get_parameters_by_path_request(&Json::Null).unwrap_err(),
        "missing path"
    );
    assert_eq!(ssm::op_ssm_delete_parameter_request(&j(r#"{"name":"n"}"#)).unwrap(), "n");
    assert_eq!(
        write_json(&ssm::op_ssm_get_parameter_reply(None)),
        r#"{"name":"","value":null,"version":0}"#
    );
    assert_eq!(
        write_json(&ssm::op_ssm_get_parameter_reply(Some(ssm::Parameter {
            name: own("n"),
            value: own("v"),
            version: 4,
        }))),
        r#"{"name":"n","value":"v","version":4}"#
    );
    assert_eq!(
        write_json(&ssm::op_ssm_put_parameter_reply("n", 5)),
        r#"{"name":"n","version":5}"#
    );
    assert_eq!(
        write_json(&ssm::op_ssm_get_parameters_by_path_reply(&vec![ssm::ParameterEntry {
            name: None,
            value: own("v"),
        }])),
        r#"{"parameters":[{"name":"","value":"v"}]}"#
    );
    assert_eq!(
        write_json(&ssm::op_ssm_delete_parameter_reply("n")),
        r#"{"deleted":true,"name":"n"}"#
    );
}

#[test]
fn secrets_ops() {
    assert_eq!(secrets::op_secrets_get_value_request(&j(r#"{"secret_id":"i"}"#)).unwrap(), "i");
    assert_eq!(
        secrets::op_secrets_get_value_request(&Json::Null).unwrap_err(),
        "missing secret_id"
    );
    let made = secrets::op_secrets_create_request(&j(r#"{"name":"n","secret_string":"s"}"#)).unwrap();
    assert_eq!((made.id.as_str(), made.secret_string.as_str()), ("n", "s"));
    assert_eq!(secrets::op_secrets_create_request(&Json::Null).unwrap_err(), "missing name");
    assert_eq!(
        secrets::op_secrets_create_request(&j(r#"{"name":"n"}"#)).unwrap_err(),
        "missing secret_string"
    );
    assert_eq!(
        secrets::op_secrets_put_value_request(&j(r#"{"name":"n"}"#)).unwrap_err(),
        "missing secret_id"
    );
    assert_eq!(
        write_json(&secrets::op_secrets_get_value_reply(own("n"), None, own("v"))),
        r#"{"name":"n","secret_string":null,"version_id":"v"}"#
    );
    assert_eq!(
        write_json(&secrets::op_secrets_create_reply(own("a"), None)),
        r#"{"arn":"a","name":""}"#
    );
    assert_eq!(
        write_json(&secrets::op_secrets_put_value_reply(own("v"))),
        r#"{"version_id":"v"}"#
    );
    assert_eq!(
        write_json(&secrets::op_secrets_list_reply(&vec![secrets::SecretEntry {
            name: own("n"),
            arn: None,
        }])),
        r#"{"secrets":[{"arn":"","name":"n"}]}"#
    );
}

#[test]
fn ses_ops() {
    let of = |text: &str| ses::op_ses_send_email_request(&j(text));
    let mail = of(r#"{"from":"a","to":"b","subject":"s","body":"hi","html":true}"#).unwrap();
    assert_eq!(mail.to, vec!["b"]);
    assert!(mail.html);
    let plain = of(r#"{"from":"a","to":["b","c"]}"#).unwrap();
    assert_eq!(plain.to, vec!["b", "c"]);
    assert_eq!((plain.subject.as_str(), plain.body.as_str(), plain.html), ("", "", false));
    assert_eq!(of("{}").unwrap_err(), "missing from");
    assert_eq!(of(r#"{"from":"a"}"#).unwrap_err(), "to must name at least one recipient");
    assert_eq!(of(r#"{"from":"a","to":1}"#).unwrap_err(), "expected string or array of strings");
    assert_eq!(write_json(&ses::op_ses_send_email_reply(None)), r#"{"message_id":""}"#);
}

#[test]
fn cloudwatch_ops() {
    let of = |text: &str| cloudwatch::op_cloudwatch_put_metric_request(&j(text));
    let metric = of(r#"{"namespace":"n","metric_name":"m","value":42,"unit":"Count"}"#).unwrap();
    assert_eq!(metric.value.as_f64(), Some(42.0));
    assert_eq!(metric.unit.as_deref(), Some("Count"));
    assert_eq!(
        write_json(&cloudwatch::op_cloudwatch_put_metric_reply(&metric)),
        r#"{"metric_name":"m","namespace":"n","ok":true,"value":42.0}"#
    );
    let big = of(r#"{"namespace":"n","metric_name":"m","value":18446744073709551615}"#).unwrap();
    let value = cloudwatch::op_cloudwatch_put_metric_reply(&big);
    assert!(matches!(
        value.get("value"),
        Some(Json::Number(v)) if v.as_f64() == Some(18446744073709551615u64 as f64)
    ));
    assert_eq!(of("{}").unwrap_err(), "missing namespace");
    assert_eq!(of(r#"{"namespace":"n"}"#).unwrap_err(), "missing metric_name");
    assert_eq!(
        of(r#"{"namespace":"n","metric_name":"m","value":"1"}"#).unwrap_err(),
        "missing value"
    );
    let filter = cloudwatch::op_cloudwatch_list_metrics_request(&j(r#"{"namespace":"n"}"#));
    assert_eq!((filter.namespace.as_deref(), filter.name), (Some("n"), None));
    assert_eq!(
        write_json(&cloudwatch::op_cloudwatch_list_metrics_reply(&vec![cloudwatch::MetricEntry {
            namespace: own("n"),
            name: None,
            dimensions: vec![cloudwatch::Dimension { name: own("d"), value: None }],
        }])),
        r#"{"metrics":[{"dimensions":[{"name":"d","value":null}],"metric_name":null,"namespace":"n"}]}"#
    );
}
