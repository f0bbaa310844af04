use stryke_aws::attribute::AttributeValue;
use stryke_aws::ddb;
use stryke_aws::ddb::BatchWriter;
use stryke_aws::ddb::DdbCmd;
use stryke_aws::ddb::DdbRequest;
use stryke_aws::ddb::Flush;
use stryke_aws::ddb::Rows;
use stryke_aws::ddb::TableInfo;
use stryke_aws::ddb::Write;
use stryke_aws::json::Json;
use stryke_aws::lambda;
use stryke_aws::lambda::FunctionInfo;
use stryke_aws::lambda::Invocation;
use stryke_aws::lambda::LambdaCmd;
use stryke_aws::lambda::LambdaRequest;
use stryke_aws::s3;
use stryke_aws::s3::Listing;
use stryke_aws::s3::Metadata;
use stryke_aws::s3::Method;
use stryke_aws::s3::ObjectEntry;
use stryke_aws::s3::ObjectPage;
use stryke_aws::s3::S3Cmd;
use stryke_aws::s3::S3Request;
use stryke_aws::sqs;
use stryke_aws::sqs::Message;
use stryke_aws::sqs::SqsCmd;
use stryke_aws::sqs::SqsRequest;
use stryke_aws::sts;
use stryke_aws::sts::Credentials;
use stryke_aws::sts::StsCmd;
use stryke_aws::sts::StsRequest;
use stryke_aws::wire::write_json;

fn own(text: &str) -> Option<String> {
    Some(text.to_string())
}

fn entry(key: &str) -> ObjectEntry {
    ObjectEntry {
        key: own(key),
        size: Some(3),
        etag: own("\"abc\""),
        last_modified: None,
        storage_class: own("STANDARD"),
    }
}

fn page(keys: &[&str], token: Option<&str>) -> ObjectPage {
    ObjectPage {
        prefixes: vec![],
        objects: keys.iter().map(|k| entry(k)).collect(),
        truncated: Some(token.is_some()),
        token: token.map(String::from),
    }
}

fn item(id: &str) -> Vec<(String, AttributeValue)> {
    vec![("id".to_string(), AttributeValue::N(id.to_string()))]
}

#[test]
fn ls_asks_for_the_prefix_only_where_there_is_one() {
    let cmd = S3Cmd::Ls {
        uri: "s3://b/p/".into(),
        page_size: 7,
        limit: Some(2),
        delimiter: own("/"),
    };
    match s3::dispatch(cmd).unwrap() {
        S3Request::List { bucket, prefix, delimiter, page_size, limit } => {
            assert_eq!(bucket, "b");
            assert_eq!(prefix.as_deref(), Some("p/"));
            assert_eq!(delimiter.as_deref(), Some("/"));
            assert_eq!(page_size, 7);
            assert_eq!(limit, Some(2));
        }
        other => panic!("{other:?}"),
    }
    let bare = S3Cmd::Ls { uri: "s3://b".into(), page_size: 1000, limit: None, delimiter: None };
    assert!(matches!(
        s3::dispatch(bare).unwrap(),
        S3Request::List { prefix: None, limit: None, .. }
    ));
}

#[test]
fn object_commands_insist_on_a_key() {
    let why = |cmd: S3Cmd| s3::dispatch(cmd).unwrap_err();
    assert_eq!(
        why(S3Cmd::Get { uri: "s3://b/".into(), output: "-".into() }),
        "get needs a full object URI (s3://bucket/key)"
    );
    assert_eq!(
        why(S3Cmd::Rm { uri: "s3://b".into() }),
        "rm needs a full object URI (s3://bucket/key)"
    );
    assert_eq!(
        why(S3Cmd::Put {
            uri: "s3://b".into(),
            input: "-".into(),
            content_type: None,
            cache_control: None,
            buffered: true,
        }),
        "put needs a full object URI (s3://bucket/key)"
    );
    assert_eq!(
        why(S3Cmd::Head { uri: "b/k".into() }),
        "expected `s3://bucket/key…`, got `b/k`"
    );
    // The metadata of a bucket may be asked for.
    assert!(s3::dispatch(S3Cmd::Head { uri: "s3://b".into() }).is_ok());
}

#[test]
fn an_upload_is_streamed_only_from_a_file() {
    let streamed = |input: &str, buffered: bool| {
        let cmd = S3Cmd::Put {
            uri: "s3://b/k".into(),
            input: input.into(),
            content_type: own("text/plain"),
            cache_control: None,
            buffered,
        };
        match s3::dispatch(cmd).unwrap() {
            S3Request::Put { streamed, content_type, .. } => {
                assert_eq!(content_type.as_deref(), Some("text/plain"));
                streamed
            }
            other => panic!("{other:?}"),
        }
    };
    assert!(!streamed("-", false));
    assert!(!streamed("file", true));
    assert!(streamed("file", false));
}

#[test]
fn presigning_checks_expiry_before_method() {
    let of = |method: &str, expires: u64| {
        s3::dispatch(S3Cmd::Presign { uri: "s3://b/k".into(), method: method.into(), expires })
    };
    assert!(matches!(
        of("get", 604_800).unwrap(),
        S3Request::Presign { method: Method::Get, expires: 604_800, .. }
    ));
    assert!(matches!(of("PUT", 1).unwrap(), S3Request::Presign { method: Method::Put, .. }));
    assert_eq!(
        of("POST", 604_801).unwrap_err(),
        "invalid expires: `expires_in` must be no longer than one week"
    );
    assert_eq!(of("post", 1).unwrap_err(), "presign method must be GET or PUT (got POST)");
}

#[test]
fn a_listing_shows_prefixes_first_and_strips_quotes() {
    let mut listing = Listing::new(None);
    let mut first = page(&["p/a"], Some("next"));
    first.prefixes = vec![own("p/q/"), None];
    let (lines, next) = listing.page(first);
    assert_eq!(
        lines.iter().map(write_json).collect::<Vec<_>>(),
        vec![
            r#"{"key":"p/q/","type":"prefix"}"#,
            r#"{"etag":"abc","key":"p/a","last_modified":null,"size":3,"storage_class":"STANDARD","type":"object"}"#,
        ]
    );
    assert_eq!(next.as_deref(), Some("next"));
    let (lines, next) = listing.page(page(&[], None));
    assert!(lines.is_empty());
    assert!(next.is_none());
}

#[test]
fn a_listing_stops_at_its_limit_over_all_pages() {
    let mut listing = Listing::new(Some(3));
    let (lines, next) = listing.page(page(&["a", "b"], Some("t")));
    assert_eq!(lines.len(), 2);
    assert_eq!(next.as_deref(), Some("t"));
    let (lines, next) = listing.page(page(&["c", "d"], Some("u")));
    assert_eq!(lines.len(), 1);
    assert_eq!(lines[0].get("key"), Some(&Json::text("c")));
    assert!(next.is_none());
    let (lines, next) = Listing::new(Some(0)).page(page(&["a"], Some("t")));
    assert!(lines.is_empty());
    assert!(next.is_none());
    // A page that says there is more, but not where, is the last one.
    let mut lost = page(&["a"], None);
    lost.truncated = Some(true);
    assert!(Listing::new(None).page(lost).1.is_none());
}

#[test]
fn missing_values_of_an_object_have_defaults() {
    let none = ObjectEntry {
        key: None,
        size: None,
        etag: None,
        last_modified: own("today"),
        storage_class: None,
    };
    let one = ObjectPage { prefixes: vec![], objects: vec![none], truncated: None, token: own("t") };
    let (lines, next) = Listing::new(None).page(one);
    assert_eq!(
        write_json(&lines[0]),
        r#"{"etag":null,"key":"","last_modified":"today","size":0,"storage_class":null,"type":"object"}"#
    );
    assert!(next.is_none());
}

#[test]
fn s3_answers() {
    assert_eq!(
        write_json(&s3::put("b", "k", own("\"e\""), None)),
        r#"{"bucket":"b","etag":"e","key":"k","version_id":null}"#
    );
    assert_eq!(
        write_json(&s3::rm("b", "k")),
        r#"{"bucket":"b","deleted":true,"key":"k"}"#
    );
    assert_eq!(
        write_json(&s3::presign(Method::Put, "b", "k", 60, "https://u")),
        r#"{"bucket":"b","expires_in":60,"key":"k","method":"PUT","url":"https://u"}"#
    );
    assert_eq!(
        write_json(&s3::bucket(own("n"), None)),
        r#"{"creation_date":null,"name":"n"}"#
    );
    let meta = Metadata {
        size: Some(-1),
        etag: None,
        content_type: own("t"),
        cache_control: None,
        last_modified: None,
        storage_class: None,
        version_id: own("v"),
    };
    assert_eq!(
        write_json(&s3::head("b", "", meta)),
        r#"{"bucket":"b","cache_control":null,"content_type":"t","etag":null,"key":"","last_modified":null,"size":-1,"storage_class":null,"version_id":"v"}"#
    );
}

#[test]
fn ddb_commands_read_their_json() {
    match ddb::dispatch(DdbCmd::Get {
        table: "t".into(),
        key: r#"{"id":42}"#.into(),
        consistent: true,
    }) {
        Ok(DdbRequest::Get { table, key, consistent }) => {
            assert_eq!(table, "t");
            assert_eq!(key, item("42"));
            assert!(consistent);
        }
        other => panic!("{other:?}"),
    }
    assert_eq!(
        ddb::dispatch(DdbCmd::Delete { table: "t".into(), key: "[]".into() }).unwrap_err(),
        "expected a JSON object"
    );
    assert!(matches!(
        ddb::dispatch(DdbCmd::Put { table: "t".into(), item: "-".into() }),
        Ok(DdbRequest::PutLine { .. })
    ));
    assert_eq!(ddb::put_line("  {\"id\":1}\n").unwrap(), item("1"));
    assert!(ddb::put_line("\n").unwrap_err().starts_with("parsing JSON object: EOF"));
}

#[test]
fn a_query_reads_values_before_names() {
    let of = |vals: Option<&str>, names: Option<&str>| {
        ddb::dispatch(DdbCmd::Query {
            table: "t".into(),
            expr: "id = :id".into(),
            vals: vals.map(String::from),
            names: names.map(String::from),
            index: None,
            filter: None,
            limit: Some(5),
            consistent: false,
        })
    };
    assert_eq!(of(Some("1"), Some("1")).unwrap_err(), "expected a JSON object");
    assert_eq!(of(None, Some("1")).unwrap_err(), "--names must be a JSON object");
    assert!(of(None, Some("{")).unwrap_err().starts_with("parsing --names JSON: "));
    match of(Some(r#"{":id":"x"}"#), Some(r##"{"#n":"name"}"##)).unwrap() {
        DdbRequest::Query { vals, names, limit, .. } => {
            assert_eq!(vals.unwrap(), vec![(":id".to_string(), AttributeValue::S("x".into()))]);
            assert_eq!(names.unwrap(), vec![("#n".to_string(), "name".to_string())]);
            assert_eq!(limit, Some(5));
        }
        other => panic!("{other:?}"),
    }
}

#[test]
fn rows_stop_at_the_limit_or_without_a_key() {
    let mut rows = Rows::of_query(Some(2));
    let (lines, next) = rows.page(&vec![item("1")], Some(item("1")));
    assert_eq!(write_json(&lines[0]), r#"{"id":1}"#);
    assert_eq!(next, Some(item("1")));
    let (lines, next) = rows.page(&vec![item("2"), item("3")], Some(item("3")));
    assert_eq!(lines.len(), 1);
    assert_eq!(next, None);
    // A limit below one still shows one row.
    for limit in [0, -5] {
        let (lines, next) = Rows::of_query(Some(limit)).page(&vec![item("1"), item("2")], None);
        assert_eq!(lines.len(), 1);
        assert_eq!(next, None);
    }
    assert_eq!(Rows::of_scan(Some(0)).page(&vec![item("1"), item("2")], None).0.len(), 1);
    let (lines, next) = Rows::of_scan(None).page(&vec![item("1"), item("2")], Some(vec![]));
    assert_eq!(lines.len(), 2);
    assert_eq!(next, None);
}

#[test]
fn writes_go_out_in_full_batches_and_in_order() {
    let mut writer = BatchWriter::new();
    let mut sent: Vec<Vec<Write>> = Vec::new();
    for i in 0..60 {
        let line = if i % 2 == 0 {
            format!("{{\"id\":{i}}}")
        } else {
            format!("{{\"_delete\":{{\"id\":{i}}}}}")
        };
        if let Some(batch) = writer.feed(&line).unwrap() {
            sent.push(batch);
        }
        assert!(writer.feed(" \t").unwrap().is_none());
    }
    let (rest, report) = writer.finish();
    sent.push(rest.unwrap());
    assert_eq!(sent.iter().map(Vec::len).collect::<Vec<_>>(), vec![25, 25, 10]);
    assert_eq!(write_json(&report), r#"{"written":60}"#);
    for (i, write) in sent.iter().flatten().enumerate() {
        match write {
            Write::Put(fields) => assert_eq!((i % 2, fields), (0, &item(&i.to_string()))),
            Write::Delete(fields) => assert_eq!((i % 2, fields), (1, &item(&i.to_string()))),
        }
    }
    let (rest, report) = BatchWriter::new().finish();
    assert!(rest.is_none());
    assert_eq!(write_json(&report), r#"{"written":0}"#);
}

#[test]
fn a_line_that_is_no_write_is_an_error() {
    let mut writer = BatchWriter::new();
    assert!(writer.feed("{").unwrap_err().starts_with("parsing NDJSON line: "));
    assert_eq!(
        writer.feed("[1]").unwrap_err(),
        "each NDJSON line must be a JSON object (item or {_delete: key})"
    );
    assert_eq!(writer.feed(r#"{"_delete":1}"#).unwrap_err(), "_delete must be an object");
    assert!(writer.finish().0.is_none());
}

#[test]
fn what_is_left_of_a_batch_is_sent_once_more() {
    let mut flush = Flush::new();
    assert!(flush.again::<Write>(None).is_none());
    assert!(flush.again::<Write>(Some(vec![])).is_none());
    assert_eq!(flush.again(Some(vec![Write::Put(item("1"))])).unwrap().len(), 1);
    assert!(flush.again(Some(vec![Write::Put(item("1"))])).is_none());
}

#[test]
fn ddb_answers() {
    assert_eq!(write_json(&ddb::get(Some(item("7")))), r#"{"id":7}"#);
    assert_eq!(ddb::get(None), Json::Null);
    assert_eq!(write_json(&ddb::done()), r#"{"ok":true}"#);
    let lines = ddb::tables(&vec!["a".to_string(), "b".to_string()]);
    assert_eq!(
        lines.iter().map(write_json).collect::<Vec<_>>(),
        vec![r#"{"name":"a"}"#, r#"{"name":"b"}"#]
    );
    let info = TableInfo {
        name: own("t"),
        status: own("ACTIVE"),
        item_count: Some(3),
        size_bytes: None,
        key_schema: vec![("id".to_string(), "HASH".to_string())],
        attributes: vec![("id".to_string(), "N".to_string())],
        arn: None,
    };
    assert_eq!(
        write_json(&ddb::describe(Some(info)).unwrap()),
        r#"{"arn":null,"attributes":[{"name":"id","type":"N"}],"item_count":3,"key_schema":[{"attribute":"id","type":"HASH"}],"name":"t","size_bytes":null,"status":"ACTIVE"}"#
    );
    assert_eq!(ddb::describe(None).unwrap_err(), "no table in response");
}

#[test]
fn receiving_is_kept_within_what_the_service_grants() {
    let of = |max: i32, wait: i32| match sqs::dispatch(SqsCmd::Receive {
        queue_url: "q".into(),
        max,
        wait,
        visibility: Some(30),
    }) {
        SqsRequest::Receive { max, wait, visibility, .. } => {
            assert_eq!(visibility, Some(30));
            (max, wait)
        }
        other => panic!("{other:?}"),
    };
    assert_eq!(of(10, 20), (10, 20));
    assert_eq!(of(11, 21), (10, 20));
    assert_eq!(of(-3, -1), (-3, 0));
    assert_eq!(of(1, 7), (1, 7));
}

#[test]
fn sqs_answers() {
    assert!(matches!(
        sqs::dispatch(SqsCmd::List { prefix: own("prod-") }),
        SqsRequest::List { prefix: Some(p) } if p == "prod-"
    ));
    assert_eq!(
        write_json(&sqs::send(own("m"), None, own("1"))),
        r#"{"md5_of_body":null,"message_id":"m","sequence_number":"1"}"#
    );
    let lines = sqs::receive(&vec![Message {
        message_id: own("m"),
        receipt_handle: own("r"),
        md5: None,
        body: own("hi"),
    }]);
    assert_eq!(
        write_json(&lines[0]),
        r#"{"body":"hi","md5":null,"message_id":"m","receipt_handle":"r"}"#
    );
    assert_eq!(
        write_json(&sqs::attrs(&vec![
            ("b".to_string(), "1".to_string()),
            ("a".to_string(), "2".to_string()),
        ])),
        r#"{"a":"2","b":"1"}"#
    );
    assert_eq!(write_json(&sqs::list(&vec!["u".to_string()])[0]), r#"{"url":"u"}"#);
}

#[test]
fn sts_answers() {
    assert!(matches!(sts::dispatch(StsCmd::CallerIdentity), StsRequest::CallerIdentity));
    assert_eq!(
        write_json(&sts::caller_identity(own("1"), None, own("u"))),
        r#"{"account":"1","arn":null,"user_id":"u"}"#
    );
    let creds = Credentials {
        access_key_id: "a".into(),
        secret_access_key: "s".into(),
        session_token: "t".into(),
        expiration: "e".into(),
    };
    assert_eq!(
        write_json(&sts::assume_role(Some(creds), own("arn")).unwrap()),
        r#"{"access_key_id":"a","assumed_role_arn":"arn","expiration":"e","secret_access_key":"s","session_token":"t"}"#
    );
    assert_eq!(sts::assume_role(None, None).unwrap_err(), "no credentials in response");
}

#[test]
fn an_invocation_needs_json_and_a_known_type() {
    let plan = |payload: &str| {
        lambda::dispatch(LambdaCmd::Invoke {
            name: "f".into(),
            payload: payload.into(),
            invocation_type: "event".into(),
            qualifier: own("v3"),
            log_tail: true,
        })
    };
    assert!(matches!(plan("-"), LambdaRequest::Invoke { payload: None, log_tail: true, .. }));
    assert!(matches!(plan("{}"), LambdaRequest::Invoke { payload: Some(p), .. } if p == "{}"));
    assert!(matches!(lambda::dispatch(LambdaCmd::List), LambdaRequest::List));
    for (name, kind) in [
        ("request-response", Invocation::RequestResponse),
        ("Sync", Invocation::RequestResponse),
        ("EVENT", Invocation::Event),
        ("async", Invocation::Event),
        ("dry-run", Invocation::DryRun),
        ("DryRun", Invocation::DryRun),
    ] {
        assert_eq!(lambda::check_invoke("{}", name).unwrap(), kind);
    }
    assert_eq!(
        lambda::check_invoke("{}", "Never").unwrap_err(),
        "invocation_type: never (expected request-response|event|dry-run)"
    );
    assert!(lambda::check_invoke("{", "never").unwrap_err().starts_with("payload must be JSON: "));
}

#[test]
fn an_answer_is_json_or_text() {
    let of = |log: Option<&str>, payload: Option<&[u8]>| {
        write_json(&lambda::invoke(
            200,
            None,
            own("$LATEST"),
            log.map(String::from),
            payload.map(|p| p.to_vec()),
        ))
    };
    assert_eq!(
        of(Some("U1RBUlQ="), Some(b"{\"a\": [1]}")),
        r#"{"executed_version":"$LATEST","function_error":null,"log_tail":"START","payload":{"a":[1]},"status_code":200}"#
    );
    assert_eq!(
        of(Some("not base64"), Some(b"plain")),
        r#"{"executed_version":"$LATEST","function_error":null,"log_tail":"not base64","payload":"plain","status_code":200}"#
    );
    // Base64 of bytes that are no text is shown as it came; so are bytes, with what is not text
    // replaced.
    assert_eq!(
        of(Some("/w=="), Some(b"a\xffb")),
        "{\"executed_version\":\"$LATEST\",\"function_error\":null,\"log_tail\":\"/w==\",\"payload\":\"a\u{fffd}b\",\"status_code\":200}"
    );
    assert_eq!(
        of(None, None),
        r#"{"executed_version":"$LATEST","function_error":null,"log_tail":null,"payload":null,"status_code":200}"#
    );
}

#[test]
fn functions_are_listed() {
    let lines = lambda::list(&vec![FunctionInfo {
        name: own("f"),
        runtime: None,
        arn: own("a"),
        memory: Some(128),
        timeout: None,
        last_modified: None,
        handler: own("h"),
    }]);
    assert_eq!(
        write_json(&lines[0]),
        r#"{"arn":"a","handler":"h","last_modified":null,"memory_mb":128,"name":"f","runtime":null,"timeout_s":null}"#
    );
}
