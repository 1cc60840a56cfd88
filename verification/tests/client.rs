use datadog_statsd::client::{Client, ClientConfig, ClientConfigBuilder};
use datadog_statsd::wire::{AlertType, ServiceCheckStatus};

struct TimeTest {
    num: u8,
}

// A client without prefix and without constant tags.
fn make_plain_client() -> Client {
    let config = ClientConfig::builder("127.0.0.1:8125").build();
    Client::new(&config)
}

// A client with the prefix "myapp".
fn make_client() -> Client {
    let config = ClientConfig::builder("127.0.0.1:8125").prefix("myapp").build();
    Client::new(&config)
}

// A client with the prefix "myapp" and the given constant tags.
fn make_tagged_client(tags: Vec<&str>) -> Client {
    let config = ClientConfig::builder("127.0.0.1:8125")
        .prefix("myapp")
        .constant_tags(tags)
        .build();
    Client::new(&config)
}

#[test]
fn test_sending_gauge() {
    let client = make_client();

    let response = client.gauge("metric", &9.1_f64.to_string(), None);

    assert_eq!("myapp.metric:9.1|g", response);
}

#[test]
fn test_sending_gauge_without_prefix() {
    let client = make_plain_client();

    let response = client.gauge("metric", &9.1_f64.to_string(), None);

    assert_eq!("metric:9.1|g", response);
}

#[test]
fn test_sending_incr() {
    let client = make_client();

    let response = client.incr("metric", None);

    assert_eq!("myapp.metric:1|c", response);
}

#[test]
fn test_sending_decr() {
    let client = make_client();

    let response = client.decr("metric", None);

    assert_eq!("myapp.metric:-1|c", response);
}

#[test]
fn test_sending_count() {
    let client = make_client();

    let response = client.count("metric", &12.2_f64.to_string(), None);

    assert_eq!("myapp.metric:12.2|c", response);
}

#[test]
fn test_sending_timer() {
    let client = make_client();

    let response = client.timer("metric", &21.39_f64.to_string(), None);

    assert_eq!("myapp.metric:21.39|ms", response);
}

#[test]
fn test_sending_timed_block() {
    let client = make_client();

    let mut t = TimeTest { num: 10 };
    let (output, response) = client.time("time_block", None, || {
        t.num += 2;
        "a string"
    });

    assert_eq!(output, "a string");
    assert_eq!(t.num, 12);
    assert!(response.contains("myapp.time_block"));
    assert!(response.contains("|ms"));
}

#[test]
fn test_sending_histogram() {
    let client = make_client();

    // without tags
    let mut response = client.histogram("metric", &9.1_f64.to_string(), None);
    assert_eq!("myapp.metric:9.1|h", response);
    // with tags
    response = client.histogram("metric", &9.1_f64.to_string(), Some(vec!["tag1", "tag2:test"]));
    assert_eq!("myapp.metric:9.1|h|#tag1,tag2:test", response);
}

#[test]
fn test_sending_histogram_with_constant_tags() {
    let client = make_tagged_client(vec!["tag1common", "tag2common:test"]);

    // without tags
    let mut response = client.histogram("metric", &9.1_f64.to_string(), None);
    assert_eq!("myapp.metric:9.1|h|#tag1common,tag2common:test", response);
    // with tags
    let tags = Some(vec!["tag1", "tag2:test"]);
    response = client.histogram("metric", &9.1_f64.to_string(), tags.clone());
    assert_eq!(
        "myapp.metric:9.1|h|#tag1common,tag2common:test,tag1,tag2:test",
        response
    );
    // repeat
    response = client.histogram("metric", &19.12_f64.to_string(), tags);
    assert_eq!(
        "myapp.metric:19.12|h|#tag1common,tag2common:test,tag1,tag2:test",
        response
    );
}

#[test]
fn test_sending_event_with_tags() {
    let client = make_client();

    let response = client.event(
        "Title Test",
        "Text ABC",
        AlertType::Error,
        Some(vec!["tag1", "tag2:test"]),
    );

    assert_eq!(
        "_e{10,8}:Title Test|Text ABC|t:error|#tag1,tag2:test",
        response
    );
}

#[test]
fn test_sending_service_check_with_tags() {
    let client = make_client();

    let response = client.service_check(
        "Service.check.name",
        ServiceCheckStatus::Critical,
        Some(vec!["tag1", "tag2:test"]),
    );

    assert_eq!("_sc|Service.check.name|2|#tag1,tag2:test", response);
}

#[test]
fn histogram_with_only_constant_tags() {
    let client = make_tagged_client(vec!["tag1", "tag2:test"]);
    let response = client.histogram("metric", &9.1_f64.to_string(), None);
    assert_eq!("myapp.metric:9.1|h|#tag1,tag2:test", response);
}

#[test]
fn prefix_is_joined_by_one_dot() {
    assert_eq!(make_plain_client().prepare("n:1|c"), "n:1|c");
    assert_eq!(make_client().prepare("n:1|c"), "myapp.n:1|c");
    assert_eq!(make_client().prepare(""), "myapp.");
    let dotted = Client::new(&ClientConfig::builder(0_u8).prefix("a.b.").build());
    assert_eq!(dotted.prepare("n"), "a.b..n");
}

#[test]
fn empty_prefix_in_config_is_no_prefix() {
    let client = Client::new(&ClientConfig::builder(()).prefix("").build());
    assert_eq!(client.gauge("m", "1", None), "m:1|g");
}

#[test]
fn tags_keep_their_order_constants_first() {
    let client = make_tagged_client(vec!["a", "b"]);
    assert_eq!(client.append_tags("x", Some(vec!["c", "d"])), "x|#a,b,c,d");
    assert_eq!(client.append_tags("x", None), "x|#a,b");
    assert_eq!(client.append_tags("x", Some(vec![])), "x|#a,b");
}

#[test]
fn no_tags_give_no_suffix() {
    let client = make_client();
    assert_eq!(client.append_tags("x", None), "x");
    assert_eq!(client.append_tags("x", Some(vec![])), "x");
    let empty = make_tagged_client(vec![]);
    assert_eq!(empty.append_tags("x", None), "x");
    assert_eq!(empty.prepare_with_tags("x", Some(vec![])), "myapp.x");
}

#[test]
fn tags_are_written_as_given() {
    let client = make_tagged_client(vec!["a", "a"]);
    assert_eq!(
        client.append_tags("x", Some(vec!["a", "b|c", "d,e", ""])),
        "x|#a,a,a,b|c,d,e,"
    );
    let single = make_plain_client();
    assert_eq!(single.append_tags("x", Some(vec!["only"])), "x|#only");
}

#[test]
fn prepare_with_tags_does_both() {
    let client = make_tagged_client(vec!["k:v"]);
    assert_eq!(
        client.prepare_with_tags("m:1|c", Some(vec!["t"])),
        "myapp.m:1|c|#k:v,t"
    );
}

#[test]
fn sampled_count_kept_carries_the_rate() {
    let client = make_client();
    let line = client.sampled_count("metric", "4", &0.5_f64.to_string(), true, None);
    assert_eq!(line, Some("myapp.metric:4|c|@0.5".to_string()));
    let tagged = client.sampled_count("metric", "4", "0.25", true, Some(vec!["t"]));
    assert_eq!(tagged, Some("myapp.metric:4|c|@0.25|#t".to_string()));
}

#[test]
fn sampled_count_left_out_gives_nothing() {
    let client = make_client();
    assert_eq!(client.sampled_count("metric", "4", "0.5", false, None), None);
}

#[test]
fn sampled_count_with_rate_zero_never_sends() {
    let client = make_client();
    let rate = 0.0_f64;
    let mut sent = 0;
    for step in 0..1000 {
        let draw = f64::from(step) / 1000.0;
        let kept = !(draw >= rate);
        if client
            .sampled_count("metric", "4", &rate.to_string(), kept, None)
            .is_some()
        {
            sent += 1;
        }
    }
    assert_eq!(sent, 0);
}

#[test]
fn timed_writes_whole_milliseconds() {
    let client = make_client();
    assert_eq!(client.timed("t", 0, None), "myapp.t:0|ms");
    assert_eq!(client.timed("t", 1234, Some(vec!["a"])), "myapp.t:1234|ms|#a");
}

#[test]
fn time_returns_what_the_callable_returns() {
    let client = make_plain_client();
    let (value, line) = client.time("block", Some(vec!["a"]), || 7_u32);
    assert_eq!(value, 7);
    assert!(line.starts_with("block:"));
    assert!(line.ends_with("|ms|#a"));
    let millis = &line["block:".len()..line.len() - "|ms|#a".len()];
    assert!(millis.parse::<u128>().is_ok());
}

#[test]
fn event_without_alert_type_for_info() {
    let client = make_tagged_client(vec!["c"]);
    assert_eq!(
        client.event("MyApp Start", "MyApp Details", AlertType::Info, None),
        "_e{11,13}:MyApp Start|MyApp Details|#c"
    );
}

#[test]
fn event_alert_types_in_lower_case() {
    let client = make_plain_client();
    assert_eq!(client.event("a", "b", AlertType::Info, None), "_e{1,1}:a|b");
    assert_eq!(client.event("a", "b", AlertType::Error, None), "_e{1,1}:a|b|t:error");
    assert_eq!(client.event("a", "b", AlertType::Warning, None), "_e{1,1}:a|b|t:warning");
    assert_eq!(client.event("a", "b", AlertType::Success, None), "_e{1,1}:a|b|t:success");
}

#[test]
fn event_sizes_are_in_bytes() {
    let client = make_plain_client();
    assert_eq!(
        client.event("h\u{e9}llo", "\u{20ac}\u{1f600}", AlertType::Info, None),
        "_e{6,7}:h\u{e9}llo|\u{20ac}\u{1f600}"
    );
    assert_eq!(client.event("", "", AlertType::Info, None), "_e{0,0}:|");
}

#[test]
fn event_gets_no_prefix() {
    let client = make_client();
    assert_eq!(
        client.event("t", "x", AlertType::Warning, Some(vec!["a"])),
        "_e{1,1}:t|x|t:warning|#a"
    );
}

#[test]
fn service_check_statuses() {
    let client = make_client();
    assert_eq!(client.service_check("n", ServiceCheckStatus::Okay, None), "_sc|n|0");
    assert_eq!(client.service_check("n", ServiceCheckStatus::Warning, None), "_sc|n|1");
    assert_eq!(client.service_check("n", ServiceCheckStatus::Critical, None), "_sc|n|2");
    assert_eq!(client.service_check("n", ServiceCheckStatus::Unknown, None), "_sc|n|3");
}

#[test]
fn builder_sets_what_it_is_given() {
    let config = ClientConfigBuilder::new(("127.0.0.1", 8125_u16))
        .prefix("some.prefix")
        .constant_tags(vec!["tag1", "tag2"])
        .build();
    assert_eq!(config.address, ("127.0.0.1", 8125_u16));
    assert_eq!(config.prefix, Some("some.prefix".to_string()));
    assert_eq!(
        config.constant_tags,
        Some(vec!["tag1".to_string(), "tag2".to_string()])
    );
}

#[test]
fn builder_leaves_the_rest_unset() {
    let config = ClientConfig::builder("host:1").build();
    assert_eq!(config.address, "host:1");
    assert_eq!(config.prefix, None);
    assert_eq!(config.constant_tags, None);
    let later = ClientConfig::builder(1_u8).prefix("a").prefix("b").build();
    assert_eq!(later.prefix, Some("b".to_string()));
}

#[test]
fn client_pipeline_starts_empty() {
    let client = make_client();
    let mut pipeline = client.pipeline();
    assert!(pipeline.send(&client).is_empty());
}
