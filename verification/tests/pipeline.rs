use datadog_statsd::client::{Client, ClientConfig};
use datadog_statsd::pipeline::Pipeline;

struct TimeTest {
    num: u8,
}

// A client with the prefix "myapp".
fn make_client() -> Client {
    let config = ClientConfig::builder("127.0.0.1:8125").prefix("myapp").build();
    Client::new(&config)
}

// A client without prefix.
fn make_plain_client() -> Client {
    Client::new(&ClientConfig::builder("127.0.0.1:8125").build())
}

#[test]
fn test_pipeline_sending_time_block() {
    let client = make_client();
    let mut pipeline = client.pipeline();
    pipeline.gauge("metric", &9.1_f64.to_string());

    let mut t = TimeTest { num: 10 };
    pipeline.time("time_block", || {
        t.num += 2;
    });
    let response = pipeline.send(&client);

    assert_eq!(t.num, 12);
    assert_eq!("myapp.metric:9.1|g\nmyapp.time_block:0|ms", response[0]);
    assert_eq!(response.len(), 1);
}

#[test]
fn test_pipeline_sending_gauge() {
    let client = make_client();
    let mut pipeline = client.pipeline();
    pipeline.gauge("metric", &9.1_f64.to_string());
    let response = pipeline.send(&client);

    assert_eq!("myapp.metric:9.1|g", response[0]);
    assert_eq!(response.len(), 1);
}

#[test]
fn test_pipeline_sending_histogram() {
    let client = make_client();
    let mut pipeline = client.pipeline();
    pipeline.histogram("metric", &9.1_f64.to_string());
    let response = pipeline.send(&client);

    assert_eq!("myapp.metric:9.1|h", response[0]);
    assert_eq!(response.len(), 1);
}

#[test]
fn test_pipeline_sending_multiple_data() {
    let client = make_client();
    let mut pipeline = client.pipeline();
    pipeline.gauge("metric", &9.1_f64.to_string());
    pipeline.count("metric", &12.2_f64.to_string());
    let response = pipeline.send(&client);

    assert_eq!("myapp.metric:9.1|g\nmyapp.metric:12.2|c", response[0]);
    assert_eq!(response.len(), 1);
}

#[test]
fn test_pipeline_set_max_udp_size() {
    let client = make_client();
    let mut pipeline = client.pipeline();
    pipeline.set_max_udp_size(20);
    pipeline.gauge("metric", &9.1_f64.to_string());
    pipeline.count("metric", &12.2_f64.to_string());
    let response = pipeline.send(&client);

    assert_eq!("myapp.metric:9.1|g", response[0]);
    assert_eq!(response, vec!["myapp.metric:9.1|g", "myapp.metric:12.2|c"]);
}

#[test]
fn test_pipeline_send_metric_after_pipeline() {
    let client = make_client();
    let mut pipeline = client.pipeline();

    pipeline.gauge("load", &9.0_f64.to_string());
    pipeline.count("customers", &7.0_f64.to_string());
    let response = pipeline.send(&client);

    // Should still be able to send metrics
    // with the client.
    let after = client.count("customers", &6.0_f64.to_string(), None);

    assert_eq!("myapp.load:9|g\nmyapp.customers:7|c", response[0]);
    assert_eq!(response.len(), 1);
    assert_eq!(after, "myapp.customers:6|c");
}

#[test]
fn empty_pipeline_sends_nothing() {
    let client = make_client();
    let mut pipeline = Pipeline::new();
    assert!(pipeline.send(&client).is_empty());
    let mut other = Pipeline::default();
    assert!(other.send(&client).is_empty());
}

#[test]
fn send_drains_the_queue() {
    let client = make_client();
    let mut pipeline = Pipeline::new();
    pipeline.incr("a");
    assert_eq!(pipeline.send(&client), vec!["myapp.a:1|c"]);
    assert!(pipeline.send(&client).is_empty());
    pipeline.decr("b");
    assert_eq!(pipeline.send(&client), vec!["myapp.b:-1|c"]);
}

#[test]
fn send_keeps_the_size_limit() {
    let client = make_plain_client();
    let mut pipeline = Pipeline::new();
    pipeline.set_max_udp_size(9);
    pipeline.incr("a");
    pipeline.incr("b");
    pipeline.incr("c");
    assert_eq!(pipeline.send(&client), vec!["a:1|c", "b:1|c", "c:1|c"]);
    pipeline.incr("a");
    pipeline.incr("b");
    pipeline.incr("c");
    assert_eq!(pipeline.send(&client), vec!["a:1|c", "b:1|c", "c:1|c"]);
}

#[test]
fn every_kind_queues_its_line() {
    let client = make_plain_client();
    let mut pipeline = Pipeline::new();
    pipeline.incr("i");
    pipeline.decr("d");
    pipeline.count("c", "12.2");
    pipeline.sampled_count("s", "4", "0.5", true);
    pipeline.sampled_count("skipped", "4", "0.5", false);
    pipeline.gauge("g", "9001");
    pipeline.timer("t", "10.123");
    pipeline.timed("e", 15);
    pipeline.histogram("h", "128");
    assert_eq!(
        pipeline.send(&client),
        vec!["i:1|c\nd:-1|c\nc:12.2|c\ns:4|c|@0.5\ng:9001|g\nt:10.123|ms\ne:15|ms\nh:128|h"]
    );
}

#[test]
fn prefix_is_applied_when_sending() {
    let mut pipeline = Pipeline::new();
    pipeline.gauge("g", "1");
    pipeline.gauge("h", "2");
    let tagged = Client::new(
        &ClientConfig::builder(())
            .prefix("p")
            .constant_tags(vec!["never", "sent"])
            .build(),
    );
    assert_eq!(pipeline.send(&tagged), vec!["p.g:1|g\np.h:2|g"]);
}

#[test]
fn prefix_counts_towards_the_size() {
    let mut pipeline = Pipeline::new();
    pipeline.set_max_udp_size(11);
    pipeline.gauge("g", "1");
    pipeline.gauge("h", "2");
    assert_eq!(pipeline.send(&make_plain_client()), vec!["g:1|g\nh:2|g"]);
    pipeline.gauge("g", "1");
    pipeline.gauge("h", "2");
    let client = Client::new(&ClientConfig::builder(()).prefix("p").build());
    assert_eq!(pipeline.send(&client), vec!["p.g:1|g", "p.h:2|g"]);
}

#[test]
fn sampled_count_with_rate_zero_never_enqueues() {
    let client = make_client();
    let rate = 0.0_f64;
    let mut pipeline = Pipeline::new();
    for step in 0..1000 {
        let draw = f64::from(step) / 1000.0;
        pipeline.sampled_count("metric", "4", &rate.to_string(), !(draw >= rate));
    }
    assert!(pipeline.send(&client).is_empty());
}

#[test]
fn sampled_count_with_rate_one_always_enqueues() {
    let client = make_plain_client();
    let rate = 1.0_f64;
    let mut pipeline = Pipeline::new();
    for step in 0..5 {
        let draw = f64::from(step) / 5.0;
        pipeline.sampled_count("m", "4", &rate.to_string(), !(draw >= rate));
    }
    assert_eq!(
        pipeline.send(&client),
        vec!["m:4|c|@1\nm:4|c|@1\nm:4|c|@1\nm:4|c|@1\nm:4|c|@1"]
    );
}

#[test]
fn time_queues_a_timer_line() {
    let client = make_plain_client();
    let mut pipeline = Pipeline::new();
    let mut ran = false;
    pipeline.time("block", || {
        ran = true;
    });
    assert!(ran);
    let sent = pipeline.send(&client);
    assert_eq!(sent.len(), 1);
    assert!(sent[0].starts_with("block:"));
    assert!(sent[0].ends_with("|ms"));
    let millis = &sent[0]["block:".len()..sent[0].len() - "|ms".len()];
    assert!(millis.parse::<u128>().is_ok());
}

#[test]
fn an_oversized_line_is_sent_whole() {
    let client = make_client();
    let mut pipeline = Pipeline::new();
    pipeline.set_max_udp_size(5);
    pipeline.gauge("a", "1");
    pipeline.gauge("long.metric.name", "123456789");
    pipeline.gauge("b", "2");
    assert_eq!(
        pipeline.send(&client),
        vec!["myapp.a:1|g", "myapp.long.metric.name:123456789|g", "myapp.b:2|g"]
    );
}

#[test]
fn lines_come_out_once_and_in_order() {
    let client = make_client();
    let mut pipeline = Pipeline::new();
    pipeline.set_max_udp_size(40);
    let mut expected = Vec::new();
    for step in 0..50_u32 {
        let name = format!("m{}", step);
        pipeline.gauge(&name, &step.to_string());
        expected.push(format!("myapp.m{}:{}|g", step, step));
    }
    let sent = pipeline.send(&client);
    let mut lines = Vec::new();
    for datagram in &sent {
        assert!(datagram.len() <= 40);
        for line in datagram.split('\n') {
            lines.push(line.to_string());
        }
    }
    assert_eq!(lines, expected);
    for pair in sent.windows(2) {
        let next_line = pair[1].split('\n').next().unwrap();
        assert!(pair[0].len() + 1 + next_line.len() > 40);
    }
}
