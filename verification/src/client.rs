//! The client: a namespace prefix and constant tags, and the line that each
//! observation becomes under them.

use crate::packing::no_empty_line;
use crate::pipeline::{Pipeline, PipelineState};
use crate::text::{decimal, decimal_string, join_strings};
use crate::wire::{
    all_tags, encode_event, encode_metric, encode_service_check, event_line,
    lemma_prefixed_line_starts_with_name, lemma_tags_keep_the_start, metric_line,
    service_check_line, with_prefix, with_tags, AlertType, MetricKind, ServiceCheckStatus,
};
use vstd::prelude::*;

verus! {

/// What a configuration holds, as plain text.
pub struct ConfigModel<T> {
    pub address: T,
    pub prefix: Option<Seq<char>>,
    pub constant_tags: Option<Seq<Seq<char>>>,
}

/// What every line of one client is decorated with.
pub struct ClientIdentity {
    pub prefix: Seq<char>,
    pub constant_tags: Seq<Seq<char>>,
}

impl<T> ConfigModel<T> {
    /// The identity of a client made from this configuration: what is not
    /// set is empty.
    pub open spec fn identity(self) -> ClientIdentity {
        ClientIdentity {
            prefix: match self.prefix {
                Some(prefix) => prefix,
                None => Seq::empty(),
            },
            constant_tags: match self.constant_tags {
                Some(tags) => tags,
                None => Seq::empty(),
            },
        }
    }
}

impl ClientIdentity {
    /// `data` under the client's prefix.
    pub open spec fn prepare(self, data: Seq<char>) -> Seq<char> {
        with_prefix(self.prefix, data)
    }

    /// Each of `lines` under the client's prefix.
    pub open spec fn prepare_all(self, lines: Seq<Seq<char>>) -> Seq<Seq<char>> {
        lines.map_values(|line: Seq<char>| self.prepare(line))
    }

    /// `data` followed by the constant tags and those of the call.
    pub open spec fn append_tags(self, data: Seq<char>, tags: Option<Seq<Seq<char>>>) -> Seq<
        char,
    > {
        with_tags(data, all_tags(self.constant_tags, tags))
    }

    /// `data` under the client's prefix, followed by the tags.
    pub open spec fn prepare_with_tags(self, data: Seq<char>, tags: Option<Seq<Seq<char>>>) -> Seq<
        char,
    > {
        self.append_tags(self.prepare(data), tags)
    }

    /// The line of a metric as this client sends it.
    pub open spec fn metric(
        self,
        name: Seq<char>,
        value: Seq<char>,
        kind: MetricKind,
        rate: Option<Seq<char>>,
        tags: Option<Seq<Seq<char>>>,
    ) -> Seq<char> {
        self.prepare_with_tags(metric_line(name, value, kind, rate), tags)
    }

    /// The line of an event as this client sends it: tags, but no prefix.
    pub open spec fn event(
        self,
        title: Seq<char>,
        text: Seq<char>,
        alert: AlertType,
        tags: Option<Seq<Seq<char>>>,
    ) -> Seq<char> {
        self.append_tags(event_line(title, text, alert), tags)
    }

    /// The line of a service check as this client sends it: tags, but no
    /// prefix.
    pub open spec fn service_check(
        self,
        name: Seq<char>,
        status: ServiceCheckStatus,
        tags: Option<Seq<Seq<char>>>,
    ) -> Seq<char> {
        self.append_tags(service_check_line(name, status), tags)
    }
}

/// The configuration of a client: where it sends, and how it decorates.
#[derive(Clone, Debug)]
pub struct ClientConfig<T> {
    pub address: T,
    pub prefix: Option<String>,
    pub constant_tags: Option<Vec<String>>,
}

impl<T> View for ClientConfig<T> {
    type V = ConfigModel<T>;

    open spec fn view(&self) -> ConfigModel<T> {
        ConfigModel {
            address: self.address,
            prefix: self.prefix.deep_view(),
            constant_tags: self.constant_tags.deep_view(),
        }
    }
}

impl<T> ClientConfig<T> {
    /// Starts a configuration for `address`, with nothing else set.
    pub fn builder(address: T) -> (builder: ClientConfigBuilder<T>)
        ensures
            builder@ == (ConfigModel { address, prefix: None, constant_tags: None }),
    {
        ClientConfigBuilder::new(address)
    }
}

/// Builds a `ClientConfig` step by step.
pub struct ClientConfigBuilder<T> {
    address: T,
    prefix: Option<String>,
    constant_tags: Option<Vec<String>>,
}

impl<T> View for ClientConfigBuilder<T> {
    type V = ConfigModel<T>;

    closed spec fn view(&self) -> ConfigModel<T> {
        ConfigModel {
            address: self.address,
            prefix: self.prefix.deep_view(),
            constant_tags: self.constant_tags.deep_view(),
        }
    }
}

impl<T> ClientConfigBuilder<T> {
    /// Starts a configuration for `address`, with nothing else set.
    pub fn new(address: T) -> (builder: Self)
        ensures
            builder@ == (ConfigModel { address, prefix: None, constant_tags: None }),
    {
        Self { address, prefix: None, constant_tags: None }
    }

    /// Sets the prefix.
    pub fn prefix(self, prefix: &str) -> (builder: Self)
        ensures
            builder@ == (ConfigModel { prefix: Some(prefix@), ..self@ }),
    {
        Self {
            address: self.address,
            prefix: Some(String::from_str(prefix)),
            constant_tags: self.constant_tags,
        }
    }

    /// Sets the constant tags.
    pub fn constant_tags(self, constant_tags: Vec<&str>) -> (builder: Self)
        ensures
            builder@ == (ConfigModel {
                constant_tags: Some(constant_tags.deep_view()),
                ..self@
            }),
    {
        let mut owned: Vec<String> = Vec::new();
        let mut i: usize = 0;
        while i < constant_tags.len()
            invariant
                i <= constant_tags.len(),
                owned.deep_view() == constant_tags.deep_view().take(i as int),
            decreases constant_tags.len() - i,
        {
            let ghost before = owned.deep_view();
            let tag = String::from_str(constant_tags[i]);
            owned.push(tag);
            assert(constant_tags.deep_view().take(i + 1) =~= before.push(tag@));
            i = i + 1;
        }
        assert(constant_tags.deep_view().take(i as int) == constant_tags.deep_view());
        Self { address: self.address, prefix: self.prefix, constant_tags: Some(owned) }
    }

    /// The configuration as set so far.
    pub fn build(self) -> (config: ClientConfig<T>)
        ensures
            config@ == self@,
    {
        ClientConfig {
            address: self.address,
            prefix: self.prefix,
            constant_tags: self.constant_tags,
        }
    }
}

/// A statsd client: the namespace prefix and the constant tags that its lines
/// carry. Each method gives the line to send as one datagram.
pub struct Client {
    prefix: String,
    constant_tags: Vec<String>,
}

impl View for Client {
    type V = ClientIdentity;

    closed spec fn view(&self) -> ClientIdentity {
        ClientIdentity { prefix: self.prefix@, constant_tags: self.constant_tags.deep_view() }
    }
}

impl Client {
    /// A client with the prefix and the constant tags of `client_config`.
    pub fn new<T>(client_config: &ClientConfig<T>) -> (client: Client)
        ensures
            client@ == client_config@.identity(),
    {
        let prefix = match &client_config.prefix {
            Some(prefix) => prefix.clone(),
            None => String::new(),
        };
        let constant_tags = match &client_config.constant_tags {
            Some(tags) => copy_tags(tags),
            None => Vec::new(),
        };
        let client = Client { prefix, constant_tags };
        assert(client@.constant_tags =~= client_config@.identity().constant_tags);
        client
    }

    /// A counter line that adds 1.
    pub fn incr(&self, metric: &str, tags: Option<Vec<&str>>) -> (line: String)
        ensures
            line@ == self@.metric(metric@, "1"@, MetricKind::Counter, None, tags.deep_view()),
    {
        self.count(metric, "1", tags)
    }

    /// A counter line that subtracts 1.
    pub fn decr(&self, metric: &str, tags: Option<Vec<&str>>) -> (line: String)
        ensures
            line@ == self@.metric(metric@, "-1"@, MetricKind::Counter, None, tags.deep_view()),
    {
        self.count(metric, "-1", tags)
    }

    /// A counter line that adds `value`, given as it is to be written.
    pub fn count(&self, metric: &str, value: &str, tags: Option<Vec<&str>>) -> (line: String)
        ensures
            line@ == self@.metric(metric@, value@, MetricKind::Counter, None, tags.deep_view()),
    {
        let data = encode_metric(metric, value, MetricKind::Counter, None);
        self.prepare_with_tags(data.as_str(), tags)
    }

    /// A counter line for a sampled count. `kept` tells how the draw went: a
    /// number drawn evenly from 0 up to, but not including, 1 keeps the
    /// observation unless it is at least the rate. A kept observation gives
    /// the line with the rate, given as it is to be written, behind `|@`; one
    /// that is not kept gives `None`.
    pub fn sampled_count(
        &self,
        metric: &str,
        value: &str,
        rate: &str,
        kept: bool,
        tags: Option<Vec<&str>>,
    ) -> (line: Option<String>)
        ensures
            line.deep_view() == if kept {
                Some(
                    self@.metric(
                        metric@,
                        value@,
                        MetricKind::Counter,
                        Some(rate@),
                        tags.deep_view(),
                    ),
                )
            } else {
                None
            },
    {
        if !kept {
            return None;
        }
        let data = encode_metric(metric, value, MetricKind::Counter, Some(rate));
        Some(self.prepare_with_tags(data.as_str(), tags))
    }

    /// A gauge line that sets `value`, given as it is to be written.
    pub fn gauge(&self, metric: &str, value: &str, tags: Option<Vec<&str>>) -> (line: String)
        ensures
            line@ == self@.metric(metric@, value@, MetricKind::Gauge, None, tags.deep_view()),
    {
        let data = encode_metric(metric, value, MetricKind::Gauge, None);
        self.prepare_with_tags(data.as_str(), tags)
    }

    /// A timer line for `value` milliseconds, given as they are to be written.
    pub fn timer(&self, metric: &str, value: &str, tags: Option<Vec<&str>>) -> (line: String)
        ensures
            line@ == self@.metric(metric@, value@, MetricKind::Timer, None, tags.deep_view()),
    {
        let data = encode_metric(metric, value, MetricKind::Timer, None);
        self.prepare_with_tags(data.as_str(), tags)
    }

    /// A timer line for a measured time of `millis` whole milliseconds.
    pub fn timed(&self, metric: &str, millis: u128, tags: Option<Vec<&str>>) -> (line: String)
        ensures
            line@ == self@.metric(
                metric@,
                decimal(millis as nat),
                MetricKind::Timer,
                None,
                tags.deep_view(),
            ),
    {
        let value = decimal_string(millis);
        self.timer(metric, value.as_str(), tags)
    }

    /// Runs `callable` and measures how long it takes: gives what it
    /// returned, and a timer line for the whole milliseconds that passed.
    pub fn time<F, R>(&self, metric: &str, tags: Option<Vec<&str>>, callable: F) -> (out: (
        R,
        String,
    )) where F: FnOnce() -> R
        requires
            callable.requires(()),
        ensures
            callable.ensures((), out.0),
            exists|millis: u128|
                out.1@ == #[trigger] self@.metric(
                    metric@,
                    decimal(millis as nat),
                    MetricKind::Timer,
                    None,
                    tags.deep_view(),
                ),
    {
        let start = std::time::Instant::now();
        let return_val = callable();
        let used = start.elapsed();
        let line = self.timed(metric, used.as_millis(), tags);
        (return_val, line)
    }

    /// `data` under the client's prefix: unchanged when the prefix is empty,
    /// else behind the prefix and a dot.
    pub fn prepare(&self, data: &str) -> (line: String)
        ensures
            line@ == self@.prepare(data@),
    {
        if self.prefix.as_str().is_empty() {
            String::from_str(data)
        } else {
            let mut line = self.prefix.clone();
            line.append(".");
            line.append(data);
            line
        }
    }

    /// `data` under the client's prefix, followed by the tags.
    pub fn prepare_with_tags(&self, data: &str, tags: Option<Vec<&str>>) -> (line: String)
        ensures
            line@ == self@.prepare_with_tags(data@, tags.deep_view()),
    {
        let prepared = self.prepare(data);
        self.append_tags(prepared.as_str(), tags)
    }

    /// `data` followed by `|#` and the tags, the constant ones first, with
    /// commas between them; `data` alone where there is no tag at all.
    pub fn append_tags(&self, data: &str, tags: Option<Vec<&str>>) -> (line: String)
        ensures
            line@ == self@.append_tags(data@, tags.deep_view()),
    {
        let mut all = copy_tags(&self.constant_tags);
        match tags {
            Some(own) => {
                let mut i: usize = 0;
                while i < own.len()
                    invariant
                        i <= own.len(),
                        all.deep_view() == self@.constant_tags + own.deep_view().take(i as int),
                    decreases own.len() - i,
                {
                    let ghost before = all.deep_view();
                    let tag = String::from_str(own[i]);
                    all.push(tag);
                    assert(all.deep_view() =~= before.push(tag@));
                    i = i + 1;
                }
            },
            None => {},
        }
        assert(all.deep_view() == all_tags(self@.constant_tags, tags.deep_view()));
        let mut line = String::from_str(data);
        if all.len() > 0 {
            line.append("|#");
            let list = join_strings(&all, ",");
            line.append(list.as_str());
        }
        line
    }

    /// An empty pipeline, to collect lines that this client is to send
    /// together.
    pub fn pipeline(&self) -> (pipeline: Pipeline)
        ensures
            pipeline@ == PipelineState::fresh(),
    {
        Pipeline::new()
    }

    /// A histogram line that records `value`, given as it is to be written.
    pub fn histogram(&self, metric: &str, value: &str, tags: Option<Vec<&str>>) -> (line: String)
        ensures
            line@ == self@.metric(metric@, value@, MetricKind::Histogram, None, tags.deep_view()),
    {
        let data = encode_metric(metric, value, MetricKind::Histogram, None);
        self.prepare_with_tags(data.as_str(), tags)
    }

    /// An event line: the sizes of title and text in bytes, both texts, the
    /// alert type unless it is `Info`, and the tags. It gets no prefix.
    pub fn event(
        &self,
        title: &str,
        text: &str,
        alert_type: AlertType,
        tags: Option<Vec<&str>>,
    ) -> (line: String)
        ensures
            line@ == self@.event(title@, text@, alert_type, tags.deep_view()),
    {
        let data = encode_event(title, text, alert_type);
        self.append_tags(data.as_str(), tags)
    }

    /// A service-check line: the name, the status's number, and the tags. It
    /// gets no prefix.
    pub fn service_check(
        &self,
        service_check_name: &str,
        status: ServiceCheckStatus,
        tags: Option<Vec<&str>>,
    ) -> (line: String)
        ensures
            line@ == self@.service_check(service_check_name@, status, tags.deep_view()),
    {
        let data = encode_service_check(service_check_name, status);
        self.append_tags(data.as_str(), tags)
    }
}

/// A client's metric line starts with the metric's name and a colon where
/// the prefix is empty, and else with the prefix, one dot, the name and a
/// colon.
pub proof fn lemma_metric_starts_with_name(
    identity: ClientIdentity,
    name: Seq<char>,
    value: Seq<char>,
    kind: MetricKind,
    rate: Option<Seq<char>>,
    tags: Option<Seq<Seq<char>>>,
)
    ensures
        identity.prefix.len() == 0 ==> (name + ":"@).is_prefix_of(
            identity.metric(name, value, kind, rate, tags),
        ),
        identity.prefix.len() > 0 ==> (identity.prefix + "."@ + name + ":"@).is_prefix_of(
            identity.metric(name, value, kind, rate, tags),
        ),
{
    let prepared = identity.prepare(metric_line(name, value, kind, rate));
    lemma_prefixed_line_starts_with_name(identity.prefix, name, value, kind, rate);
    lemma_tags_keep_the_start(prepared, all_tags(identity.constant_tags, tags));
}

/// A prefix leaves no line empty that was not empty before.
pub proof fn lemma_prepare_all_keeps_nonempty(identity: ClientIdentity, lines: Seq<Seq<char>>)
    requires
        no_empty_line(lines),
    ensures
        no_empty_line(identity.prepare_all(lines)),
{
    assert forall|i: int| 0 <= i < identity.prepare_all(lines).len() implies (
    #[trigger] identity.prepare_all(lines)[i]).len() > 0 by {
        assert(lines[i].len() > 0);
    }
}

/// A copy of `tags`, each tag as it is.
fn copy_tags(tags: &Vec<String>) -> (copy: Vec<String>)
    ensures
        copy.deep_view() == tags.deep_view(),
{
    let mut copy: Vec<String> = Vec::new();
    let mut i: usize = 0;
    while i < tags.len()
        invariant
            i <= tags.len(),
            copy.deep_view() == tags.deep_view().take(i as int),
        decreases tags.len() - i,
    {
        let ghost before = copy.deep_view();
        let tag = tags[i].clone();
        copy.push(tag);
        assert(tags.deep_view().take(i + 1) =~= before.push(tag@));
        i = i + 1;
    }
    copy
}

} // verus!
