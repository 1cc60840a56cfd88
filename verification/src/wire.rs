//! The statsd wire format: what a line of each kind holds, as text.

use crate::text::{byte_len, decimal, decimal_string, join, lemma_join_concat, size_in_bytes};
use vstd::prelude::*;

verus! {

/// The four kinds of metric line.
#[derive(Clone, Copy, Debug, PartialEq, Eq, Structural)]
pub enum MetricKind {
    Counter,
    Gauge,
    Timer,
    Histogram,
}

impl MetricKind {
    /// The type code that follows the value on the wire.
    pub open spec fn code(self) -> Seq<char> {
        match self {
            MetricKind::Counter => "c"@,
            MetricKind::Gauge => "g"@,
            MetricKind::Timer => "ms"@,
            MetricKind::Histogram => "h"@,
        }
    }

    /// The type code that follows the value on the wire.
    pub fn type_code(self) -> (code: &'static str)
        ensures
            code@ == self.code(),
    {
        match self {
            MetricKind::Counter => "c",
            MetricKind::Gauge => "g",
            MetricKind::Timer => "ms",
            MetricKind::Histogram => "h",
        }
    }
}

/// How serious an event is. `Info` is what a line without an alert type means.
#[derive(Clone, Copy, Debug, PartialEq, Eq, Structural)]
pub enum AlertType {
    Info,
    Error,
    Warning,
    Success,
}

impl AlertType {
    /// The variant's name, as it prints.
    pub open spec fn name(self) -> Seq<char> {
        match self {
            AlertType::Info => "Info"@,
            AlertType::Error => "Error"@,
            AlertType::Warning => "Warning"@,
            AlertType::Success => "Success"@,
        }
    }

    /// The variant's name in lower case, as it stands on the wire.
    pub open spec fn wire_name(self) -> Seq<char> {
        match self {
            AlertType::Info => "info"@,
            AlertType::Error => "error"@,
            AlertType::Warning => "warning"@,
            AlertType::Success => "success"@,
        }
    }

    /// The variant's name.
    pub fn to_string(&self) -> (s: String)
        ensures
            s@ == self.name(),
    {
        match self {
            AlertType::Info => String::from_str("Info"),
            AlertType::Error => String::from_str("Error"),
            AlertType::Warning => String::from_str("Warning"),
            AlertType::Success => String::from_str("Success"),
        }
    }

    /// The variant's name in lower case.
    pub fn lowercase(&self) -> (s: &'static str)
        ensures
            s@ == self.wire_name(),
    {
        match self {
            AlertType::Info => "info",
            AlertType::Error => "error",
            AlertType::Warning => "warning",
            AlertType::Success => "success",
        }
    }
}

/// The outcome of a service check.
#[derive(Clone, Copy, Debug, PartialEq, Eq, Structural)]
pub enum ServiceCheckStatus {
    Okay,
    Warning,
    Critical,
    Unknown,
}

impl ServiceCheckStatus {
    /// The number that stands for the status on the wire.
    pub open spec fn ordinal(self) -> nat {
        match self {
            ServiceCheckStatus::Okay => 0,
            ServiceCheckStatus::Warning => 1,
            ServiceCheckStatus::Critical => 2,
            ServiceCheckStatus::Unknown => 3,
        }
    }

    /// The number that stands for the status on the wire.
    pub fn code(&self) -> (n: u32)
        ensures
            n == self.ordinal(),
    {
        match self {
            ServiceCheckStatus::Okay => 0,
            ServiceCheckStatus::Warning => 1,
            ServiceCheckStatus::Critical => 2,
            ServiceCheckStatus::Unknown => 3,
        }
    }
}

/// `data` under a namespace: unchanged when the prefix is empty, else the
/// prefix, one dot, and `data`.
pub open spec fn with_prefix(prefix: Seq<char>, data: Seq<char>) -> Seq<char> {
    if prefix.len() == 0 {
        data
    } else {
        prefix + "."@ + data
    }
}

/// A metric line: name, colon, value, bar, type code, and the sampling rate
/// behind `|@` where one was applied.
pub open spec fn metric_line(
    name: Seq<char>,
    value: Seq<char>,
    kind: MetricKind,
    rate: Option<Seq<char>>,
) -> Seq<char> {
    name + ":"@ + value + "|"@ + kind.code() + match rate {
        Some(r) => "|@"@ + r,
        None => Seq::empty(),
    }
}

/// The part of an event line that gives the alert type; `Info` gives none.
pub open spec fn alert_suffix(alert: AlertType) -> Seq<char> {
    if alert == AlertType::Info {
        Seq::empty()
    } else {
        "|t:"@ + alert.wire_name()
    }
}

/// An event line: the sizes in bytes of title and text, then both, then the
/// alert type unless it is `Info`.
pub open spec fn event_line(title: Seq<char>, text: Seq<char>, alert: AlertType) -> Seq<char> {
    "_e{"@ + decimal(byte_len(title)) + ","@ + decimal(byte_len(text)) + "}:"@ + title + "|"@
        + text + alert_suffix(alert)
}

/// A service-check line: the name and the status's number.
pub open spec fn service_check_line(name: Seq<char>, status: ServiceCheckStatus) -> Seq<char> {
    "_sc|"@ + name + "|"@ + decimal(status.ordinal())
}

/// The tags of one line: the constant ones first, then those of the call.
pub open spec fn all_tags(constant: Seq<Seq<char>>, per_call: Option<Seq<Seq<char>>>) -> Seq<
    Seq<char>,
> {
    match per_call {
        Some(tags) => constant + tags,
        None => constant,
    }
}

/// `data` with its tags: unchanged when there is none, else followed by `|#`
/// and the tags, each as given, with commas between them.
pub open spec fn with_tags(data: Seq<char>, tags: Seq<Seq<char>>) -> Seq<char> {
    if tags.len() == 0 {
        data
    } else {
        data + "|#"@ + join(tags, ","@)
    }
}

/// Tags keep their order, the constant ones first: the suffix holds the
/// constant tags, a comma, and the tags of the call.
pub proof fn lemma_tags_constants_first(
    data: Seq<char>,
    constant: Seq<Seq<char>>,
    own: Seq<Seq<char>>,
)
    requires
        constant.len() > 0,
        own.len() > 0,
    ensures
        with_tags(data, all_tags(constant, Some(own))) == data + "|#"@ + join(constant, ","@)
            + ","@ + join(own, ","@),
{
    lemma_join_concat(constant, own, ","@);
}

/// With the constant tags `a`, `b` and the tags `c`, `d` of the call, the
/// suffix is `|#a,b,c,d`.
pub proof fn lemma_two_and_two_tags(
    data: Seq<char>,
    a: Seq<char>,
    b: Seq<char>,
    c: Seq<char>,
    d: Seq<char>,
)
    ensures
        with_tags(data, all_tags(seq![a, b], Some(seq![c, d]))) == data + "|#"@ + a + ","@ + b
            + ","@ + c + ","@ + d,
{
    let constant = seq![a, b];
    let own = seq![c, d];
    lemma_tags_constants_first(data, constant, own);
    assert(constant.drop_last() == seq![a]);
    assert(own.drop_last() == seq![c]);
    assert(join(seq![a], ","@) == a);
    assert(join(seq![c], ","@) == c);
    assert(join(constant, ","@) == a + ","@ + b);
    assert(join(own, ","@) == c + ","@ + d);
}

/// Without constant tags and without tags of the call, nothing is appended.
pub proof fn lemma_no_tags_no_suffix(data: Seq<char>, own: Option<Seq<Seq<char>>>)
    requires
        own matches Some(tags) ==> tags.len() == 0,
    ensures
        with_tags(data, all_tags(Seq::empty(), own)) == data,
{
}

/// A prefixed metric line starts with the name and a colon where the prefix
/// is empty, and else with the prefix, one dot, the name and a colon.
pub proof fn lemma_prefixed_line_starts_with_name(
    prefix: Seq<char>,
    name: Seq<char>,
    value: Seq<char>,
    kind: MetricKind,
    rate: Option<Seq<char>>,
)
    ensures
        prefix.len() == 0 ==> (name + ":"@).is_prefix_of(
            with_prefix(prefix, metric_line(name, value, kind, rate)),
        ),
        prefix.len() > 0 ==> (prefix + "."@ + name + ":"@).is_prefix_of(
            with_prefix(prefix, metric_line(name, value, kind, rate)),
        ),
{
    let line = metric_line(name, value, kind, rate);
    let rest = value + "|"@ + kind.code() + match rate {
        Some(r) => "|@"@ + r,
        None => Seq::empty(),
    };
    assert(line == name + ":"@ + rest);
    if prefix.len() > 0 {
        assert(with_prefix(prefix, line) == prefix + "."@ + name + ":"@ + rest);
    }
}

/// Tags leave the start of a line as it is.
pub proof fn lemma_tags_keep_the_start(data: Seq<char>, tags: Seq<Seq<char>>)
    ensures
        data.is_prefix_of(with_tags(data, tags)),
{
    if tags.len() > 0 {
        assert(with_tags(data, tags) == data + ("|#"@ + join(tags, ","@)));
    }
}

/// A metric line is never empty.
pub proof fn lemma_metric_line_nonempty(
    name: Seq<char>,
    value: Seq<char>,
    kind: MetricKind,
    rate: Option<Seq<char>>,
)
    ensures
        metric_line(name, value, kind, rate).len() > 0,
{
    reveal_strlit(":");
}

/// Encodes a metric line, without namespace and tags.
pub fn encode_metric(name: &str, value: &str, kind: MetricKind, rate: Option<&str>) -> (line:
    String)
    ensures
        line@ == metric_line(name@, value@, kind, rate.deep_view()),
{
    let mut line = String::from_str(name);
    line.append(":");
    line.append(value);
    line.append("|");
    line.append(kind.type_code());
    if let Some(r) = rate {
        line.append("|@");
        line.append(r);
    }
    line
}

/// Encodes an event line, without tags.
pub fn encode_event(title: &str, text: &str, alert_type: AlertType) -> (line: String)
    ensures
        line@ == event_line(title@, text@, alert_type),
{
    let mut line = String::from_str("_e{");
    let title_size = decimal_string(size_in_bytes(title) as u128);
    line.append(title_size.as_str());
    line.append(",");
    let text_size = decimal_string(size_in_bytes(text) as u128);
    line.append(text_size.as_str());
    line.append("}:");
    line.append(title);
    line.append("|");
    line.append(text);
    if alert_type != AlertType::Info {
        line.append("|t:");
        line.append(alert_type.lowercase());
    }
    line
}

/// Encodes a service-check line, without tags.
pub fn encode_service_check(name: &str, status: ServiceCheckStatus) -> (line: String)
    ensures
        line@ == service_check_line(name@, status),
{
    let mut line = String::from_str("_sc|");
    line.append(name);
    line.append("|");
    let code = decimal_string(status.code() as u128);
    line.append(code.as_str());
    line
}

} // verus!
