//! The pipeline: lines queued in order, sent together in as few datagrams as
//! their order and the size limit allow.

use crate::client::{lemma_prepare_all_keeps_nonempty, Client};
use crate::packing::{
    groups, lemma_all_groups_sent, lemma_pack_keeps_lines, no_empty_line, pack, pack_lines, texts,
};
use crate::text::{decimal, decimal_string};
use crate::wire::{encode_metric, lemma_metric_line_nonempty, metric_line, MetricKind};
use std::collections::VecDeque;
use vstd::prelude::*;

verus! {

/// What a pipeline holds: the queued lines, oldest first, and the size limit
/// of a datagram in bytes.
pub struct PipelineState {
    pub lines: Seq<Seq<char>>,
    pub max_udp_size: nat,
}

/// A queue of metric lines, without prefix and tags, and the size limit under
/// which they are packed when sent.
pub struct Pipeline {
    stats: VecDeque<String>,
    max_udp_size: usize,
}

impl View for Pipeline {
    type V = PipelineState;

    closed spec fn view(&self) -> PipelineState {
        PipelineState { lines: self.stats.deep_view(), max_udp_size: self.max_udp_size as nat }
    }
}

impl Pipeline {
    #[verifier::type_invariant]
    spec fn no_line_is_empty(self) -> bool {
        no_empty_line(self.stats.deep_view())
    }

    /// An empty pipeline with the size limit 512.
    pub fn new() -> (pipeline: Pipeline)
        ensures
            pipeline@ == PipelineState::fresh(),
    {
        let pipeline = Pipeline { stats: VecDeque::new(), max_udp_size: 512 };
        assert(pipeline.stats.deep_view() =~= Seq::empty());
        pipeline
    }

    /// Sets the size limit of a datagram, in bytes. The queue stays as it is.
    pub fn set_max_udp_size(&mut self, max_udp_size: usize)
        ensures
            final(self)@ == (PipelineState {
                max_udp_size: max_udp_size as nat,
                ..old(self)@
            }),
    {
        proof {
            use_type_invariant(&*self);
        }
        self.max_udp_size = max_udp_size;
    }

    /// Queues a counter line that adds 1.
    pub fn incr(&mut self, metric: &str)
        ensures
            final(self)@ == old(self)@.with_line(
                metric_line(metric@, "1"@, MetricKind::Counter, None),
            ),
    {
        self.count(metric, "1");
    }

    /// Queues a counter line that subtracts 1.
    pub fn decr(&mut self, metric: &str)
        ensures
            final(self)@ == old(self)@.with_line(
                metric_line(metric@, "-1"@, MetricKind::Counter, None),
            ),
    {
        self.count(metric, "-1");
    }

    /// Queues a counter line that adds `value`, given as it is to be written.
    pub fn count(&mut self, metric: &str, value: &str)
        ensures
            final(self)@ == old(self)@.with_line(
                metric_line(metric@, value@, MetricKind::Counter, None),
            ),
    {
        self.enqueue(metric, value, MetricKind::Counter, None);
    }

    /// Queues a counter line for a sampled count. `kept` tells how the draw
    /// went: a number drawn evenly from 0 up to, but not including, 1 keeps
    /// the observation unless it is at least the rate. A kept observation is
    /// queued with the rate, given as it is to be written, behind `|@`; one
    /// that is not kept leaves the queue as it is.
    pub fn sampled_count(&mut self, metric: &str, value: &str, rate: &str, kept: bool)
        ensures
            final(self)@ == if kept {
                old(self)@.with_line(
                    metric_line(metric@, value@, MetricKind::Counter, Some(rate@)),
                )
            } else {
                old(self)@
            },
    {
        if kept {
            self.enqueue(metric, value, MetricKind::Counter, Some(rate));
        }
    }

    /// Queues a gauge line that sets `value`, given as it is to be written.
    pub fn gauge(&mut self, metric: &str, value: &str)
        ensures
            final(self)@ == old(self)@.with_line(
                metric_line(metric@, value@, MetricKind::Gauge, None),
            ),
    {
        self.enqueue(metric, value, MetricKind::Gauge, None);
    }

    /// Queues a timer line for `value` milliseconds, given as they are to be
    /// written.
    pub fn timer(&mut self, metric: &str, value: &str)
        ensures
            final(self)@ == old(self)@.with_line(
                metric_line(metric@, value@, MetricKind::Timer, None),
            ),
    {
        self.enqueue(metric, value, MetricKind::Timer, None);
    }

    /// Queues a timer line for a measured time of `millis` whole
    /// milliseconds.
    pub fn timed(&mut self, metric: &str, millis: u128)
        ensures
            final(self)@ == old(self)@.with_line(
                metric_line(metric@, decimal(millis as nat), MetricKind::Timer, None),
            ),
    {
        let value = decimal_string(millis);
        self.timer(metric, value.as_str());
    }

    /// Runs `callable`, measures how long it takes, and queues a timer line
    /// for the whole milliseconds that passed.
    pub fn time<F>(&mut self, metric: &str, callable: F) where F: FnOnce()
        requires
            callable.requires(()),
        ensures
            callable.ensures((), ()),
            exists|millis: u128|
                final(self)@ == old(self)@.with_line(
                    #[trigger] metric_line(
                        metric@,
                        decimal(millis as nat),
                        MetricKind::Timer,
                        None,
                    ),
                ),
    {
        let start = std::time::Instant::now();
        callable();
        let used = start.elapsed();
        self.timed(metric, used.as_millis());
    }

    /// Queues a histogram line that records `value`, given as it is to be
    /// written.
    pub fn histogram(&mut self, metric: &str, value: &str)
        ensures
            final(self)@ == old(self)@.with_line(
                metric_line(metric@, value@, MetricKind::Histogram, None),
            ),
    {
        self.enqueue(metric, value, MetricKind::Histogram, None);
    }

    /// Empties the queue and gives the datagrams to send, in order: each
    /// line under the prefix of `client`, packed under the size limit. The
    /// datagrams hold consecutive groups of the lines, none of them empty:
    /// every line once, in the order in which it was queued.
    pub fn send(&mut self, client: &Client) -> (datagrams: Vec<String>)
        ensures
            final(self)@ == (PipelineState { lines: Seq::empty(), ..old(self)@ }),
            datagrams.deep_view() == pack(
                client@.prepare_all(old(self)@.lines),
                old(self)@.max_udp_size,
            ),
            ({
                let sent = client@.prepare_all(old(self)@.lines);
                let grouped = groups(sent, old(self)@.max_udp_size);
                &&& grouped.flatten() == sent
                &&& forall|k: int| 0 <= k < grouped.len() ==> (#[trigger] grouped[k]).len() > 0
                &&& datagrams.deep_view() == texts(grouped)
            }),
    {
        let ghost queued = self@.lines;
        let ghost sent = client@.prepare_all(queued);
        proof {
            use_type_invariant(&*self);
        }
        let mut stats: VecDeque<String> = VecDeque::new();
        assert(stats.deep_view() =~= Seq::empty());
        std::mem::swap(&mut self.stats, &mut stats);
        let mut prepared: Vec<String> = Vec::new();
        while stats.len() > 0
            invariant
                sent == client@.prepare_all(queued),
                prepared.len() + stats.len() == queued.len(),
                prepared.deep_view() == sent.take(prepared.len() as int),
                stats.deep_view() == queued.skip(prepared.len() as int),
            decreases stats.len(),
        {
            let ghost waiting = stats.deep_view();
            let next = stats.pop_front();
            assert(stats.deep_view() =~= waiting.drop_first());
            if let Some(stat) = next {
                assert(stat@ == waiting[0]);
                prepared.push(client.prepare(stat.as_str()));
            }
        }
        assert(sent.take(prepared.len() as int) == sent);
        proof {
            lemma_prepare_all_keeps_nonempty(client@, queued);
            lemma_pack_keeps_lines(sent, self.max_udp_size as nat);
            lemma_all_groups_sent(sent, self.max_udp_size as nat);
        }
        pack_lines(&prepared, self.max_udp_size)
    }

    /// Queues the line of one metric.
    fn enqueue(&mut self, metric: &str, value: &str, kind: MetricKind, rate: Option<&str>)
        ensures
            final(self)@ == old(self)@.with_line(
                metric_line(metric@, value@, kind, rate.deep_view()),
            ),
    {
        proof {
            use_type_invariant(&*self);
            lemma_metric_line_nonempty(metric@, value@, kind, rate.deep_view());
        }
        let ghost before = self.stats.deep_view();
        let data = encode_metric(metric, value, kind, rate);
        let mut stats: VecDeque<String> = VecDeque::new();
        std::mem::swap(&mut self.stats, &mut stats);
        stats.push_back(data);
        assert(stats.deep_view() =~= before.push(data@));
        self.stats = stats;
    }
}

impl PipelineState {
    /// The state of a new pipeline: nothing queued, and the size limit 512.
    pub open spec fn fresh() -> PipelineState {
        PipelineState { lines: Seq::empty(), max_udp_size: 512 }
    }

    /// The state with `line` queued behind the others.
    pub open spec fn with_line(self, line: Seq<char>) -> PipelineState {
        PipelineState { lines: self.lines.push(line), ..self }
    }
}

impl Default for Pipeline {
    /// An empty pipeline with the size limit 512.
    fn default() -> (pipeline: Pipeline)
        ensures
            pipeline@ == PipelineState::fresh(),
    {
        Pipeline::new()
    }
}

} // verus!
