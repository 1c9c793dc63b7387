//! Metrics: which measurements to report, as values a sink can publish.

use vstd::prelude::*;
use crate::sources::now_millis;

verus! {

/// How a measurement is published.
#[derive(Debug, Clone, Copy, PartialEq, Eq, Structural)]
pub enum MetricKind {
    /// Added to a running count.
    Counter,
    /// Replaces the current level.
    Gauge,
    /// Recorded as one sample of a distribution.
    Histogram,
}

/// One measurement to publish.
#[derive(Debug)]
pub struct MetricUpdate {
    pub kind: MetricKind,
    pub name: String,
    /// A label as name and value.
    pub label: Option<(String, String)>,
    pub value: u64,
}

/// The model of a [`MetricUpdate`].
pub struct MetricView {
    pub kind: MetricKind,
    pub name: Seq<char>,
    pub label: Option<(Seq<char>, Seq<char>)>,
    pub value: u64,
}

impl View for MetricUpdate {
    type V = MetricView;

    open spec fn view(&self) -> MetricView {
        MetricView {
            kind: self.kind,
            name: self.name@,
            label: match self.label {
                Some(l) => Some((l.0@, l.1@)),
                None => None,
            },
            value: self.value,
        }
    }
}

/// The model of a list of updates.
pub open spec fn updates_view(u: Seq<MetricUpdate>) -> Seq<MetricView> {
    u.map_values(|x: MetricUpdate| x@)
}

/// A measurement with the given kind, name, optional label and value.
pub open spec fn metric(kind: MetricKind, name: Seq<char>, label: Option<(Seq<char>, Seq<char>)>, value: u64) -> MetricView {
    MetricView { kind, name, label, value }
}

fn update(kind: MetricKind, name: &str, label: Option<(&str, &str)>, value: u64) -> (r: MetricUpdate)
    ensures
        r@ == metric(
            kind,
            name@,
            match label {
                Some(l) => Some((l.0@, l.1@)),
                None => None,
            },
            value,
        ),
{
    let label = match label {
        Some(l) => Some((String::from_str(l.0), String::from_str(l.1))),
        None => None,
    };
    MetricUpdate { kind, name: String::from_str(name), label, value }
}

/// Turns events of the processor into measurements; a disabled recorder
/// reports none.
#[derive(Debug, Clone, Copy)]
pub struct MetricsRecorder {
    enabled: bool,
}

impl MetricsRecorder {
    /// Whether measurements are reported.
    pub closed spec fn spec_enabled(&self) -> bool {
        self.enabled
    }

    /// A recorder, on or off.
    pub fn new(enabled: bool) -> (r: Self)
        ensures
            r.spec_enabled() == enabled,
    {
        MetricsRecorder { enabled }
    }

    /// One record processed, with its duration and outcome.
    pub fn record_processed(&self, duration_ms: u64, success: bool) -> (r: Vec<MetricUpdate>)
        ensures
            updates_view(r@) == if self.spec_enabled() {
                seq![
                    metric(MetricKind::Counter, "records_processed_total"@, None, 1),
                    metric(
                        MetricKind::Counter,
                        if success {
                            "records_processed_success"@
                        } else {
                            "records_processed_failed"@
                        },
                        None,
                        1,
                    ),
                    metric(MetricKind::Histogram, "record_processing_duration_ms"@, None, duration_ms),
                ]
            } else {
                Seq::<MetricView>::empty()
            },
    {
        let mut out: Vec<MetricUpdate> = Vec::new();
        if !self.enabled {
            assert(updates_view(out@) =~= Seq::<MetricView>::empty());
            return out;
        }
        out.push(update(MetricKind::Counter, "records_processed_total", None, 1));
        let outcome = if success {
            "records_processed_success"
        } else {
            "records_processed_failed"
        };
        out.push(update(MetricKind::Counter, outcome, None, 1));
        out.push(update(MetricKind::Histogram, "record_processing_duration_ms", None, duration_ms));
        assert(updates_view(out@) =~= seq![
            metric(MetricKind::Counter, "records_processed_total"@, None, 1),
            metric(MetricKind::Counter, outcome@, None, 1),
            metric(MetricKind::Histogram, "record_processing_duration_ms"@, None, duration_ms),
        ]);
        out
    }

    /// One batch processed, with its size and duration.
    pub fn record_batch_processed(&self, count: usize, duration_ms: u64) -> (r: Vec<MetricUpdate>)
        ensures
            updates_view(r@) == if self.spec_enabled() {
                seq![
                    metric(MetricKind::Counter, "batches_processed_total"@, None, 1),
                    metric(MetricKind::Histogram, "batch_size"@, None, count as u64),
                    metric(MetricKind::Histogram, "batch_processing_duration_ms"@, None, duration_ms),
                ]
            } else {
                Seq::<MetricView>::empty()
            },
    {
        let mut out: Vec<MetricUpdate> = Vec::new();
        if !self.enabled {
            assert(updates_view(out@) =~= Seq::<MetricView>::empty());
            return out;
        }
        out.push(update(MetricKind::Counter, "batches_processed_total", None, 1));
        out.push(update(MetricKind::Histogram, "batch_size", None, count as u64));
        out.push(update(MetricKind::Histogram, "batch_processing_duration_ms", None, duration_ms));
        assert(updates_view(out@) =~= seq![
            metric(MetricKind::Counter, "batches_processed_total"@, None, 1),
            metric(MetricKind::Histogram, "batch_size"@, None, count as u64),
            metric(MetricKind::Histogram, "batch_processing_duration_ms"@, None, duration_ms),
        ]);
        out
    }

    /// The number of calls in flight.
    pub fn update_active_tasks(&self, count: u64) -> (r: Vec<MetricUpdate>)
        ensures
            updates_view(r@) == if self.spec_enabled() {
                seq![metric(MetricKind::Gauge, "active_tasks"@, None, count)]
            } else {
                Seq::<MetricView>::empty()
            },
    {
        let mut out: Vec<MetricUpdate> = Vec::new();
        if self.enabled {
            out.push(update(MetricKind::Gauge, "active_tasks", None, count));
        }
        assert(updates_view(out@) =~= if self.enabled {
            seq![metric(MetricKind::Gauge, "active_tasks"@, None, count)]
        } else {
            Seq::<MetricView>::empty()
        });
        out
    }

    /// One storage operation, with its duration and outcome.
    pub fn record_storage_operation(&self, operation: &str, duration_ms: u64, success: bool) -> (r: Vec<MetricUpdate>)
        ensures
            updates_view(r@) == if self.spec_enabled() {
                let l = Some(("operation"@, operation@));
                seq![
                    metric(MetricKind::Counter, "storage_operations_total"@, l, 1),
                    metric(
                        MetricKind::Counter,
                        if success {
                            "storage_operations_success"@
                        } else {
                            "storage_operations_failed"@
                        },
                        l,
                        1,
                    ),
                    metric(MetricKind::Histogram, "storage_operation_duration_ms"@, l, duration_ms),
                ]
            } else {
                Seq::<MetricView>::empty()
            },
    {
        let mut out: Vec<MetricUpdate> = Vec::new();
        if !self.enabled {
            assert(updates_view(out@) =~= Seq::<MetricView>::empty());
            return out;
        }
        let outcome = if success {
            "storage_operations_success"
        } else {
            "storage_operations_failed"
        };
        out.push(update(MetricKind::Counter, "storage_operations_total", Some(("operation", operation)), 1));
        out.push(update(MetricKind::Counter, outcome, Some(("operation", operation)), 1));
        out.push(
            update(
                MetricKind::Histogram,
                "storage_operation_duration_ms",
                Some(("operation", operation)),
                duration_ms,
            ),
        );
        let ghost l = Some(("operation"@, operation@));
        assert(updates_view(out@) =~= seq![
            metric(MetricKind::Counter, "storage_operations_total"@, l, 1),
            metric(MetricKind::Counter, outcome@, l, 1),
            metric(MetricKind::Histogram, "storage_operation_duration_ms"@, l, duration_ms),
        ]);
        out
    }

    /// One validation rule applied, with its outcome.
    pub fn record_validation(&self, rule: &str, success: bool) -> (r: Vec<MetricUpdate>)
        ensures
            updates_view(r@) == if self.spec_enabled() {
                let l = Some(("rule"@, rule@));
                seq![
                    metric(MetricKind::Counter, "validations_total"@, l, 1),
                    metric(
                        MetricKind::Counter,
                        if success {
                            "validations_success"@
                        } else {
                            "validations_failed"@
                        },
                        l,
                        1,
                    ),
                ]
            } else {
                Seq::<MetricView>::empty()
            },
    {
        let mut out: Vec<MetricUpdate> = Vec::new();
        if !self.enabled {
            assert(updates_view(out@) =~= Seq::<MetricView>::empty());
            return out;
        }
        let outcome = if success {
            "validations_success"
        } else {
            "validations_failed"
        };
        out.push(update(MetricKind::Counter, "validations_total", Some(("rule", rule)), 1));
        out.push(update(MetricKind::Counter, outcome, Some(("rule", rule)), 1));
        let ghost l = Some(("rule"@, rule@));
        assert(updates_view(out@) =~= seq![
            metric(MetricKind::Counter, "validations_total"@, l, 1),
            metric(MetricKind::Counter, outcome@, l, 1),
        ]);
        out
    }

    /// One transform applied, with its duration and outcome.
    pub fn record_transform(&self, name: &str, duration_ms: u64, success: bool) -> (r: Vec<MetricUpdate>)
        ensures
            updates_view(r@) == if self.spec_enabled() {
                let l = Some(("transform"@, name@));
                seq![
                    metric(MetricKind::Counter, "transforms_applied_total"@, l, 1),
                    metric(
                        MetricKind::Counter,
                        if success {
                            "transforms_applied_success"@
                        } else {
                            "transforms_applied_failed"@
                        },
                        l,
                        1,
                    ),
                    metric(MetricKind::Histogram, "transform_duration_ms"@, l, duration_ms),
                ]
            } else {
                Seq::<MetricView>::empty()
            },
    {
        let mut out: Vec<MetricUpdate> = Vec::new();
        if !self.enabled {
            assert(updates_view(out@) =~= Seq::<MetricView>::empty());
            return out;
        }
        let outcome = if success {
            "transforms_applied_success"
        } else {
            "transforms_applied_failed"
        };
        out.push(update(MetricKind::Counter, "transforms_applied_total", Some(("transform", name)), 1));
        out.push(update(MetricKind::Counter, outcome, Some(("transform", name)), 1));
        out.push(update(MetricKind::Histogram, "transform_duration_ms", Some(("transform", name)), duration_ms));
        let ghost l = Some(("transform"@, name@));
        assert(updates_view(out@) =~= seq![
            metric(MetricKind::Counter, "transforms_applied_total"@, l, 1),
            metric(MetricKind::Counter, outcome@, l, 1),
            metric(MetricKind::Histogram, "transform_duration_ms"@, l, duration_ms),
        ]);
        out
    }

    /// One error of the given type.
    pub fn record_error(&self, error_type: &str) -> (r: Vec<MetricUpdate>)
        ensures
            updates_view(r@) == if self.spec_enabled() {
                seq![metric(MetricKind::Counter, "errors_total"@, Some(("type"@, error_type@)), 1)]
            } else {
                Seq::<MetricView>::empty()
            },
    {
        let mut out: Vec<MetricUpdate> = Vec::new();
        if self.enabled {
            out.push(update(MetricKind::Counter, "errors_total", Some(("type", error_type)), 1));
        }
        assert(updates_view(out@) =~= if self.enabled {
            seq![metric(MetricKind::Counter, "errors_total"@, Some(("type"@, error_type@)), 1)]
        } else {
            Seq::<MetricView>::empty()
        });
        out
    }
}

/// The milliseconds from clock reading `start` to clock reading `now`: zero
/// when the clock went back, and at most `u64::MAX`.
pub open spec fn elapsed_ms(start: i64, now: i64) -> u64 {
    if now < start {
        0
    } else if now - start > u64::MAX {
        u64::MAX
    } else {
        (now - start) as u64
    }
}

/// The milliseconds from clock reading `start` to clock reading `now`.
pub fn elapsed_between(start: i64, now: i64) -> (r: u64)
    ensures
        r == elapsed_ms(start, now),
{
    if now < start {
        0
    } else {
        let d = now as i128 - start as i128;
        if d > u64::MAX as i128 {
            u64::MAX
        } else {
            d as u64
        }
    }
}

/// Measures how long an operation takes, from the wall clock.
#[derive(Debug)]
pub struct Timer {
    start: i64,
    name: String,
    recorder: MetricsRecorder,
}

impl Timer {
    /// The operation's name.
    pub closed spec fn spec_name(&self) -> Seq<char> {
        self.name@
    }

    /// The reading the timer started from.
    pub closed spec fn spec_start(&self) -> i64 {
        self.start
    }

    /// Starts timing the operation `name` now.
    pub fn new(name: &str, recorder: MetricsRecorder) -> (r: Self)
        ensures
            r.spec_name() == name@,
    {
        Timer::started_at(name, recorder, now_millis())
    }

    /// A timer for the operation `name` started at clock reading `start`.
    pub fn started_at(name: &str, recorder: MetricsRecorder, start: i64) -> (r: Self)
        ensures
            r.spec_name() == name@,
            r.spec_start() == start,
    {
        Timer { start, name: String::from_str(name), recorder }
    }

    /// Stops timing now: the milliseconds since the start, and the sample to
    /// publish under the operation's name.
    pub fn stop(self) -> (r: (u64, MetricUpdate))
        ensures
            exists|now: i64| r.0 == elapsed_ms(self.spec_start(), now),
            r.1@ == metric(MetricKind::Histogram, "operation_duration_ms"@, Some(("operation"@, self.spec_name())), r.0),
    {
        let now = now_millis();
        self.stop_at(now)
    }

    /// Stops timing at clock reading `now`: the milliseconds since the start
    /// (zero if the clock went back), and the sample to publish under the
    /// operation's name.
    pub fn stop_at(self, now: i64) -> (r: (u64, MetricUpdate))
        ensures
            r.0 == elapsed_ms(self.spec_start(), now),
            r.1@ == metric(MetricKind::Histogram, "operation_duration_ms"@, Some(("operation"@, self.spec_name())), r.0),
    {
        let elapsed = elapsed_between(self.start, now);
        let sample = MetricUpdate {
            kind: MetricKind::Histogram,
            name: String::from_str("operation_duration_ms"),
            label: Some((String::from_str("operation"), self.name)),
            value: elapsed,
        };
        (elapsed, sample)
    }
}

} // verus!
