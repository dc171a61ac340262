//! One cycle of the metrics aggregator: reading a sample out of the answer
//! to a query, assembling the samples of a cycle, and the event that
//! publishes them. The value of a sample is carried through untouched, so
//! its type is left open.

use crate::interval::{interval_in_force, interval_of, interval_secs, InvalidInterval};
use crate::keys::{metrics_key, metrics_key_text};
use crate::message::{event_view, Message, MessageView};
use crate::string_map::StringMap;
use vstd::prelude::*;

verus! {

/// The address of the telemetry endpoint.
pub const TELEMETRY_TARGET: &'static str = "http://localhost:9090";

/// The label that holds the name of a metric.
pub const NAME_LABEL: &'static str = "__name__";

/// The text of [`NAME_LABEL`].
pub open spec fn name_label() -> Seq<char> {
    "__name__"@
}

/// One series of an instant vector: its labels and its sample.
pub struct Series<V> {
    pub labels: StringMap<String>,
    pub value: V,
}

/// The data of an answer: an instant vector, or data of another kind.
pub enum QueryData<V> {
    Vector(Vec<Series<V>>),
    Other,
}

/// How the query for one metric name ended.
pub enum QueryOutcome<V> {
    /// The endpoint answered.
    Answered(QueryData<V>),
    /// The query failed; the metric is left out of the cycle.
    Failed,
    /// The query was never brought to an end; the cycle is given up.
    Lost,
}

/// The sample that an answer holds: name and value of the first series of a
/// vector, if there is one and it is named.
pub open spec fn metric_of<V>(data: QueryData<V>) -> Option<(Seq<char>, V)> {
    match data {
        QueryData::Vector(series) => if series@.len() > 0 && series@[0].labels@.contains_key(
            name_label(),
        ) {
            Some((series@[0].labels@[name_label()]@, series@[0].value))
        } else {
            None
        },
        QueryData::Other => None,
    }
}

/// The samples of a cycle: those that the answers hold, taken in order, a
/// later sample replacing an earlier one of the same name.
pub open spec fn samples_of<V>(outcomes: Seq<QueryOutcome<V>>) -> Map<Seq<char>, V>
    decreases outcomes.len(),
{
    if outcomes.len() == 0 {
        Map::<Seq<char>, V>::empty()
    } else {
        let before = samples_of(outcomes.drop_last());
        match outcomes.last() {
            QueryOutcome::Answered(data) => match metric_of(data) {
                Some((name, value)) => before.insert(name, value),
                None => before,
            },
            _ => before,
        }
    }
}

/// Whether one of the queries was lost.
pub open spec fn any_lost<V>(outcomes: Seq<QueryOutcome<V>>) -> bool {
    exists|i: int| 0 <= i < outcomes.len() && #[trigger] outcomes[i] is Lost
}

/// A failed query adds nothing to a cycle and takes nothing from it: the
/// samples are those of the cycle without it.
pub proof fn lemma_failed_is_left_out<V>(outcomes: Seq<QueryOutcome<V>>, at: int)
    requires
        0 <= at < outcomes.len(),
        outcomes[at] is Failed,
    ensures
        samples_of(outcomes) == samples_of(outcomes.remove(at)),
    decreases outcomes.len(),
{
    let shorter = outcomes.remove(at);
    if at == outcomes.len() - 1 {
        assert(shorter =~= outcomes.drop_last());
    } else {
        lemma_failed_is_left_out(outcomes.drop_last(), at);
        assert(shorter.drop_last() =~= outcomes.drop_last().remove(at));
        assert(shorter.last() == outcomes.last());
    }
}

/// Reads the sample out of an answer: the name under the name label of the
/// first series of a vector, and its value. An answer of another kind, an
/// empty vector and a first series without name hold no sample.
pub fn get_metric<V>(result: QueryData<V>) -> (metric: Option<(String, V)>)
    ensures
        match metric {
            Some((name, value)) => metric_of(result) == Some((name@, value)),
            None => metric_of(result) is None,
        },
{
    match result {
        QueryData::Vector(mut series) => {
            if series.len() == 0 {
                return None;
            }
            let first: Series<V> = series.remove(0);
            let Series { labels, value } = first;
            match labels.get(NAME_LABEL) {
                Some(name) => Some((name.clone(), value)),
                None => None,
            }
        },
        QueryData::Other => None,
    }
}

/// The settings of the aggregator.
pub struct PrometheusClient {
    annot_name: String,
    interval_secs: u64,
}

impl PrometheusClient {
    /// The text of the key under which the samples are published.
    pub closed spec fn key_text(self) -> Seq<char> {
        self.annot_name@
    }

    /// The seconds between two cycles.
    pub closed spec fn interval(self) -> u64 {
        self.interval_secs
    }

    /// An aggregator that publishes under `<prefix>/triton_metrics`, at the
    /// configured interval or, if none is configured, at the default one. A
    /// configured interval that is no number of seconds is refused.
    pub fn new(annot_prefix: String, interval: Option<&str>) -> (client: Result<
        Self,
        InvalidInterval,
    >)
        ensures
            match client {
                Ok(client) => {
                    &&& client.key_text() == metrics_key_text(annot_prefix@)
                    &&& interval_in_force(
                        match interval {
                            Some(text) => Some(text@),
                            None => None,
                        },
                    ) == Some(client.interval())
                },
                Err(error) => interval matches Some(text) && interval_of(text@) is None
                    && error.text@ == text@,
            },
    {
        match interval_secs(interval) {
            Ok(interval_secs) => Ok(
                PrometheusClient { annot_name: metrics_key(annot_prefix.as_str()), interval_secs },
            ),
            Err(error) => Err(error),
        }
    }

    /// The key under which the samples are published.
    pub fn annot_name(&self) -> (key: &String)
        ensures
            key@ == self.key_text(),
    {
        &self.annot_name
    }

    /// The seconds between two cycles.
    pub fn interval_secs(&self) -> (secs: u64)
        ensures
            secs == self.interval(),
    {
        self.interval_secs
    }

    /// Assembles the samples of one cycle from the outcomes of its queries,
    /// in the order given. `None` stands for a cycle whose list of names
    /// could not be had. Such a cycle, and one with a lost query, yields
    /// nothing; any other yields its samples, failed queries left out.
    pub fn query_metrics<V>(outcomes: Option<Vec<QueryOutcome<V>>>) -> (metrics: Option<
        StringMap<V>,
    >)
        ensures
            match outcomes {
                None => metrics is None,
                Some(list) => if any_lost(list@) {
                    metrics is None
                } else {
                    metrics matches Some(samples) && samples@ == samples_of(list@)
                },
            },
    {
        let list: Vec<QueryOutcome<V>> = match outcomes {
            None => {
                return None;
            },
            Some(list) => list,
        };
        let ghost all = list@;
        let mut metrics: StringMap<V> = StringMap::new();
        for outcome in rest: list
            invariant
                outcomes matches Some(given) && given@ == all,
                rest.seq() == all,
                metrics@ == samples_of(all.take(rest.index() as int)),
                !any_lost(all.take(rest.index() as int)),
        {
            proof {
                let done = rest.index() as int;
                assert(all.take(done + 1).drop_last() =~= all.take(done));
                assert(all.take(done + 1).last() == outcome);
                assert(all[done] == outcome);
                if !(outcome is Lost) {
                    assert forall|i: int| 0 <= i < done + 1 implies !(#[trigger] all.take(
                        done + 1,
                    )[i] is Lost) by {
                        if i < done {
                            assert(all.take(done)[i] == all.take(done + 1)[i]);
                        }
                    }
                }
            }
            match outcome {
                QueryOutcome::Answered(result) => {
                    match get_metric(result) {
                        Some((name, value)) => {
                            metrics.insert(name, value);
                        },
                        None => {},
                    }
                },
                QueryOutcome::Failed => {},
                QueryOutcome::Lost => {
                    return None;
                },
            }
        }
        assert(all.take(all.len() as int) =~= all);
        Some(metrics)
    }

    /// The event of one cycle: the serialised samples under the key of the
    /// aggregator, or no event for a cycle that yielded nothing.
    pub fn run(&self, samples: Option<String>) -> (event: Option<Message>)
        ensures
            event_view(event) == match samples {
                Some(text) => Some(
                    MessageView::AnnotationUpdate(seq![(self.key_text(), text@)]),
                ),
                None => None,
            },
    {
        match samples {
            Some(text) => {
                let mut annots: Vec<(String, String)> = Vec::new();
                annots.push((self.annot_name.clone(), text));
                assert(annots.deep_view() =~= seq![(self.key_text(), text@)]);
                Some(Message::AnnotationUpdate(annots))
            },
            None => None,
        }
    }
}

} // verus!
