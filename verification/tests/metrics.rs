use triton_proxy::message::Message;
use triton_proxy::metrics::{
    get_metric, PrometheusClient, QueryData, QueryOutcome, Series, NAME_LABEL, TELEMETRY_TARGET,
};
use triton_proxy::string_map::StringMap;

fn labels(pairs: &[(&str, &str)]) -> StringMap<String> {
    StringMap::from_pairs(pairs.iter().map(|(k, v)| (k.to_string(), v.to_string())).collect())
}

fn series(name: &str, value: f64) -> Series<f64> {
    Series { labels: labels(&[("__name__", name), ("instance", "localhost:8002")]), value }
}

fn answered(name: &str, value: f64) -> QueryOutcome<f64> {
    QueryOutcome::Answered(QueryData::Vector(vec![series(name, value)]))
}

fn sorted(map: StringMap<f64>) -> Vec<(String, f64)> {
    let mut pairs = map.into_pairs();
    pairs.sort_by(|a, b| a.0.cmp(&b.0));
    pairs
}

#[test]
fn constants_of_the_aggregator() {
    assert_eq!(TELEMETRY_TARGET, "http://localhost:9090");
    assert_eq!(NAME_LABEL, "__name__");
}

#[test]
fn metric_is_name_and_value_of_the_first_series() {
    let data = QueryData::Vector(vec![series("m1", 1.5), series("m2", 2.5)]);
    assert_eq!(get_metric(data), Some(("m1".to_string(), 1.5)));
}

#[test]
fn data_of_another_kind_holds_no_metric() {
    assert_eq!(get_metric(QueryData::<f64>::Other), None);
}

#[test]
fn empty_vector_holds_no_metric() {
    assert_eq!(get_metric(QueryData::<f64>::Vector(Vec::new())), None);
}

#[test]
fn series_without_name_holds_no_metric() {
    let unnamed = Series { labels: labels(&[("instance", "x")]), value: 1.0 };
    assert_eq!(get_metric(QueryData::Vector(vec![unnamed, series("m2", 2.0)])), None);
}

#[test]
fn failed_query_is_left_out_of_the_cycle() {
    let outcomes = vec![answered("m1", 1.0), QueryOutcome::Failed, answered("m3", 3.0)];
    let metrics = PrometheusClient::query_metrics(Some(outcomes)).unwrap();
    assert_eq!(sorted(metrics), vec![("m1".to_string(), 1.0), ("m3".to_string(), 3.0)]);
}

#[test]
fn cycle_of_answers_holds_every_metric() {
    let outcomes = vec![answered("m1", 1.0), answered("m2", 2.0), answered("m3", 3.0)];
    let metrics = PrometheusClient::query_metrics(Some(outcomes)).unwrap();
    assert_eq!(
        sorted(metrics),
        vec![("m1".to_string(), 1.0), ("m2".to_string(), 2.0), ("m3".to_string(), 3.0)]
    );
}

#[test]
fn answers_without_metric_are_left_out() {
    let outcomes = vec![
        QueryOutcome::Answered(QueryData::Other),
        answered("m1", 1.0),
        QueryOutcome::Answered(QueryData::Vector(Vec::new())),
    ];
    let metrics = PrometheusClient::query_metrics(Some(outcomes)).unwrap();
    assert_eq!(sorted(metrics), vec![("m1".to_string(), 1.0)]);
}

#[test]
fn later_sample_of_a_name_replaces_the_earlier() {
    let outcomes = vec![answered("m1", 1.0), answered("m2", 2.0), answered("m1", 9.0)];
    let metrics = PrometheusClient::query_metrics(Some(outcomes)).unwrap();
    assert_eq!(sorted(metrics), vec![("m1".to_string(), 9.0), ("m2".to_string(), 2.0)]);
}

#[test]
fn cycle_without_queries_is_empty() {
    let metrics = PrometheusClient::query_metrics(Some(Vec::<QueryOutcome<f64>>::new())).unwrap();
    assert_eq!(metrics.len(), 0);
}

#[test]
fn cycle_of_failures_only_is_empty() {
    let outcomes: Vec<QueryOutcome<f64>> = vec![QueryOutcome::Failed, QueryOutcome::Failed];
    let metrics = PrometheusClient::query_metrics(Some(outcomes)).unwrap();
    assert_eq!(metrics.len(), 0);
}

#[test]
fn cycle_without_names_yields_nothing() {
    assert!(PrometheusClient::query_metrics::<f64>(None).is_none());
}

#[test]
fn lost_query_gives_the_cycle_up() {
    let outcomes = vec![answered("m1", 1.0), QueryOutcome::Lost, answered("m3", 3.0)];
    assert!(PrometheusClient::query_metrics(Some(outcomes)).is_none());
    let outcomes = vec![answered("m1", 1.0), answered("m3", 3.0), QueryOutcome::Lost];
    assert!(PrometheusClient::query_metrics(Some(outcomes)).is_none());
}

#[test]
fn interval_defaults_to_five_seconds() {
    let client = PrometheusClient::new("p".to_string(), None).unwrap();
    assert_eq!(client.interval_secs(), 5);
}

#[test]
fn configured_interval_is_taken() {
    let client = PrometheusClient::new("p".to_string(), Some("30")).unwrap();
    assert_eq!(client.interval_secs(), 30);
    let client = PrometheusClient::new("p".to_string(), Some("0")).unwrap();
    assert_eq!(client.interval_secs(), 0);
}

#[test]
fn invalid_interval_is_refused() {
    match PrometheusClient::new("p".to_string(), Some("soon")) {
        Err(error) => assert_eq!(error.text, "soon"),
        Ok(_) => panic!("accepted"),
    }
    assert!(PrometheusClient::new("p".to_string(), Some("")).is_err());
}

#[test]
fn samples_are_published_under_the_metrics_key() {
    let client = PrometheusClient::new("tritonservices.prueba.ucm.es".to_string(), None).unwrap();
    assert_eq!(client.annot_name(), "tritonservices.prueba.ucm.es/triton_metrics");
    match client.run(Some("{\n  \"m1\": 1.0\n}".to_string())) {
        Some(Message::AnnotationUpdate(pairs)) => assert_eq!(
            pairs,
            vec![(
                "tritonservices.prueba.ucm.es/triton_metrics".to_string(),
                "{\n  \"m1\": 1.0\n}".to_string()
            )]
        ),
        other => panic!("no annotation update: {:?}", other),
    }
}

#[test]
fn skipped_cycle_emits_nothing() {
    let client = PrometheusClient::new("p".to_string(), None).unwrap();
    assert!(client.run(None).is_none());
}
