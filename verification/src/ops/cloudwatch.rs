//! Operations on the metrics of CloudWatch.
use vstd::prelude::*;
use vstd::string::*;

use crate::json::float_number;
use crate::json::items_view;
use crate::json::lemma_items_push;
use crate::json::number_of_float;
use crate::json::number_text;
use crate::json::put;
use crate::json::text_or_null;
use crate::json::write_number;
use crate::json::Json;
use crate::json::JsonView;
use crate::options::borrowed;
use crate::options::needed;
use crate::options::opt_view;
use crate::options::owned;
use crate::options::require;
use crate::options::seen;
use crate::wire::copy_number;

verus! {

/// A measurement as contracts speak of it. The value is the text that it is written as.
pub ghost struct MetricView {
    pub namespace: Seq<char>,
    pub name: Seq<char>,
    pub value: Seq<char>,
    pub unit: Option<Seq<char>>,
}

/// A measurement to record.
#[derive(Debug)]
pub struct Metric {
    pub namespace: String,
    pub name: String,
    pub value: serde_json::Number,
    pub unit: Option<String>,
}

impl View for Metric {
    type V = MetricView;

    open spec fn view(&self) -> MetricView {
        MetricView {
            namespace: self.namespace@,
            name: self.name@,
            value: number_text(self.value),
            unit: opt_view(self.unit),
        }
    }
}

/// What `cloudwatch_put_metric` asks for: a number under a namespace and a name.
pub open spec fn metric_in(opts: JsonView) -> Result<MetricView, Seq<char>> {
    match needed(opts, "namespace"@, "missing namespace"@) {
        Err(why) => Err(why),
        Ok(namespace) => match needed(opts, "metric_name"@, "missing metric_name"@) {
            Err(why) => Err(why),
            Ok(name) => match opts.at("value"@) {
                JsonView::Number(value) => Ok(
                    MetricView { namespace, name, value, unit: opts.text_field("unit"@) },
                ),
                _ => Err("missing value"@),
            },
        },
    }
}

/// What `cloudwatch_put_metric` asks for.
pub fn op_cloudwatch_put_metric_request(opts: &Json) -> (metric: Result<Metric, String>)
    ensures
        seen(metric) == metric_in(opts@),
{
    let namespace = match require(opts, "namespace", "missing namespace") {
        Ok(namespace) => namespace.to_owned(),
        Err(why) => return Err(why),
    };
    let name = match require(opts, "metric_name", "missing metric_name") {
        Ok(name) => name.to_owned(),
        Err(why) => return Err(why),
    };
    let value = match opts.get("value") {
        Some(Json::Number(value)) => copy_number(value),
        _ => return Err("missing value".to_owned()),
    };
    Ok(Metric { namespace, name, value, unit: owned(opts.text_at("unit")) })
}

/// A number as a floating-point number, as it is recorded.
pub open spec fn recorded(value: Seq<char>) -> JsonView {
    match float_number(value) {
        Some(Some(number)) => JsonView::Number(number),
        _ => JsonView::Null,
    }
}

/// Answers that a measurement was recorded.
pub fn op_cloudwatch_put_metric_reply(metric: &Metric) -> (json: Json)
    ensures
        json@ == JsonView::Object(
            map![
                "namespace"@ => JsonView::Text(metric.namespace@),
                "metric_name"@ => JsonView::Text(metric.name@),
                "value"@ => recorded(number_text(metric.value)),
                "ok"@ => JsonView::Bool(true),
            ],
        ),
{
    let value = match number_of_float(write_number(&metric.value).as_str()) {
        Some(Some(number)) => Json::Number(number),
        _ => Json::Null,
    };
    let mut out: Vec<(String, Json)> = Vec::new();
    put(&mut out, "namespace", Json::text(metric.namespace.as_str()));
    put(&mut out, "metric_name", Json::text(metric.name.as_str()));
    put(&mut out, "value", value);
    put(&mut out, "ok", Json::Bool(true));
    Json::Object(out)
}

/// Which metrics to list.
#[derive(Debug)]
pub struct MetricFilter {
    pub namespace: Option<String>,
    pub name: Option<String>,
}

/// What `cloudwatch_list_metrics` asks for: the metrics of a namespace, of a name, or all.
pub fn op_cloudwatch_list_metrics_request(opts: &Json) -> (filter: MetricFilter)
    ensures
        opt_view(filter.namespace) == opts@.text_field("namespace"@),
        opt_view(filter.name) == opts@.text_field("metric_name"@),
{
    MetricFilter {
        namespace: owned(opts.text_at("namespace")),
        name: owned(opts.text_at("metric_name")),
    }
}

/// A dimension of a metric.
#[derive(Debug)]
pub struct Dimension {
    pub name: Option<String>,
    pub value: Option<String>,
}

/// A metric in a list.
#[derive(Debug)]
pub struct MetricEntry {
    pub namespace: Option<String>,
    pub name: Option<String>,
    pub dimensions: Vec<Dimension>,
}

/// What is answered of a dimension.
pub open spec fn dimension_json(dimension: Dimension) -> JsonView {
    JsonView::Object(
        map![
            "name"@ => text_or_null(opt_view(dimension.name)),
            "value"@ => text_or_null(opt_view(dimension.value)),
        ],
    )
}

/// What is answered of a metric in a list.
pub open spec fn metric_json(metric: MetricEntry) -> JsonView {
    JsonView::Object(
        map![
            "namespace"@ => text_or_null(opt_view(metric.namespace)),
            "metric_name"@ => text_or_null(opt_view(metric.name)),
            "dimensions"@ => JsonView::Array(
                metric.dimensions@.map_values(|d: Dimension| dimension_json(d)),
            ),
        ],
    )
}

/// Shows dimensions.
fn show_dimensions(dimensions: &Vec<Dimension>) -> (json: Json)
    ensures
        json@ == JsonView::Array(dimensions@.map_values(|d: Dimension| dimension_json(d))),
{
    let mut items: Vec<Json> = Vec::new();
    let ghost whole = dimensions@.map_values(|d: Dimension| dimension_json(d));
    let mut i: usize = 0;
    while i < dimensions.len()
        invariant
            i <= dimensions@.len(),
            whole == dimensions@.map_values(|d: Dimension| dimension_json(d)),
            items_view(items@) == whole.take(i as int),
        decreases dimensions@.len() - i,
    {
        let mut entry: Vec<(String, Json)> = Vec::new();
        put(&mut entry, "name", Json::text_or_null(borrowed(&dimensions[i].name)));
        put(&mut entry, "value", Json::text_or_null(borrowed(&dimensions[i].value)));
        let item = Json::Object(entry);
        proof {
            lemma_items_push(items@, item);
            assert(whole.take(i + 1) =~= whole.take(i as int).push(whole[i as int]));
        }
        items.push(item);
        i = i + 1;
    }
    assert(whole.take(i as int) =~= whole);
    Json::Array(items)
}

/// Answers with metrics.
pub fn op_cloudwatch_list_metrics_reply(metrics: &Vec<MetricEntry>) -> (json: Json)
    ensures
        json@ == JsonView::Object(
            map![
                "metrics"@ => JsonView::Array(
                    metrics@.map_values(|m: MetricEntry| metric_json(m)),
                ),
            ],
        ),
{
    let mut items: Vec<Json> = Vec::new();
    let ghost whole = metrics@.map_values(|m: MetricEntry| metric_json(m));
    let mut i: usize = 0;
    while i < metrics.len()
        invariant
            i <= metrics@.len(),
            whole == metrics@.map_values(|m: MetricEntry| metric_json(m)),
            items_view(items@) == whole.take(i as int),
        decreases metrics@.len() - i,
    {
        let mut entry: Vec<(String, Json)> = Vec::new();
        put(&mut entry, "namespace", Json::text_or_null(borrowed(&metrics[i].namespace)));
        put(&mut entry, "metric_name", Json::text_or_null(borrowed(&metrics[i].name)));
        put(&mut entry, "dimensions", show_dimensions(&metrics[i].dimensions));
        let item = Json::Object(entry);
        proof {
            lemma_items_push(items@, item);
            assert(whole.take(i + 1) =~= whole.take(i as int).push(whole[i as int]));
        }
        items.push(item);
        i = i + 1;
    }
    assert(whole.take(i as int) =~= whole);
    let mut out: Vec<(String, Json)> = Vec::new();
    put(&mut out, "metrics", Json::Array(items));
    Json::Object(out)
}

}
