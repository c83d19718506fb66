//! Aggregates over stored samples: minimum, maximum, mean and 95th
//! percentile of each kind of reading.
//!
//! Nothing here is stored: the aggregates are computed from the raw samples
//! of a time window whenever they are asked for.

use vstd::prelude::*;
use vstd::string::StringExecFns;
use vstd::relations::{sorted_by, total_ordering};
use vstd::seq_lib::{lemma_sorted_unique, to_multiset_build, to_multiset_insert};
use crate::alerts::{metric_value, reading_of};
use crate::models::{text_is, Metric, Stats};

verus! {

/// Whether `s` runs from its least element to its greatest.
pub open spec fn ascending(s: Seq<u64>) -> bool {
    forall|i: int, j: int| 0 <= i < j < s.len() ==> s[i] <= s[j]
}

/// Whether `sorted` holds exactly the elements of `values`, each as often,
/// in ascending order.
pub open spec fn is_sorted_form(sorted: Seq<u64>, values: Seq<u64>) -> bool {
    ascending(sorted) && sorted.to_multiset() == values.to_multiset()
}

/// The elements of `values` in ascending order.
pub open spec fn sorted_form(values: Seq<u64>) -> Seq<u64> {
    choose|sorted: Seq<u64>| is_sorted_form(sorted, values)
}

/// The sum of `values`.
pub open spec fn total(values: Seq<u64>) -> nat
    decreases values.len(),
{
    if values.len() == 0 {
        0
    } else {
        total(values.drop_last()) + values.last() as nat
    }
}

/// The least of `values`; zero if there is none.
pub open spec fn minimum(values: Seq<u64>) -> u64
    decreases values.len(),
{
    if values.len() == 0 {
        0
    } else if values.len() == 1 {
        values[0]
    } else {
        let rest = minimum(values.drop_last());
        if values.last() < rest {
            values.last()
        } else {
            rest
        }
    }
}

/// The greatest of `values`; zero if there is none.
pub open spec fn maximum(values: Seq<u64>) -> u64
    decreases values.len(),
{
    if values.len() == 0 {
        0
    } else {
        let rest = maximum(values.drop_last());
        if values.last() > rest {
            values.last()
        } else {
            rest
        }
    }
}

/// The mean of `values`, rounded down.
pub open spec fn mean(values: Seq<u64>) -> nat {
    if values.len() == 0 {
        0
    } else {
        total(values) / values.len()
    }
}

/// Where the 95th percentile of `count` ascending values stands: at
/// `count * 95 / 100` rounded down, but never past the last one.
pub open spec fn percentile_index(count: nat) -> nat {
    if count == 0 {
        0
    } else if count * 95 / 100 < count - 1 {
        count * 95 / 100
    } else {
        (count - 1) as nat
    }
}

/// The 95th percentile of `values`, which must not be empty.
pub open spec fn percentile_95(values: Seq<u64>) -> u64 {
    sorted_form(values)[percentile_index(values.len()) as int]
}

/// What an aggregate says, with its strings as character sequences.
pub struct StatsView {
    pub client_id: Seq<char>,
    pub metric_type: Seq<char>,
    pub min: u64,
    pub max: u64,
    pub avg: u64,
    pub p95: u64,
    pub count: u64,
}

impl View for Stats {
    type V = StatsView;

    open spec fn view(&self) -> StatsView {
        StatsView {
            client_id: self.client_id@,
            metric_type: self.metric_type@,
            min: self.min,
            max: self.max,
            avg: self.avg,
            p95: self.p95,
            count: self.count,
        }
    }
}

/// The aggregates of the readings `values` of kind `metric_type`.
pub open spec fn summary(client_id: Seq<char>, metric_type: Seq<char>, values: Seq<u64>) -> StatsView {
    StatsView {
        client_id,
        metric_type,
        min: minimum(values),
        max: maximum(values),
        avg: mean(values) as u64,
        p95: percentile_95(values),
        count: values.len() as u64,
    }
}

/// The order that the sorted form goes by.
pub open spec fn at_most() -> spec_fn(u64, u64) -> bool {
    |a: u64, b: u64| a <= b
}

/// A sequence has only one sorted form.
pub proof fn lemma_sorted_form_unique(sorted: Seq<u64>, values: Seq<u64>)
    requires
        is_sorted_form(sorted, values),
    ensures
        sorted_form(values) == sorted,
        sorted.len() == values.len(),
{
    let other = sorted_form(values);
    assert(is_sorted_form(other, values));
    assert(sorted_by(sorted, at_most()));
    assert(sorted_by(other, at_most()));
    assert(total_ordering(at_most()));
    lemma_sorted_unique(sorted, other, at_most());
    vstd::seq_lib::to_multiset_len(sorted);
    vstd::seq_lib::to_multiset_len(values);
}

/// Every sequence has a sorted form.
pub proof fn lemma_sorted_form_exists(values: Seq<u64>)
    ensures
        is_sorted_form(sorted_form(values), values),
        sorted_form(values).len() == values.len(),
{
    let sorted = values.sort_by(at_most());
    assert(total_ordering(at_most()));
    values.lemma_sort_by_ensures(at_most());
    assert forall|i: int, j: int| 0 <= i < j < sorted.len() implies sorted[i] <= sorted[j] by {
        assert(at_most()(sorted[i], sorted[j]));
    }
    assert(sorted.to_multiset() == values.to_multiset());
    lemma_sorted_form_unique(sorted, values);
}

/// The 95th percentile is one of the values, and lies between the least
/// and the greatest of them.
pub proof fn lemma_percentile_is_a_value(values: Seq<u64>)
    requires
        values.len() > 0,
    ensures
        values.contains(percentile_95(values)),
        minimum(values) <= percentile_95(values) <= maximum(values),
{
    lemma_sorted_form_exists(values);
    let sorted = sorted_form(values);
    let at = percentile_index(values.len()) as int;
    assert(0 <= at < sorted.len());
    assert(sorted.contains(sorted[at]));
    vstd::seq_lib::to_multiset_contains(sorted, sorted[at]);
    vstd::seq_lib::to_multiset_contains(values, sorted[at]);
    lemma_minimum_is_least(values);
    lemma_maximum_is_greatest(values);
    let k = choose|k: int| 0 <= k < values.len() && values[k] == sorted[at];
    assert(minimum(values) <= values[k]);
    assert(values[k] <= maximum(values));
}

/// With fewer than twenty values the 95th percentile is the greatest of
/// them.
pub proof fn lemma_percentile_of_few(values: Seq<u64>)
    requires
        0 < values.len() < 20,
    ensures
        percentile_95(values) == maximum(values),
{
    lemma_sorted_form_exists(values);
    let sorted = sorted_form(values);
    let last = sorted.len() - 1;
    assert(percentile_index(values.len()) == last);
    lemma_maximum_is_greatest(values);
    let k = choose|k: int| 0 <= k < values.len() && values[k] == maximum(values);
    vstd::seq_lib::to_multiset_contains(values, values[k]);
    vstd::seq_lib::to_multiset_contains(sorted, values[k]);
    let j = choose|j: int| 0 <= j < sorted.len() && sorted[j] == maximum(values);
    assert(sorted[j] <= sorted[last]);
    assert(sorted.contains(sorted[last]));
    vstd::seq_lib::to_multiset_contains(sorted, sorted[last]);
    vstd::seq_lib::to_multiset_contains(values, sorted[last]);
    let m = choose|m: int| 0 <= m < values.len() && values[m] == sorted[last];
    assert(values[m] <= maximum(values));
}

/// The mean lies between the least and the greatest of the values.
pub proof fn lemma_mean_between(values: Seq<u64>)
    requires
        values.len() > 0,
    ensures
        minimum(values) <= mean(values) <= maximum(values),
{
    lemma_minimum_is_least(values);
    lemma_maximum_is_greatest(values);
    lemma_total_between(values, minimum(values), maximum(values));
    let n = values.len() as int;
    let t = total(values) as int;
    let low = minimum(values) as int;
    let high = maximum(values) as int;
    assert(low <= t / n <= high) by (nonlinear_arith)
        requires
            n > 0,
            n * low <= t <= n * high,
    ;
}

/// The sum of values that all lie between `low` and `high` lies between
/// as many times `low` and as many times `high`.
proof fn lemma_total_between(values: Seq<u64>, low: u64, high: u64)
    requires
        forall|i: int| 0 <= i < values.len() ==> low <= #[trigger] values[i] <= high,
    ensures
        values.len() * low <= total(values) <= values.len() * high,
    decreases values.len(),
{
    if values.len() > 0 {
        let front = values.drop_last();
        assert forall|i: int| 0 <= i < front.len() implies low <= #[trigger] front[i] <= high by {
            assert(front[i] == values[i]);
        }
        lemma_total_between(front, low, high);
        assert(low <= values[values.len() - 1] <= high);
        let n = values.len() as int;
        assert((n - 1) * low + low == n * low) by (nonlinear_arith);
        assert((n - 1) * high + high == n * high) by (nonlinear_arith);
    } else {
        assert(values.len() * low == 0) by (nonlinear_arith)
            requires
                values.len() == 0,
        ;
        assert(values.len() * high == 0) by (nonlinear_arith)
            requires
                values.len() == 0,
        ;
    }
}

/// The minimum is one of the values, and none is less.
pub proof fn lemma_minimum_is_least(values: Seq<u64>)
    requires
        values.len() > 0,
    ensures
        values.contains(minimum(values)),
        forall|i: int| 0 <= i < values.len() ==> minimum(values) <= #[trigger] values[i],
    decreases values.len(),
{
    if values.len() > 1 {
        let front = values.drop_last();
        lemma_minimum_is_least(front);
        let k = choose|k: int| 0 <= k < front.len() && front[k] == minimum(front);
        assert(values[k] == front[k]);
        assert(values[values.len() - 1] == values.last());
        assert forall|i: int| 0 <= i < values.len() implies minimum(values) <= #[trigger] values[i] by {
            if i < front.len() {
                assert(front[i] == values[i]);
            }
        }
    } else {
        assert(values[0] == minimum(values));
    }
}

/// The maximum is one of the values, and none is greater.
pub proof fn lemma_maximum_is_greatest(values: Seq<u64>)
    requires
        values.len() > 0,
    ensures
        values.contains(maximum(values)),
        forall|i: int| 0 <= i < values.len() ==> #[trigger] values[i] <= maximum(values),
    decreases values.len(),
{
    let front = values.drop_last();
    if values.len() > 1 {
        lemma_maximum_is_greatest(front);
        let k = choose|k: int| 0 <= k < front.len() && front[k] == maximum(front);
        assert(values[k] == front[k]);
        assert(values[values.len() - 1] == values.last());
        assert forall|i: int| 0 <= i < values.len() implies #[trigger] values[i] <= maximum(values) by {
            if i < front.len() {
                assert(front[i] == values[i]);
            }
        }
    } else {
        assert(front.len() == 0);
        assert(maximum(front) == 0);
        assert(values[0] == maximum(values));
    }
}

/// The sum of `count` readings is at most `count` times the greatest
/// reading there can be.
proof fn lemma_total_bounded(values: Seq<u64>)
    ensures
        total(values) <= values.len() * u64::MAX,
    decreases values.len(),
{
    if values.len() > 0 {
        lemma_total_bounded(values.drop_last());
        assert(total(values) <= (values.len() - 1) * u64::MAX + u64::MAX);
        assert((values.len() - 1) * u64::MAX + u64::MAX == values.len() * u64::MAX) by (nonlinear_arith);
    }
}

/// The mean of readings is itself a reading.
pub proof fn lemma_mean_fits(values: Seq<u64>)
    ensures
        mean(values) <= u64::MAX,
{
    if values.len() > 0 {
        lemma_total_bounded(values);
        let n = values.len() as int;
        let t = total(values) as int;
        assert(t / n <= u64::MAX) by (nonlinear_arith)
            requires
                n > 0,
                0 <= t <= n * u64::MAX,
        ;
    }
}

/// The readings in ascending order.
pub fn sorted_copy(values: &Vec<u64>) -> (sorted: Vec<u64>)
    ensures
        is_sorted_form(sorted@, values@),
        sorted@ == sorted_form(values@),
        sorted@.len() == values@.len(),
{
    let mut sorted: Vec<u64> = Vec::new();
    let mut i: usize = 0;
    proof {
        assert(values@.take(0) =~= Seq::<u64>::empty());
    }
    while i < values.len()
        invariant
            i <= values@.len(),
            ascending(sorted@),
            sorted@.len() == i,
            sorted@.to_multiset() == values@.take(i as int).to_multiset(),
        decreases values@.len() - i,
    {
        let value: u64 = values[i];
        let mut at: usize = 0;
        while at < sorted.len() && sorted[at] <= value
            invariant
                at <= sorted@.len(),
                forall|k: int| 0 <= k < at ==> sorted@[k] <= value,
            decreases sorted@.len() - at,
        {
            at += 1;
        }
        let ghost before = sorted@;
        sorted.insert(at, value);
        proof {
            to_multiset_insert(before, at as int, value);
            assert(values@.take(i + 1) =~= values@.take(i as int).push(value));
            to_multiset_build(values@.take(i as int), value);
            assert forall|a: int, b: int| 0 <= a < b < sorted@.len() implies sorted@[a]
                <= sorted@[b] by {
                if b < at {
                    assert(sorted@[a] == before[a] && sorted@[b] == before[b]);
                } else if b == at {
                    assert(sorted@[a] == before[a]);
                } else if a < at {
                    assert(sorted@[a] == before[a] && sorted@[b] == before[b - 1]);
                    assert(before[at as int] > value);
                } else if a == at {
                    assert(sorted@[b] == before[b - 1]);
                    assert(before[at as int] > value);
                } else {
                    assert(sorted@[a] == before[a - 1] && sorted@[b] == before[b - 1]);
                }
            }
        }
        i += 1;
    }
    proof {
        assert(values@.take(values@.len() as int) =~= values@);
        lemma_sorted_form_unique(sorted@, values@);
    }
    sorted
}

/// The aggregates of `values`, the readings of kind `metric_type` that
/// `client_id` reported. There must be at least one reading.
pub fn calculate_stats(client_id: &str, metric_type: &str, values: &Vec<u64>) -> (stats: Stats)
    requires
        values@.len() > 0,
    ensures
        stats@ == summary(client_id@, metric_type@, values@),
{
    let count: usize = values.len();
    let mut min: u64 = values[0];
    let mut max: u64 = 0;
    let mut sum: u128 = 0;
    let mut i: usize = 0;
    proof {
        assert(values@.take(0) =~= Seq::<u64>::empty());
    }
    while i < count
        invariant
            i <= count,
            count == values@.len(),
            count > 0,
            min == if i == 0 {
                values@[0]
            } else {
                minimum(values@.take(i as int))
            },
            max == maximum(values@.take(i as int)),
            sum == total(values@.take(i as int)),
            sum <= i * u64::MAX,
        decreases count - i,
    {
        let value: u64 = values[i];
        proof {
            let longer = values@.take(i + 1);
            assert(longer.drop_last() =~= values@.take(i as int));
            assert(longer.last() == value);
            assert(i * u64::MAX + u64::MAX == (i + 1) * u64::MAX) by (nonlinear_arith);
            assert((i + 1) * u64::MAX <= usize::MAX * u64::MAX) by (nonlinear_arith)
                requires
                    i + 1 <= usize::MAX,
            ;
            assert(usize::MAX * u64::MAX <= u64::MAX * u64::MAX) by (nonlinear_arith)
                requires
                    usize::MAX <= u64::MAX,
            ;
            assert(u64::MAX * u64::MAX < u128::MAX) by (nonlinear_arith);
        }
        if value < min {
            min = value;
        }
        if value > max {
            max = value;
        }
        sum = sum + value as u128;
        i += 1;
    }
    proof {
        assert(values@.take(count as int) =~= values@);
        lemma_mean_fits(values@);
    }
    let avg: u64 = (sum / (count as u128)) as u64;
    let hundreds: usize = count / 100;
    let rest: usize = count % 100;
    let at: usize = hundreds * 95 + rest * 95 / 100;
    proof {
        assert(at == count * 95 / 100) by (nonlinear_arith)
            requires
                count == hundreds * 100 + rest,
                0 <= rest < 100,
                at == hundreds * 95 + rest * 95 / 100,
        ;
    }
    let at: usize = if at < count - 1 {
        at
    } else {
        count - 1
    };
    let sorted = sorted_copy(values);
    let p95: u64 = sorted[at];
    Stats {
        client_id: String::from_str(client_id),
        metric_type: String::from_str(metric_type),
        min,
        max,
        avg,
        p95,
        count: count as u64,
    }
}

/// The reading of kind `name` that `metric` holds, if it holds one: one of
/// the readings that alert rules look at, or the scanned directory size.
pub open spec fn field_of(name: Seq<char>, metric: Metric) -> Option<u64> {
    if name == "docker"@ {
        metric.docker_sz
    } else {
        reading_of(name, metric)
    }
}

/// The readings of kind `name` that `metrics` hold, in their order.
pub open spec fn series(metrics: Seq<Metric>, name: Seq<char>) -> Seq<u64>
    decreases metrics.len(),
{
    if metrics.len() == 0 {
        Seq::<u64>::empty()
    } else {
        let before = series(metrics.drop_last(), name);
        match field_of(name, metrics.last()) {
            Some(value) => before.push(value),
            None => before,
        }
    }
}

/// The kinds of reading that are aggregated, in the order of the report.
pub open spec fn series_names() -> Seq<Seq<char>> {
    seq!["cpu"@, "ram"@, "disk"@, "inode"@, "gpu"@, "docker"@]
}

/// The aggregates of `metrics` for each kind in `names` that has a reading.
pub open spec fn stats_of(client_id: Seq<char>, names: Seq<Seq<char>>, metrics: Seq<Metric>) -> Seq<
    StatsView,
>
    decreases names.len(),
{
    if names.len() == 0 {
        Seq::<StatsView>::empty()
    } else {
        let before = stats_of(client_id, names.drop_last(), metrics);
        let values = series(metrics, names.last());
        if values.len() > 0 {
            before.push(summary(client_id, names.last(), values))
        } else {
            before
        }
    }
}

/// The views of `stats`, in order.
pub open spec fn stats_views(stats: Seq<Stats>) -> Seq<StatsView> {
    Seq::new(stats.len(), |i: int| stats[i]@)
}

/// The views of `names`, in order.
pub open spec fn name_views(names: Seq<String>) -> Seq<Seq<char>> {
    Seq::new(names.len(), |i: int| names[i]@)
}

/// Reads off `metric` its reading of kind `name`.
pub fn field_value(name: &String, metric: &Metric) -> (value: Option<u64>)
    ensures
        value == field_of(name@, *metric),
{
    if text_is(name, "docker") {
        metric.docker_sz
    } else {
        metric_value(name, metric)
    }
}

/// The readings of kind `name` among `metrics`, in their order.
pub fn series_values(metrics: &Vec<Metric>, name: &String) -> (values: Vec<u64>)
    ensures
        values@ == series(metrics@, name@),
{
    let mut values: Vec<u64> = Vec::new();
    let mut i: usize = 0;
    proof {
        assert(metrics@.take(0) =~= Seq::<Metric>::empty());
    }
    while i < metrics.len()
        invariant
            i <= metrics@.len(),
            values@ == series(metrics@.take(i as int), name@),
        decreases metrics@.len() - i,
    {
        proof {
            assert(metrics@.take(i + 1).drop_last() =~= metrics@.take(i as int));
            assert(metrics@.take(i + 1).last() == metrics@[i as int]);
        }
        match field_value(name, &metrics[i]) {
            Some(value) => {
                values.push(value);
            },
            None => {},
        }
        i += 1;
    }
    proof {
        assert(metrics@.take(metrics@.len() as int) =~= metrics@);
    }
    values
}

/// The kinds of reading that are aggregated.
fn all_series() -> (names: Vec<String>)
    ensures
        name_views(names@) == series_names(),
{
    let mut names: Vec<String> = Vec::new();
    names.push(String::from_str("cpu"));
    names.push(String::from_str("ram"));
    names.push(String::from_str("disk"));
    names.push(String::from_str("inode"));
    names.push(String::from_str("gpu"));
    names.push(String::from_str("docker"));
    proof {
        assert(name_views(names@) =~= series_names());
    }
    names
}

/// The aggregates of the samples `metrics` of the client `client_id`: one
/// for each kind of reading that at least one sample holds, in the order
/// cpu, ram, disk, inode, gpu, docker.
pub fn get_stats(client_id: &str, metrics: &Vec<Metric>) -> (stats: Vec<Stats>)
    ensures
        stats_views(stats@) == stats_of(client_id@, series_names(), metrics@),
{
    let names = all_series();
    let ghost views = name_views(names@);
    let mut stats: Vec<Stats> = Vec::new();
    let mut i: usize = 0;
    proof {
        assert(views.take(0) =~= Seq::<Seq<char>>::empty());
        assert(stats_views(stats@) =~= Seq::<StatsView>::empty());
    }
    while i < names.len()
        invariant
            i <= names@.len(),
            views == name_views(names@),
            stats_views(stats@) == stats_of(client_id@, views.take(i as int), metrics@),
        decreases names@.len() - i,
    {
        let ghost seen = stats@;
        proof {
            assert(views.take(i + 1).drop_last() =~= views.take(i as int));
            assert(views.take(i + 1).last() == names@[i as int]@);
        }
        let values = series_values(metrics, &names[i]);
        if values.len() > 0 {
            let entry = calculate_stats(client_id, names[i].as_str(), &values);
            stats.push(entry);
            proof {
                assert(stats_views(stats@) =~= stats_views(seen).push(entry@));
            }
        }
        i += 1;
    }
    proof {
        assert(views.take(names@.len() as int) =~= views);
    }
    stats
}

/// Without samples there is nothing to aggregate.
pub proof fn lemma_no_samples_no_stats(client_id: Seq<char>, names: Seq<Seq<char>>)
    ensures
        stats_of(client_id, names, Seq::<Metric>::empty()) == Seq::<StatsView>::empty(),
    decreases names.len(),
{
    if names.len() > 0 {
        lemma_no_samples_no_stats(client_id, names.drop_last());
    }
}

} // verus!
