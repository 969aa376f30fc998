//! Telemetry readings, gathered by node for display.

use vstd::prelude::*;
use crate::models::{Real32, TelemetryDisplay};
use crate::text::text_eq;
#[allow(unused_imports)]
use crate::models::{chart_of, level_char};

verus! {

/// A stored telemetry reading with the node and the time that it came from.
#[derive(Debug)]
pub struct TelemetryRow {
    pub node_id: String,
    pub timestamp: i64,
    pub battery_level: Option<i32>,
    pub voltage: Option<Real32>,
    pub air_util_tx: Option<Real32>,
    pub channel_utilization: Option<Real32>,
    pub uptime_seconds: Option<i64>,
}

/// Whether row `i` comes before row `j`: it is older, or as old and stands before it.
pub open spec fn earlier(rows: Seq<TelemetryRow>, i: int, j: int) -> bool {
    rows[i].timestamp < rows[j].timestamp || (rows[i].timestamp == rows[j].timestamp && i < j)
}

/// Whether each of these rows comes before all that follow it.
pub open spec fn in_order(rows: Seq<TelemetryRow>, order: Seq<int>) -> bool {
    forall|a: int, b: int|
        0 <= a < b < order.len() ==> earlier(rows, #[trigger] order[a], #[trigger] order[b])
}

/// Whether `order` gives the rows of a node, all of them and no others, the oldest first; rows of
/// one time in the order in which they stand.
pub open spec fn readings_of(rows: Seq<TelemetryRow>, node: Seq<char>, order: Seq<int>) -> bool {
    &&& in_order(rows, order)
    &&& forall|k: int| #[trigger]
        order.contains(k) <==> (0 <= k < rows.len() && rows[k].node_id@ == node)
}

/// The battery levels of the rows that `order` gives.
pub open spec fn levels_of(rows: Seq<TelemetryRow>, order: Seq<int>) -> Seq<Option<i32>> {
    order.map_values(|k: int| rows[k].battery_level)
}

/// Whether `d` shows the reading `row` with a chart.
pub open spec fn shows_row(d: TelemetryDisplay, row: TelemetryRow, chart: Seq<char>) -> bool {
    &&& d.node_id@ == row.node_id@
    &&& d.timestamp == row.timestamp
    &&& d.battery_level == row.battery_level
    &&& d.voltage == row.voltage
    &&& d.air_util_tx == row.air_util_tx
    &&& d.channel_utilization == row.channel_utilization
    &&& d.uptime_seconds == row.uptime_seconds
    &&& d.battery_chart@ == chart
}

/// Whether `d` shows the readings of its node that `order` gives: the last of them, with the chart
/// of all.
pub open spec fn shows(d: TelemetryDisplay, rows: Seq<TelemetryRow>, order: Seq<int>) -> bool {
    &&& order.len() > 0
    &&& readings_of(rows, d.node_id@, order)
    &&& shows_row(d, rows[order.last()], chart_of(levels_of(rows, order)))
}

/// Whether `d` shows the readings of its node.
pub open spec fn is_summary(d: TelemetryDisplay, rows: Seq<TelemetryRow>) -> bool {
    exists|order: Seq<int>| #[trigger] shows(d, rows, order)
}

/// Whether a node is among those shown.
pub open spec fn is_shown(result: Seq<TelemetryDisplay>, node: Seq<char>) -> bool {
    exists|i: int| 0 <= i < result.len() && (#[trigger] result[i]).node_id@ == node
}

/// Whether the latest comes first.
pub open spec fn latest_first(result: Seq<TelemetryDisplay>) -> bool {
    forall|a: int, b: int|
        0 <= a < b < result.len() ==> (#[trigger] result[a]).timestamp >= (
        #[trigger] result[b]).timestamp
}

/// Whether no node is shown twice.
pub open spec fn nodes_differ(result: Seq<TelemetryDisplay>) -> bool {
    forall|a: int, b: int|
        0 <= a < b < result.len() ==> (#[trigger] result[a]).node_id@ != (
        #[trigger] result[b]).node_id@
}

/// The battery levels of all rows, in the order in which they stand.
pub open spec fn all_levels(rows: Seq<TelemetryRow>) -> Seq<Option<i32>> {
    rows.map_values(|row: TelemetryRow| row.battery_level)
}

/// Whether `result` shows all rows in their order, each with the chart of all their battery levels.
pub open spec fn is_history(result: Seq<TelemetryDisplay>, rows: Seq<TelemetryRow>) -> bool {
    &&& result.len() == rows.len()
    &&& forall|i: int|
        0 <= i < result.len() ==> shows_row(
            #[trigger] result[i],
            rows[i],
            chart_of(all_levels(rows)),
        )
}

/// Row numbers as integers.
spec fn ints(order: Seq<usize>) -> Seq<int> {
    order.map_values(|k: usize| k as int)
}

/// The rows of a node among the first `n`.
spec fn readings_before(
    rows: Seq<TelemetryRow>,
    node: Seq<char>,
    order: Seq<int>,
    n: int,
) -> bool {
    &&& in_order(rows, order)
    &&& forall|k: int| #[trigger]
        order.contains(k) <==> (0 <= k < n && rows[k].node_id@ == node)
}

/// The rows of a node, the oldest first.
fn order_readings(rows: &Vec<TelemetryRow>, node: &str) -> (r: Vec<usize>)
    ensures
        readings_of(rows@, node@, ints(r@)),
        forall|a: int| 0 <= a < r@.len() ==> 0 <= #[trigger] r@[a] < rows@.len(),
{
    let mut order: Vec<usize> = Vec::new();
    let mut k: usize = 0;
    while k < rows.len()
        invariant
            k <= rows@.len(),
            readings_before(rows@, node@, ints(order@), k as int),
            forall|a: int| 0 <= a < order@.len() ==> 0 <= #[trigger] order@[a] < k,
        decreases rows@.len() - k,
    {
        let ghost before = order@;
        if text_eq(rows[k].node_id.as_str(), node) {
            let mut p: usize = order.len();
            while p > 0 && rows[order[p - 1]].timestamp > rows[k].timestamp
                invariant
                    k < rows@.len(),
                    p <= order@.len(),
                    order@ == before,
                    forall|a: int| 0 <= a < order@.len() ==> 0 <= #[trigger] order@[a] < k,
                    forall|a: int|
                        p <= a < order@.len() ==> rows@[#[trigger] order@[a] as int].timestamp
                            > rows@[k as int].timestamp,
                decreases p,
            {
                p = p - 1;
            }
            order.insert(p, k);
            proof {
                let was = ints(before);
                let now = ints(order@);
                assert(now =~= was.insert(p as int, k as int));
                assert forall|a: int, b: int| 0 <= a < b < now.len() implies earlier(
                    rows@,
                    #[trigger] now[a],
                    #[trigger] now[b],
                ) by {
                    if a < p && b < p {
                        assert(now[a] == was[a] && now[b] == was[b]);
                    } else if a < p && b == p {
                        assert(now[a] == was[a]);
                        assert(was[a] == before[a]);
                        assert(p > 0 && rows@[before[p - 1] as int].timestamp
                            <= rows@[k as int].timestamp);
                        if a < p - 1 {
                            assert(earlier(rows@, was[a], was[p - 1]));
                        }
                    } else if a < p {
                        assert(now[a] == was[a] && now[b] == was[b - 1]);
                    } else if a == p {
                        assert(now[b] == was[b - 1]);
                        assert(was[b - 1] == before[b - 1]);
                    } else {
                        assert(now[a] == was[a - 1] && now[b] == was[b - 1]);
                    }
                }
                assert forall|j: int| #[trigger] now.contains(j) <==> (0 <= j < k + 1
                    && rows@[j].node_id@ == node@) by {
                    if now.contains(j) {
                        let a = choose|a: int| 0 <= a < now.len() && now[a] == j;
                        if a < p {
                            assert(was[a] == j);
                            assert(was.contains(j));
                        } else if a > p {
                            assert(was[a - 1] == j);
                            assert(was.contains(j));
                        }
                    }
                    if 0 <= j < k + 1 && rows@[j].node_id@ == node@ {
                        if j == k {
                            assert(now[p as int] == j);
                        } else {
                            assert(was.contains(j));
                            let a = choose|a: int| 0 <= a < was.len() && was[a] == j;
                            if a < p {
                                assert(now[a] == j);
                            } else {
                                assert(now[a + 1] == j);
                            }
                        }
                    }
                }
            }
        }
        k = k + 1;
    }
    order
}

/// Shows the readings of the node of row `k`.
fn summarize(rows: &Vec<TelemetryRow>, k: usize) -> (r: TelemetryDisplay)
    requires
        k < rows@.len(),
    ensures
        is_summary(r, rows@),
        r.node_id@ == rows@[k as int].node_id@,
{
    let order = order_readings(rows, rows[k].node_id.as_str());
    let ghost order_ints = ints(order@);
    proof {
        assert(order_ints.contains(k as int));
        assert(order_ints.len() == order@.len());
    }
    let mut levels: Vec<Option<i32>> = Vec::new();
    let mut i: usize = 0;
    while i < order.len()
        invariant
            i <= order@.len(),
            order_ints == ints(order@),
            forall|a: int| 0 <= a < order@.len() ==> 0 <= #[trigger] order@[a] < rows@.len(),
            levels@ == levels_of(rows@, order_ints).take(i as int),
        decreases order@.len() - i,
    {
        levels.push(rows[order[i]].battery_level);
        proof {
            assert(levels_of(rows@, order_ints).take(i + 1) =~= levels_of(rows@, order_ints).take(
                i as int,
            ).push(rows@[order@[i as int] as int].battery_level));
        }
        i = i + 1;
    }
    proof {
        assert(levels@ =~= levels_of(rows@, order_ints));
    }
    let battery_chart = TelemetryDisplay::battery_levels_to_time_chart(levels.as_slice());
    let last = &rows[order[order.len() - 1]];
    let r = TelemetryDisplay {
        node_id: rows[k].node_id.clone(),
        battery_level: last.battery_level,
        battery_chart,
        voltage: last.voltage,
        air_util_tx: last.air_util_tx,
        channel_utilization: last.channel_utilization,
        uptime_seconds: last.uptime_seconds,
        timestamp: last.timestamp,
    };
    proof {
        assert(order_ints.last() == order@.last());
        assert(order_ints.contains(order_ints.last()));
        assert(shows(r, rows@, order_ints));
    }
    r
}

/// Whether a node is among those shown.
fn shown(result: &Vec<TelemetryDisplay>, node: &str) -> (r: bool)
    ensures
        r == is_shown(result@, node@),
{
    let mut i: usize = 0;
    while i < result.len()
        invariant
            i <= result@.len(),
            forall|a: int| 0 <= a < i ==> (#[trigger] result@[a]).node_id@ != node@,
        decreases result@.len() - i,
    {
        if text_eq(result[i].node_id.as_str(), node) {
            return true;
        }
        i = i + 1;
    }
    false
}

/// Gathers readings by node: one entry for each node, its latest reading with the chart of all its
/// battery levels, the latest node first.
pub fn gather(rows: &Vec<TelemetryRow>) -> (r: Vec<TelemetryDisplay>)
    ensures
        latest_first(r@),
        nodes_differ(r@),
        forall|i: int| 0 <= i < r@.len() ==> is_summary(#[trigger] r@[i], rows@),
        forall|k: int| 0 <= k < rows@.len() ==> is_shown(r@, (#[trigger] rows@[k]).node_id@),
        forall|k: int|
            0 <= k < rows@.len() ==> exists|i: int|
                0 <= i < r@.len() && (#[trigger] r@[i]).node_id@ == (#[trigger] rows@[k]).node_id@,
        forall|i: int|
            0 <= i < r@.len() ==> exists|k: int|
                0 <= k < rows@.len() && (#[trigger] rows@[k]).node_id@ == (#[trigger] r@[i]).node_id@
                    && rows@[k].timestamp == r@[i].timestamp && rows@[k].battery_level
                    == r@[i].battery_level && rows@[k].voltage == r@[i].voltage
                    && rows@[k].air_util_tx == r@[i].air_util_tx && rows@[k].channel_utilization
                    == r@[i].channel_utilization && rows@[k].uptime_seconds
                    == r@[i].uptime_seconds,
{
    let mut result: Vec<TelemetryDisplay> = Vec::new();
    let mut k: usize = 0;
    while k < rows.len()
        invariant
            k <= rows@.len(),
            latest_first(result@),
            nodes_differ(result@),
            forall|i: int| 0 <= i < result@.len() ==> is_summary(#[trigger] result@[i], rows@),
            forall|j: int| 0 <= j < k ==> is_shown(result@, (#[trigger] rows@[j]).node_id@),
        decreases rows@.len() - k,
    {
        let ghost before = result@;
        if !shown(&result, rows[k].node_id.as_str()) {
            let entry = summarize(rows, k);
            let ghost node = rows@[k as int].node_id@;
            let mut p: usize = result.len();
            while p > 0 && result[p - 1].timestamp < entry.timestamp
                invariant
                    p <= result@.len(),
                    result@ == before,
                    forall|a: int|
                        p <= a < result@.len() ==> (#[trigger] result@[a]).timestamp
                            < entry.timestamp,
                decreases p,
            {
                p = p - 1;
            }
            let ghost given = entry;
            result.insert(p, entry);
            proof {
                let now = result@;
                assert(now =~= before.insert(p as int, given));
                assert forall|a: int, b: int| 0 <= a < b < now.len() implies (
                #[trigger] now[a]).timestamp >= (#[trigger] now[b]).timestamp && now[a].node_id@
                    != now[b].node_id@ by {
                    if a < p && b < p {
                        assert(now[a] == before[a] && now[b] == before[b]);
                    } else if a < p && b == p {
                        assert(now[a] == before[a]);
                        assert(before[p - 1].timestamp >= given.timestamp);
                        assert(before[a].timestamp >= before[p - 1].timestamp);
                        assert(before[a].node_id@ != node);
                    } else if a < p {
                        assert(now[a] == before[a] && now[b] == before[b - 1]);
                    } else if a == p {
                        assert(now[b] == before[b - 1]);
                        assert(before[b - 1].node_id@ != node);
                    } else {
                        assert(now[a] == before[a - 1] && now[b] == before[b - 1]);
                    }
                }
                assert forall|i: int| 0 <= i < now.len() implies is_summary(
                    #[trigger] now[i],
                    rows@,
                ) by {
                    if i < p {
                        assert(now[i] == before[i]);
                    } else if i > p {
                        assert(now[i] == before[i - 1]);
                    }
                }
                assert forall|j: int| 0 <= j < k + 1 implies is_shown(
                    now,
                    (#[trigger] rows@[j]).node_id@,
                ) by {
                    if j == k {
                        assert(now[p as int].node_id@ == node);
                    } else {
                        assert(is_shown(before, rows@[j].node_id@));
                        let i = choose|i: int|
                            0 <= i < before.len() && (#[trigger] before[i]).node_id@
                                == rows@[j].node_id@;
                        if i < p {
                            assert(now[i] == before[i]);
                        } else {
                            assert(now[i + 1] == before[i]);
                        }
                    }
                }
            }
        }
        k = k + 1;
    }
    proof {
        assert forall|i: int| 0 <= i < result@.len() implies exists|k: int|
            0 <= k < rows@.len() && (#[trigger] rows@[k]).node_id@ == (
            #[trigger] result@[i]).node_id@ && rows@[k].timestamp == result@[i].timestamp
                && rows@[k].battery_level == result@[i].battery_level && rows@[k].voltage
                == result@[i].voltage && rows@[k].air_util_tx == result@[i].air_util_tx
                && rows@[k].channel_utilization == result@[i].channel_utilization
                && rows@[k].uptime_seconds == result@[i].uptime_seconds by {
            law_summary_is_a_stored_reading(result@[i], rows@);
        }
    }
    result
}

/// The readings of one node as they are shown one by one, each with the chart of all their battery
/// levels.
pub fn history(rows: &Vec<TelemetryRow>) -> (r: Vec<TelemetryDisplay>)
    ensures
        is_history(r@, rows@),
        r@.len() == rows@.len(),
        forall|i: int|
            0 <= i < r@.len() ==> (#[trigger] r@[i]).node_id@ == rows@[i].node_id@
                && r@[i].timestamp == rows@[i].timestamp && r@[i].battery_level
                == rows@[i].battery_level && r@[i].voltage == rows@[i].voltage && r@[i].air_util_tx
                == rows@[i].air_util_tx && r@[i].channel_utilization
                == rows@[i].channel_utilization && r@[i].uptime_seconds == rows@[i].uptime_seconds,
{
    let mut levels: Vec<Option<i32>> = Vec::new();
    let mut i: usize = 0;
    while i < rows.len()
        invariant
            i <= rows@.len(),
            levels@ == all_levels(rows@).take(i as int),
        decreases rows@.len() - i,
    {
        levels.push(rows[i].battery_level);
        proof {
            assert(levels@ =~= all_levels(rows@).take(i + 1));
        }
        i = i + 1;
    }
    proof {
        assert(levels@ =~= all_levels(rows@));
    }
    let battery_chart = TelemetryDisplay::battery_levels_to_time_chart(levels.as_slice());
    let mut r: Vec<TelemetryDisplay> = Vec::new();
    let mut k: usize = 0;
    while k < rows.len()
        invariant
            k <= rows@.len(),
            r@.len() == k,
            battery_chart@ == chart_of(all_levels(rows@)),
            forall|j: int|
                0 <= j < r@.len() ==> shows_row(
                    #[trigger] r@[j],
                    rows@[j],
                    chart_of(all_levels(rows@)),
                ),
        decreases rows@.len() - k,
    {
        let row = &rows[k];
        r.push(
            TelemetryDisplay {
                node_id: row.node_id.clone(),
                battery_level: row.battery_level,
                battery_chart: battery_chart.clone(),
                voltage: row.voltage,
                air_util_tx: row.air_util_tx,
                channel_utilization: row.channel_utilization,
                uptime_seconds: row.uptime_seconds,
                timestamp: row.timestamp,
            },
        );
        k = k + 1;
    }
    r
}

/// The history of readings of one node, the oldest first, is of that node and has the oldest first
/// too; and each of its entries has a chart with one character for each reading.
pub proof fn law_history_is_charted(
    result: Seq<TelemetryDisplay>,
    rows: Seq<TelemetryRow>,
    node: Seq<char>,
)
    requires
        is_history(result, rows),
        forall|i: int| 0 <= i < rows.len() ==> (#[trigger] rows[i]).node_id@ == node,
        forall|i: int, j: int|
            0 <= i <= j < rows.len() ==> (#[trigger] rows[i]).timestamp <= (
            #[trigger] rows[j]).timestamp,
    ensures
        rows.len() > 0 ==> result.len() > 0,
        forall|i: int|
            0 <= i < result.len() ==> {
                &&& (#[trigger] result[i]).node_id@ == node
                &&& result[i].battery_chart@ == chart_of(all_levels(rows))
                &&& result[i].battery_chart@.len() == rows.len()
            },
        forall|i: int, j: int|
            0 <= i <= j < result.len() ==> (#[trigger] result[i]).timestamp <= (
            #[trigger] result[j]).timestamp,
{
    assert forall|i: int| 0 <= i < result.len() implies {
        &&& (#[trigger] result[i]).node_id@ == node
        &&& result[i].battery_chart@ == chart_of(all_levels(rows))
        &&& result[i].battery_chart@.len() == rows.len()
    } by {
        assert(rows[i].node_id@ == node);
        TelemetryDisplay::law_chart_length(all_levels(rows));
    }
    assert forall|i: int, j: int| 0 <= i <= j < result.len() implies (
    #[trigger] result[i]).timestamp <= (#[trigger] result[j]).timestamp by {
        assert(rows[i].timestamp <= rows[j].timestamp);
    }
}

/// There is only one order of the readings of a node, so its chart and its latest reading are
/// settled.
pub proof fn law_order_is_unique(
    rows: Seq<TelemetryRow>,
    node: Seq<char>,
    one: Seq<int>,
    other: Seq<int>,
)
    requires
        readings_of(rows, node, one),
        readings_of(rows, node, other),
    ensures
        one == other,
{
    assert forall|k: int| one.contains(k) <==> other.contains(k) by {
        assert(one.contains(k) <==> (0 <= k < rows.len() && rows[k].node_id@ == node));
    }
    lemma_same_members(rows, one, other);
}

proof fn lemma_same_members(rows: Seq<TelemetryRow>, one: Seq<int>, other: Seq<int>)
    requires
        in_order(rows, one),
        in_order(rows, other),
        forall|k: int| one.contains(k) <==> other.contains(k),
    ensures
        one == other,
    decreases one.len(),
{
    if one.len() == 0 {
        if other.len() > 0 {
            assert(other.contains(other[0]));
            assert(one.contains(other[0]));
        }
        assert(one =~= other);
    } else {
        assert(one.contains(one.last()));
        assert(other.contains(one.last()));
        let last = other.len() - 1;
        assert(other.contains(other[last]));
        let a = choose|a: int| 0 <= a < other.len() && other[a] == one.last();
        let b = choose|b: int| 0 <= b < one.len() && one[b] == other[last];
        if a < last {
            assert(earlier(rows, other[a], other[last]));
            if b < one.len() - 1 {
                assert(earlier(rows, one[b], one[one.len() - 1]));
            }
        }
        assert(one.last() == other.last());
        let x = one.drop_last();
        let y = other.drop_last();
        assert(in_order(rows, x)) by {
            assert forall|p: int, q: int| 0 <= p < q < x.len() implies earlier(
                rows,
                #[trigger] x[p],
                #[trigger] x[q],
            ) by {
                assert(earlier(rows, one[p], one[q]));
            }
        }
        assert(in_order(rows, y)) by {
            assert forall|p: int, q: int| 0 <= p < q < y.len() implies earlier(
                rows,
                #[trigger] y[p],
                #[trigger] y[q],
            ) by {
                assert(earlier(rows, other[p], other[q]));
            }
        }
        assert forall|k: int| x.contains(k) <==> y.contains(k) by {
            if x.contains(k) {
                let p = choose|p: int| 0 <= p < x.len() && x[p] == k;
                assert(one[p] == k);
                assert(one.contains(k));
                assert(other.contains(k));
                let q = choose|q: int| 0 <= q < other.len() && other[q] == k;
                assert(earlier(rows, one[p], one[one.len() - 1]));
                assert(q != last);
                assert(y[q] == k);
            }
            if y.contains(k) {
                let q = choose|q: int| 0 <= q < y.len() && y[q] == k;
                assert(other[q] == k);
                assert(other.contains(k));
                assert(one.contains(k));
                let p = choose|p: int| 0 <= p < one.len() && one[p] == k;
                assert(earlier(rows, other[q], other[last]));
                assert(p != one.len() - 1);
                assert(x[p] == k);
            }
        }
        lemma_same_members(rows, x, y);
        assert(one =~= x.push(one.last()));
        assert(other =~= y.push(other.last()));
    }
}

/// What is shown of a node is its latest reading, and its chart has one character for each of its
/// readings.
pub proof fn law_summary_is_latest(
    d: TelemetryDisplay,
    rows: Seq<TelemetryRow>,
    order: Seq<int>,
    k: int,
)
    requires
        shows(d, rows, order),
        0 <= k < rows.len(),
        rows[k].node_id@ == d.node_id@,
    ensures
        rows[k].timestamp <= d.timestamp,
        d.battery_chart@.len() == order.len(),
{
    assert(order.contains(k));
    let a = choose|a: int| 0 <= a < order.len() && order[a] == k;
    if a < order.len() - 1 {
        assert(earlier(rows, order[a], order[order.len() - 1]));
    }
}

/// What is shown of a node is one of its stored readings: there is a stored row of the same node and
/// time that has the battery level, the voltage, the air time, the channel utilization and the
/// uptime shown.
pub proof fn law_summary_is_a_stored_reading(d: TelemetryDisplay, rows: Seq<TelemetryRow>)
    requires
        is_summary(d, rows),
    ensures
        exists|k: int|
            0 <= k < rows.len() && (#[trigger] rows[k]).node_id@ == d.node_id@ && rows[k].timestamp
                == d.timestamp && rows[k].battery_level == d.battery_level && rows[k].voltage
                == d.voltage && rows[k].air_util_tx == d.air_util_tx && rows[k].channel_utilization
                == d.channel_utilization && rows[k].uptime_seconds == d.uptime_seconds,
{
    let order = choose|order: Seq<int>| #[trigger] shows(d, rows, order);
    let k = order.last();
    assert(order.contains(k));
    assert(rows[k].node_id@ == d.node_id@);
}

/// No stored reading of a node is later than the one shown, and among those of the same time none
/// stands behind it.
pub proof fn law_nothing_later_than_shown(
    d: TelemetryDisplay,
    rows: Seq<TelemetryRow>,
    order: Seq<int>,
    k: int,
)
    requires
        shows(d, rows, order),
        0 <= k < rows.len(),
        rows[k].node_id@ == d.node_id@,
    ensures
        rows[k].timestamp < d.timestamp || (rows[k].timestamp == d.timestamp && k <= order.last()),
        rows[order.last()].timestamp == d.timestamp,
        rows[order.last()].node_id@ == d.node_id@,
{
    assert(order.contains(k));
    assert(order.contains(order.last()));
    let a = choose|a: int| 0 <= a < order.len() && order[a] == k;
    if a < order.len() - 1 {
        assert(earlier(rows, order[a], order[order.len() - 1]));
    }
}

/// The chart of a node has a character for each of its readings: of two readings the older stands
/// first, and of two of one time that which is stored first.
pub proof fn law_chart_goes_by_time(
    d: TelemetryDisplay,
    rows: Seq<TelemetryRow>,
    order: Seq<int>,
    a: int,
    b: int,
)
    requires
        shows(d, rows, order),
        0 <= a < b < order.len(),
    ensures
        d.battery_chart@.len() == order.len(),
        d.battery_chart@[a] == level_char(rows[order[a]].battery_level),
        d.battery_chart@[b] == level_char(rows[order[b]].battery_level),
        rows[order[a]].node_id@ == d.node_id@,
        rows[order[a]].timestamp <= rows[order[b]].timestamp,
        rows[order[a]].timestamp == rows[order[b]].timestamp ==> order[a] < order[b],
{
    assert(order.contains(order[a]));
    assert(earlier(rows, order[a], order[b]));
}

/// Among the nodes shown none is shown twice, and none comes before one with a later reading.
pub proof fn law_nodes_shown_by_time(result: Seq<TelemetryDisplay>, a: int, b: int)
    requires
        latest_first(result),
        nodes_differ(result),
        0 <= a < b < result.len(),
    ensures
        result[a].timestamp >= result[b].timestamp,
        result[a].node_id@ != result[b].node_id@,
{
}

/// Each entry of a history is the reading that stands at its place, field by field, and its chart
/// has at each place the character of the reading there.
pub proof fn law_history_is_the_readings(
    result: Seq<TelemetryDisplay>,
    rows: Seq<TelemetryRow>,
    i: int,
    k: int,
)
    requires
        is_history(result, rows),
        0 <= i < rows.len(),
        0 <= k < rows.len(),
    ensures
        result.len() == rows.len(),
        result[i].node_id@ == rows[i].node_id@,
        result[i].timestamp == rows[i].timestamp,
        result[i].battery_level == rows[i].battery_level,
        result[i].voltage == rows[i].voltage,
        result[i].air_util_tx == rows[i].air_util_tx,
        result[i].channel_utilization == rows[i].channel_utilization,
        result[i].uptime_seconds == rows[i].uptime_seconds,
        result[i].battery_chart@[k] == level_char(rows[k].battery_level),
{
    assert(shows_row(result[i], rows[i], chart_of(all_levels(rows))));
}

/// Every stored reading of a node has its character in the chart that is shown, and the chart has no
/// others.
pub proof fn law_chart_has_every_reading(
    d: TelemetryDisplay,
    rows: Seq<TelemetryRow>,
    order: Seq<int>,
    k: int,
)
    requires
        shows(d, rows, order),
    ensures
        0 <= k < rows.len() && rows[k].node_id@ == d.node_id@ ==> exists|a: int|
            0 <= a < d.battery_chart@.len() && order[a] == k && #[trigger] d.battery_chart@[a]
                == level_char(rows[k].battery_level),
        0 <= k < d.battery_chart@.len() ==> 0 <= order[k] < rows.len() && rows[order[k]].node_id@
            == d.node_id@,
{
    if 0 <= k < rows.len() && rows[k].node_id@ == d.node_id@ {
        assert(order.contains(k));
        let a = choose|a: int| 0 <= a < order.len() && order[a] == k;
        assert(d.battery_chart@[a] == level_char(rows[k].battery_level));
    }
    if 0 <= k < d.battery_chart@.len() {
        assert(order.contains(order[k]));
    }
}

} // verus!
