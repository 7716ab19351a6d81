//! Chart description for the per-problem score page: solution statistics,
//! the Pareto front over file size and fuel use, and the assembled chart
//! configuration.

use vstd::prelude::*;

verus! {

/// The axis limit used to close the Pareto front at both ends.
pub const MAX: u64 = 513;

/// Statistics of one solution on a problem's leaderboard.
pub struct SolutionStats {
    pub name: String,
    pub max_fuel: u64,
    pub file_size: u64,
    pub yours: bool,
}

impl SolutionStats {
    /// An identical copy.
    pub fn duplicate(&self) -> (r: SolutionStats)
        ensures
            r == *self,
    {
        SolutionStats {
            name: self.name.clone(),
            max_fuel: self.max_fuel,
            file_size: self.file_size,
            yours: self.yours,
        }
    }
}

// ---------------------------------------------------------------------------
// The Pareto front
// ---------------------------------------------------------------------------

/// Entry `i` belongs to the front when every entry before it (the data is
/// ordered by file size) burns strictly more fuel.
pub open spec fn pareto_kept(data: Seq<SolutionStats>, i: int) -> bool {
    forall|j: int| 0 <= j < i ==> data[j].max_fuel > data[i].max_fuel
}

/// The front of the first `n` entries, as (file size, fuel) points.
pub open spec fn front_upto(data: Seq<SolutionStats>, n: int) -> Seq<(u64, u64)>
    decreases n,
{
    if n <= 0 {
        Seq::empty()
    } else {
        front_upto(data, n - 1) + (if pareto_kept(data, n - 1) {
            seq![(data[n - 1].file_size, data[n - 1].max_fuel)]
        } else {
            Seq::empty()
        })
    }
}

pub open spec fn spec_front(data: Seq<SolutionStats>) -> Seq<(u64, u64)> {
    front_upto(data, data.len() as int)
}

/// The least first component, or the default on an empty sequence.
pub open spec fn min_x(pts: Seq<(u64, u64)>, dflt: u64) -> u64
    decreases pts,
{
    if pts.len() == 0 {
        dflt
    } else {
        let m = min_x(pts.drop_last(), dflt);
        if pts.last().0 < m {
            pts.last().0
        } else {
            m
        }
    }
}

/// The least second component, or the default on an empty sequence.
pub open spec fn min_y(pts: Seq<(u64, u64)>, dflt: u64) -> u64
    decreases pts,
{
    if pts.len() == 0 {
        dflt
    } else {
        let m = min_y(pts.drop_last(), dflt);
        if pts.last().1 < m {
            pts.last().1
        } else {
            m
        }
    }
}

/// The closed Pareto front: a vertical segment down to the smallest kept
/// size, the kept points, and a horizontal segment out to the limit.
pub open spec fn spec_pareto(data: Seq<SolutionStats>) -> Seq<(u64, u64)> {
    let f = spec_front(data);
    seq![(min_x(f, MAX), MAX)] + f + seq![(MAX, min_y(f, MAX))]
}

/// The Pareto front of the given statistics, which are ordered by file
/// size: each kept entry burns strictly less fuel than everything
/// smaller, and the front is closed off at both axes.
#[verifier::loop_isolation(false)]
pub fn pareto(data: &Vec<SolutionStats>) -> (r: Vec<(u64, u64)>)
    ensures
        r@ == spec_pareto(data@),
{
    let n = data.len();
    let mut tmp: Vec<(u64, u64)> = Vec::new();
    let mut i: usize = 0;
    while i < n
        invariant
            0 <= i <= n,
            n == data@.len(),
            tmp@ == front_upto(data@, i as int),
        decreases n - i,
    {
        let mut all_above: bool = true;
        let mut j: usize = 0;
        while j < i
            invariant
                0 <= j <= i <= n,
                all_above == (forall|j2: int|
                    0 <= j2 < j ==> data@[j2].max_fuel > data@[i as int].max_fuel),
            decreases i - j,
        {
            if data[j].max_fuel <= data[i].max_fuel {
                all_above = false;
            }
            j = j + 1;
        }
        if all_above {
            tmp.push((data[i].file_size, data[i].max_fuel));
            proof {
                assert(tmp@ =~= front_upto(data@, i + 1));
            }
        } else {
            proof {
                assert(tmp@ =~= front_upto(data@, i + 1));
            }
        }
        i = i + 1;
    }
    // the least size and fuel of the kept points
    let mut min_size: u64 = MAX;
    let mut min_fuel: u64 = MAX;
    let m = tmp.len();
    let mut k: usize = 0;
    while k < m
        invariant
            0 <= k <= m,
            m == tmp@.len(),
            min_size == min_x(tmp@.subrange(0, k as int), MAX),
            min_fuel == min_y(tmp@.subrange(0, k as int), MAX),
        decreases m - k,
    {
        proof {
            assert(tmp@.subrange(0, k + 1).drop_last() =~= tmp@.subrange(0, k as int));
        }
        if tmp[k].0 < min_size {
            min_size = tmp[k].0;
        }
        if tmp[k].1 < min_fuel {
            min_fuel = tmp[k].1;
        }
        k = k + 1;
    }
    proof {
        assert(tmp@.subrange(0, tmp@.len() as int) =~= tmp@);
    }
    let mut r: Vec<(u64, u64)> = Vec::new();
    r.push((min_size, MAX));
    let mut t: usize = 0;
    while t < m
        invariant
            0 <= t <= m,
            m == tmp@.len(),
            r@ == seq![(min_x(tmp@, MAX), MAX)] + tmp@.subrange(0, t as int),
        decreases m - t,
    {
        r.push(tmp[t]);
        proof {
            assert(r@ =~= seq![(min_x(tmp@, MAX), MAX)] + tmp@.subrange(0, t + 1));
        }
        t = t + 1;
    }
    r.push((MAX, min_fuel));
    proof {
        assert(tmp@.subrange(0, tmp@.len() as int) =~= tmp@);
        assert(r@ =~= spec_pareto(data@));
    }
    r
}

// ---------------------------------------------------------------------------
// Chart configuration
// ---------------------------------------------------------------------------

pub struct Title {
    pub text: String,
}

pub struct Tooltip {
    pub formatter: String,
}

pub struct Legend {
    pub data: Vec<String>,
}

pub struct Grid {
    pub contain_label: bool,
}

pub struct SaveAsImage {}

pub struct Feature {
    pub save_as_image: SaveAsImage,
}

pub struct Toolbox {
    pub feature: Feature,
}

pub struct Axis {
    pub kind: String,
    pub name: String,
    pub max: u64,
    pub log_base: u64,
}

pub enum Series {
    Line { step: String, data: Vec<(u64, u64)> },
    Scatter { data: Vec<(u64, u64)> },
}

pub struct Label {
    pub precision: String,
}

pub struct AxisPointer {
    pub show: bool,
    pub kind: String,
    pub snap: bool,
    pub label: Label,
}

pub struct Root {
    pub title: Title,
    pub grid: Grid,
    pub tooltip: Tooltip,
    pub x_axis: Axis,
    pub y_axis: Axis,
    pub series: Vec<Series>,
}

/// The statistics restricted to entries whose `yours` flag matches.
pub open spec fn stats_with(data: Seq<SolutionStats>, yours: bool) -> Seq<SolutionStats>
    decreases data,
{
    if data.len() == 0 {
        Seq::empty()
    } else {
        stats_with(data.drop_last(), yours) + (if data.last().yours == yours {
            seq![data.last()]
        } else {
            Seq::empty()
        })
    }
}

/// The (file size, fuel) points of the entries whose flag matches.
pub open spec fn points_with(data: Seq<SolutionStats>, yours: bool) -> Seq<(u64, u64)>
    decreases data,
{
    if data.len() == 0 {
        Seq::empty()
    } else {
        points_with(data.drop_last(), yours) + (if data.last().yours == yours {
            seq![(data.last().file_size, data.last().max_fuel)]
        } else {
            Seq::empty()
        })
    }
}

/// The entries marked as the viewer's own.
#[verifier::loop_isolation(false)]
fn your_stats(data: &Vec<SolutionStats>) -> (r: Vec<SolutionStats>)
    ensures
        r@ == stats_with(data@, true),
{
    let mut r: Vec<SolutionStats> = Vec::new();
    let mut i: usize = 0;
    while i < data.len()
        invariant
            0 <= i <= data@.len(),
            r@ == stats_with(data@.subrange(0, i as int), true),
        decreases data@.len() - i,
    {
        proof {
            assert(data@.subrange(0, i + 1).drop_last() =~= data@.subrange(0, i as int));
        }
        if data[i].yours {
            r.push(data[i].duplicate());
        }
        proof {
            assert(r@ =~= stats_with(data@.subrange(0, i + 1), true));
        }
        i = i + 1;
    }
    proof {
        assert(data@.subrange(0, data@.len() as int) =~= data@);
    }
    r
}

/// The points of the entries whose flag matches, in order.
#[verifier::loop_isolation(false)]
fn points_of(data: &Vec<SolutionStats>, yours: bool) -> (r: Vec<(u64, u64)>)
    ensures
        r@ == points_with(data@, yours),
{
    let mut r: Vec<(u64, u64)> = Vec::new();
    let mut i: usize = 0;
    while i < data.len()
        invariant
            0 <= i <= data@.len(),
            r@ == points_with(data@.subrange(0, i as int), yours),
        decreases data@.len() - i,
    {
        proof {
            assert(data@.subrange(0, i + 1).drop_last() =~= data@.subrange(0, i as int));
        }
        if data[i].yours == yours {
            r.push((data[i].file_size, data[i].max_fuel));
        }
        proof {
            assert(r@ =~= points_with(data@.subrange(0, i + 1), yours));
        }
        i = i + 1;
    }
    proof {
        assert(data@.subrange(0, data@.len() as int) =~= data@);
    }
    r
}

/// The chart of one problem's leaderboard: both scatter clouds, the
/// viewer's own Pareto front, and the overall front, on log-log axes.
pub fn graph(data: &Vec<SolutionStats>) -> (r: Root)
    ensures
        r.title.text@ == "Pareto Front"@,
        r.tooltip.formatter@ == "size,fuel = {c}"@,
        r.grid.contain_label == false,
        r.x_axis.kind@ == "log"@ && r.x_axis.name@ == "File Size"@ && r.x_axis.max == 512
            && r.x_axis.log_base == 2,
        r.y_axis.kind@ == "log"@ && r.y_axis.name@ == "Max Fuel"@ && r.y_axis.max == 512
            && r.y_axis.log_base == 2,
        r.series@.len() == 4,
        (r.series@[0] matches Series::Scatter { data: d } && d@ == points_with(data@, true)),
        (r.series@[1] matches Series::Scatter { data: d } && d@ == points_with(data@, false)),
        (r.series@[2] matches Series::Line { step, data: d } && step@ == "end"@ && d@
            == spec_pareto(stats_with(data@, true))),
        (r.series@[3] matches Series::Line { step, data: d } && step@ == "end"@ && d@
            == spec_pareto(data@)),
{
    let your_data = your_stats(data);
    let your_pareto = pareto(&your_data);
    let all_pareto = pareto(data);
    let yours_pts = points_of(data, true);
    let others_pts = points_of(data, false);
    let mut series: Vec<Series> = Vec::new();
    series.push(Series::Scatter { data: yours_pts });
    series.push(Series::Scatter { data: others_pts });
    series.push(Series::Line { step: "end".to_owned(), data: your_pareto });
    series.push(Series::Line { step: "end".to_owned(), data: all_pareto });
    Root {
        title: Title { text: "Pareto Front".to_owned() },
        tooltip: Tooltip { formatter: "size,fuel = {c}".to_owned() },
        grid: Grid { contain_label: false },
        x_axis: Axis {
            kind: "log".to_owned(),
            name: "File Size".to_owned(),
            max: 512,
            log_base: 2,
        },
        y_axis: Axis {
            kind: "log".to_owned(),
            name: "Max Fuel".to_owned(),
            max: 512,
            log_base: 2,
        },
        series,
    }
}

} // verus!
