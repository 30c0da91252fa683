//! Monthly, weekly and yearly expense reports and the chart each one asks
//! for. Entries are aggregated in memory; per-category and per-month rows
//! come in order of first appearance.
use vstd::prelude::*;
use crate::expenses::wallet::NativeCurrency;
use crate::num::{dec, dec_int, i64_to_string, u64_to_string};
use crate::text::owned;

verus! {

/// One expense as a report reads it: category, amount, and the month of its
/// date (1..=12).
pub struct ReportEntry {
    pub category_id: i64,
    pub category_name: String,
    pub amount: NativeCurrency,
    pub month: u32,
}

pub struct CategoryTotal {
    pub category_id: i64,
    pub category_name: String,
    pub total: NativeCurrency,
}

pub struct MonthlyReport {
    pub year: i32,
    pub month: u32,
    pub total: NativeCurrency,
    pub by_category: Vec<CategoryTotal>,
}

pub struct MonthData {
    pub month: u32,
    pub total: NativeCurrency,
}

pub struct YearReport {
    pub year: i32,
    pub total: NativeCurrency,
    pub by_category: Vec<CategoryTotal>,
    pub by_month: Vec<MonthData>,
}

pub struct WeekData {
    pub week: u32,
    pub total: NativeCurrency,
}

pub struct WeeklyReport {
    pub year: i32,
    pub week: u32,
    pub total: NativeCurrency,
    pub by_category: Vec<CategoryTotal>,
}

/// Sum of the amounts.
pub open spec fn amount_sum(entries: Seq<ReportEntry>) -> int
    decreases entries.len(),
{
    if entries.len() == 0 {
        0
    } else {
        amount_sum(entries.drop_last()) + entries.last().amount
    }
}

/// Position of `id` among grouped rows.
pub open spec fn id_index(groups: Seq<(i64, Seq<char>, int)>, id: i64) -> Option<int>
    decreases groups.len(),
{
    if groups.len() == 0 {
        None
    } else if groups.last().0 == id {
        Some(groups.len() - 1)
    } else {
        id_index(groups.drop_last(), id)
    }
}

/// Per-category totals `(id, name, total)` in order of first appearance;
/// the name is the one of the category's first entry.
pub open spec fn category_groups(entries: Seq<ReportEntry>) -> Seq<(i64, Seq<char>, int)>
    decreases entries.len(),
{
    if entries.len() == 0 {
        Seq::empty()
    } else {
        let g = category_groups(entries.drop_last());
        let e = entries.last();
        match id_index(g, e.category_id) {
            Some(k) => g.update(k, (g[k].0, g[k].1, g[k].2 + e.amount)),
            None => g.push((e.category_id, e.category_name@, e.amount as int)),
        }
    }
}

/// Position of `month` among grouped months.
pub open spec fn month_index(groups: Seq<(u32, int)>, month: u32) -> Option<int>
    decreases groups.len(),
{
    if groups.len() == 0 {
        None
    } else if groups.last().0 == month {
        Some(groups.len() - 1)
    } else {
        month_index(groups.drop_last(), month)
    }
}

/// Per-month totals in order of first appearance.
pub open spec fn month_groups(entries: Seq<ReportEntry>) -> Seq<(u32, int)>
    decreases entries.len(),
{
    if entries.len() == 0 {
        Seq::empty()
    } else {
        let g = month_groups(entries.drop_last());
        let e = entries.last();
        match month_index(g, e.month) {
            Some(k) => g.update(k, (g[k].0, g[k].1 + e.amount)),
            None => g.push((e.month, e.amount as int)),
        }
    }
}

pub open spec fn totals_view(v: Seq<CategoryTotal>) -> Seq<(i64, Seq<char>, int)> {
    Seq::new(v.len(), |i: int| (v[i].category_id, v[i].category_name@, v[i].total as int))
}

pub open spec fn months_view(v: Seq<MonthData>) -> Seq<(u32, int)> {
    Seq::new(v.len(), |i: int| (v[i].month, v[i].total as int))
}

pub open spec fn group_sum(g: Seq<(i64, Seq<char>, int)>) -> int
    decreases g.len(),
{
    if g.len() == 0 {
        0
    } else {
        group_sum(g.drop_last()) + g.last().2
    }
}

pub open spec fn month_sum(g: Seq<(u32, int)>) -> int
    decreases g.len(),
{
    if g.len() == 0 {
        0
    } else {
        month_sum(g.drop_last()) + g.last().1
    }
}

// ---------------------------------------------------------------------------
// Lemmas
// ---------------------------------------------------------------------------

proof fn lemma_id_index(g: Seq<(i64, Seq<char>, int)>, id: i64)
    ensures
        match id_index(g, id) {
            Some(k) => 0 <= k < g.len() && g[k].0 == id,
            None => forall|k: int| 0 <= k < g.len() ==> (#[trigger] g[k]).0 != id,
        },
    decreases g.len(),
{
    if g.len() > 0 {
        lemma_id_index(g.drop_last(), id);
        if g.last().0 != id {
            assert forall|k: int| 0 <= k < g.len() - 1 implies (#[trigger] g[k]).0 == g.drop_last()[k].0 by {
            }
        }
    }
}

proof fn lemma_month_index(g: Seq<(u32, int)>, m: u32)
    ensures
        match month_index(g, m) {
            Some(k) => 0 <= k < g.len() && g[k].0 == m,
            None => forall|k: int| 0 <= k < g.len() ==> (#[trigger] g[k]).0 != m,
        },
    decreases g.len(),
{
    if g.len() > 0 {
        lemma_month_index(g.drop_last(), m);
        if g.last().0 != m {
            assert forall|k: int| 0 <= k < g.len() - 1 implies (#[trigger] g[k]).0 == g.drop_last()[k].0 by {
            }
        }
    }
}

proof fn lemma_group_sum_update(g: Seq<(i64, Seq<char>, int)>, k: int, v: (i64, Seq<char>, int))
    requires
        0 <= k < g.len(),
    ensures
        group_sum(g.update(k, v)) == group_sum(g) - g[k].2 + v.2,
    decreases g.len(),
{
    if k == g.len() - 1 {
        assert(g.update(k, v).drop_last() =~= g.drop_last());
    } else {
        assert(g.update(k, v).drop_last() =~= g.drop_last().update(k, v));
        lemma_group_sum_update(g.drop_last(), k, v);
    }
}

proof fn lemma_month_sum_update(g: Seq<(u32, int)>, k: int, v: (u32, int))
    requires
        0 <= k < g.len(),
    ensures
        month_sum(g.update(k, v)) == month_sum(g) - g[k].1 + v.1,
    decreases g.len(),
{
    if k == g.len() - 1 {
        assert(g.update(k, v).drop_last() =~= g.drop_last());
    } else {
        assert(g.update(k, v).drop_last() =~= g.drop_last().update(k, v));
        lemma_month_sum_update(g.drop_last(), k, v);
    }
}

proof fn lemma_group_sum_push(g: Seq<(i64, Seq<char>, int)>, v: (i64, Seq<char>, int))
    ensures
        group_sum(g.push(v)) == group_sum(g) + v.2,
{
    assert(g.push(v).drop_last() =~= g);
}

proof fn lemma_month_sum_push(g: Seq<(u32, int)>, v: (u32, int))
    ensures
        month_sum(g.push(v)) == month_sum(g) + v.1,
{
    assert(g.push(v).drop_last() =~= g);
}

proof fn lemma_group_nonneg(g: Seq<(i64, Seq<char>, int)>)
    requires
        forall|k: int| 0 <= k < g.len() ==> (#[trigger] g[k]).2 >= 0,
    ensures
        group_sum(g) >= 0,
        forall|k: int| 0 <= k < g.len() ==> (#[trigger] g[k]).2 <= group_sum(g),
    decreases g.len(),
{
    if g.len() > 0 {
        let d = g.drop_last();
        assert forall|k: int| 0 <= k < d.len() implies (#[trigger] d[k]).2 >= 0 by {
            assert(d[k] == g[k]);
        }
        lemma_group_nonneg(d);
        assert forall|k: int| 0 <= k < g.len() implies (#[trigger] g[k]).2 <= group_sum(g) by {
            if k < g.len() - 1 {
                assert(d[k] == g[k]);
            }
        }
    }
}

proof fn lemma_month_nonneg(g: Seq<(u32, int)>)
    requires
        forall|k: int| 0 <= k < g.len() ==> (#[trigger] g[k]).1 >= 0,
    ensures
        month_sum(g) >= 0,
        forall|k: int| 0 <= k < g.len() ==> (#[trigger] g[k]).1 <= month_sum(g),
    decreases g.len(),
{
    if g.len() > 0 {
        let d = g.drop_last();
        assert forall|k: int| 0 <= k < d.len() implies (#[trigger] d[k]).1 >= 0 by {
            assert(d[k] == g[k]);
        }
        lemma_month_nonneg(d);
        assert forall|k: int| 0 <= k < g.len() implies (#[trigger] g[k]).1 <= month_sum(g) by {
            if k < g.len() - 1 {
                assert(d[k] == g[k]);
            }
        }
    }
}

/// The category rows of a report add up to its total, each row total is
/// non-negative, and no category appears twice.
pub proof fn lemma_category_totals_conserved(entries: Seq<ReportEntry>)
    ensures
        group_sum(category_groups(entries)) == amount_sum(entries),
        forall|k: int|
            0 <= k < category_groups(entries).len() ==> (#[trigger] category_groups(entries)[k]).2
                >= 0,
        forall|a: int, b: int|
            0 <= a < b < category_groups(entries).len() ==> (#[trigger] category_groups(entries)[a]).0
                != (#[trigger] category_groups(entries)[b]).0,
    decreases entries.len(),
{
    if entries.len() > 0 {
        let d = entries.drop_last();
        lemma_category_totals_conserved(d);
        let g = category_groups(d);
        let e = entries.last();
        lemma_id_index(g, e.category_id);
        match id_index(g, e.category_id) {
            Some(k) => {
                lemma_group_sum_update(g, k, (g[k].0, g[k].1, g[k].2 + e.amount));
            },
            None => {
                lemma_group_sum_push(g, (e.category_id, e.category_name@, e.amount as int));
            },
        }
    }
}

/// The month rows of a year report add up to its total, and no month
/// appears twice.
pub proof fn lemma_month_totals_conserved(entries: Seq<ReportEntry>)
    ensures
        month_sum(month_groups(entries)) == amount_sum(entries),
        forall|k: int|
            0 <= k < month_groups(entries).len() ==> (#[trigger] month_groups(entries)[k]).1 >= 0,
        forall|a: int, b: int|
            0 <= a < b < month_groups(entries).len() ==> (#[trigger] month_groups(entries)[a]).0
                != (#[trigger] month_groups(entries)[b]).0,
    decreases entries.len(),
{
    if entries.len() > 0 {
        let d = entries.drop_last();
        lemma_month_totals_conserved(d);
        let g = month_groups(d);
        let e = entries.last();
        lemma_month_index(g, e.month);
        match month_index(g, e.month) {
            Some(k) => {
                lemma_month_sum_update(g, k, (g[k].0, g[k].1 + e.amount));
            },
            None => {
                lemma_month_sum_push(g, (e.month, e.amount as int));
            },
        }
    }
}

proof fn lemma_amount_sum_prefix(entries: Seq<ReportEntry>, i: int)
    requires
        0 <= i <= entries.len(),
    ensures
        0 <= amount_sum(entries.subrange(0, i)) <= amount_sum(entries),
    decreases entries.len() - i,
{
    if i < entries.len() {
        lemma_amount_sum_prefix(entries, i + 1);
        assert(entries.subrange(0, i + 1).drop_last() =~= entries.subrange(0, i));
    } else {
        assert(entries.subrange(0, i) =~= entries);
    }
    lemma_amount_sum_nonneg(entries.subrange(0, i));
}

proof fn lemma_amount_sum_nonneg(entries: Seq<ReportEntry>)
    ensures
        amount_sum(entries) >= 0,
    decreases entries.len(),
{
    if entries.len() > 0 {
        lemma_amount_sum_nonneg(entries.drop_last());
    }
}

// ---------------------------------------------------------------------------
// Aggregation
// ---------------------------------------------------------------------------

/// Total of the entries when it fits a `u64`, else `None`; the reports
/// below need it to fit.
pub fn checked_total(entries: &[ReportEntry]) -> (r: Option<NativeCurrency>)
    ensures
        match r {
            Some(t) => t == amount_sum(entries@),
            None => amount_sum(entries@) > u64::MAX,
        },
{
    let mut t: u64 = 0;
    let mut i: usize = 0;
    while i < entries.len()
        invariant
            i <= entries@.len(),
            t == amount_sum(entries@.subrange(0, i as int)),
        decreases entries@.len() - i,
    {
        assert(entries@.subrange(0, i + 1).drop_last() =~= entries@.subrange(0, i as int));
        match t.checked_add(entries[i].amount) {
            Some(n) => t = n,
            None => {
                proof {
                    lemma_amount_sum_prefix(entries@, i + 1);
                }
                return None;
            },
        }
        i = i + 1;
    }
    assert(entries@.subrange(0, entries@.len() as int) =~= entries@);
    Some(t)
}

/// Total of all amounts.
pub fn total_amount(entries: &[ReportEntry]) -> (r: NativeCurrency)
    requires
        amount_sum(entries@) <= u64::MAX,
    ensures
        r == amount_sum(entries@),
{
    let mut t: u64 = 0;
    let mut i: usize = 0;
    while i < entries.len()
        invariant
            i <= entries@.len(),
            t == amount_sum(entries@.subrange(0, i as int)),
            amount_sum(entries@) <= u64::MAX,
        decreases entries@.len() - i,
    {
        assert(entries@.subrange(0, i + 1).drop_last() =~= entries@.subrange(0, i as int));
        proof {
            lemma_amount_sum_prefix(entries@, i + 1);
        }
        t = t + entries[i].amount;
        i = i + 1;
    }
    assert(entries@.subrange(0, entries@.len() as int) =~= entries@);
    t
}

/// Per-category totals in order of first appearance.
pub fn totals_by_category(entries: &[ReportEntry]) -> (r: Vec<CategoryTotal>)
    requires
        amount_sum(entries@) <= u64::MAX,
    ensures
        totals_view(r@) == category_groups(entries@),
{
    let mut out: Vec<CategoryTotal> = Vec::new();
    let mut i: usize = 0;
    while i < entries.len()
        invariant
            i <= entries@.len(),
            totals_view(out@) == category_groups(entries@.subrange(0, i as int)),
            amount_sum(entries@) <= u64::MAX,
        decreases entries@.len() - i,
    {
        let ghost pre = entries@.subrange(0, i as int);
        let ghost g = category_groups(pre);
        assert(entries@.subrange(0, i + 1).drop_last() =~= pre);
        assert(entries@.subrange(0, i + 1).last() == entries@[i as int]);
        proof {
            lemma_id_index(g, entries@[i as int].category_id);
            lemma_category_totals_conserved(entries@.subrange(0, i + 1));
            lemma_amount_sum_prefix(entries@, i + 1);
        }
        let e = &entries[i];
        let mut idx: usize = out.len();
        let mut found_any = false;
        let mut j: usize = out.len();
        while j > 0
            invariant
                j <= out@.len(),
                totals_view(out@) == g,
                !found_any ==> forall|m: int| j <= m < out@.len() ==> (#[trigger] g[m]).0
                    != e.category_id,
                !found_any ==> idx == out@.len(),
                found_any ==> id_index(g, e.category_id) == Some(idx as int) && idx < out@.len(),
            decreases j,
        {
            j = j - 1;
            if !found_any && out[j].category_id == e.category_id {
                proof {
                    lemma_id_index_last_match(g, e.category_id, j as int);
                }
                found_any = true;
                idx = j;
            }
        }
        if found_any {
            assert(g[idx as int].2 <= u64::MAX - e.amount) by {
                let g2 = category_groups(entries@.subrange(0, i + 1));
                lemma_group_nonneg(g2);
                assert(g2[idx as int].2 == g[idx as int].2 + e.amount);
            }
            let ghost before = out@;
            let t = out[idx].total + e.amount;
            let name = out[idx].category_name.clone();
            out.set(idx, CategoryTotal { category_id: e.category_id, category_name: name, total: t });
            assert(totals_view(out@) =~= g.update(
                idx as int,
                (g[idx as int].0, g[idx as int].1, g[idx as int].2 + e.amount),
            ));
        } else {
            proof {
                lemma_id_index_none(g, e.category_id);
            }
            out.push(
                CategoryTotal {
                    category_id: e.category_id,
                    category_name: e.category_name.clone(),
                    total: e.amount,
                },
            );
            assert(totals_view(out@) =~= g.push(
                (e.category_id, e.category_name@, e.amount as int),
            ));
        }
        i = i + 1;
    }
    assert(entries@.subrange(0, entries@.len() as int) =~= entries@);
    out
}

proof fn lemma_id_index_last_match(g: Seq<(i64, Seq<char>, int)>, id: i64, j: int)
    requires
        0 <= j < g.len(),
        g[j].0 == id,
        forall|m: int| j < m < g.len() ==> (#[trigger] g[m]).0 != id,
    ensures
        id_index(g, id) == Some(j),
    decreases g.len(),
{
    if j < g.len() - 1 {
        let d = g.drop_last();
        assert forall|m: int| j < m < d.len() implies (#[trigger] d[m]).0 != id by {
            assert(d[m] == g[m]);
        }
        lemma_id_index_last_match(d, id, j);
    }
}

proof fn lemma_id_index_none(g: Seq<(i64, Seq<char>, int)>, id: i64)
    requires
        forall|m: int| 0 <= m < g.len() ==> (#[trigger] g[m]).0 != id,
    ensures
        id_index(g, id) is None,
    decreases g.len(),
{
    if g.len() > 0 {
        let d = g.drop_last();
        assert forall|m: int| 0 <= m < d.len() implies (#[trigger] d[m]).0 != id by {
            assert(d[m] == g[m]);
        }
        lemma_id_index_none(d, id);
    }
}


proof fn lemma_month_index_last_match(g: Seq<(u32, int)>, m: u32, j: int)
    requires
        0 <= j < g.len(),
        g[j].0 == m,
        forall|x: int| j < x < g.len() ==> (#[trigger] g[x]).0 != m,
    ensures
        month_index(g, m) == Some(j),
    decreases g.len(),
{
    if j < g.len() - 1 {
        let d = g.drop_last();
        assert forall|x: int| j < x < d.len() implies (#[trigger] d[x]).0 != m by {
            assert(d[x] == g[x]);
        }
        lemma_month_index_last_match(d, m, j);
    }
}

proof fn lemma_month_index_none(g: Seq<(u32, int)>, m: u32)
    requires
        forall|x: int| 0 <= x < g.len() ==> (#[trigger] g[x]).0 != m,
    ensures
        month_index(g, m) is None,
    decreases g.len(),
{
    if g.len() > 0 {
        let d = g.drop_last();
        assert forall|x: int| 0 <= x < d.len() implies (#[trigger] d[x]).0 != m by {
            assert(d[x] == g[x]);
        }
        lemma_month_index_none(d, m);
    }
}

/// Per-month totals in order of first appearance.
pub fn totals_by_month(entries: &[ReportEntry]) -> (r: Vec<MonthData>)
    requires
        amount_sum(entries@) <= u64::MAX,
    ensures
        months_view(r@) == month_groups(entries@),
{
    let mut out: Vec<MonthData> = Vec::new();
    let mut i: usize = 0;
    while i < entries.len()
        invariant
            i <= entries@.len(),
            months_view(out@) == month_groups(entries@.subrange(0, i as int)),
            amount_sum(entries@) <= u64::MAX,
        decreases entries@.len() - i,
    {
        let ghost pre = entries@.subrange(0, i as int);
        let ghost g = month_groups(pre);
        assert(entries@.subrange(0, i + 1).drop_last() =~= pre);
        assert(entries@.subrange(0, i + 1).last() == entries@[i as int]);
        proof {
            lemma_month_index(g, entries@[i as int].month);
            lemma_month_totals_conserved(entries@.subrange(0, i + 1));
            lemma_amount_sum_prefix(entries@, i + 1);
        }
        let e = &entries[i];
        let mut idx: usize = out.len();
        let mut found_any = false;
        let mut j: usize = out.len();
        while j > 0
            invariant
                j <= out@.len(),
                months_view(out@) == g,
                !found_any ==> forall|x: int| j <= x < out@.len() ==> (#[trigger] g[x]).0 != e.month,
                !found_any ==> idx == out@.len(),
                found_any ==> month_index(g, e.month) == Some(idx as int) && idx < out@.len(),
            decreases j,
        {
            j = j - 1;
            if !found_any && out[j].month == e.month {
                proof {
                    lemma_month_index_last_match(g, e.month, j as int);
                }
                found_any = true;
                idx = j;
            }
        }
        if found_any {
            assert(g[idx as int].1 <= u64::MAX - e.amount) by {
                let g2 = month_groups(entries@.subrange(0, i + 1));
                lemma_month_nonneg(g2);
                assert(g2[idx as int].1 == g[idx as int].1 + e.amount);
            }
            let t = out[idx].total + e.amount;
            out.set(idx, MonthData { month: e.month, total: t });
            assert(months_view(out@) =~= g.update(
                idx as int,
                (g[idx as int].0, g[idx as int].1 + e.amount),
            ));
        } else {
            proof {
                lemma_month_index_none(g, e.month);
            }
            out.push(MonthData { month: e.month, total: e.amount });
            assert(months_view(out@) =~= g.push((e.month, e.amount as int)));
        }
        i = i + 1;
    }
    assert(entries@.subrange(0, entries@.len() as int) =~= entries@);
    out
}

/// Report of one month's entries.
pub fn monthly_report(year: i32, month: u32, entries: &[ReportEntry]) -> (r: MonthlyReport)
    requires
        amount_sum(entries@) <= u64::MAX,
    ensures
        r.year == year,
        r.month == month,
        r.total == amount_sum(entries@),
        totals_view(r.by_category@) == category_groups(entries@),
{
    let total = total_amount(entries);
    let by_category = totals_by_category(entries);
    MonthlyReport { year, month, total, by_category }
}

/// Report of one ISO week's entries.
pub fn weekly_report(year: i32, week: u32, entries: &[ReportEntry]) -> (r: WeeklyReport)
    requires
        amount_sum(entries@) <= u64::MAX,
    ensures
        r.year == year,
        r.week == week,
        r.total == amount_sum(entries@),
        totals_view(r.by_category@) == category_groups(entries@),
{
    let total = total_amount(entries);
    let by_category = totals_by_category(entries);
    WeeklyReport { year, week, total, by_category }
}

/// Report of one year's entries, by category and by month.
pub fn yearly_report(year: i32, entries: &[ReportEntry]) -> (r: YearReport)
    requires
        amount_sum(entries@) <= u64::MAX,
    ensures
        r.year == year,
        r.total == amount_sum(entries@),
        totals_view(r.by_category@) == category_groups(entries@),
        months_view(r.by_month@) == month_groups(entries@),
{
    let total = total_amount(entries);
    let by_category = totals_by_category(entries);
    let by_month = totals_by_month(entries);
    YearReport { year, total, by_category, by_month }
}

// ---------------------------------------------------------------------------
// Charts
// ---------------------------------------------------------------------------

/// A chart to render: bars labelled by category, one bar per month row, or
/// nothing to draw (every total is zero), which renders as no bytes.
pub enum ChartRequest {
    Categories { title: String, bars: Vec<(String, NativeCurrency)> },
    Months { title: String, months: Vec<(u32, NativeCurrency)> },
    Empty,
}

pub open spec fn categories_all_zero(rows: Seq<CategoryTotal>) -> bool {
    forall|i: int| 0 <= i < rows.len() ==> #[trigger] rows[i].total == 0
}

pub open spec fn months_all_zero(rows: Seq<MonthData>) -> bool {
    forall|i: int| 0 <= i < rows.len() ==> #[trigger] rows[i].total == 0
}

fn all_categories_zero(rows: &Vec<CategoryTotal>) -> (r: bool)
    ensures
        r == categories_all_zero(rows@),
{
    let mut i: usize = 0;
    while i < rows.len()
        invariant
            i <= rows@.len(),
            forall|k: int| 0 <= k < i ==> #[trigger] rows@[k].total == 0,
        decreases rows@.len() - i,
    {
        if rows[i].total != 0 {
            return false;
        }
        i = i + 1;
    }
    true
}

fn all_months_zero(rows: &Vec<MonthData>) -> (r: bool)
    ensures
        r == months_all_zero(rows@),
{
    let mut i: usize = 0;
    while i < rows.len()
        invariant
            i <= rows@.len(),
            forall|k: int| 0 <= k < i ==> #[trigger] rows@[k].total == 0,
        decreases rows@.len() - i,
    {
        if rows[i].total != 0 {
            return false;
        }
        i = i + 1;
    }
    true
}

fn category_bars(rows: &Vec<CategoryTotal>) -> (r: Vec<(String, NativeCurrency)>)
    ensures
        r@.len() == rows@.len(),
        forall|i: int|
            0 <= i < r@.len() ==> (#[trigger] r@[i]).0@ == rows@[i].category_name@ && r@[i].1
                == rows@[i].total,
{
    let mut r: Vec<(String, NativeCurrency)> = Vec::new();
    let mut i: usize = 0;
    while i < rows.len()
        invariant
            i <= rows@.len(),
            r@.len() == i,
            forall|k: int|
                0 <= k < i ==> (#[trigger] r@[k]).0@ == rows@[k].category_name@ && r@[k].1
                    == rows@[k].total,
        decreases rows@.len() - i,
    {
        r.push((rows[i].category_name.clone(), rows[i].total));
        i = i + 1;
    }
    r
}

pub open spec fn category_chart_ok(title: Seq<char>, rows: Seq<CategoryTotal>, r: ChartRequest) -> bool {
    match r {
        ChartRequest::Categories { title: t, bars } => t@ == title && bars@.len() == rows.len()
            && forall|i: int|
            0 <= i < bars@.len() ==> (#[trigger] bars@[i]).0@ == rows[i].category_name@ && bars@[i].1
                == rows[i].total,
        _ => false,
    }
}

/// Bar chart of a month's categories, titled `Expenses {year}/{month}`;
/// nothing for an empty report, an empty chart when every total is zero.
pub fn generate_monthly_chart(report: &MonthlyReport) -> (r: Option<ChartRequest>)
    ensures
        report.by_category@.len() == 0 <==> r is None,
        (r matches Some(ChartRequest::Empty)) <==> (report.by_category@.len() > 0
            && categories_all_zero(report.by_category@)),
        match r {
            Some(ChartRequest::Empty) => true,
            Some(c) => category_chart_ok(
                "Expenses "@ + dec_int(report.year as int) + "/"@ + dec(report.month as nat),
                report.by_category@,
                c,
            ),
            None => true,
        },
{
    if report.by_category.len() == 0 {
        return None;
    }
    if all_categories_zero(&report.by_category) {
        return Some(ChartRequest::Empty);
    }
    let mut title = owned("Expenses ");
    let y = i64_to_string(report.year as i64);
    title.append(y.as_str());
    title.append("/");
    let m = u64_to_string(report.month as u64);
    title.append(m.as_str());
    Some(ChartRequest::Categories { title, bars: category_bars(&report.by_category) })
}

/// Bar chart of a week's categories, titled `Expenses {year} W{week}`;
/// nothing for an empty report, an empty chart when every total is zero.
pub fn generate_weekly_chart(report: &WeeklyReport) -> (r: Option<ChartRequest>)
    ensures
        report.by_category@.len() == 0 <==> r is None,
        (r matches Some(ChartRequest::Empty)) <==> (report.by_category@.len() > 0
            && categories_all_zero(report.by_category@)),
        match r {
            Some(ChartRequest::Empty) => true,
            Some(c) => category_chart_ok(
                "Expenses "@ + dec_int(report.year as int) + " W"@ + dec(report.week as nat),
                report.by_category@,
                c,
            ),
            None => true,
        },
{
    if report.by_category.len() == 0 {
        return None;
    }
    if all_categories_zero(&report.by_category) {
        return Some(ChartRequest::Empty);
    }
    let mut title = owned("Expenses ");
    let y = i64_to_string(report.year as i64);
    title.append(y.as_str());
    title.append(" W");
    let w = u64_to_string(report.week as u64);
    title.append(w.as_str());
    Some(ChartRequest::Categories { title, bars: category_bars(&report.by_category) })
}

/// Chart of a year's month rows, titled `Expenses {year}`; nothing when no
/// month has entries, an empty chart when every total is zero.
pub fn generate_year_chart(report: &YearReport) -> (r: Option<ChartRequest>)
    ensures
        report.by_month@.len() == 0 <==> r is None,
        (r matches Some(ChartRequest::Empty)) <==> (report.by_month@.len() > 0 && months_all_zero(
            report.by_month@,
        )),
        match r {
            Some(ChartRequest::Empty) => true,
            Some(ChartRequest::Months { title, months }) => title@ == "Expenses "@ + dec_int(
                report.year as int,
            ) && months@.len() == report.by_month@.len() && forall|i: int|
                0 <= i < months@.len() ==> (#[trigger] months@[i]).0 == report.by_month@[i].month
                    && months@[i].1 == report.by_month@[i].total,
            Some(ChartRequest::Categories { .. }) => false,
            None => true,
        },
{
    if report.by_month.len() == 0 {
        return None;
    }
    if all_months_zero(&report.by_month) {
        return Some(ChartRequest::Empty);
    }
    let mut title = owned("Expenses ");
    let y = i64_to_string(report.year as i64);
    title.append(y.as_str());
    let mut bars: Vec<(u32, NativeCurrency)> = Vec::new();
    let mut i: usize = 0;
    while i < report.by_month.len()
        invariant
            i <= report.by_month@.len(),
            bars@.len() == i,
            forall|k: int|
                0 <= k < i ==> (#[trigger] bars@[k]).0 == report.by_month@[k].month && bars@[k].1
                    == report.by_month@[k].total,
        decreases report.by_month@.len() - i,
    {
        bars.push((report.by_month[i].month, report.by_month[i].total));
        i = i + 1;
    }
    Some(ChartRequest::Months { title, months: bars })
}

} // verus!
