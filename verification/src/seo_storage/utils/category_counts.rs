//! How many rule outcomes passed and failed, per category.
use vstd::prelude::*;
use crate::seo_storage::enums::DbRuleCategory;
use crate::seo_storage::models::{PageRuleResultModel, PluginRuleModel};
use crate::seo_plugins::plugins::{count_where, lemma_count_le, lemma_count_step};

verus! {

/// How many outcomes there are, and how many of them passed and failed.
#[derive(Clone, Copy)]
pub struct CategoryResult {
    pub total: i32,
    pub passed: i32,
    pub failed: i32,
}

/// The counts of each category that occurs, in the order in which the
/// categories first occur.
pub struct CategoryCounts {
    pub entries: Vec<(DbRuleCategory, CategoryResult)>,
}

/// The counts of each category, with the sums over all categories.
pub struct CategoryResultDisplay {
    pub data: CategoryCounts,
    pub total: i32,
    pub passed: i32,
    pub failed: i32,
}

/// The outcome passed.
pub open spec fn is_passed(r: PageRuleResultModel) -> bool {
    r.passed
}

/// How many outcomes of the rules of category `c` there are.
pub open spec fn cat_total(data: Seq<(PluginRuleModel, Vec<PageRuleResultModel>)>, c: DbRuleCategory) -> int
    decreases data.len(),
{
    if data.len() == 0 {
        0
    } else {
        cat_total(data.drop_last(), c) + if data.last().0.category == c { data.last().1@.len() as int } else { 0 }
    }
}

/// How many outcomes of the rules of category `c` passed.
pub open spec fn cat_passed(data: Seq<(PluginRuleModel, Vec<PageRuleResultModel>)>, c: DbRuleCategory) -> int
    decreases data.len(),
{
    if data.len() == 0 {
        0
    } else {
        cat_passed(data.drop_last(), c) + if data.last().0.category == c {
            count_where(data.last().1@, |r: PageRuleResultModel| is_passed(r)) as int
        } else {
            0
        }
    }
}

/// The categories that occur in `data`, each once, in the order in which
/// they first occur.
pub open spec fn categories_in(data: Seq<(PluginRuleModel, Vec<PageRuleResultModel>)>) -> Seq<DbRuleCategory>
    decreases data.len(),
{
    if data.len() == 0 {
        Seq::empty()
    } else {
        let prev = categories_in(data.drop_last());
        if prev.contains(data.last().0.category) { prev } else { prev.push(data.last().0.category) }
    }
}

/// No category occurs twice.
proof fn lemma_categories_distinct(data: Seq<(PluginRuleModel, Vec<PageRuleResultModel>)>)
    ensures
        forall|a: int, b: int| 0 <= a < b < categories_in(data).len() ==> categories_in(data)[a] != categories_in(data)[b],
    decreases data.len(),
{
    if data.len() > 0 {
        lemma_categories_distinct(data.drop_last());
        let prev = categories_in(data.drop_last());
        let x = data.last().0.category;
        if !prev.contains(x) {
            assert forall|a: int, b: int| 0 <= a < b < prev.push(x).len() implies prev.push(x)[a] != prev.push(x)[b] by {
                if b == prev.len() {
                    if prev[a] == x { assert(prev.contains(x)); }
                }
            }
        }
    }
}

/// Counts grow along the data, and a category that does not occur has none.
proof fn lemma_cat_prefix(data: Seq<(PluginRuleModel, Vec<PageRuleResultModel>)>, c: DbRuleCategory, n: int)
    requires
        0 <= n <= data.len(),
    ensures
        0 <= cat_passed(data.take(n), c) <= cat_total(data.take(n), c) <= cat_total(data, c),
        !categories_in(data.take(n)).contains(c) ==> cat_total(data.take(n), c) == 0 && cat_passed(data.take(n), c) == 0,
    decreases data.len() - n,
{
    lemma_cat_basic(data.take(n), c);
    if n < data.len() {
        lemma_cat_prefix(data, c, n + 1);
        assert(data.take(n + 1).drop_last() =~= data.take(n));
    } else {
        assert(data.take(n) =~= data);
    }
}

/// Passed outcomes are among all outcomes, and a category that does not
/// occur has none.
proof fn lemma_cat_basic(data: Seq<(PluginRuleModel, Vec<PageRuleResultModel>)>, c: DbRuleCategory)
    ensures
        0 <= cat_passed(data, c) <= cat_total(data, c),
        !categories_in(data).contains(c) ==> cat_total(data, c) == 0 && cat_passed(data, c) == 0,
    decreases data.len(),
{
    if data.len() > 0 {
        lemma_cat_basic(data.drop_last(), c);
        lemma_count_le(data.last().1@, |r: PageRuleResultModel| is_passed(r));
        let prev = categories_in(data.drop_last());
        if !categories_in(data).contains(c) {
            if prev.contains(c) {
                let j = choose|j: int| 0 <= j < prev.len() && prev[j] == c;
                if !prev.contains(data.last().0.category) {
                    assert(prev.push(data.last().0.category)[j] == c);
                }
            }
            if data.last().0.category == c {
                if !prev.contains(c) {
                    assert(prev.push(c)[prev.len() as int] == c);
                }
            }
        }
    }
}

/// Counts the outcomes of each category: how many there are, how many
/// passed, and how many failed.
pub fn get_category_counts(data: Vec<(PluginRuleModel, Vec<PageRuleResultModel>)>) -> (res: CategoryCounts)
    requires
        forall|c: DbRuleCategory| cat_total(data@, c) <= i32::MAX,
    ensures
        res.entries@.len() == categories_in(data@).len(),
        forall|j: int| 0 <= j < res.entries@.len() ==> ({
            let c = categories_in(data@)[j];
            &&& (#[trigger] res.entries@[j]).0 == c
            &&& res.entries@[j].1.total == cat_total(data@, c)
            &&& res.entries@[j].1.passed == cat_passed(data@, c)
            &&& res.entries@[j].1.failed == cat_total(data@, c) - cat_passed(data@, c)
        }),
{
    let ghost d = data@;
    let mut out: Vec<(DbRuleCategory, CategoryResult)> = Vec::new();
    assert(d.take(0) =~= Seq::<(PluginRuleModel, Vec<PageRuleResultModel>)>::empty());
    for i in 0..data.len()
        invariant
            d == data@,
            forall|c: DbRuleCategory| cat_total(d, c) <= i32::MAX,
            out@.len() == categories_in(d.take(i as int)).len(),
            forall|j: int| 0 <= j < out@.len() ==> ({
                let c = categories_in(d.take(i as int))[j];
                &&& (#[trigger] out@[j]).0 == c
                &&& out@[j].1.total == cat_total(d.take(i as int), c)
                &&& out@[j].1.passed == cat_passed(d.take(i as int), c)
                &&& out@[j].1.failed == cat_total(d.take(i as int), c) - cat_passed(d.take(i as int), c)
            }),
    {
        let ghost pre = d.take(i as int);
        let ghost post = d.take(i + 1);
        assert(post.drop_last() =~= pre);
        assert(post.last() == d[i as int]);
        let (rule, results) = &data[i];
        let c = rule.category;
        let count = results.len();
        let ghost p = |r: PageRuleResultModel| is_passed(r);
        let mut passed: usize = 0;
        for k in 0..results.len()
            invariant
                p == (|r: PageRuleResultModel| is_passed(r)),
                passed == count_where(results@.take(k as int), p),
                passed <= k,
        {
            proof { lemma_count_step(results@, p, k as int); }
            if results[k].passed {
                passed = passed + 1;
            }
        }
        assert(results@.take(results@.len() as int) =~= results@);
        proof {
            lemma_cat_prefix(d, c, i + 1);
            lemma_cat_prefix(d, c, i as int);
        }
        let mut j: usize = 0;
        let mut found = false;
        while j < out.len() && !found
            invariant
                0 <= j <= out@.len(),
                found ==> j < out@.len() && out@[j as int].0 == c,
                !found ==> forall|t: int| 0 <= t < j ==> out@[t].0 != c,
            decreases out@.len() - j + (if found { 0int } else { 1int }),
        {
            if out[j].0 == c {
                found = true;
            } else {
                j = j + 1;
            }
        }
        let ghost cats = categories_in(pre);
        if found {
            let old_r = out[j].1;
            assert(cats[j as int] == c);
            assert(cats.contains(c));
            assert(categories_in(post) == cats);
            let new_r = CategoryResult {
                total: old_r.total + count as i32,
                passed: old_r.passed + passed as i32,
                failed: old_r.failed + (count - passed) as i32,
            };
            let ghost prev_out = out@;
            out.set(j, (c, new_r));
            assert forall|t: int| 0 <= t < out@.len() implies ({
                let cc = categories_in(post)[t];
                &&& (#[trigger] out@[t]).0 == cc
                &&& out@[t].1.total == cat_total(post, cc)
                &&& out@[t].1.passed == cat_passed(post, cc)
                &&& out@[t].1.failed == cat_total(post, cc) - cat_passed(post, cc)
            }) by {
                if t != j {
                    assert(out@[t] == prev_out[t]);
                    assert(cats[t] != c) by {
                        lemma_categories_distinct(pre);
                        if t < j {
                            assert(cats[t] != cats[j as int]);
                        } else {
                            assert(cats[j as int] != cats[t]);
                        }
                    }
                }
            }
        } else {
            assert(!cats.contains(c)) by {
                if cats.contains(c) {
                    let t = choose|t: int| 0 <= t < cats.len() && cats[t] == c;
                    assert(out@[t].0 == c);
                }
            }
            assert(categories_in(post) == cats.push(c));
            let ghost prev_out = out@;
            out.push((c, CategoryResult { total: count as i32, passed: passed as i32, failed: (count - passed) as i32 }));
            assert forall|t: int| 0 <= t < out@.len() implies ({
                let cc = categories_in(post)[t];
                &&& (#[trigger] out@[t]).0 == cc
                &&& out@[t].1.total == cat_total(post, cc)
                &&& out@[t].1.passed == cat_passed(post, cc)
                &&& out@[t].1.failed == cat_total(post, cc) - cat_passed(post, cc)
            }) by {
                if t < prev_out.len() {
                    assert(out@[t] == prev_out[t]);
                    assert(cats[t] != c);
                }
            }
        }
    }
    assert(d.take(data@.len() as int) =~= d);
    CategoryCounts { entries: out }
}

/// The sum of the values in order stays within `i32` at every step.
pub open spec fn sums_fit(vals: Seq<int>) -> bool {
    forall|k: int| 0 <= k <= vals.len() ==> i32::MIN <= #[trigger] sum_of(vals.take(k)) <= i32::MAX
}

/// The sum of the values.
pub open spec fn sum_of(vals: Seq<int>) -> int
    decreases vals.len(),
{
    if vals.len() == 0 { 0 } else { sum_of(vals.drop_last()) + vals.last() }
}

/// The totals, passed counts and failed counts of the categories.
pub open spec fn totals_of(e: Seq<(DbRuleCategory, CategoryResult)>) -> Seq<int> {
    e.map_values(|x: (DbRuleCategory, CategoryResult)| x.1.total as int)
}

/// The passed counts of the categories.
pub open spec fn passed_of(e: Seq<(DbRuleCategory, CategoryResult)>) -> Seq<int> {
    e.map_values(|x: (DbRuleCategory, CategoryResult)| x.1.passed as int)
}

/// The failed counts of the categories.
pub open spec fn failed_of(e: Seq<(DbRuleCategory, CategoryResult)>) -> Seq<int> {
    e.map_values(|x: (DbRuleCategory, CategoryResult)| x.1.failed as int)
}

/// Sums one kind of count over the categories.
fn sum_counts(e: &Vec<(DbRuleCategory, CategoryResult)>, which: u8) -> (res: i32)
    requires
        which < 3,
        sums_fit(if which == 0 { totals_of(e@) } else if which == 1 { passed_of(e@) } else { failed_of(e@) }),
    ensures
        res == sum_of(if which == 0 { totals_of(e@) } else if which == 1 { passed_of(e@) } else { failed_of(e@) }),
{
    let ghost vals = if which == 0 { totals_of(e@) } else if which == 1 { passed_of(e@) } else { failed_of(e@) };
    let mut s: i32 = 0;
    assert(vals.take(0) =~= Seq::<int>::empty());
    for i in 0..e.len()
        invariant
            which < 3,
            vals == (if which == 0 { totals_of(e@) } else if which == 1 { passed_of(e@) } else { failed_of(e@) }),
            vals.len() == e@.len(),
            sums_fit(vals),
            s == sum_of(vals.take(i as int)),
    {
        assert(vals.take(i + 1).drop_last() =~= vals.take(i as int));
        assert(vals.take(i + 1).last() == vals[i as int]);
        assert(i32::MIN <= sum_of(vals.take(i + 1)) <= i32::MAX);
        let x = if which == 0 { e[i].1.total } else if which == 1 { e[i].1.passed } else { e[i].1.failed };
        assert(x == vals[i as int]);
        s = s + x;
    }
    assert(vals.take(e@.len() as int) =~= vals);
    s
}

/// The counts of each category with their sums over all categories.
pub fn get_category_result_display(data: CategoryCounts) -> (res: CategoryResultDisplay)
    requires
        sums_fit(totals_of(data.entries@)),
        sums_fit(passed_of(data.entries@)),
        sums_fit(failed_of(data.entries@)),
    ensures
        res.data.entries@ == data.entries@,
        res.total == sum_of(totals_of(data.entries@)),
        res.passed == sum_of(passed_of(data.entries@)),
        res.failed == sum_of(failed_of(data.entries@)),
{
    let total = sum_counts(&data.entries, 0);
    let passed = sum_counts(&data.entries, 1);
    let failed = sum_counts(&data.entries, 2);
    CategoryResultDisplay { data, total, passed, failed }
}

impl CategoryCounts {
    /// The counts of category `c`, if it occurs.
    pub fn get(&self, c: DbRuleCategory) -> (res: Option<CategoryResult>)
        ensures
            match res {
                Some(r) => exists|j: int| 0 <= j < self.entries@.len() && #[trigger] self.entries@[j] == (c, r),
                None => forall|j: int| 0 <= j < self.entries@.len() ==> (#[trigger] self.entries@[j]).0 != c,
            },
    {
        for j in 0..self.entries.len()
            invariant
                forall|t: int| 0 <= t < j ==> (#[trigger] self.entries@[t]).0 != c,
        {
            if self.entries[j].0 == c {
                assert(self.entries@[j as int] == (c, self.entries@[j as int].1));
                return Some(self.entries[j].1);
            }
        }
        None
    }

    /// How many categories occur.
    pub fn len(&self) -> (res: usize)
        ensures
            res == self.entries@.len(),
    {
        self.entries.len()
    }
}

} // verus!
