//! Each stored outcome with its rule and page, grouped by category.
use vstd::prelude::*;
use crate::seo_storage::enums::{DbRuleCategory, DbSeverity};
use crate::seo_storage::models::{PageRuleResultModel, PluginRuleModel, SitePageModel};
use crate::seo_plugins::plugins::{first_match, lemma_first_match_bounds, lemma_first_match_prefix};

verus! {

/// An outcome with the rule's description and the page's URL.
pub struct FlatRuleResult {
    pub rule_id: String,
    pub name: String,
    pub plugin_name: String,
    pub passed: bool,
    pub message: String,
    pub severity: DbSeverity,
    pub category: DbRuleCategory,
    pub page_url: String,
}

/// The outcomes of each category that occurs, in the order in which the
/// categories first occur.
pub struct CategoryDetailResponse {
    pub data: Vec<(DbRuleCategory, Vec<FlatRuleResult>)>,
}

/// The view of a flat outcome.
pub struct FlatModel {
    pub rule_id: Seq<char>,
    pub name: Seq<char>,
    pub plugin_name: Seq<char>,
    pub passed: bool,
    pub message: Seq<char>,
    pub severity: DbSeverity,
    pub category: DbRuleCategory,
    pub page_url: Seq<char>,
}

/// The view of a flat outcome.
pub open spec fn flat_view(f: FlatRuleResult) -> FlatModel {
    FlatModel {
        rule_id: f.rule_id@,
        name: f.name@,
        plugin_name: f.plugin_name@,
        passed: f.passed,
        message: f.message@,
        severity: f.severity,
        category: f.category,
        page_url: f.page_url@,
    }
}

/// The views of the groups of outcomes.
pub open spec fn groups_view(v: Seq<(DbRuleCategory, Vec<FlatRuleResult>)>) -> Seq<(DbRuleCategory, Seq<FlatModel>)> {
    v.map_values(|g: (DbRuleCategory, Vec<FlatRuleResult>)| (g.0, g.1@.map_values(|f: FlatRuleResult| flat_view(f))))
}

/// The flat outcome of a stored outcome on a page under a rule: the rule's
/// passed or failed message, as the outcome went.
pub open spec fn flat_of(r: PageRuleResultModel, page: SitePageModel, rule: PluginRuleModel) -> FlatModel {
    FlatModel {
        rule_id: r.rule_id@,
        name: rule.name@,
        plugin_name: rule.plugin_name@,
        passed: r.passed,
        message: if r.passed { rule.passed_message@ } else { rule.failed_message@ },
        severity: rule.severity,
        category: rule.category,
        page_url: page.url@,
    }
}

/// The group of `groups` under category `c`, when there is one.
pub open spec fn group_of(groups: Seq<(DbRuleCategory, Seq<FlatModel>)>, c: DbRuleCategory) -> Option<int> {
    first_match(groups, under(c))
}

/// The group is under category `c`.
pub open spec fn under(c: DbRuleCategory) -> spec_fn((DbRuleCategory, Seq<FlatModel>)) -> bool {
    |g: (DbRuleCategory, Seq<FlatModel>)| g.0 == c
}

/// The outcomes of `rows` grouped by category, in the order in which the
/// categories first occur, each group in the order of the rows.
pub open spec fn detail_groups(rows: Seq<(PageRuleResultModel, Option<SitePageModel>, Option<PluginRuleModel>)>) -> Seq<(DbRuleCategory, Seq<FlatModel>)>
    decreases rows.len(),
{
    if rows.len() == 0 {
        Seq::empty()
    } else {
        let g = detail_groups(rows.drop_last());
        let row = rows.last();
        let f = flat_of(row.0, row.1->Some_0, row.2->Some_0);
        match group_of(g, f.category) {
            Some(j) => g.update(j, (f.category, g[j].1.push(f))),
            None => g.push((f.category, seq![f])),
        }
    }
}

/// Groups the stored outcomes by category; every outcome must come with its
/// page and its rule.
pub fn get_category_detail(res: Vec<(PageRuleResultModel, Option<SitePageModel>, Option<PluginRuleModel>)>) -> (out: Result<CategoryDetailResponse, String>)
    requires
        forall|i: int| 0 <= i < res@.len() ==> (#[trigger] res@[i]).1 is Some && res@[i].2 is Some,
    ensures
        out matches Ok(d) && groups_view(d.data@) == detail_groups(res@),
{
    let ghost rows = res@;
    let mut groups: Vec<(DbRuleCategory, Vec<FlatRuleResult>)> = Vec::new();
    assert(rows.take(0) =~= Seq::<(PageRuleResultModel, Option<SitePageModel>, Option<PluginRuleModel>)>::empty());
    for i in 0..res.len()
        invariant
            rows == res@,
            forall|i: int| 0 <= i < rows.len() ==> (#[trigger] rows[i]).1 is Some && rows[i].2 is Some,
            groups_view(groups@) == detail_groups(rows.take(i as int)),
    {
        assert(rows.take(i + 1).drop_last() =~= rows.take(i as int));
        assert(rows.take(i + 1).last() == rows[i as int]);
        let (r, page, rule) = &res[i];
        assert(rows[i as int].1 is Some && rows[i as int].2 is Some);
        let page = page.as_ref().unwrap();
        let rule = rule.as_ref().unwrap();
        let flat = FlatRuleResult {
            rule_id: r.rule_id.clone(),
            name: rule.name.clone(),
            plugin_name: rule.plugin_name.clone(),
            passed: r.passed,
            message: if r.passed { rule.passed_message.clone() } else { rule.failed_message.clone() },
            severity: rule.severity,
            category: rule.category,
            page_url: page.url.clone(),
        };
        let ghost f = flat_view(flat);
        assert(f == flat_of(rows[i as int].0, rows[i as int].1->Some_0, rows[i as int].2->Some_0));
        let c = rule.category;
        let ghost g = groups_view(groups@);
        let ghost pred = under(c);
        let mut j: usize = 0;
        let mut found = false;
        assert(g.take(0) =~= Seq::<(DbRuleCategory, Seq<FlatModel>)>::empty());
        while j < groups.len() && !found
            invariant
                0 <= j <= groups@.len(),
                g == groups_view(groups@),
                pred == under(c),
                found ==> j < groups@.len() && first_match(g, pred) == Some(j as int),
                !found ==> first_match(g.take(j as int), pred) is None,
            decreases groups@.len() - j + (if found { 0int } else { 1int }),
        {
            assert(g[j as int].0 == groups@[j as int].0);
            if groups[j].0 == c {
                proof { lemma_first_match_prefix(g, pred, j as int); }
                found = true;
            } else {
                assert(g.take(j + 1).drop_last() =~= g.take(j as int));
                assert(g.take(j + 1).last() == g[j as int]);
                j = j + 1;
            }
        }
        if found {
            let ghost before = groups@;
            proof { lemma_first_match_bounds(g, pred); }
            let (c0, mut fs) = groups.remove(j);
            let ghost fs0 = fs@;
            fs.push(flat);
            assert(fs@.map_values(|x: FlatRuleResult| flat_view(x)) =~= fs0.map_values(|x: FlatRuleResult| flat_view(x)).push(f));
            groups.insert(j, (c0, fs));
            assert(groups_view(groups@) =~= g.update(j as int, (c, g[j as int].1.push(f))));
        } else {
            proof { lemma_first_match_prefix(g, pred, j as int); }
            let fs = vec![flat];
            assert(fs@.map_values(|x: FlatRuleResult| flat_view(x)) =~= seq![f]);
            groups.push((c, fs));
            assert(groups_view(groups@) =~= g.push((c, seq![f])));
        }
    }
    assert(rows.take(res@.len() as int) =~= rows);
    Ok(CategoryDetailResponse { data: groups })
}

} // verus!
