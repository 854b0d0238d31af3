//! The rows of rule outcomes that a crawl stores.
use vstd::prelude::*;
use crate::seo_plugins::site_analyzer::{AnalysisProgress, AnalysisProgressType, LinkModel, PageLink};
use crate::seo_plugins::utils::config::{results_view, ContextModel, RuleResult, RuleResultModel, SiteCheckContext};

verus! {

/// A stored outcome of a rule on a page: the page's URL, the rule, and
/// whether it passed.
pub struct RuleRow {
    pub url: String,
    pub rule_id: String,
    pub passed: bool,
}

/// The view of a row.
pub open spec fn row_view(r: RuleRow) -> (Seq<char>, Seq<char>, bool) {
    (r.url@, r.rule_id@, r.passed)
}

/// The views of rows.
pub open spec fn rows_view(v: Seq<RuleRow>) -> Seq<(Seq<char>, Seq<char>, bool)> {
    v.map_values(|r: RuleRow| row_view(r))
}

/// The URLs a site result concerns: those it lists, or those of all its
/// groups, in order.
pub open spec fn context_urls(c: ContextModel) -> Seq<Seq<char>> {
    match c {
        ContextModel::Urls(us) => us,
        ContextModel::Values(gs) => flatten_groups(gs),
        ContextModel::Empty => Seq::empty(),
    }
}

/// The URLs of the groups, group after group.
pub open spec fn flatten_groups(gs: Seq<(Seq<char>, Seq<Seq<char>>)>) -> Seq<Seq<char>>
    decreases gs.len(),
{
    if gs.len() == 0 { Seq::empty() } else { flatten_groups(gs.drop_last()) + gs.last().1 }
}

/// The rows of the site results: for each result, one row per URL it
/// concerns, with the result's rule and outcome.
pub open spec fn site_rows(rs: Seq<RuleResultModel>) -> Seq<(Seq<char>, Seq<char>, bool)>
    decreases rs.len(),
{
    if rs.len() == 0 {
        Seq::empty()
    } else {
        let r = rs.last();
        site_rows(rs.drop_last()) + context_urls(r.context).map_values(|u: Seq<char>| (u, r.rule_id, r.passed))
    }
}

/// Appends a row per URL of `urls`.
fn push_rows(out: &mut Vec<RuleRow>, urls: &Vec<String>, rule_id: &String, passed: bool)
    ensures
        rows_view(final(out)@) == rows_view(old(out)@) + urls@.map_values(|u: String| u@).map_values(|u: Seq<char>| (u, rule_id@, passed)),
{
    let ghost start = rows_view(out@);
    let ghost us = urls@.map_values(|u: String| u@).map_values(|u: Seq<char>| (u, rule_id@, passed));
    for i in 0..urls.len()
        invariant
            us == urls@.map_values(|u: String| u@).map_values(|u: Seq<char>| (u, rule_id@, passed)),
            rows_view(out@) == start + us.take(i as int),
    {
        let ghost prev = out@;
        let row = RuleRow { url: urls[i].clone(), rule_id: rule_id.clone(), passed };
        out.push(row);
        assert(rows_view(out@) =~= rows_view(prev).push(row_view(row)));
        assert(us.take(i + 1) =~= us.take(i as int).push(us[i as int]));
    }
    assert(us.take(urls@.len() as int) =~= us);
}

/// The rows to store for the results of the site rules.
pub fn site_rule_rows(site_rule_results: &Vec<RuleResult>) -> (res: Vec<RuleRow>)
    ensures
        rows_view(res@) == site_rows(results_view(site_rule_results@)),
{
    let ghost rs = results_view(site_rule_results@);
    let mut out: Vec<RuleRow> = Vec::new();
    assert(rs.take(0) =~= Seq::<RuleResultModel>::empty());
    for i in 0..site_rule_results.len()
        invariant
            rs == results_view(site_rule_results@),
            rows_view(out@) == site_rows(rs.take(i as int)),
    {
        let r = &site_rule_results[i];
        assert(rs.take(i + 1).drop_last() =~= rs.take(i as int));
        assert(rs.take(i + 1).last() == r.model());
        match &r.context {
            SiteCheckContext::Urls(urls) => {
                push_rows(&mut out, urls, &r.rule_id, r.passed);
            },
            SiteCheckContext::Values(groups) => {
                let ghost gv = r.context.model()->Values_0;
                let ghost before = rows_view(out@);
                assert(gv.take(0) =~= Seq::<(Seq<char>, Seq<Seq<char>>)>::empty());
                for j in 0..groups.len()
                    invariant
                        gv == groups@.map_values(|g: (String, Vec<String>)| crate::seo_plugins::utils::config::group_view(g)),
                        rows_view(out@) == before + flatten_groups(gv.take(j as int)).map_values(|u: Seq<char>| (u, r.rule_id@, r.passed)),
                {
                    let ghost mid = rows_view(out@);
                    push_rows(&mut out, &groups[j].1, &r.rule_id, r.passed);
                    assert(gv.take(j + 1).drop_last() =~= gv.take(j as int));
                    assert(gv.take(j + 1).last() == gv[j as int]);
                    assert(gv[j as int].1 == groups@[j as int].1@.map_values(|u: String| u@));
                    assert(flatten_groups(gv.take(j + 1)).map_values(|u: Seq<char>| (u, r.rule_id@, r.passed))
                        =~= flatten_groups(gv.take(j as int)).map_values(|u: Seq<char>| (u, r.rule_id@, r.passed))
                            + gv[j as int].1.map_values(|u: Seq<char>| (u, r.rule_id@, r.passed)));
                }
                assert(gv.take(groups@.len() as int) =~= gv);
            },
            SiteCheckContext::Empty => {
                assert(context_urls(r.context.model()).map_values(|u: Seq<char>| (u, r.rule_id@, r.passed)) =~= Seq::<(Seq<char>, Seq<char>, bool)>::empty());
            },
        }
    }
    assert(rs.take(site_rule_results@.len() as int) =~= rs);
    out
}

/// The rows to store for the rule results of a page: one per result, none
/// when the page has no result.
pub fn page_rule_rows(page: &PageLink) -> (res: Vec<RuleRow>)
    ensures
        rows_view(res@) == match page.model().result {
            Some(r) => r.results.map_values(|x: RuleResultModel| (page.url@, x.rule_id, x.passed)),
            None => Seq::empty(),
        },
{
    let mut out: Vec<RuleRow> = Vec::new();
    match &page.result {
        Some(r) => {
            let ghost want = results_view(r.results@).map_values(|x: RuleResultModel| (page.url@, x.rule_id, x.passed));
            for i in 0..r.results.len()
                invariant
                    want == results_view(r.results@).map_values(|x: RuleResultModel| (page.url@, x.rule_id, x.passed)),
                    rows_view(out@) == want.take(i as int),
            {
                let ghost prev = out@;
                let row = RuleRow { url: page.url.clone(), rule_id: r.results[i].rule_id.clone(), passed: r.results[i].passed };
                out.push(row);
                assert(rows_view(out@) =~= rows_view(prev).push(row_view(row)));
                assert(want.take(i + 1) =~= want.take(i as int).push(want[i as int]));
            }
            assert(want.take(r.results@.len() as int) =~= want);
        },
        None => {
            assert(rows_view(out@) =~= Seq::<(Seq<char>, Seq<char>, bool)>::empty());
        },
    }
    out
}

/// The rows a progress report asks to store: those of the analyzed page, or
/// those of the site results; none for any other report.
pub fn progress_rows(progress: &AnalysisProgress) -> (res: Vec<RuleRow>)
    ensures
        rows_view(res@) == match progress.progress_type {
            AnalysisProgressType::AnalyzedPage(page) => match page.model().result {
                Some(r) => r.results.map_values(|x: RuleResultModel| (page.url@, x.rule_id, x.passed)),
                None => Seq::empty(),
            },
            AnalysisProgressType::AnalyzedSite(results) => site_rows(results_view(results@)),
            AnalysisProgressType::FoundLink => Seq::empty(),
        },
{
    match &progress.progress_type {
        AnalysisProgressType::AnalyzedPage(page) => page_rule_rows(page),
        AnalysisProgressType::AnalyzedSite(results) => site_rule_rows(results),
        AnalysisProgressType::FoundLink => {
            let out: Vec<RuleRow> = Vec::new();
            assert(rows_view(out@) =~= Seq::<(Seq<char>, Seq<char>, bool)>::empty());
            out
        },
    }
}

} // verus!
