//! Sites together with their runs.
use vstd::prelude::*;
use crate::seo_storage::models::{SiteModel, SiteRunModel};

verus! {

/// A site with its runs.
pub struct SiteWithSiteRuns {
    pub site: SiteModel,
    pub site_runs: Vec<SiteRunModel>,
}

/// Pairs each site with its runs, in order.
pub fn get_sites_with_site_runs(data: Vec<(SiteModel, Vec<SiteRunModel>)>) -> (res: Vec<SiteWithSiteRuns>)
    ensures
        res@.len() == data@.len(),
        forall|i: int| 0 <= i < data@.len() ==> (#[trigger] res@[i]).site == data@[i].0 && res@[i].site_runs == data@[i].1,
{
    let ghost d = data@;
    let mut rest = data;
    let mut out: Vec<SiteWithSiteRuns> = Vec::new();
    while rest.len() > 0
        invariant
            out@.len() + rest@.len() == d.len(),
            rest@ == d.skip(out@.len() as int),
            forall|i: int| 0 <= i < out@.len() ==> (#[trigger] out@[i]).site == d[i].0 && out@[i].site_runs == d[i].1,
        decreases rest@.len(),
    {
        let ghost k: int = out@.len() as int;
        let (site, site_runs) = rest.remove(0);
        assert(d[k] == (site, site_runs));
        out.push(SiteWithSiteRuns { site, site_runs });
        assert(rest@ =~= d.skip(k + 1));
    }
    out
}

} // verus!
