//! The execution strategies' shared harness: each turns an ordered list of
//! hosts into records through a resolver and writes them to the sink.
use vstd::prelude::*;

use crate::csv_writer::{lemma_records_text_push, records_text, CsvWriter};
use crate::worker::{lemma_closed_pool_resolves_each_host_once, Pool};
use crate::Site;

verus! {

/// Resolves every host in input order on the calling thread, writing each
/// record to `csv` as soon as it is made.
pub fn single_thread<F: Fn(&String) -> Site>(hosts: &Vec<String>, resolve: &F, csv: &mut CsvWriter) -> (r: Vec<Site>)
    requires
        forall|h: &String| resolve.requires((h,)),
    ensures
        r.len() == hosts.len(),
        forall|i: int| 0 <= i < hosts.len() ==> resolve.ensures((&hosts@[i],), #[trigger] r@[i]),
        final(csv).text() == old(csv).text() + records_text(r@),
{
    let ghost start = csv.text();
    let mut r: Vec<Site> = Vec::new();
    let mut i: usize = 0;
    while i < hosts.len()
        invariant
            i <= hosts.len(),
            r.len() == i,
            forall|h: &String| resolve.requires((h,)),
            forall|k: int| 0 <= k < i ==> resolve.ensures((&hosts@[k],), #[trigger] r@[k]),
            csv.text() == start + records_text(r@),
        decreases hosts.len() - i,
    {
        let site = resolve(&hosts[i]);
        let line = site.to_csv();
        csv.add_record(line.as_str());
        proof {
            lemma_records_text_push(r@, site);
        }
        r.push(site);
        i = i + 1;
    }
    r
}

/// The records of units that all joined, in launch order.
pub open spec fn joined_sites(joined: Seq<Option<Site>>) -> Seq<Site> {
    joined.map_values(|o: Option<Site>| o.unwrap())
}

/// The join step of the fan-out strategy: `joined[i]` is what the unit
/// launched for the `i`-th host gave back, `None` where it could not be
/// joined. Joins in launch order; a unit that failed fails the whole run,
/// naming the first such unit, and nothing is written.
pub fn fork_join(joined: &Vec<Option<Site>>, csv: &mut CsvWriter) -> (r: Result<(), usize>)
    ensures
        r is Ok <==> forall|i: int| 0 <= i < joined.len() ==> (#[trigger] joined@[i]) is Some,
        r is Ok ==> final(csv).text() == old(csv).text() + records_text(joined_sites(joined@)),
        r is Err ==> {
            let i = r->Err_0 as int;
            &&& 0 <= i < joined.len()
            &&& joined@[i] is None
            &&& forall|k: int| 0 <= k < i ==> (#[trigger] joined@[k]) is Some
            &&& final(csv).text() == old(csv).text()
        },
{
    let mut i: usize = 0;
    while i < joined.len()
        invariant
            i <= joined.len(),
            forall|k: int| 0 <= k < i ==> (#[trigger] joined@[k]) is Some,
        decreases joined.len() - i,
    {
        if joined[i].is_none() {
            return Err(i);
        }
        i = i + 1;
    }
    let ghost start = csv.text();
    let mut i: usize = 0;
    while i < joined.len()
        invariant
            i <= joined.len(),
            forall|k: int| 0 <= k < joined.len() ==> (#[trigger] joined@[k]) is Some,
            csv.text() == start + records_text(joined_sites(joined@.subrange(0, i as int))),
        decreases joined.len() - i,
    {
        match &joined[i] {
            Some(site) => {
                let line = site.to_csv();
                csv.add_record(line.as_str());
                proof {
                    let pre = joined@.subrange(0, i as int);
                    lemma_records_text_push(joined_sites(pre), *site);
                    assert(joined_sites(pre).push(*site) =~= joined_sites(joined@.subrange(0, i as int + 1)));
                }
            },
            None => {},
        }
        i = i + 1;
    }
    assert(joined@.subrange(0, joined.len() as int) =~= joined@);
    Ok(())
}

/// The last step of a pool run, once the worker threads are joined:
/// `joined[w]` tells whether worker `w`'s thread was joined cleanly. A worker
/// that did not end cleanly fails the run, naming the first such worker, and
/// nothing is written; otherwise every record goes to `csv` in completion
/// order, one for each host the pool accepted.
pub fn worker_pool(pool: Pool, joined: &Vec<bool>, csv: &mut CsvWriter) -> (r: Result<(), usize>)
    requires
        pool.wf(),
        joined.len() == pool.size(),
    ensures
        r is Ok <==> forall|w: int| 0 <= w < pool.size() ==> #[trigger] pool.ended_cleanly(joined@, w),
        r is Ok ==> {
            &&& final(csv).text() == old(csv).text() + records_text(pool.results())
            &&& pool.results().len() == pool.accepted().len()
        },
        r is Err ==> {
            let w = r->Err_0 as int;
            &&& 0 <= w < pool.size()
            &&& !pool.ended_cleanly(joined@, w)
            &&& forall|v: int| 0 <= v < w ==> #[trigger] pool.ended_cleanly(joined@, v)
            &&& final(csv).text() == old(csv).text()
        },
{
    let ghost p = pool;
    match pool.into_results(joined) {
        Ok(sites) => {
            proof {
                lemma_closed_pool_resolves_each_host_once(&p);
            }
            csv.add_sites(&sites);
            Ok(())
        },
        Err(w) => Err(w),
    }
}

} // verus!
