//! The table of pending jobs, kept in a `DashMap`.
use dashmap::DashMap;
use vstd::prelude::*;

use crate::daemon::pending_job::PendingJob;

verus! {

/// Trusted: a `dashmap::DashMap`, of which only its contents are spoken.
#[verifier::external_type_specification]
#[verifier::external_body]
#[verifier::reject_recursive_types(K)]
#[verifier::reject_recursive_types(V)]
#[verifier::reject_recursive_types(S)]
pub struct ExDashMap<K, V, S>(DashMap<K, V, S>);

/// The jobs that a table holds, by id.
pub uninterp spec fn job_contents(table: DashMap<u128, PendingJob>) -> Map<u128, PendingJob>;

/// Trusted: `DashMap::new` makes an empty map.
#[verifier::external_body]
pub(crate) fn empty_table() -> (result: DashMap<u128, PendingJob>)
    ensures
        job_contents(result) == (Map::<u128, PendingJob>::empty()),
{
    DashMap::new()
}

/// Trusted: `DashMap::insert` puts the job under its id and returns what was there.
#[verifier::external_body]
pub(crate) fn insert_job(table: &mut DashMap<u128, PendingJob>, id: u128, job: PendingJob) -> (result:
    Option<PendingJob>)
    ensures
        job_contents(*final(table)) == job_contents(*old(table)).insert(id, job),
        result == if job_contents(*old(table)).contains_key(id) {
            Some(job_contents(*old(table))[id])
        } else {
            None
        },
{
    table.insert(id, job)
}

/// Trusted: `DashMap::remove` takes out the job under the id, if there is one.
#[verifier::external_body]
pub(crate) fn remove_job(table: &mut DashMap<u128, PendingJob>, id: u128) -> (result: Option<
    PendingJob,
>)
    ensures
        job_contents(*final(table)) == job_contents(*old(table)).remove(id),
        result == if job_contents(*old(table)).contains_key(id) {
            Some(job_contents(*old(table))[id])
        } else {
            None
        },
{
    table.remove(&id).map(|entry| entry.1)
}

/// Trusted: `DashMap::iter` visits every entry once, in no particular order.
#[verifier::external_body]
pub(crate) fn job_ids(table: &DashMap<u128, PendingJob>) -> (result: Vec<u128>)
    ensures
        result@.no_duplicates(),
        result@.to_set() == job_contents(*table).dom(),
{
    table.iter().map(|entry| *entry.key()).collect()
}

} // verus!
