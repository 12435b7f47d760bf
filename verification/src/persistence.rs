//! The decisions behind the session store: which stored rows are handed back, and
//! which sessions count as stale. The store itself (SQLite) lives outside the library.
use vstd::prelude::*;

verus! {

/// The moment before which a session last saved counts as stale: `now` less the
/// allowed age, or 0 when the age reaches back past the epoch.
pub open spec fn spec_stale_cutoff(now: u64, max_age_secs: u64) -> u64 {
    if max_age_secs <= now {
        (now - max_age_secs) as u64
    } else {
        0
    }
}

pub fn stale_cutoff(now: u64, max_age_secs: u64) -> (r: u64)
    ensures
        r == spec_stale_cutoff(now, max_age_secs),
{
    now.saturating_sub(max_age_secs)
}

/// Is a session last saved at `updated_at` stale at this cutoff?
pub open spec fn spec_is_stale(updated_at: u64, cutoff: u64) -> bool {
    updated_at < cutoff
}

pub fn is_stale(updated_at: u64, cutoff: u64) -> (r: bool)
    ensures
        r == spec_is_stale(updated_at, cutoff),
{
    updated_at < cutoff
}

/// A session saved just now is never stale, whatever the allowed age.
pub proof fn law_fresh_session_not_stale(now: u64, max_age_secs: u64)
    ensures
        !spec_is_stale(now, spec_stale_cutoff(now, max_age_secs)),
        spec_stale_cutoff(now, max_age_secs) <= now,
{
}

/// A session is stale exactly when it was last saved more than the allowed age ago
/// (and the allowed age does not reach back past the epoch).
pub proof fn law_stale_iff_older_than_max_age(now: u64, max_age_secs: u64, updated_at: u64)
    ensures
        spec_is_stale(updated_at, spec_stale_cutoff(now, max_age_secs)) <==> (max_age_secs <= now
            && updated_at + max_age_secs < now),
{
}

pub open spec fn row_is_ok<T, E>() -> spec_fn(Result<T, E>) -> bool {
    |r: Result<T, E>| r is Ok
}

pub open spec fn row_is_err<T, E>() -> spec_fn(Result<T, E>) -> bool {
    |r: Result<T, E>| r is Err
}

/// The rows that were read, in order, and the read errors, in order.
pub open spec fn spec_split_rows<T, E>(rows: Seq<Result<T, E>>) -> (Seq<T>, Seq<E>) {
    (
        rows.filter(row_is_ok()).map_values(|r: Result<T, E>| r->Ok_0),
        rows.filter(row_is_err()).map_values(|r: Result<T, E>| r->Err_0),
    )
}

/// Keep the rows that could be read, in order; hand back the read errors (to be
/// reported) separately, in order.
pub fn split_rows<T, E>(rows: Vec<Result<T, E>>) -> (r: (Vec<T>, Vec<E>))
    ensures
        (r.0@, r.1@) == spec_split_rows(rows@),
{
    let ghost all = rows@;
    let n = rows.len();
    let mut good: Vec<T> = Vec::new();
    let mut bad: Vec<E> = Vec::new();
    let mut rest = rows;
    let mut i: usize = 0;
    while rest.len() > 0
        invariant
            i + rest@.len() == all.len(),
            all.len() == n,
            rest@ == all.skip(i as int),
            (good@, bad@) == spec_split_rows(all.take(i as int)),
        decreases rest@.len(),
    {
        let row = rest.remove(0);
        assert(rest@ =~= all.skip(i + 1));
        proof {
            assert(row == all[i as int]);
            let t = all.take(i + 1);
            assert(t.drop_last() =~= all.take(i as int));
            reveal_with_fuel(Seq::<_>::filter, 1);
        }
        match row {
            Ok(v) => good.push(v),
            Err(e) => bad.push(e),
        }
        proof {
            let t = all.take(i + 1);
            assert(good@ =~= spec_split_rows(t).0);
            assert(bad@ =~= spec_split_rows(t).1);
        }
        i += 1;
    }
    assert(all.take(all.len() as int) =~= all);
    (good, bad)
}

} // verus!
