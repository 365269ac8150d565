//! The decisions of the migrator: which migrations to run, which batches to
//! roll back, and which applied row each migration's status comes from.
//!
//! The migrator itself (the tracking table and the migrations' `up`/`down`)
//! runs these plans against the database.

use vstd::prelude::*;
use crate::text::str_eq;

verus! {

/// Whether `name` is among `names`.
pub open spec fn has_name(names: Seq<String>, name: Seq<char>) -> bool {
    exists|i: int| 0 <= i < names.len() && #[trigger] names[i]@ == name
}

/// The positions of the registered migrations that are not applied, in order.
pub open spec fn pending_spec(registered: Seq<&str>, applied: Seq<String>) -> Seq<usize>
    decreases registered.len(),
{
    if registered.len() == 0 {
        seq![]
    } else {
        let prev = pending_spec(registered.drop_last(), applied);
        if has_name(applied, registered.last()@) {
            prev
        } else {
            prev.push((registered.len() - 1) as usize)
        }
    }
}

/// The batches `hi`, `hi - 1`, … down to `lo`, stopping before batch 0.
pub open spec fn rollback_spec(hi: int, lo: int) -> Seq<i32>
    decreases hi - lo + 1,
{
    if hi < lo || hi < 1 {
        seq![]
    } else {
        seq![hi as i32] + rollback_spec(hi - 1, lo)
    }
}

/// The position of the last of `names` equal to `name`.
fn last_index_of(names: &[String], name: &str) -> (r: Option<usize>)
    ensures
        match r {
            Some(i) => i < names@.len() && names@[i as int]@ == name@ && forall|j: int|
                i < j < names@.len() ==> #[trigger] names@[j]@ != name@,
            None => !has_name(names@, name@),
        },
{
    let mut j: usize = names.len();
    while j > 0
        invariant
            j <= names@.len(),
            forall|m: int| j <= m < names@.len() ==> #[trigger] names@[m]@ != name@,
        decreases j,
    {
        if str_eq(names[j - 1].as_str(), name) {
            return Some(j - 1);
        }
        j = j - 1;
    }
    None
}

/// The registered migrations to run, by position, in registration order:
/// those whose name is not among the applied ones.
pub fn pending_migrations(registered: &[&str], applied: &[String]) -> (r: Vec<usize>)
    ensures
        r@ == pending_spec(registered@, applied@),
{
    let mut out: Vec<usize> = Vec::new();
    let mut i: usize = 0;
    while i < registered.len()
        invariant
            i <= registered@.len(),
            out@ == pending_spec(registered@.take(i as int), applied@),
        decreases registered.len() - i,
    {
        assert(registered@.take(i + 1).drop_last() =~= registered@.take(i as int));
        if last_index_of(applied, registered[i]).is_none() {
            out.push(i);
        }
        i = i + 1;
    }
    assert(registered@.take(registered@.len() as int) =~= registered@);
    out
}

/// The batches to roll back, newest first: the last `n` batches up to
/// `max_batch`, none below batch 1.
pub fn rollback_batches(max_batch: i32, n: u32) -> (r: Vec<i32>)
    requires
        i32::MIN <= max_batch - (#[verifier::truncate] (n as i32)) <= i32::MAX,
        max_batch - (#[verifier::truncate] (n as i32)) + 1 <= i32::MAX,
    ensures
        r@ == rollback_spec(max_batch as int, max_batch - (#[verifier::truncate] (n as i32)) + 1),
{
    let k: i32 = #[verifier::truncate] (n as i32);
    let lo: i32 = max_batch - k + 1;
    let mut out: Vec<i32> = Vec::new();
    let mut b: i32 = max_batch;
    while b >= lo && b >= 1
        invariant
            lo == max_batch - (#[verifier::truncate] (n as i32)) + 1,
            b <= max_batch,
            out@ + rollback_spec(b as int, lo as int) == rollback_spec(max_batch as int, lo as int),
        decreases b - lo + 1,
    {
        out.push(b);
        assert(out@ + rollback_spec(b - 1, lo as int) =~= out@.drop_last() + rollback_spec(b as int, lo as int));
        b = b - 1;
    }
    assert(rollback_spec(b as int, lo as int) =~= Seq::<i32>::empty());
    assert(out@ =~= out@ + rollback_spec(b as int, lo as int));
    out
}

/// For each registered migration, the position of its row among the applied
/// names (the last one of that name), or `None` when it is pending.
pub fn status_rows(registered: &[&str], applied: &[String]) -> (r: Vec<Option<usize>>)
    ensures
        r@.len() == registered@.len(),
        forall|i: int| #![trigger r@[i]] 0 <= i < registered@.len() ==> match r@[i] {
            Some(j) => j < applied@.len() && applied@[j as int]@ == registered@[i]@ && forall|m: int|
                j < m < applied@.len() ==> #[trigger] applied@[m]@ != registered@[i]@,
            None => !has_name(applied@, registered@[i]@),
        },
{
    let mut out: Vec<Option<usize>> = Vec::new();
    let mut i: usize = 0;
    while i < registered.len()
        invariant
            i <= registered@.len(),
            out@.len() == i,
            forall|t: int| #![trigger out@[t]] 0 <= t < i ==> match out@[t] {
                Some(j) => j < applied@.len() && applied@[j as int]@ == registered@[t]@ && forall|m: int|
                    j < m < applied@.len() ==> #[trigger] applied@[m]@ != registered@[t]@,
                None => !has_name(applied@, registered@[t]@),
            },
        decreases registered.len() - i,
    {
        let found = last_index_of(applied, registered[i]);
        out.push(found);
        i = i + 1;
    }
    out
}

/// A rollback goes through batches newest first, each at least 1, between
/// the lowest batch asked for and the newest.
pub proof fn lemma_rollback_batches(hi: int, lo: int)
    requires
        i32::MIN <= lo,
        hi <= i32::MAX,
    ensures
        forall|i: int| #![trigger rollback_spec(hi, lo)[i]]
            0 <= i < rollback_spec(hi, lo).len() ==> lo <= rollback_spec(hi, lo)[i] <= hi && rollback_spec(hi, lo)[i] >= 1
                && rollback_spec(hi, lo)[i] == hi - i,
    decreases hi - lo + 1,
{
    if !(hi < lo || hi < 1) {
        lemma_rollback_batches(hi - 1, lo);
        let rest = rollback_spec(hi - 1, lo);
        let cur = rollback_spec(hi, lo);
        assert forall|i: int| #![trigger cur[i]] 0 <= i < cur.len() implies lo <= cur[i] <= hi && cur[i] >= 1 && cur[i]
            == hi - i by {
            if i > 0 {
                assert(cur[i] == rest[i - 1]);
            }
        }
    }
}

/// The migrations run are exactly the registered ones whose name is not
/// applied, in registration order.
pub proof fn lemma_pending(registered: Seq<&str>, applied: Seq<String>)
    requires
        registered.len() <= usize::MAX,
    ensures
        forall|i: int| #![trigger pending_spec(registered, applied)[i]]
            0 <= i < pending_spec(registered, applied).len() ==> {
                let p = pending_spec(registered, applied)[i] as int;
                0 <= p < registered.len() && !has_name(applied, registered[p]@)
            },
        forall|p: int|
            0 <= p < registered.len() && !has_name(applied, #[trigger] registered[p]@) ==> pending_spec(
                registered,
                applied,
            ).contains(p as usize),
    decreases registered.len(),
{
    if registered.len() > 0 {
        let t = registered.drop_last();
        lemma_pending(t, applied);
        let prev = pending_spec(t, applied);
        let cur = pending_spec(registered, applied);
        assert forall|i: int| #![trigger cur[i]] 0 <= i < cur.len() implies {
            let p = cur[i] as int;
            0 <= p < registered.len() && !has_name(applied, registered[p]@)
        } by {
            if i < prev.len() {
                assert(cur[i] == prev[i]);
                assert(t[prev[i] as int] == registered[prev[i] as int]);
            }
        }
        assert forall|p: int| 0 <= p < registered.len() && !has_name(applied, #[trigger] registered[p]@) implies cur.contains(
            p as usize,
        ) by {
            if p < registered.len() - 1 {
                assert(t[p] == registered[p]);
                let w = choose|w: int| 0 <= w < prev.len() && prev[w] == p as usize;
                assert(cur[w] == prev[w]);
            } else {
                assert(cur[cur.len() - 1] == p as usize);
            }
        }
    }
}

} // verus!
