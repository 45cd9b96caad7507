use vstd::prelude::*;
use crate::age::age_in_whole_days;
use crate::age::age_days;
use crate::record::BranchRecord;
use crate::record::BranchRecordModel;

verus! {

/// Whether `name` occurs in the protected-name list.  Membership is exact,
/// case-sensitive match.
pub open spec fn is_protected_name(name: Seq<char>, protected: Seq<Seq<char>>) -> bool {
    exists|i: int| 0 <= i < protected.len() && protected[i] == name
}

/// Whether a branch is stale under the policy: its name is not protected and
/// its whole-day age strictly exceeds the threshold.
pub open spec fn is_stale_record(
    r: BranchRecordModel,
    protected: Seq<Seq<char>>,
    threshold_days: u32,
    now: int,
) -> bool {
    &&& !is_protected_name(r.name, protected)
    &&& age_in_whole_days(now, r.last_commit_epoch) > threshold_days
}

/// The stale subsequence of `s`: the records that are stale under the policy,
/// in the order they appear in `s`.
pub open spec fn stale_of(
    s: Seq<BranchRecordModel>,
    protected: Seq<Seq<char>>,
    threshold_days: u32,
    now: int,
) -> Seq<BranchRecordModel>
    decreases s.len(),
{
    if s.len() == 0 {
        Seq::empty()
    } else {
        let rest = stale_of(s.drop_last(), protected, threshold_days, now);
        if is_stale_record(s.last(), protected, threshold_days, now) {
            rest.push(s.last())
        } else {
            rest
        }
    }
}

/// Decides protected-list membership for one name.
pub fn name_is_protected(name: &String, protected: &Vec<String>) -> (r: bool)
    ensures
        r == is_protected_name(name@, protected.deep_view()),
{
    let n = protected.len();
    let mut i: usize = 0;
    while i < n
        invariant
            n == protected@.len(),
            i <= n,
            forall|k: int| 0 <= k < i ==> protected.deep_view()[k] != name@,
        decreases n - i,
    {
        if protected[i] == *name {
            assert(protected.deep_view()[i as int] == name@);
            return true;
        }
        assert(protected.deep_view()[i as int] != name@);
        i = i + 1;
    }
    false
}

/// Decides staleness for one record.
pub fn record_is_stale(
    r: &BranchRecord,
    protected: &Vec<String>,
    threshold_days: u32,
    now: i64,
) -> (b: bool)
    ensures
        b == is_stale_record(r@, protected.deep_view(), threshold_days, now as int),
{
    if name_is_protected(&r.name, protected) {
        return false;
    }
    let age = age_days(now, r.last_commit_epoch);
    age > threshold_days as i64
}

/// Filters the branch records down to the stale ones, keeping their relative
/// order.  The filter is deterministic and pure: the same inputs always give
/// the same stale sequence.
pub fn classify(
    records: &Vec<BranchRecord>,
    protected: &Vec<String>,
    threshold_days: u32,
    now: i64,
) -> (r: Vec<BranchRecord>)
    ensures
        r.deep_view() == stale_of(records.deep_view(), protected.deep_view(), threshold_days, now as int),
{
    let mut out: Vec<BranchRecord> = Vec::new();
    let n = records.len();
    let mut i: usize = 0;
    while i < n
        invariant
            n == records@.len(),
            i <= n,
            out.deep_view() == stale_of(
                records.deep_view().take(i as int),
                protected.deep_view(),
                threshold_days,
                now as int,
            ),
        decreases n - i,
    {
        let ghost pre = out.deep_view();
        let ghost s = records.deep_view();
        if record_is_stale(&records[i], protected, threshold_days, now) {
            out.push(records[i].clone());
        }
        proof {
            assert(s.take(i + 1).drop_last() =~= s.take(i as int));
            assert(s.take(i + 1).last() == s[i as int]);
            assert(s[i as int] == records@[i as int]@);
            if is_stale_record(s[i as int], protected.deep_view(), threshold_days, now as int) {
                assert(out.deep_view() =~= pre.push(records@[i as int]@));
            } else {
                assert(out.deep_view() =~= pre);
            }
        }
        i = i + 1;
    }
    proof {
        assert(records.deep_view().take(n as int) =~= records.deep_view());
    }
    out
}

/// A stale sequence contains exactly the input records that are stale.
pub proof fn lemma_stale_membership(
    s: Seq<BranchRecordModel>,
    protected: Seq<Seq<char>>,
    threshold_days: u32,
    now: int,
    r: BranchRecordModel,
)
    ensures
        stale_of(s, protected, threshold_days, now).contains(r) <==> (s.contains(r)
            && is_stale_record(r, protected, threshold_days, now)),
    decreases s.len(),
{
    if s.len() == 0 {
    } else {
        let rest = stale_of(s.drop_last(), protected, threshold_days, now);
        lemma_stale_membership(s.drop_last(), protected, threshold_days, now, r);
        assert(s.drop_last().contains(r) || r == s.last() ==> s.contains(r)) by {
            if s.drop_last().contains(r) {
                let i = choose|i: int| 0 <= i < s.drop_last().len() && s.drop_last()[i] == r;
                assert(s[i] == r);
            } else if r == s.last() {
                assert(s[s.len() - 1] == r);
            }
        }
        assert(s.contains(r) ==> s.drop_last().contains(r) || r == s.last()) by {
            if s.contains(r) {
                let i = choose|i: int| 0 <= i < s.len() && s[i] == r;
                if i < s.len() - 1 {
                    assert(s.drop_last()[i] == r);
                }
            }
        }
        if is_stale_record(s.last(), protected, threshold_days, now) {
            assert(rest.push(s.last()).contains(r) <==> rest.contains(r) || r == s.last()) by {
                if rest.push(s.last()).contains(r) {
                    let i = choose|i: int| 0 <= i < rest.push(s.last()).len()
                        && rest.push(s.last())[i] == r;
                    if i < rest.len() {
                        assert(rest[i] == r);
                    }
                }
                if rest.contains(r) {
                    let i = choose|i: int| 0 <= i < rest.len() && rest[i] == r;
                    assert(rest.push(s.last())[i] == r);
                }
                if r == s.last() {
                    assert(rest.push(s.last())[rest.len() as int] == r);
                }
            }
        }
    }
}

/// Boundary law: a record whose age equals the threshold exactly is never
/// classified stale — the staleness condition is strict.
pub proof fn lemma_threshold_boundary_excluded(
    s: Seq<BranchRecordModel>,
    protected: Seq<Seq<char>>,
    threshold_days: u32,
    now: int,
    r: BranchRecordModel,
)
    requires
        age_in_whole_days(now, r.last_commit_epoch) == threshold_days as int,
    ensures
        !stale_of(s, protected, threshold_days, now).contains(r),
{
    lemma_stale_membership(s, protected, threshold_days, now, r);
}

/// Protection law: a record whose name is protected is never classified
/// stale, regardless of its age.
pub proof fn lemma_protected_excluded(
    s: Seq<BranchRecordModel>,
    protected: Seq<Seq<char>>,
    threshold_days: u32,
    now: int,
    r: BranchRecordModel,
)
    requires
        is_protected_name(r.name, protected),
    ensures
        !stale_of(s, protected, threshold_days, now).contains(r),
{
    lemma_stale_membership(s, protected, threshold_days, now, r);
}

/// `idx` maps the positions of `sub` to strictly increasing positions of `s`
/// holding the same records: `sub` is a subsequence of `s` in order.
pub open spec fn subsequence_witness(
    s: Seq<BranchRecordModel>,
    sub: Seq<BranchRecordModel>,
    idx: Seq<int>,
) -> bool {
    &&& idx.len() == sub.len()
    &&& forall|k: int| 0 <= k < idx.len() ==> 0 <= #[trigger] idx[k] < s.len() && s[idx[k]] == sub[k]
    &&& forall|k1: int, k2: int| 0 <= k1 < k2 < idx.len() ==> idx[k1] < idx[k2]
}

/// Order law: the stale sequence is a subsequence of the input — the
/// classifier preserves the relative order of the records it keeps.
pub proof fn lemma_stale_order_preserving(
    s: Seq<BranchRecordModel>,
    protected: Seq<Seq<char>>,
    threshold_days: u32,
    now: int,
)
    ensures
        exists|idx: Seq<int>| subsequence_witness(
            s,
            stale_of(s, protected, threshold_days, now),
            idx,
        ),
    decreases s.len(),
{
    if s.len() == 0 {
        let idx = Seq::<int>::empty();
        assert(subsequence_witness(s, stale_of(s, protected, threshold_days, now), idx));
    } else {
        lemma_stale_order_preserving(s.drop_last(), protected, threshold_days, now);
        let sub0 = stale_of(s.drop_last(), protected, threshold_days, now);
        let idx0 = choose|idx: Seq<int>| subsequence_witness(s.drop_last(), sub0, idx);
        if is_stale_record(s.last(), protected, threshold_days, now) {
            let idx1 = idx0.push(s.len() - 1);
            let sub1 = stale_of(s, protected, threshold_days, now);
            assert(sub1 == sub0.push(s.last()));
            assert forall|k: int| 0 <= k < idx1.len() implies 0 <= #[trigger] idx1[k] < s.len()
                && s[idx1[k]] == sub1[k] by {
                if k < idx0.len() {
                    assert(idx1[k] == idx0[k]);
                    assert(s.drop_last()[idx0[k]] == sub0[k]);
                    assert(sub1[k] == sub0[k]);
                } else {
                    assert(idx1[k] == s.len() - 1);
                }
            }
            assert(subsequence_witness(s, sub1, idx1));
        } else {
            assert forall|k: int| 0 <= k < idx0.len() implies 0 <= #[trigger] idx0[k] < s.len()
                && s[idx0[k]] == sub0[k] by {
                assert(s.drop_last()[idx0[k]] == sub0[k]);
            }
            assert(subsequence_witness(s, stale_of(s, protected, threshold_days, now), idx0));
        }
    }
}

/// `s` with every record whose name lies in `gone` removed, order kept.
pub open spec fn without_names(
    s: Seq<BranchRecordModel>,
    gone: Set<Seq<char>>,
) -> Seq<BranchRecordModel>
    decreases s.len(),
{
    if s.len() == 0 {
        Seq::empty()
    } else {
        let rest = without_names(s.drop_last(), gone);
        if gone.contains(s.last().name) {
            rest
        } else {
            rest.push(s.last())
        }
    }
}

/// Re-run law: classifying the branches that survive a deletion gives exactly
/// the previously stale branches minus the deleted ones, for the same
/// protected set, threshold and reference time.  In particular, when every
/// previously stale name was deleted, the second run finds nothing stale.
pub proof fn lemma_reclassify_after_deletion(
    s: Seq<BranchRecordModel>,
    protected: Seq<Seq<char>>,
    threshold_days: u32,
    now: int,
    gone: Set<Seq<char>>,
)
    ensures
        stale_of(without_names(s, gone), protected, threshold_days, now) == without_names(
            stale_of(s, protected, threshold_days, now),
            gone,
        ),
    decreases s.len(),
{
    if s.len() == 0 {
    } else {
        lemma_reclassify_after_deletion(s.drop_last(), protected, threshold_days, now, gone);
        let st0 = stale_of(s.drop_last(), protected, threshold_days, now);
        let w0 = without_names(s.drop_last(), gone);
        let l = s.last();
        if gone.contains(l.name) {
            if is_stale_record(l, protected, threshold_days, now) {
                assert(stale_of(s, protected, threshold_days, now) == st0.push(l));
                assert(st0.push(l).drop_last() =~= st0);
                assert(without_names(st0.push(l), gone) == without_names(st0, gone));
            }
        } else {
            if is_stale_record(l, protected, threshold_days, now) {
                assert(stale_of(s, protected, threshold_days, now) == st0.push(l));
                assert(st0.push(l).drop_last() =~= st0);
                assert(without_names(st0.push(l), gone) == without_names(st0, gone).push(l));
                assert(without_names(s, gone) == w0.push(l));
                assert(w0.push(l).drop_last() =~= w0);
                assert(w0.push(l).last() == l);
                assert(stale_of(w0.push(l), protected, threshold_days, now) == stale_of(
                    w0,
                    protected,
                    threshold_days,
                    now,
                ).push(l));
            } else {
                assert(without_names(s, gone) == w0.push(l));
                assert(w0.push(l).drop_last() =~= w0);
                assert(w0.push(l).last() == l);
                assert(stale_of(w0.push(l), protected, threshold_days, now) == stale_of(
                    w0,
                    protected,
                    threshold_days,
                    now,
                ));
            }
        }
    }
}

/// Removing every name of a sequence leaves nothing.
proof fn lemma_without_all_names_is_empty(s: Seq<BranchRecordModel>, gone: Set<Seq<char>>)
    requires
        forall|k: int| 0 <= k < s.len() ==> gone.contains(#[trigger] s[k].name),
    ensures
        without_names(s, gone) == Seq::<BranchRecordModel>::empty(),
    decreases s.len(),
{
    if s.len() > 0 {
        lemma_without_all_names_is_empty(s.drop_last(), gone);
    }
}

/// Idempotence law: after a run that deleted every stale branch, a second
/// run over the surviving branches, with the same protected set, threshold
/// and reference time, finds nothing stale.
pub proof fn lemma_full_cleanup_second_run_empty(
    s: Seq<BranchRecordModel>,
    protected: Seq<Seq<char>>,
    threshold_days: u32,
    now: int,
    gone: Set<Seq<char>>,
)
    requires
        forall|k: int|
            0 <= k < stale_of(s, protected, threshold_days, now).len() ==> gone.contains(
                #[trigger] stale_of(s, protected, threshold_days, now)[k].name,
            ),
    ensures
        stale_of(without_names(s, gone), protected, threshold_days, now) == Seq::<
            BranchRecordModel,
        >::empty(),
{
    lemma_reclassify_after_deletion(s, protected, threshold_days, now, gone);
    lemma_without_all_names_is_empty(stale_of(s, protected, threshold_days, now), gone);
}

} // verus!
