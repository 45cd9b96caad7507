use vstd::prelude::*;
use vstd::seq_lib::group_to_multiset_ensures;
use crate::age::age_days;
use crate::age::age_in_whole_days;
use crate::age::current_epoch_seconds;
use crate::age::epoch_in_range;
use crate::classify::is_protected_name;
use crate::classify::name_is_protected;
use crate::record::BranchRecord;
use crate::record::BranchRecordModel;

verus! {

/// One line of the branch listing: the branch name, its whole-day age at the
/// listing's reference time, the last author, and whether the name is
/// protected.
pub struct ListingEntry {
    pub name: String,
    pub age_days: i64,
    pub last_author: String,
    pub protected: bool,
}

/// The mathematical model of a `ListingEntry`.
pub struct ListingEntryModel {
    pub name: Seq<char>,
    pub age_days: int,
    pub last_author: Seq<char>,
    pub protected: bool,
}

impl View for ListingEntry {
    type V = ListingEntryModel;

    open spec fn view(&self) -> ListingEntryModel {
        ListingEntryModel {
            name: self.name@,
            age_days: self.age_days as int,
            last_author: self.last_author@,
            protected: self.protected,
        }
    }
}

impl DeepView for ListingEntry {
    type V = ListingEntryModel;

    open spec fn deep_view(&self) -> ListingEntryModel {
        self@
    }
}

/// The listing the records yield at reference time `now`, in record order.
pub open spec fn listing_of(
    s: Seq<BranchRecordModel>,
    protected: Seq<Seq<char>>,
    now: int,
) -> Seq<ListingEntryModel> {
    Seq::new(
        s.len(),
        |i: int|
            ListingEntryModel {
                name: s[i].name,
                age_days: age_in_whole_days(now, s[i].last_commit_epoch),
                last_author: s[i].last_author,
                protected: is_protected_name(s[i].name, protected),
            },
    )
}

/// Whether the records are ordered by recency: newest last commit first.
pub open spec fn sorted_by_recency(s: Seq<BranchRecordModel>) -> bool {
    forall|i: int, j: int|
        0 <= i < j < s.len() ==> s[i].last_commit_epoch >= s[j].last_commit_epoch
}

/// Reorders the records by descending last-commit time.  The result holds
/// exactly the input records.
#[verifier::loop_isolation(false)]
pub fn sort_by_recency(records: Vec<BranchRecord>) -> (r: Vec<BranchRecord>)
    ensures
        r.deep_view().to_multiset() == records.deep_view().to_multiset(),
        sorted_by_recency(r.deep_view()),
{
    broadcast use group_to_multiset_ensures;

    let ghost orig = records.deep_view();
    let mut rest = records;
    let mut out: Vec<BranchRecord> = Vec::new();
    proof {
        assert(out.deep_view() =~= Seq::<BranchRecordModel>::empty());
        assert(out.deep_view().to_multiset().add(rest.deep_view().to_multiset())
            =~= orig.to_multiset());
    }
    while rest.len() > 0
        invariant
            out.deep_view().to_multiset().add(rest.deep_view().to_multiset())
                == orig.to_multiset(),
            sorted_by_recency(out.deep_view()),
            forall|i: int, j: int|
                0 <= i < out.deep_view().len() && 0 <= j < rest.deep_view().len()
                    ==> out.deep_view()[i].last_commit_epoch
                    >= rest.deep_view()[j].last_commit_epoch,
        decreases rest.len(),
    {
        let n = rest.len();
        let mut best: usize = 0;
        let mut k: usize = 1;
        while k < n
            invariant
                n == rest@.len(),
                best < n,
                k <= n,
                forall|t: int|
                    0 <= t < k ==> rest.deep_view()[best as int].last_commit_epoch
                        >= rest.deep_view()[t].last_commit_epoch,
            decreases n - k,
        {
            if rest[k].last_commit_epoch > rest[best].last_commit_epoch {
                best = k;
            }
            k = k + 1;
        }
        let ghost rest_pre = rest@;
        let ghost rest_pre_dv = rest.deep_view();
        let ghost out_pre_dv = out.deep_view();
        let rec = rest.remove(best);
        proof {
            assert(rec@ == rest_pre_dv[best as int]);
            assert(rest.deep_view() =~= rest_pre_dv.remove(best as int)) by {
                assert forall|t: int| 0 <= t < rest@.len() implies rest.deep_view()[t]
                    == rest_pre_dv.remove(best as int)[t] by {
                    assert(rest@ == rest_pre.remove(best as int));
                    if t < best {
                        assert(rest@[t] == rest_pre[t]);
                    } else {
                        assert(rest@[t] == rest_pre[t + 1]);
                    }
                }
            }
        }
        out.push(rec);
        proof {
            assert(out.deep_view() =~= out_pre_dv.push(rest_pre_dv[best as int]));
            assert(rest_pre_dv.to_multiset().contains(rest_pre_dv[best as int])) by {
                assert(rest_pre_dv.contains(rest_pre_dv[best as int]));
            }
            assert(out.deep_view().to_multiset().add(rest.deep_view().to_multiset())
                =~= orig.to_multiset()) by {
                assert(out.deep_view().to_multiset() =~= out_pre_dv.to_multiset().insert(
                    rest_pre_dv[best as int],
                ));
                assert(rest.deep_view().to_multiset() =~= rest_pre_dv.to_multiset().remove(
                    rest_pre_dv[best as int],
                ));
            }
            assert forall|i: int, j: int|
                0 <= i < out.deep_view().len() && 0 <= j < rest.deep_view().len()
                    implies out.deep_view()[i].last_commit_epoch
                    >= rest.deep_view()[j].last_commit_epoch by {
                assert(rest.deep_view()[j] == rest_pre_dv.remove(best as int)[j]);
                if j < best {
                    assert(rest_pre_dv.remove(best as int)[j] == rest_pre_dv[j]);
                } else {
                    assert(rest_pre_dv.remove(best as int)[j] == rest_pre_dv[j + 1]);
                }
                if i < out_pre_dv.len() {
                    assert(out.deep_view()[i] == out_pre_dv[i]);
                } else {
                    assert(out.deep_view()[i] == rest_pre_dv[best as int]);
                }
            }
        }
    }
    proof {
        assert(rest.deep_view() =~= Seq::<BranchRecordModel>::empty());
        assert(out.deep_view().to_multiset().add(rest.deep_view().to_multiset())
            =~= out.deep_view().to_multiset());
    }
    out
}

/// Builds the listing line of every record, in record order, against the
/// reference time `now`.
#[verifier::loop_isolation(false)]
pub fn build_listing(records: &Vec<BranchRecord>, protected: &Vec<String>, now: i64) -> (r: Vec<
    ListingEntry,
>)
    ensures
        r.deep_view() == listing_of(records.deep_view(), protected.deep_view(), now as int),
{
    let ghost m = records.deep_view();
    let ghost want = listing_of(m, protected.deep_view(), now as int);
    let mut out: Vec<ListingEntry> = Vec::new();
    let n = records.len();
    let mut i: usize = 0;
    proof {
        assert(out.deep_view() =~= want.take(0));
    }
    while i < n
        invariant
            i <= n,
            out.deep_view() =~= want.take(i as int),
        decreases n - i,
    {
        let rec = &records[i];
        proof {
            assert(rec@ == m[i as int]);
        }
        let age = age_days(now, rec.last_commit_epoch);
        let prot = name_is_protected(&rec.name, protected);
        let entry = ListingEntry {
            name: rec.name.clone(),
            age_days: age,
            last_author: rec.last_author.clone(),
            protected: prot,
        };
        proof {
            assert(entry@ == want[i as int]);
        }
        out.push(entry);
        proof {
            assert(out.deep_view() =~= want.take(i + 1));
        }
        i = i + 1;
    }
    proof {
        assert(want.take(n as int) =~= want);
    }
    out
}

/// The listing use case: stamps the current time, optionally reorders the
/// records by descending recency, and renders one line per record.
pub fn list_entries(records: Vec<BranchRecord>, protected: &Vec<String>, sort_by_date: bool) -> (r:
    (i64, Vec<ListingEntry>))
    ensures
        epoch_in_range(r.0 as int),
        !sort_by_date ==> r.1.deep_view() == listing_of(
            records.deep_view(),
            protected.deep_view(),
            r.0 as int,
        ),
        sort_by_date ==> exists|s: Seq<BranchRecordModel>|
            {
                &&& s.to_multiset() == records.deep_view().to_multiset()
                &&& sorted_by_recency(s)
                &&& r.1.deep_view() == listing_of(s, protected.deep_view(), r.0 as int)
            },
{
    let now = current_epoch_seconds();
    if sort_by_date {
        let sorted = sort_by_recency(records);
        let ghost witness = sorted.deep_view();
        let out = build_listing(&sorted, protected, now);
        proof {
            assert({
                &&& witness.to_multiset() == records.deep_view().to_multiset()
                &&& sorted_by_recency(witness)
                &&& out.deep_view() == listing_of(witness, protected.deep_view(), now as int)
            });
        }
        (now, out)
    } else {
        let out = build_listing(&records, protected, now);
        (now, out)
    }
}

} // verus!
