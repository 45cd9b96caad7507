use vstd::prelude::*;
use vstd::string::StringExecFns;
use crate::age::epoch_convertible;
use crate::age::epoch_in_range;
use crate::error::BranchError;
use crate::record::BranchRecord;
use crate::record::BranchRecordModel;
use crate::record::RawBranch;
use crate::record::RawBranchModel;

verus! {

/// The normalized record a well-formed raw branch yields: its name, its tip
/// commit id and timestamp, and the author name, defaulted to `"Unknown"`
/// when the commit carries none.
pub open spec fn normalized_record(b: RawBranchModel) -> BranchRecordModel
    recommends
        b.name is Some,
        b.tip is Some,
{
    BranchRecordModel {
        name: match b.name {
            Some(n) => n,
            None => Seq::empty(),
        },
        tip_commit_id: match b.tip {
            Some(c) => c.id,
            None => Seq::empty(),
        },
        last_commit_epoch: match b.tip {
            Some(c) => c.seconds,
            None => 0,
        },
        last_author: match b.tip {
            Some(c) => match c.author {
                Some(a) => a,
                None => "Unknown"@,
            },
            None => Seq::empty(),
        },
    }
}

/// What a collection pass returns for a sequence of enumerated branches,
/// processed in order.  A branch whose tip does not resolve is skipped; an
/// undecodable name or an out-of-range timestamp aborts the pass with the
/// first such error.
pub open spec fn records_of(raw: Seq<RawBranchModel>) -> Result<
    Seq<BranchRecordModel>,
    BranchError,
>
    decreases raw.len(),
{
    if raw.len() == 0 {
        Ok(Seq::empty())
    } else {
        match records_of(raw.drop_last()) {
            Err(e) => Err(e),
            Ok(s) => {
                let b = raw.last();
                match b.name {
                    None => Err(BranchError::InvalidBranchName),
                    Some(_) => match b.tip {
                        None => Ok(s),
                        Some(c) => if !epoch_in_range(c.seconds) {
                            Err(BranchError::TimeConversionError)
                        } else {
                            Ok(s.push(normalized_record(b)))
                        },
                    },
                }
            },
        }
    }
}

/// Once a prefix of the pass has failed, the whole pass fails with the same
/// error: later branches are not examined.
pub proof fn lemma_records_of_error_persists(raw: Seq<RawBranchModel>, j: int)
    requires
        0 <= j <= raw.len(),
        records_of(raw.take(j)) is Err,
    ensures
        records_of(raw) == records_of(raw.take(j)),
    decreases raw.len() - j,
{
    if j == raw.len() {
        assert(raw.take(j) =~= raw);
    } else {
        assert(raw.take(j + 1).drop_last() =~= raw.take(j));
        assert(records_of(raw.take(j + 1)) == records_of(raw.take(j)));
        lemma_records_of_error_persists(raw, j + 1);
    }
}

/// Normalizes one collection pass of enumerated branches into branch records,
/// in enumeration order.  Skips branches whose tip did not resolve, defaults
/// a missing author name to `"Unknown"`, and aborts with the first error: an
/// undecodable branch name, or a commit timestamp that no calendar time can
/// represent.
#[verifier::loop_isolation(false)]
pub fn collect_records(raw: Vec<RawBranch>) -> (r: Result<Vec<BranchRecord>, BranchError>)
    ensures
        match r {
            Ok(v) => records_of(raw.deep_view()) == Ok::<Seq<BranchRecordModel>, BranchError>(
                v.deep_view(),
            ),
            Err(e) => records_of(raw.deep_view()) == Err::<Seq<BranchRecordModel>, BranchError>(e),
        },
{
    let ghost orig = raw.deep_view();
    let mut rest = raw;
    let mut out: Vec<BranchRecord> = Vec::new();
    let n = rest.len();
    let mut i: usize = 0;
    proof {
        assert(orig.take(0) =~= Seq::<RawBranchModel>::empty());
        assert(out.deep_view() =~= Seq::<BranchRecordModel>::empty());
        assert(rest.deep_view() =~= orig.skip(0));
    }
    while i < n
        invariant
            n == orig.len(),
            i <= n,
            rest.deep_view() =~= orig.skip(i as int),
            records_of(orig.take(i as int)) == Ok::<Seq<BranchRecordModel>, BranchError>(
                out.deep_view(),
            ),
        decreases n - i,
    {
        let ghost rest_pre = rest@;
        let ghost rest_pre_dv = rest.deep_view();
        let ghost out_pre = out.deep_view();
        proof {
            assert(rest@.len() == rest.deep_view().len());
            assert(rest.deep_view().len() == orig.skip(i as int).len());
        }
        let b = rest.remove(0);
        proof {
            assert(rest_pre_dv[0] == rest_pre[0]@);
            assert(b@ == rest_pre_dv[0]);
            assert(b@ == orig[i as int]);
            assert(rest.deep_view() =~= orig.skip(i + 1)) by {
                assert forall|k: int| 0 <= k < rest@.len() implies rest.deep_view()[k] == orig.skip(
                    i + 1,
                )[k] by {
                    assert(rest@[k] == rest_pre[k + 1]) by {
                        assert(rest@ == rest_pre.remove(0));
                    }
                    assert(rest@[k]@ == rest_pre_dv[k + 1]);
                    assert(rest_pre_dv[k + 1] == orig.skip(i as int)[k + 1]);
                }
            }
            assert(orig.take(i + 1).drop_last() =~= orig.take(i as int));
            assert(orig.take(i + 1).last() == orig[i as int]);
        }
        match b.name {
            None => {
                proof {
                    assert(records_of(orig.take(i + 1)) == Err::<
                        Seq<BranchRecordModel>,
                        BranchError,
                    >(BranchError::InvalidBranchName));
                    lemma_records_of_error_persists(orig, i + 1);
                }
                return Err(BranchError::InvalidBranchName);
            },
            Some(name) => {
                match b.tip {
                    None => {
                        assert(records_of(orig.take(i + 1)) == Ok::<
                            Seq<BranchRecordModel>,
                            BranchError,
                        >(out_pre));
                    },
                    Some(c) => {
                        if !epoch_convertible(c.seconds) {
                            proof {
                                assert(records_of(orig.take(i + 1)) == Err::<
                                    Seq<BranchRecordModel>,
                                    BranchError,
                                >(BranchError::TimeConversionError));
                                lemma_records_of_error_persists(orig, i + 1);
                            }
                            return Err(BranchError::TimeConversionError);
                        }
                        let author = match c.author {
                            Some(a) => a,
                            None => String::from_str("Unknown"),
                        };
                        let rec = BranchRecord {
                            name,
                            tip_commit_id: c.id,
                            last_commit_epoch: c.seconds,
                            last_author: author,
                        };
                        proof {
                            assert(rec@ == normalized_record(orig[i as int]));
                        }
                        out.push(rec);
                        proof {
                            assert(out.deep_view() =~= out_pre.push(
                                normalized_record(orig[i as int]),
                            ));
                            assert(records_of(orig.take(i + 1)) == Ok::<
                                Seq<BranchRecordModel>,
                                BranchError,
                            >(out.deep_view()));
                        }
                    },
                }
            },
        }
        i = i + 1;
    }
    proof {
        assert(orig.take(n as int) =~= orig);
    }
    Ok(out)
}

} // verus!
