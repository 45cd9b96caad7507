use vstd::prelude::*;

verus! {

/// One branch of the repository, as seen by a single collection pass:
/// its name, the commit its tip references, that commit's timestamp in
/// POSIX seconds, and the commit author's name.
pub struct BranchRecord {
    pub name: String,
    pub tip_commit_id: Vec<u8>,
    pub last_commit_epoch: i64,
    pub last_author: String,
}

/// The mathematical model of a `BranchRecord`.
pub struct BranchRecordModel {
    pub name: Seq<char>,
    pub tip_commit_id: Seq<u8>,
    pub last_commit_epoch: int,
    pub last_author: Seq<char>,
}

impl View for BranchRecord {
    type V = BranchRecordModel;

    open spec fn view(&self) -> BranchRecordModel {
        BranchRecordModel {
            name: self.name@,
            tip_commit_id: self.tip_commit_id@,
            last_commit_epoch: self.last_commit_epoch as int,
            last_author: self.last_author@,
        }
    }
}

impl DeepView for BranchRecord {
    type V = BranchRecordModel;

    open spec fn deep_view(&self) -> BranchRecordModel {
        self@
    }
}

impl Clone for BranchRecord {
    fn clone(&self) -> (r: Self)
        ensures
            r@ == self@,
    {
        BranchRecord {
            name: self.name.clone(),
            tip_commit_id: clone_bytes(&self.tip_commit_id),
            last_commit_epoch: self.last_commit_epoch,
            last_author: self.last_author.clone(),
        }
    }
}

/// The raw tip commit of a branch, as the repository hands it over:
/// the commit id, its timestamp in POSIX seconds, and the author name
/// when the commit object carries one.
pub struct RawCommit {
    pub id: Vec<u8>,
    pub seconds: i64,
    pub author: Option<String>,
}

/// The mathematical model of a `RawCommit`.
pub struct RawCommitModel {
    pub id: Seq<u8>,
    pub seconds: int,
    pub author: Option<Seq<char>>,
}

impl View for RawCommit {
    type V = RawCommitModel;

    open spec fn view(&self) -> RawCommitModel {
        RawCommitModel {
            id: self.id@,
            seconds: self.seconds as int,
            author: match self.author {
                Some(ref a) => Some(a@),
                None => None,
            },
        }
    }
}

impl DeepView for RawCommit {
    type V = RawCommitModel;

    open spec fn deep_view(&self) -> RawCommitModel {
        self@
    }
}

/// One enumerated branch before normalization.  `name` is `None` when the
/// branch's name could not be decoded; `tip` is `None` when the tip does not
/// resolve to a commit (such a branch is skipped, not an error).
pub struct RawBranch {
    pub name: Option<String>,
    pub tip: Option<RawCommit>,
}

/// The mathematical model of a `RawBranch`.
pub struct RawBranchModel {
    pub name: Option<Seq<char>>,
    pub tip: Option<RawCommitModel>,
}

impl View for RawBranch {
    type V = RawBranchModel;

    open spec fn view(&self) -> RawBranchModel {
        RawBranchModel {
            name: match self.name {
                Some(ref n) => Some(n@),
                None => None,
            },
            tip: match self.tip {
                Some(ref t) => Some(t@),
                None => None,
            },
        }
    }
}

impl DeepView for RawBranch {
    type V = RawBranchModel;

    open spec fn deep_view(&self) -> RawBranchModel {
        self@
    }
}

/// Compares two commit ids byte for byte.
pub fn bytes_eq(a: &Vec<u8>, b: &Vec<u8>) -> (r: bool)
    ensures
        r == (a@ == b@),
{
    if a.len() != b.len() {
        assert(a@ != b@) by {
            assert(a@.len() != b@.len());
        }
        return false;
    }
    let n = a.len();
    let mut i: usize = 0;
    while i < n
        invariant
            n == a@.len() && n == b@.len(),
            i <= n,
            forall|k: int| 0 <= k < i ==> a@[k] == b@[k],
        decreases n - i,
    {
        if a[i] != b[i] {
            return false;
        }
        i = i + 1;
    }
    assert(a@ =~= b@);
    true
}

/// Copies a commit id.
pub fn clone_bytes(a: &Vec<u8>) -> (r: Vec<u8>)
    ensures
        r@ == a@,
{
    let mut out: Vec<u8> = Vec::new();
    let n = a.len();
    let mut i: usize = 0;
    while i < n
        invariant
            n == a@.len(),
            i <= n,
            out@ == a@.take(i as int),
        decreases n - i,
    {
        out.push(a[i]);
        proof {
            assert(a@.take(i + 1 as int) =~= a@.take(i as int).push(a@[i as int]));
        }
        i = i + 1;
    }
    proof {
        assert(a@.take(n as int) =~= a@);
    }
    out
}

} // verus!
