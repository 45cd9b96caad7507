use vstd::prelude::*;
use crate::record::bytes_eq;
use crate::record::clone_bytes;

verus! {

/// One branch tip of a single snapshot: the branch name, the commit its tip
/// references, and that commit's first parent, or `None` for a root commit.
/// Only the first parent is followed: linear, first-parent ancestry by
/// design, so merge topology is not modelled.
pub struct TipEntry {
    pub name: String,
    pub tip_commit_id: Vec<u8>,
    pub parent_commit_id: Option<Vec<u8>>,
}

/// The mathematical model of a `TipEntry`.
pub struct TipEntryModel {
    pub name: Seq<char>,
    pub tip_commit_id: Seq<u8>,
    pub parent_commit_id: Option<Seq<u8>>,
}

impl View for TipEntry {
    type V = TipEntryModel;

    open spec fn view(&self) -> TipEntryModel {
        TipEntryModel {
            name: self.name@,
            tip_commit_id: self.tip_commit_id@,
            parent_commit_id: match self.parent_commit_id {
                Some(ref p) => Some(p@),
                None => None,
            },
        }
    }
}

impl DeepView for TipEntry {
    type V = TipEntryModel;

    open spec fn deep_view(&self) -> TipEntryModel {
        self@
    }
}

impl Clone for TipEntry {
    fn clone(&self) -> (r: Self)
        ensures
            r@ == self@,
    {
        TipEntry {
            name: self.name.clone(),
            tip_commit_id: clone_bytes(&self.tip_commit_id),
            parent_commit_id: match self.parent_commit_id {
                Some(ref p) => Some(clone_bytes(p)),
                None => None,
            },
        }
    }
}

/// One edge of the ancestry relation.  `parent` is `None` both for a root
/// commit and for a parent commit that no tracked tip matches; `is_root`
/// tells the two cases apart.
pub struct AncestryEdge {
    pub child: String,
    pub parent: Option<String>,
    pub is_root: bool,
}

/// The mathematical model of an `AncestryEdge`.
pub struct AncestryEdgeModel {
    pub child: Seq<char>,
    pub parent: Option<Seq<char>>,
    pub is_root: bool,
}

impl View for AncestryEdge {
    type V = AncestryEdgeModel;

    open spec fn view(&self) -> AncestryEdgeModel {
        AncestryEdgeModel {
            child: self.child@,
            parent: match self.parent {
                Some(ref p) => Some(p@),
                None => None,
            },
            is_root: self.is_root,
        }
    }
}

impl DeepView for AncestryEdge {
    type V = AncestryEdgeModel;

    open spec fn deep_view(&self) -> AncestryEdgeModel {
        self@
    }
}

/// The first position at or after `i` whose tip commit equals `id`, if any.
/// Ties among branches sharing one tip commit are broken deterministically:
/// the earliest entry of the snapshot wins.
pub open spec fn first_match_from(tips: Seq<TipEntryModel>, id: Seq<u8>, i: int) -> Option<int>
    decreases tips.len() - i,
{
    if i < 0 || i >= tips.len() {
        None
    } else if tips[i].tip_commit_id == id {
        Some(i)
    } else {
        first_match_from(tips, id, i + 1)
    }
}

/// The edge the snapshot yields for the tip at position `i`.
pub open spec fn edge_of(tips: Seq<TipEntryModel>, i: int) -> AncestryEdgeModel
    recommends
        0 <= i < tips.len(),
{
    let t = tips[i];
    match t.parent_commit_id {
        None => AncestryEdgeModel { child: t.name, parent: None, is_root: true },
        Some(p) => AncestryEdgeModel {
            child: t.name,
            parent: match first_match_from(tips, p, 0) {
                Some(j) => Some(tips[j].name),
                None => None,
            },
            is_root: false,
        },
    }
}

/// The ancestry relation of a snapshot: one edge per tip, in snapshot order.
pub open spec fn ancestry_of(tips: Seq<TipEntryModel>) -> Seq<AncestryEdgeModel> {
    Seq::new(tips.len(), |i: int| edge_of(tips, i))
}

/// Scanning past non-matching entries does not change the first match.
proof fn lemma_first_match_skip(tips: Seq<TipEntryModel>, id: Seq<u8>, j: int)
    requires
        0 <= j <= tips.len(),
        forall|k: int| 0 <= k < j ==> tips[k].tip_commit_id != id,
    ensures
        first_match_from(tips, id, 0) == first_match_from(tips, id, j),
    decreases j,
{
    if j > 0 {
        lemma_first_match_skip(tips, id, j - 1);
        assert(first_match_from(tips, id, j - 1) == first_match_from(tips, id, j));
    }
}

/// Finds the first snapshot entry whose tip commit equals `id`, if any.
#[verifier::loop_isolation(false)]
fn find_tip_index(tips: &Vec<TipEntry>, id: &Vec<u8>) -> (r: Option<usize>)
    ensures
        match r {
            Some(j) => j < tips@.len() && first_match_from(tips.deep_view(), id@, 0) == Some(
                j as int,
            ),
            None => first_match_from(tips.deep_view(), id@, 0) is None,
        },
{
    let n = tips.len();
    let mut j: usize = 0;
    while j < n
        invariant
            j <= n,
            forall|k: int| 0 <= k < j ==> tips.deep_view()[k].tip_commit_id != id@,
        decreases n - j,
    {
        if bytes_eq(&tips[j].tip_commit_id, id) {
            proof {
                assert(tips.deep_view()[j as int].tip_commit_id == id@);
                lemma_first_match_skip(tips.deep_view(), id@, j as int);
            }
            return Some(j);
        }
        proof {
            assert(tips.deep_view()[j as int].tip_commit_id != id@);
        }
        j = j + 1;
    }
    proof {
        lemma_first_match_skip(tips.deep_view(), id@, n as int);
    }
    None
}

/// Builds the ancestry relation of one snapshot of branch tips.  Every tip
/// yields exactly one edge; a tip without a parent is a root; a tip whose
/// parent commit is no tracked tip yields an absent parent that is not a
/// root; otherwise the parent is the first tip of the snapshot holding the
/// parent commit.
#[verifier::loop_isolation(false)]
pub fn build_ancestry(tips: &Vec<TipEntry>) -> (r: Vec<AncestryEdge>)
    ensures
        r.deep_view() == ancestry_of(tips.deep_view()),
{
    let ghost m = tips.deep_view();
    let mut out: Vec<AncestryEdge> = Vec::new();
    let n = tips.len();
    let mut i: usize = 0;
    proof {
        assert(out.deep_view() =~= ancestry_of(m).take(0));
    }
    while i < n
        invariant
            i <= n,
            out.deep_view() =~= ancestry_of(m).take(i as int),
        decreases n - i,
    {
        let t = &tips[i];
        proof {
            assert(t@ == m[i as int]);
        }
        let edge: AncestryEdge = match t.parent_commit_id {
            None => AncestryEdge { child: t.name.clone(), parent: None, is_root: true },
            Some(ref p) => {
                let found: Option<String> = match find_tip_index(tips, p) {
                    Some(j) => Some(tips[j].name.clone()),
                    None => None,
                };
                AncestryEdge { child: t.name.clone(), parent: found, is_root: false }
            },
        };
        proof {
            assert(edge@ == edge_of(m, i as int));
        }
        out.push(edge);
        proof {
            assert(out.deep_view() =~= ancestry_of(m).take(i + 1));
        }
        i = i + 1;
    }
    proof {
        assert(ancestry_of(m).take(n as int) =~= ancestry_of(m));
    }
    out
}

/// The first position at or after `i` whose entry is named `name`, if any.
pub open spec fn first_name_from(tips: Seq<TipEntryModel>, name: Seq<char>, i: int) -> Option<int>
    decreases tips.len() - i,
{
    if i < 0 || i >= tips.len() {
        None
    } else if tips[i].name == name {
        Some(i)
    } else {
        first_name_from(tips, name, i + 1)
    }
}

/// One overlay entry applied to a snapshot: it replaces the first entry of
/// the same name in place, or is appended at the end.
pub open spec fn merge_one(s: Seq<TipEntryModel>, e: TipEntryModel) -> Seq<TipEntryModel> {
    match first_name_from(s, e.name, 0) {
        Some(j) => s.update(j, e),
        None => s.push(e),
    }
}

/// A snapshot extended by overlay entries, applied in order.  An overlay
/// entry wins over a base entry of the same name.
pub open spec fn merged(base: Seq<TipEntryModel>, overlay: Seq<TipEntryModel>) -> Seq<
    TipEntryModel,
>
    decreases overlay.len(),
{
    if overlay.len() == 0 {
        base
    } else {
        merge_one(merged(base, overlay.drop_last()), overlay.last())
    }
}

/// Scanning past entries of other names does not change the first name match.
proof fn lemma_first_name_skip(tips: Seq<TipEntryModel>, name: Seq<char>, j: int)
    requires
        0 <= j <= tips.len(),
        forall|k: int| 0 <= k < j ==> tips[k].name != name,
    ensures
        first_name_from(tips, name, 0) == first_name_from(tips, name, j),
    decreases j,
{
    if j > 0 {
        lemma_first_name_skip(tips, name, j - 1);
        assert(first_name_from(tips, name, j - 1) == first_name_from(tips, name, j));
    }
}

/// Finds the first snapshot entry named `name`, if any.
#[verifier::loop_isolation(false)]
fn find_name_index(tips: &Vec<TipEntry>, name: &String) -> (r: Option<usize>)
    ensures
        match r {
            Some(j) => j < tips@.len() && first_name_from(tips.deep_view(), name@, 0) == Some(
                j as int,
            ),
            None => first_name_from(tips.deep_view(), name@, 0) is None,
        },
{
    let n = tips.len();
    let mut j: usize = 0;
    while j < n
        invariant
            j <= n,
            forall|k: int| 0 <= k < j ==> tips.deep_view()[k].name != name@,
        decreases n - j,
    {
        if tips[j].name == *name {
            proof {
                assert(tips.deep_view()[j as int].name == name@);
                lemma_first_name_skip(tips.deep_view(), name@, j as int);
            }
            return Some(j);
        }
        proof {
            assert(tips.deep_view()[j as int].name != name@);
        }
        j = j + 1;
    }
    proof {
        lemma_first_name_skip(tips.deep_view(), name@, n as int);
    }
    None
}

/// Combines two snapshots taken at the same time into one, the overlay
/// winning for a shared name.  The combined snapshot is a single atomic view
/// of the branch tips: edges computed over it never mix two snapshots.
#[verifier::loop_isolation(false)]
pub fn merge_tip_sets(base: Vec<TipEntry>, overlay: Vec<TipEntry>) -> (r: Vec<TipEntry>)
    ensures
        r.deep_view() == merged(base.deep_view(), overlay.deep_view()),
{
    let ghost bv = base.deep_view();
    let ghost ov = overlay.deep_view();
    let mut acc = base;
    let mut rest = overlay;
    let n = rest.len();
    let mut i: usize = 0;
    proof {
        assert(ov.take(0) =~= Seq::<TipEntryModel>::empty());
        assert(rest.deep_view() =~= ov.skip(0));
    }
    while i < n
        invariant
            i <= n,
            n == ov.len(),
            rest.deep_view() =~= ov.skip(i as int),
            acc.deep_view() == merged(bv, ov.take(i as int)),
        decreases n - i,
    {
        let ghost rest_pre = rest@;
        let ghost rest_pre_dv = rest.deep_view();
        let ghost acc_pre = acc.deep_view();
        let e = rest.remove(0);
        proof {
            assert(rest_pre_dv[0] == rest_pre[0]@);
            assert(e@ == ov[i as int]);
            assert(rest.deep_view() =~= ov.skip(i + 1)) by {
                assert forall|k: int| 0 <= k < rest@.len() implies rest.deep_view()[k] == ov.skip(
                    i + 1,
                )[k] by {
                    assert(rest@[k] == rest_pre[k + 1]) by {
                        assert(rest@ == rest_pre.remove(0));
                    }
                    assert(rest@[k]@ == rest_pre_dv[k + 1]);
                    assert(rest_pre_dv[k + 1] == ov.skip(i as int)[k + 1]);
                }
            }
            assert(ov.take(i + 1).drop_last() =~= ov.take(i as int));
            assert(ov.take(i + 1).last() == ov[i as int]);
        }
        match find_name_index(&acc, &e.name) {
            Some(j) => {
                let ghost jj = j as int;
                acc[j] = e;
                proof {
                    assert(acc.deep_view() =~= acc_pre.update(jj, ov[i as int]));
                    assert(acc.deep_view() == merge_one(acc_pre, ov[i as int]));
                }
            },
            None => {
                acc.push(e);
                proof {
                    assert(acc.deep_view() =~= acc_pre.push(ov[i as int]));
                    assert(acc.deep_view() == merge_one(acc_pre, ov[i as int]));
                }
            },
        }
        proof {
            assert(merged(bv, ov.take(i + 1)) == merge_one(merged(bv, ov.take(i as int)), ov[i as int]));
        }
        i = i + 1;
    }
    proof {
        assert(ov.take(n as int) =~= ov);
    }
    acc
}

/// Root law: a tip with no parent always yields a root edge with an absent
/// parent, and a tip whose parent commit matches no tracked tip yields a
/// non-root edge with an absent parent.
pub proof fn lemma_root_and_untracked_parent(tips: Seq<TipEntryModel>, i: int)
    requires
        0 <= i < tips.len(),
    ensures
        tips[i].parent_commit_id is None ==> ancestry_of(tips)[i].is_root && ancestry_of(
            tips,
        )[i].parent is None,
        (tips[i].parent_commit_id matches Some(p) && (forall|j: int|
            0 <= j < tips.len() ==> tips[j].tip_commit_id != p)) ==> !ancestry_of(tips)[i].is_root
            && ancestry_of(tips)[i].parent is None,
{
    match tips[i].parent_commit_id {
        Some(p) => {
            if forall|j: int| 0 <= j < tips.len() ==> tips[j].tip_commit_id != p {
                lemma_first_match_skip(tips, p, tips.len() as int);
            }
        },
        None => {},
    }
}

} // verus!
