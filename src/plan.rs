use crate::entry::LocalEntry;
use crate::hashing::{blake2b512_of, lemma_content_hash_distinguishes};
use crate::manifest::Manifest;
use vstd::prelude::*;

verus! {

/// A file must be uploaded when the store has no hash for its path or a
/// different one.
pub open spec fn needs_upload(existing: Map<Seq<char>, Seq<char>>, e: LocalEntry) -> bool {
    !existing.contains_key(e.path@) || existing[e.path@] != e.hash@
}

/// No two of the first `n` entries share a path.
pub open spec fn paths_unique_upto(s: Seq<LocalEntry>, n: int) -> bool {
    forall|i: int, j: int| 0 <= i < j < n ==> s[i].path@ != s[j].path@
}

pub open spec fn paths_unique(s: Seq<LocalEntry>) -> bool {
    paths_unique_upto(s, s.len() as int)
}

/// `m` maps exactly the paths of the first `n` entries, each to its hash.
pub open spec fn records_upto(m: Map<Seq<char>, Seq<char>>, s: Seq<LocalEntry>, n: int) -> bool {
    &&& forall|k: Seq<char>|
        m.contains_key(k) <==> exists|i: int| 0 <= i < n && (#[trigger] s[i]).path@ == k
    &&& forall|i: int| 0 <= i < n ==> m[(#[trigger] s[i]).path@] == s[i].hash@
}

/// `m` maps exactly the paths of the entries, each to its hash.
pub open spec fn records(m: Map<Seq<char>, Seq<char>>, s: Seq<LocalEntry>) -> bool {
    records_upto(m, s, s.len() as int)
}

/// `w` lists, in increasing order, the indices among the first `n` entries of
/// those that must be uploaded.
pub open spec fn upload_indices_upto(
    existing: Map<Seq<char>, Seq<char>>,
    s: Seq<LocalEntry>,
    n: int,
    w: Seq<usize>,
) -> bool {
    &&& forall|k: int|
        0 <= k < w.len() ==> #[trigger] w[k] < n && needs_upload(existing, s[w[k] as int])
    &&& forall|i: int|
        0 <= i < n && needs_upload(existing, #[trigger] s[i]) ==> exists|k: int|
            0 <= k < w.len() && w[k] == i
    &&& forall|k1: int, k2: int| 0 <= k1 < k2 < w.len() ==> w[k1] < w[k2]
}

/// `d` lists, each once, the paths that `existing` has and `fresh` has not.
pub open spec fn deletions(
    existing: Map<Seq<char>, Seq<char>>,
    fresh: Map<Seq<char>, Seq<char>>,
    d: Seq<String>,
) -> bool {
    &&& forall|t: int|
        0 <= t < d.len() ==> existing.contains_key(#[trigger] d[t]@) && !fresh.contains_key(
            d[t]@,
        )
    &&& forall|k: Seq<char>|
        existing.contains_key(k) && !fresh.contains_key(k) ==> exists|t: int|
            0 <= t < d.len() && d[t]@ == k
    &&& forall|t1: int, t2: int| 0 <= t1 < t2 < d.len() ==> d[t1]@ != d[t2]@
}

/// What one synchronization run does to the store.
pub struct SyncPlan {
    /// Every file that the scan found.
    pub entries: Vec<LocalEntry>,
    /// The manifest to publish: each scanned path with its fresh hash.
    pub manifest: Manifest,
    /// Indices into `entries` of the files that are new or changed.
    pub to_write: Vec<usize>,
    /// Paths that the previous manifest lists and the scan did not find.
    pub to_delete: Vec<String>,
}

/// `p` is the plan for moving a store described by `existing` to the scanned
/// files `current`.
pub open spec fn is_plan(
    existing: Map<Seq<char>, Seq<char>>,
    current: Seq<LocalEntry>,
    p: SyncPlan,
) -> bool {
    &&& p.entries@ == current
    &&& p.manifest.wf()
    &&& records(p.manifest@, current)
    &&& upload_indices_upto(existing, current, current.len() as int, p.to_write@)
    &&& deletions(existing, p.manifest@, p.to_delete@)
}

/// Why a scan cannot be planned.
pub enum SyncError {
    /// Two scanned files carry this path.
    DuplicatePath(String),
}

/// Compares the scanned files with the previous manifest: a file is written
/// when its path is new or its hash changed, a path of the previous manifest
/// that was not scanned is deleted, and the new manifest records every
/// scanned file, replacing the previous one as a whole.
pub fn plan_sync(existing: &Manifest, current: Vec<LocalEntry>) -> (r: Result<SyncPlan, SyncError>)
    requires
        existing.wf(),
    ensures
        r is Ok <==> paths_unique(current@),
        r is Ok ==> is_plan(existing@, current@, r->Ok_0),
        r matches Err(SyncError::DuplicatePath(p)) ==> exists|i: int, j: int|
            0 <= i < j < current@.len() && current@[i].path@ == p@ && current@[j].path@ == p@,
{
    let mut manifest = Manifest::new();
    let mut to_write: Vec<usize> = Vec::new();
    let mut i: usize = 0;
    while i < current.len()
        invariant
            i <= current@.len(),
            existing.wf(),
            manifest.wf(),
            paths_unique_upto(current@, i as int),
            records_upto(manifest@, current@, i as int),
            upload_indices_upto(existing@, current@, i as int, to_write@),
        decreases current@.len() - i,
    {
        let e = &current[i];
        if manifest.contains(&e.path) {
            return Err(SyncError::DuplicatePath(e.path.clone()));
        }
        let ghost before = manifest@;
        manifest.insert(e.path.clone(), e.hash.clone());
        let upload = match existing.get(&e.path) {
            None => true,
            Some(h) => *h != e.hash,
        };
        assert(upload == needs_upload(existing@, current@[i as int]));
        let ghost old_w = to_write@;
        if upload {
            to_write.push(i);
        }
        proof {
            assert forall|k: Seq<char>|
                manifest@.contains_key(k) <==> exists|j: int|
                    0 <= j < i + 1 && (#[trigger] current@[j]).path@ == k by {
                if manifest@.contains_key(k) && k != e.path@ {
                    assert(before.contains_key(k));
                }
            }
            assert forall|j: int| 0 <= j < i + 1 implies manifest@[(
            #[trigger] current@[j]).path@] == current@[j].hash@ by {
                if j < i {
                    assert(before.contains_key(current@[j].path@));
                }
            }
            assert forall|j: int|
                0 <= j < i + 1 && needs_upload(existing@, #[trigger] current@[j]) implies exists|
                k: int,
            | 0 <= k < to_write@.len() && to_write@[k] == j by {
                if j == i {
                    assert(to_write@[to_write@.len() - 1] == j);
                } else {
                    let k = choose|k: int| 0 <= k < old_w.len() && old_w[k] == j;
                    assert(to_write@[k] == j);
                }
            }
        }
        i = i + 1;
    }
    let paths = existing.paths();
    let mut to_delete: Vec<String> = Vec::new();
    let mut d: usize = 0;
    while d < paths.len()
        invariant
            d <= paths@.len(),
            manifest.wf(),
            forall|a: int, b: int| 0 <= a < b < paths@.len() ==> paths@[a]@ != paths@[b]@,
            forall|a: int| 0 <= a < paths@.len() ==> existing@.contains_key(#[trigger] paths@[a]@),
            forall|t: int|
                0 <= t < to_delete@.len() ==> existing@.contains_key(#[trigger] to_delete@[t]@)
                    && !manifest@.contains_key(to_delete@[t]@) && exists|a: int|
                    0 <= a < d && paths@[a]@ == to_delete@[t]@,
            forall|a: int|
                0 <= a < d && !manifest@.contains_key(#[trigger] paths@[a]@) ==> exists|t: int|
                    0 <= t < to_delete@.len() && to_delete@[t]@ == paths@[a]@,
            forall|t1: int, t2: int|
                0 <= t1 < t2 < to_delete@.len() ==> to_delete@[t1]@ != to_delete@[t2]@,
        decreases paths@.len() - d,
    {
        let ghost old_d = to_delete@;
        if !manifest.contains(&paths[d]) {
            proof {
                assert forall|t: int| 0 <= t < to_delete@.len() implies to_delete@[t]@
                    != paths@[d as int]@ by {
                    let a = choose|a: int| 0 <= a < d && paths@[a]@ == to_delete@[t]@;
                }
            }
            to_delete.push(paths[d].clone());
            proof {
                assert(to_delete@[to_delete@.len() - 1]@ == paths@[d as int]@);
            }
        }
        proof {
            assert forall|a: int|
                0 <= a < d + 1 && !manifest@.contains_key(#[trigger] paths@[a]@) implies exists|
                t: int,
            | 0 <= t < to_delete@.len() && to_delete@[t]@ == paths@[a]@ by {
                if a == d {
                    assert(to_delete@[to_delete@.len() - 1]@ == paths@[a]@);
                } else {
                    let t = choose|t: int| 0 <= t < old_d.len() && old_d[t]@ == paths@[a]@;
                    assert(to_delete@[t]@ == paths@[a]@);
                }
            }
        }
        d = d + 1;
    }
    proof {
        assert forall|k: Seq<char>|
            existing@.contains_key(k) && !manifest@.contains_key(k) implies exists|t: int|
            0 <= t < to_delete@.len() && to_delete@[t]@ == k by {
            let a = choose|a: int| 0 <= a < paths@.len() && paths@[a]@ == k;
            assert(!manifest@.contains_key(paths@[a]@));
        }
    }
    Ok(SyncPlan { entries: current, manifest, to_write, to_delete })
}

/// A second run over unchanged files, planned against the manifest that the
/// first run published, uploads nothing and deletes nothing.
pub proof fn lemma_second_run_is_empty(
    existing: Map<Seq<char>, Seq<char>>,
    current: Seq<LocalEntry>,
    first: SyncPlan,
    second: SyncPlan,
)
    requires
        is_plan(existing, current, first),
        is_plan(first.manifest@, current, second),
    ensures
        second.to_write@.len() == 0,
        second.to_delete@.len() == 0,
{
    if second.to_write@.len() > 0 {
        let i = second.to_write@[0] as int;
        assert(needs_upload(first.manifest@, current[i]));
        assert(first.manifest@.contains_key(current[i].path@));
    }
    if second.to_delete@.len() > 0 {
        let k = second.to_delete@[0]@;
        assert(first.manifest@.contains_key(k));
        let i = choose|i: int| 0 <= i < current.len() && (#[trigger] current[i]).path@ == k;
        assert(second.manifest@.contains_key(current[i].path@));
    }
}

/// The published manifest holds exactly the scanned paths, each with the hash
/// of the contents that the scan read.
pub proof fn lemma_manifest_complete(
    existing: Map<Seq<char>, Seq<char>>,
    current: Seq<LocalEntry>,
    p: SyncPlan,
)
    requires
        is_plan(existing, current, p),
    ensures
        forall|k: Seq<char>|
            p.manifest@.contains_key(k) <==> exists|i: int|
                0 <= i < current.len() && (#[trigger] current[i]).path@ == k,
        forall|i: int|
            0 <= i < current.len() ==> p.manifest@[(#[trigger] current[i]).path@]
                == current[i].hash@,
{
}

/// A path of the previous manifest that the scan no longer finds is left out
/// of the new manifest and is among the deletions.
pub proof fn lemma_removed_path_is_deleted(
    existing: Map<Seq<char>, Seq<char>>,
    current: Seq<LocalEntry>,
    p: SyncPlan,
    k: Seq<char>,
)
    requires
        is_plan(existing, current, p),
        existing.contains_key(k),
        forall|i: int| 0 <= i < current.len() ==> (#[trigger] current[i]).path@ != k,
    ensures
        !p.manifest@.contains_key(k),
        exists|t: int| 0 <= t < p.to_delete@.len() && p.to_delete@[t]@ == k,
{
}

/// After a run, a rescan in which one file's contents changed, to contents
/// with another digest, and nothing else did, uploads that file alone and
/// deletes nothing.
pub proof fn lemma_only_changed_file_uploaded(
    existing: Map<Seq<char>, Seq<char>>,
    current: Seq<LocalEntry>,
    first: SyncPlan,
    changed: Seq<LocalEntry>,
    i: int,
    second: SyncPlan,
)
    requires
        is_plan(existing, current, first),
        changed.len() == current.len(),
        0 <= i < current.len(),
        forall|j: int| 0 <= j < current.len() && j != i ==> changed[j] == current[j],
        changed[i].path@ == current[i].path@,
        current[i].wf(),
        changed[i].wf(),
        blake2b512_of(changed[i].contents@) != blake2b512_of(current[i].contents@),
        is_plan(first.manifest@, changed, second),
    ensures
        second.to_write@ == seq![i as usize],
        second.to_delete@.len() == 0,
{
    lemma_content_hash_distinguishes(changed[i].contents@, current[i].contents@);
    let w = second.to_write@;
    assert(needs_upload(first.manifest@, changed[i]));
    let k0 = choose|k: int| 0 <= k < w.len() && w[k] == i;
    assert forall|k: int| 0 <= k < w.len() implies w[k] == i by {
        let j = w[k] as int;
        assert(needs_upload(first.manifest@, changed[j]));
        if j != i {
            assert(changed[j] == current[j]);
            assert(first.manifest@[current[j].path@] == current[j].hash@);
        }
    }
    if w.len() > 1 {
        assert(w[0] < w[1]);
    }
    assert(w =~= seq![i as usize]);
    if second.to_delete@.len() > 0 {
        let k = second.to_delete@[0]@;
        let a = choose|a: int| 0 <= a < current.len() && (#[trigger] current[a]).path@ == k;
        assert(changed[a].path@ == k);
        assert(second.manifest@.contains_key(changed[a].path@));
    }
}

} // verus!
