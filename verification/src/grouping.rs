//! The similarity grouper: a greedy single pass over the extracted
//! records. Each unused fingerprinted record in index order anchors a
//! scan of all later records, absorbs the still-unused similar ones, and
//! the cluster is kept only when at least two records ended up in it.
//! Grouping is deliberately seed-order-dependent and first-match-wins;
//! it is not transitive clustering.

use vstd::prelude::*;
use crate::types::Photo;
use crate::types::PhotoWithHash;
use crate::types::SimilarityGroup;
use crate::fingerprint::Threshold;
use crate::fingerprint::spec_similar;
use crate::fingerprint::is_similar;
use crate::naming::new_id;
use crate::progress::CancelFlag;

verus! {

/// Representative similarity score attached to every emitted group, in
/// permille of 1.0.
pub const GROUP_SIMILARITY_PERMILLE: u32 = 900;

/// Whether the scan anchored at `i` would absorb index `j`: not yet
/// used, fingerprinted, and similar to the anchor's fingerprint.
pub open spec fn scan_pred(
    recs: Seq<PhotoWithHash>,
    t: Threshold,
    used: Set<int>,
    i: int,
    j: int,
) -> bool {
    &&& !used.contains(j)
    &&& recs[j].hash is Some
    &&& spec_similar(recs[i].hash->0, recs[j].hash->0, t)
}

/// The indices in `(i, j)` that the scan anchored at `i` absorbs, in
/// index order.
pub open spec fn members_between(
    recs: Seq<PhotoWithHash>,
    t: Threshold,
    used: Set<int>,
    i: int,
    j: int,
) -> Seq<int>
    decreases j - i,
{
    if j <= i + 1 {
        Seq::empty()
    } else {
        members_between(recs, t, used, i, j - 1) + if scan_pred(recs, t, used, i, j - 1) {
            seq![j - 1]
        } else {
            Seq::empty()
        }
    }
}

/// All indices the scan anchored at `i` absorbs.
pub open spec fn member_candidates(
    recs: Seq<PhotoWithHash>,
    t: Threshold,
    used: Set<int>,
    i: int,
) -> Seq<int> {
    members_between(recs, t, used, i, recs.len() as int)
}

/// The greedy grouping, resumed at anchor index `i` with the indices in
/// `used` already consumed. The result lists each kept group as the
/// sequence of input indices it holds, anchor first.
pub open spec fn greedy_from(
    recs: Seq<PhotoWithHash>,
    t: Threshold,
    used: Set<int>,
    i: int,
) -> Seq<Seq<int>>
    decreases recs.len() - i when 0 <= i
{
    if i >= recs.len() {
        Seq::empty()
    } else if used.contains(i) || !(recs[i].hash is Some) {
        greedy_from(recs, t, used, i + 1)
    } else {
        let mems = member_candidates(recs, t, used, i);
        if mems.len() >= 1 {
            seq![seq![i] + mems] + greedy_from(recs, t, used.insert(i).union(mems.to_set()), i + 1)
        } else {
            greedy_from(recs, t, used.insert(i), i + 1)
        }
    }
}

/// The groups of one full greedy pass over `recs`, as index sequences.
pub open spec fn greedy_groups(recs: Seq<PhotoWithHash>, t: Threshold) -> Seq<Seq<int>> {
    greedy_from(recs, t, Set::empty(), 0)
}

/// The photos standing at the given indices.
pub open spec fn photos_of(recs: Seq<PhotoWithHash>, idxs: Seq<int>) -> Seq<Photo> {
    idxs.map_values(|j: int| recs[j].photo)
}

/// The used-marker vector read as the set of marked indices.
pub open spec fn used_set(bs: Seq<bool>) -> Set<int> {
    Set::new(|j: int| 0 <= j < bs.len() && bs[j])
}

proof fn lemma_to_set_push(s: Seq<int>, x: int)
    ensures
        s.push(x).to_set() =~= s.to_set().insert(x),
{
    assert forall|a: int| s.push(x).contains(a) implies s.to_set().insert(x).contains(a) by {
        let k = choose|k: int| 0 <= k < s.push(x).len() && s.push(x)[k] == a;
        if k < s.len() {
            assert(s[k] == a);
        } else {
            assert(a == x);
        }
    }
    assert forall|a: int| s.to_set().insert(x).contains(a) implies s.push(x).contains(a) by {
        if a == x {
            assert(s.push(x)[s.len() as int] == a);
        } else {
            let k = choose|k: int| 0 <= k < s.len() && s[k] == a;
            assert(s.push(x)[k] == a);
        }
    }
}

proof fn lemma_skip_cons<A>(s: Seq<A>, n: int, head: A, rest: Seq<A>)
    requires
        0 <= n <= s.len(),
        s.skip(n) == seq![head] + rest,
    ensures
        n < s.len(),
        s[n] == head,
        s.skip(n + 1) == rest,
{
    assert(s.skip(n).len() == s.len() - n);
    assert(s.skip(n)[0] == s[n]);
    assert(s.skip(n + 1) =~= rest) by {
        assert forall|k: int| 0 <= k < s.len() - n - 1 implies s.skip(n + 1)[k] == rest[k] by {
            assert(s.skip(n + 1)[k] == s[n + 1 + k]);
            assert(s.skip(n)[k + 1] == s[n + 1 + k]);
            assert((seq![head] + rest)[k + 1] == rest[k]);
        }
    }
}

/// Well-formedness of a grouping outcome `gs` produced from anchor
/// position `lo` onward with the indices in `used` already consumed:
/// every kept group holds at least two members; every member is an
/// in-range record index at or after `lo`, not consumed beforehand, and
/// fingerprinted; and no index stands at two places, neither in two
/// groups nor twice in one.
pub open spec fn group_list_wf(
    recs: Seq<PhotoWithHash>,
    used: Set<int>,
    lo: int,
    gs: Seq<Seq<int>>,
) -> bool {
    &&& forall|g: int| 0 <= g < gs.len() ==> (#[trigger] gs[g]).len() >= 2
    &&& forall|g: int, k: int|
        0 <= g < gs.len() && 0 <= k < gs[g].len() ==> {
            &&& lo <= #[trigger] gs[g][k] < recs.len()
            &&& !used.contains(gs[g][k])
            &&& recs[gs[g][k]].hash is Some
        }
    &&& forall|g1: int, k1: int, g2: int, k2: int|
        #![trigger gs[g1][k1], gs[g2][k2]]
        0 <= g1 < gs.len() && 0 <= k1 < gs[g1].len() && 0 <= g2 < gs.len() && 0 <= k2 < gs[g2].len()
            && (g1 != g2 || k1 != k2) ==> gs[g1][k1] != gs[g2][k2]
}

proof fn lemma_members_between_props(
    recs: Seq<PhotoWithHash>,
    t: Threshold,
    used: Set<int>,
    i: int,
    j: int,
)
    ensures
        forall|k: int|
            0 <= k < members_between(recs, t, used, i, j).len() ==> {
                &&& i < #[trigger] members_between(recs, t, used, i, j)[k] < j
                &&& scan_pred(recs, t, used, i, members_between(recs, t, used, i, j)[k])
            },
        forall|k1: int, k2: int|
            #![trigger members_between(recs, t, used, i, j)[k1], members_between(recs, t, used, i, j)[k2]]
            0 <= k1 < k2 < members_between(recs, t, used, i, j).len() ==> members_between(
                recs,
                t,
                used,
                i,
                j,
            )[k1] < members_between(recs, t, used, i, j)[k2],
    decreases j - i,
{
    if j <= i + 1 {
    } else {
        lemma_members_between_props(recs, t, used, i, j - 1);
        let mb = members_between(recs, t, used, i, j);
        let prev = members_between(recs, t, used, i, j - 1);
        if scan_pred(recs, t, used, i, j - 1) {
            assert(mb == prev + seq![j - 1]);
            assert(mb.len() == prev.len() + 1);
            assert(forall|k: int| 0 <= k < prev.len() ==> mb[k] == #[trigger] prev[k]);
            assert(mb[prev.len() as int] == j - 1);
        } else {
            assert(mb =~= prev);
        }
    }
}

/// Every outcome of the greedy pass is well formed: groups of two or
/// more, over in-range fingerprinted indices not consumed beforehand,
/// with no index appearing twice.
pub proof fn lemma_greedy_from_wf(recs: Seq<PhotoWithHash>, t: Threshold, used: Set<int>, i: int)
    requires
        0 <= i,
    ensures
        group_list_wf(recs, used, i, greedy_from(recs, t, used, i)),
    decreases recs.len() - i,
{
    let gf = greedy_from(recs, t, used, i);
    if i >= recs.len() {
    } else if used.contains(i) || !(recs[i].hash is Some) {
        lemma_greedy_from_wf(recs, t, used, i + 1);
    } else {
        let mems = member_candidates(recs, t, used, i);
        lemma_members_between_props(recs, t, used, i, recs.len() as int);
        if mems.len() >= 1 {
            let grp = seq![i] + mems;
            let used2 = used.insert(i).union(mems.to_set());
            lemma_greedy_from_wf(recs, t, used2, i + 1);
            let tail = greedy_from(recs, t, used2, i + 1);
            assert(gf == seq![grp] + tail);
            assert(gf[0] == grp);
            assert(forall|g: int| 1 <= g < gf.len() ==> #[trigger] gf[g] == tail[g - 1]);
            assert(forall|k: int| 1 <= k < grp.len() ==> #[trigger] grp[k] == mems[k - 1]);
            // the anchor and its members are consumed for the tail
            assert(used2.contains(i));
            assert(forall|k: int|
                1 <= k < grp.len() ==> used2.contains(#[trigger] grp[k]) && i < grp[k]
                    < recs.len() && scan_pred(recs, t, used, i, grp[k]));
            assert forall|g: int, k: int|
                0 <= g < gf.len() && 0 <= k < gf[g].len() implies {
                &&& i <= #[trigger] gf[g][k] < recs.len()
                &&& !used.contains(gf[g][k])
                &&& recs[gf[g][k]].hash is Some
            } by {
                if g == 0 {
                    if k >= 1 {
                        assert(gf[g][k] == mems[k - 1]);
                    }
                } else {
                    assert(gf[g][k] == tail[g - 1][k]);
                    assert(!used2.contains(tail[g - 1][k]));
                }
            }
            assert forall|g1: int, k1: int, g2: int, k2: int|
                #![trigger gf[g1][k1], gf[g2][k2]]
                0 <= g1 < gf.len() && 0 <= k1 < gf[g1].len() && 0 <= g2 < gf.len() && 0 <= k2
                    < gf[g2].len() && (g1 != g2 || k1 != k2) implies gf[g1][k1] != gf[g2][k2] by {
                if g1 == 0 && g2 == 0 {
                    if k1 != 0 && k2 != 0 {
                        assert(gf[g1][k1] == mems[k1 - 1] && gf[g2][k2] == mems[k2 - 1]);
                        if k1 < k2 {
                            assert(mems[k1 - 1] < mems[k2 - 1]);
                        } else {
                            assert(mems[k2 - 1] < mems[k1 - 1]);
                        }
                    }
                } else if g1 == 0 {
                    assert(gf[g2][k2] == tail[g2 - 1][k2]);
                    assert(!used2.contains(tail[g2 - 1][k2]));
                    if k1 >= 1 {
                        assert(mems.contains(mems[k1 - 1]));
                        assert(used2.contains(grp[k1]));
                    }
                } else if g2 == 0 {
                    assert(gf[g1][k1] == tail[g1 - 1][k1]);
                    assert(!used2.contains(tail[g1 - 1][k1]));
                    if k2 >= 1 {
                        assert(mems.contains(mems[k2 - 1]));
                        assert(used2.contains(grp[k2]));
                    }
                } else {
                    assert(gf[g1][k1] == tail[g1 - 1][k1] && gf[g2][k2] == tail[g2 - 1][k2]);
                }
            }
        } else {
            lemma_greedy_from_wf(recs, t, used.insert(i), i + 1);
        }
    }
}

/// The laws of the grouping output, stated over the spec the exec pass
/// is proved against: no emitted group has fewer than two members, every
/// member is an in-range fingerprinted input index, and every input
/// index is a member of at most one group and at most once.
pub proof fn lemma_greedy_groups_wf(recs: Seq<PhotoWithHash>, t: Threshold)
    ensures
        group_list_wf(recs, Set::empty(), 0, greedy_groups(recs, t)),
{
    lemma_greedy_from_wf(recs, t, Set::empty(), 0);
}

/// The greedy grouping loop, shared by the cancellable and the pure
/// entry points. With a token, the pass polls it once per anchor and
/// settles for the empty list once it finds it set; without one, the
/// pass always runs to completion and returns exactly the greedy
/// grouping.
fn run_greedy(
    cancel: Option<&CancelFlag>,
    recs: &Vec<PhotoWithHash>,
    t: Threshold,
) -> (groups: Vec<SimilarityGroup>)
    ensures
        groups@.len() == 0 || {
            &&& groups@.len() == greedy_groups(recs@, t).len()
            &&& forall|g: int|
                0 <= g < groups@.len() ==> (#[trigger] groups@[g]).photos@ == photos_of(
                    recs@,
                    greedy_groups(recs@, t)[g],
                )
        },
        cancel is None ==> groups@.len() == greedy_groups(recs@, t).len(),
        forall|g: int|
            0 <= g < groups@.len() ==> (#[trigger] groups@[g]).similarity
                == GROUP_SIMILARITY_PERMILLE,
        forall|g: int| 0 <= g < groups@.len() ==> (#[trigger] groups@[g]).id@.len() == 36,
        forall|g: int| 0 <= g < groups@.len() ==> (#[trigger] groups@[g]).photos@.len() >= 2,
        recs@.len() == 0 ==> groups@.len() == 0,
{
    proof {
        lemma_greedy_groups_wf(recs@, t);
    }
    let ghost gall = greedy_groups(recs@, t);
    let n = recs.len();
    let mut used: Vec<bool> = Vec::new();
    while used.len() < n
        invariant
            used@.len() <= n,
            forall|k: int| 0 <= k < used@.len() ==> !(#[trigger] used@[k]),
        decreases n - used@.len(),
    {
        used.push(false);
    }
    proof {
        assert(used_set(used@) =~= Set::<int>::empty());
        assert(gall.skip(0) =~= gall);
    }
    let mut groups: Vec<SimilarityGroup> = Vec::new();
    let mut i: usize = 0;
    while i < n
        invariant
            n == recs@.len(),
            used@.len() == n,
            i <= n,
            gall == greedy_groups(recs@, t),
            greedy_from(recs@, t, used_set(used@), i as int) == gall.skip(groups@.len() as int),
            groups@.len() <= gall.len(),
            forall|g: int|
                0 <= g < groups@.len() ==> (#[trigger] groups@[g]).photos@ == photos_of(
                    recs@,
                    gall[g],
                ),
            forall|g: int|
                0 <= g < groups@.len() ==> (#[trigger] groups@[g]).similarity
                    == GROUP_SIMILARITY_PERMILLE,
            forall|g: int| 0 <= g < groups@.len() ==> (#[trigger] groups@[g]).id@.len() == 36,
        decreases n - i,
    {
        if let Some(c) = cancel {
            if c.is_cancelled() {
                // a cancelled run settles for the empty list, not a
                // partial one
                return Vec::new();
            }
        }
        let ghost u_start = used_set(used@);
        if !used[i] {
            if let Some(hi) = recs[i].hash {
                used[i] = true;
                let ghost u0 = used_set(used@);
                proof {
                    assert(u0 =~= u_start.insert(i as int));
                }
                let mut similar_photos: Vec<Photo> = Vec::new();
                similar_photos.push(recs[i].photo.clone());
                let ghost mut members: Seq<int> = Seq::empty();
                let mut j: usize = i + 1;
                while j < n
                    invariant
                        n == recs@.len(),
                        used@.len() == n,
                        i < n,
                        i + 1 <= j <= n,
                        recs@[i as int].hash == Some(hi),
                        members == members_between(recs@, t, u_start, i as int, j as int),
                        used_set(used@) =~= u0.union(members.to_set()),
                        similar_photos@ == seq![recs@[i as int].photo] + photos_of(recs@, members),
                        forall|k: int| j <= k < n ==> used@[k] == u_start.contains(k),
                        used@[i as int],
                    decreases n - j,
                {
                    let ghost members_before = members;
                    let ghost used_before = used@;
                    if !used[j] {
                        if let Some(hj) = recs[j].hash {
                            if is_similar(hi, hj, t) {
                                similar_photos.push(recs[j].photo.clone());
                                used[j] = true;
                                proof {
                                    members = members.push(j as int);
                                }
                            }
                        }
                    }
                    proof {
                        if members != members_before {
                            // index j was absorbed
                            assert(scan_pred(recs@, t, u_start, i as int, j as int));
                            assert(members =~= members_before + seq![j as int]);
                            lemma_to_set_push(members_before, j as int);
                            assert(used_set(used@) =~= used_set(used_before).insert(j as int));
                            assert(used_set(used@) =~= u0.union(members.to_set()));
                            assert(photos_of(recs@, members) =~= photos_of(recs@, members_before)
                                + seq![recs@[j as int].photo]);
                            assert(similar_photos@ =~= seq![recs@[i as int].photo] + photos_of(
                                recs@,
                                members,
                            ));
                        } else {
                            assert(!scan_pred(recs@, t, u_start, i as int, j as int));
                            assert(members_between(recs@, t, u_start, i as int, j + 1)
                                =~= members_between(recs@, t, u_start, i as int, j as int));
                        }
                    }
                    j = j + 1;
                }
                proof {
                    assert(members == member_candidates(recs@, t, u_start, i as int));
                }
                if similar_photos.len() >= 2 {
                    let ghost grp = seq![i as int] + members;
                    proof {
                        assert(members.len() >= 1);
                        assert(greedy_from(recs@, t, u_start, i as int) == seq![grp] + greedy_from(
                            recs@,
                            t,
                            u_start.insert(i as int).union(members.to_set()),
                            i as int + 1,
                        ));
                        lemma_skip_cons(
                            gall,
                            groups@.len() as int,
                            grp,
                            greedy_from(
                                recs@,
                                t,
                                u_start.insert(i as int).union(members.to_set()),
                                i as int + 1,
                            ),
                        );
                        assert(used_set(used@) =~= u_start.insert(i as int).union(
                            members.to_set(),
                        ));
                        assert(photos_of(recs@, grp) =~= seq![recs@[i as int].photo] + photos_of(
                            recs@,
                            members,
                        ));
                    }
                    let id = new_id();
                    groups.push(
                        SimilarityGroup {
                            id: id,
                            photos: similar_photos,
                            similarity: GROUP_SIMILARITY_PERMILLE,
                        },
                    );
                } else {
                    proof {
                        assert(members.len() == 0);
                        assert(used_set(used@) =~= u_start.insert(i as int));
                        assert(greedy_from(recs@, t, used_set(used@), i as int + 1) == gall.skip(
                            groups@.len() as int,
                        ));
                    }
                }
            }
        }
        i = i + 1;
    }
    proof {
        assert(greedy_from(recs@, t, used_set(used@), n as int) =~= Seq::<Seq<int>>::empty());
        assert(gall.skip(groups@.len() as int).len() == 0);
        assert(groups@.len() == gall.len());
    }
    groups
}

/// Runs the greedy grouping pass over the extracted records to the end.
/// The groups come out in anchor order; each holds the photos of one
/// index group of the greedy pass, carries the representative similarity
/// score, and has at least two members.
pub fn group_photos(recs: &Vec<PhotoWithHash>, t: Threshold) -> (groups: Vec<SimilarityGroup>)
    ensures
        groups@.len() == greedy_groups(recs@, t).len(),
        forall|g: int|
            0 <= g < groups@.len() ==> (#[trigger] groups@[g]).photos@ == photos_of(
                recs@,
                greedy_groups(recs@, t)[g],
            ),
        forall|g: int|
            0 <= g < groups@.len() ==> (#[trigger] groups@[g]).similarity
                == GROUP_SIMILARITY_PERMILLE,
        forall|g: int| 0 <= g < groups@.len() ==> (#[trigger] groups@[g]).id@.len() == 36,
        forall|g: int| 0 <= g < groups@.len() ==> (#[trigger] groups@[g]).photos@.len() >= 2,
        recs@.len() == 0 ==> groups@.len() == 0,
{
    run_greedy(None, recs, t)
}

/// Runs the greedy grouping pass while observing the cancellation token:
/// it is polled once per anchor, and once found set the run settles for
/// the empty list — indistinguishable from a run that found nothing.
/// The result is therefore either empty or exactly the greedy grouping.
pub fn group_photos_cancellable(
    cancel: &CancelFlag,
    recs: &Vec<PhotoWithHash>,
    t: Threshold,
) -> (groups: Vec<SimilarityGroup>)
    ensures
        groups@.len() == 0 || {
            &&& groups@.len() == greedy_groups(recs@, t).len()
            &&& forall|g: int|
                0 <= g < groups@.len() ==> (#[trigger] groups@[g]).photos@ == photos_of(
                    recs@,
                    greedy_groups(recs@, t)[g],
                )
        },
        forall|g: int|
            0 <= g < groups@.len() ==> (#[trigger] groups@[g]).similarity
                == GROUP_SIMILARITY_PERMILLE,
        forall|g: int| 0 <= g < groups@.len() ==> (#[trigger] groups@[g]).id@.len() == 36,
        forall|g: int| 0 <= g < groups@.len() ==> (#[trigger] groups@[g]).photos@.len() >= 2,
        recs@.len() == 0 ==> groups@.len() == 0,
{
    run_greedy(Some(cancel), recs, t)
}

/// The outcome of a run once extraction has settled: a cancelled run
/// yields an empty group list — indistinguishable from a run that found
/// nothing — while an uncancelled run yields exactly the greedy grouping
/// of the extracted records. An empty record list yields an empty group
/// list either way.
pub fn analysis_outcome(
    cancelled: bool,
    recs: &Vec<PhotoWithHash>,
    t: Threshold,
) -> (groups: Vec<SimilarityGroup>)
    ensures
        cancelled ==> groups@.len() == 0,
        !cancelled ==> {
            &&& groups@.len() == greedy_groups(recs@, t).len()
            &&& forall|g: int|
                0 <= g < groups@.len() ==> (#[trigger] groups@[g]).photos@ == photos_of(
                    recs@,
                    greedy_groups(recs@, t)[g],
                )
        },
        forall|g: int|
            0 <= g < groups@.len() ==> (#[trigger] groups@[g]).similarity
                == GROUP_SIMILARITY_PERMILLE,
        forall|g: int| 0 <= g < groups@.len() ==> (#[trigger] groups@[g]).photos@.len() >= 2,
        recs@.len() == 0 ==> groups@.len() == 0,
{
    if cancelled {
        Vec::new()
    } else {
        group_photos(recs, t)
    }
}

/// Settles a run against its cancellation token: the grouping pass
/// observes the token throughout (once per anchor), so cancelling before
/// or during grouping yields the empty list. The result is either empty
/// — the run was cancelled, or nothing grouped — or exactly the greedy
/// grouping of the extracted records; whatever the polls found, no
/// emitted group has fewer than two members and every group carries the
/// representative score.
pub fn analyze_photos(
    cancel: &CancelFlag,
    recs: &Vec<PhotoWithHash>,
    t: Threshold,
) -> (groups: Vec<SimilarityGroup>)
    ensures
        groups@.len() == 0 || {
            &&& groups@.len() == greedy_groups(recs@, t).len()
            &&& forall|g: int|
                0 <= g < groups@.len() ==> (#[trigger] groups@[g]).photos@ == photos_of(
                    recs@,
                    greedy_groups(recs@, t)[g],
                )
        },
        forall|g: int| 0 <= g < groups@.len() ==> (#[trigger] groups@[g]).photos@.len() >= 2,
        forall|g: int|
            0 <= g < groups@.len() ==> (#[trigger] groups@[g]).similarity
                == GROUP_SIMILARITY_PERMILLE,
        recs@.len() == 0 ==> groups@.len() == 0,
{
    group_photos_cancellable(cancel, recs, t)
}

} // verus!
