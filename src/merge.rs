//! How remote records and local overrides combine into one snapshot.
use vstd::prelude::*;

use crate::cache::snapshot_of;
use crate::flag::{FeatureFlag, FlagView, views_of};
use crate::text::{lower_of, to_lower};

verus! {

/// The records of `s` with their names lowercased.
pub open spec fn lowered(s: Seq<FlagView>) -> Seq<FlagView> {
    s.map_values(|f: FlagView| FlagView { name: lower_of(f.name), ..f })
}

/// The records of `s` whose names are not in `names`, in order.
pub open spec fn without_names(s: Seq<FlagView>, names: Set<Seq<char>>) -> Seq<FlagView>
    decreases s.len(),
{
    if s.len() == 0 {
        s
    } else if names.contains(s.last().name) {
        without_names(s.drop_last(), names)
    } else {
        without_names(s.drop_last(), names).push(s.last())
    }
}

/// The records that a merge yields: the remote records that no local override
/// names, then the local overrides.
pub open spec fn merged(remote: Seq<FlagView>, local: Seq<FlagView>) -> Seq<FlagView> {
    without_names(remote, snapshot_of(local).dom()) + local
}

/// A name is in the snapshot of `s` exactly when some record of `s` carries it.
pub proof fn lemma_snapshot_keys(s: Seq<FlagView>, n: Seq<char>)
    ensures
        snapshot_of(s).contains_key(n) <==> exists|i: int| 0 <= i < s.len() && s[i].name == n,
    decreases s.len(),
{
    if s.len() > 0 {
        lemma_snapshot_keys(s.drop_last(), n);
        if snapshot_of(s.drop_last()).contains_key(n) {
            let i = choose|i: int| 0 <= i < s.drop_last().len() && s.drop_last()[i].name == n;
            assert(s[i].name == n);
        }
        if exists|i: int| 0 <= i < s.len() && s[i].name == n {
            let i = choose|i: int| 0 <= i < s.len() && s[i].name == n;
            if i < s.len() - 1 {
                assert(s.drop_last()[i].name == n);
            }
        }
    }
}

/// The snapshot of two sequences one after the other: the second wins.
pub proof fn lemma_snapshot_concat(s: Seq<FlagView>, t: Seq<FlagView>)
    ensures
        snapshot_of(s + t) == snapshot_of(s).union_prefer_right(snapshot_of(t)),
    decreases t.len(),
{
    if t.len() == 0 {
        assert(s + t =~= s);
        assert(snapshot_of(s).union_prefer_right(snapshot_of(t)) =~= snapshot_of(s));
    } else {
        lemma_snapshot_concat(s, t.drop_last());
        assert((s + t).drop_last() =~= s + t.drop_last());
        assert((s + t).last() == t.last());
        assert(snapshot_of(s + t) =~= snapshot_of(s).union_prefer_right(snapshot_of(t)));
    }
}

/// Leaving out the records of some names leaves out those names' entries.
pub proof fn lemma_snapshot_without(s: Seq<FlagView>, names: Set<Seq<char>>)
    ensures
        snapshot_of(without_names(s, names)) == snapshot_of(s).remove_keys(names),
    decreases s.len(),
{
    if s.len() == 0 {
        assert(snapshot_of(s).remove_keys(names) =~= Map::<Seq<char>, FlagView>::empty());
    } else {
        lemma_snapshot_without(s.drop_last(), names);
        let w = without_names(s.drop_last(), names);
        if names.contains(s.last().name) {
            assert(snapshot_of(s).remove_keys(names) =~= snapshot_of(s.drop_last()).remove_keys(names));
        } else {
            assert(w.push(s.last()).drop_last() =~= w);
            assert(snapshot_of(without_names(s, names)) =~= snapshot_of(s).remove_keys(names));
        }
    }
}

/// The snapshot of a merge: a local override replaces the remote record of
/// its name, other remote records stay, other local overrides are added.
pub proof fn lemma_merged_snapshot(remote: Seq<FlagView>, local: Seq<FlagView>)
    ensures
        snapshot_of(merged(remote, local)) == snapshot_of(remote).union_prefer_right(snapshot_of(local)),
{
    let names = snapshot_of(local).dom();
    lemma_snapshot_concat(without_names(remote, names), local);
    lemma_snapshot_without(remote, names);
    assert(snapshot_of(remote).remove_keys(names).union_prefer_right(snapshot_of(local))
        =~= snapshot_of(remote).union_prefer_right(snapshot_of(local)));
}

/// Where a name is overridden locally, the merged snapshot holds the local
/// record; where it is not, the remote one, if any.
pub proof fn local_override_wins(remote: Seq<FlagView>, local: Seq<FlagView>, n: Seq<char>)
    ensures
        snapshot_of(local).contains_key(n) ==> snapshot_of(merged(remote, local)).contains_key(n)
            && snapshot_of(merged(remote, local))[n] == snapshot_of(local)[n],
        !snapshot_of(local).contains_key(n) ==> (snapshot_of(merged(remote, local)).contains_key(n)
            == snapshot_of(remote).contains_key(n)),
        !snapshot_of(local).contains_key(n) && snapshot_of(remote).contains_key(n)
            ==> snapshot_of(merged(remote, local))[n] == snapshot_of(remote)[n],
{
    lemma_merged_snapshot(remote, local);
}

/// Lowercases the name of each record, keeping identifiers and states.
pub fn normalize_names(flags: &[FeatureFlag]) -> (r: Vec<FeatureFlag>)
    ensures
        views_of(r@) == lowered(views_of(flags@)),
{
    let mut out: Vec<FeatureFlag> = Vec::new();
    let mut i: usize = 0;
    while i < flags.len()
        invariant
            i <= flags@.len(),
            views_of(out@) == lowered(views_of(flags@)).take(i as int),
        decreases flags@.len() - i,
    {
        let f = &flags[i];
        let name = to_lower(f.details.name.as_str());
        let g = FeatureFlag::new(name, f.details.id.clone(), f.enabled);
        let ghost before = out@;
        out.push(g);
        proof {
            assert(views_of(out@) =~= views_of(before).push(g@));
            assert(lowered(views_of(flags@)).take(i + 1) =~= lowered(views_of(flags@)).take(i as int).push(g@));
        }
        i = i + 1;
    }
    proof {
        assert(lowered(views_of(flags@)).take(flags@.len() as int) =~= lowered(views_of(flags@)));
    }
    out
}

/// Whether some record of `v` is named `name`.
fn names_any(v: &[FeatureFlag], name: &String) -> (r: bool)
    ensures
        r == exists|k: int| 0 <= k < v@.len() && v@[k].details.name@ == name@,
{
    let mut i: usize = 0;
    while i < v.len()
        invariant
            i <= v@.len(),
            forall|k: int| 0 <= k < i ==> v@[k].details.name@ != name@,
        decreases v@.len() - i,
    {
        if v[i].details.name == *name {
            return true;
        }
        i = i + 1;
    }
    false
}

/// Combines remote records with local overrides: a local override fully
/// replaces the remote record of the same name, remote records without an
/// override are kept, and overrides without a remote record are added.
pub fn merge_flags(remote: &[FeatureFlag], local: &[FeatureFlag]) -> (r: Vec<FeatureFlag>)
    ensures
        views_of(r@) == merged(views_of(remote@), views_of(local@)),
        snapshot_of(views_of(r@)) == snapshot_of(views_of(remote@)).union_prefer_right(
            snapshot_of(views_of(local@)),
        ),
{
    let ghost rv = views_of(remote@);
    let ghost lv = views_of(local@);
    let ghost names = snapshot_of(lv).dom();
    let mut out: Vec<FeatureFlag> = Vec::new();
    let mut i: usize = 0;
    proof {
        assert(views_of(out@) =~= without_names(rv.take(0), names));
    }
    while i < remote.len()
        invariant
            i <= remote@.len(),
            rv == views_of(remote@),
            lv == views_of(local@),
            names == snapshot_of(lv).dom(),
            views_of(out@) == without_names(rv.take(i as int), names),
        decreases remote@.len() - i,
    {
        let f = &remote[i];
        let overridden = names_any(local, &f.details.name);
        proof {
            assert(rv.take(i + 1).drop_last() =~= rv.take(i as int));
            assert(rv.take(i + 1).last() == f@);
            lemma_snapshot_keys(lv, f@.name);
            if overridden {
                let k = choose|k: int| 0 <= k < local@.len() && local@[k].details.name@ == f@.name;
                assert(lv[k].name == f@.name);
            } else {
                assert forall|k: int| 0 <= k < lv.len() implies lv[k].name != f@.name by {
                    assert(lv[k] == local@[k]@);
                }
            }
        }
        if !overridden {
            let ghost before = out@;
            out.push(f.duplicate());
            proof {
                assert(views_of(out@) =~= views_of(before).push(f@));
            }
        }
        i = i + 1;
    }
    let mut j: usize = 0;
    let ghost kept = out@;
    proof {
        assert(rv.take(remote@.len() as int) =~= rv);
        assert(views_of(out@) =~= views_of(kept) + lv.take(0));
    }
    while j < local.len()
        invariant
            j <= local@.len(),
            lv == views_of(local@),
            views_of(out@) == views_of(kept) + lv.take(j as int),
        decreases local@.len() - j,
    {
        let ghost before = out@;
        out.push(local[j].duplicate());
        proof {
            assert(views_of(out@) =~= views_of(before).push(local@[j as int]@));
            assert(lv.take(j + 1) =~= lv.take(j as int).push(lv[j as int]));
        }
        j = j + 1;
    }
    proof {
        assert(lv.take(local@.len() as int) =~= lv);
        lemma_merged_snapshot(rv, lv);
    }
    out
}

} // verus!
