//! Flags declared locally, from environment-style key/value pairs.
use vstd::prelude::*;

use crate::flag::{FeatureFlag, FlagView, views_of};
use crate::text::{contains_char, has_prefix, lower_of, replace_char, strip_all, strip_prefixes, swap_char, to_lower};

verus! {

/// The override record for one spelling of a name.
pub open spec fn local_record(name: Seq<char>, enabled: bool) -> FlagView {
    FlagView { name, id: "local_"@ + name, enabled }
}

/// The records that one pair gives: none unless the key starts with `FLAGS_`;
/// else the lowercased rest of the key, then its hyphenated spelling where it
/// holds an underscore, then its spaced spelling where it holds an underscore
/// or a hyphen, each enabled exactly when the value is `true`.
pub open spec fn override_records(key: Seq<char>, value: Seq<char>) -> Seq<FlagView> {
    if "FLAGS_"@.is_prefix_of(key) {
        let enabled = value == "true"@;
        let name = lower_of(strip_all(key, "FLAGS_"@));
        let hyphenated = swap_char(name, '_', '-');
        let spaced = swap_char(swap_char(name, '_', ' '), '-', ' ');
        seq![local_record(name, enabled)]
            + (if name.contains('_') { seq![local_record(hyphenated, enabled)] } else { Seq::empty() })
            + (if name.contains('_') || name.contains('-') {
                seq![local_record(spaced, enabled)]
            } else {
                Seq::empty()
            })
    } else {
        Seq::empty()
    }
}

/// The records that a list of pairs gives, in order.
pub open spec fn overrides_of(vars: Seq<(String, String)>) -> Seq<FlagView>
    decreases vars.len(),
{
    if vars.len() == 0 {
        Seq::empty()
    } else {
        overrides_of(vars.drop_last()) + override_records(vars.last().0@, vars.last().1@)
    }
}

fn local_flag(name: &String, enabled: bool) -> (r: FeatureFlag)
    ensures
        r@ == local_record(name@, enabled),
{
    let id = String::from_str("local_").concat(name.as_str());
    FeatureFlag::new(name.clone(), id, enabled)
}

/// The local overrides that environment-style `(key, value)` pairs declare.
pub fn build_local(vars: &Vec<(String, String)>) -> (r: Vec<FeatureFlag>)
    ensures
        views_of(r@) == overrides_of(vars@),
{
    let mut result: Vec<FeatureFlag> = Vec::new();
    let mut i: usize = 0;
    proof {
        assert(vars@.take(0) =~= Seq::<(String, String)>::empty());
        assert(views_of(result@) =~= Seq::<FlagView>::empty());
    }
    while i < vars.len()
        invariant
            i <= vars@.len(),
            views_of(result@) == overrides_of(vars@.take(i as int)),
        decreases vars@.len() - i,
    {
        let key = &vars[i].0;
        let value = &vars[i].1;
        let ghost before = views_of(result@);
        proof {
            assert(vars@.take(i + 1).drop_last() =~= vars@.take(i as int));
            assert(vars@.take(i + 1).last() == vars@[i as int]);
        }
        if has_prefix(key.as_str(), "FLAGS_") {
            proof {
                reveal_strlit("FLAGS_");
            }
            let enabled = *value == String::from_str("true");
            let stripped = strip_prefixes(key.as_str(), "FLAGS_");
            let name = to_lower(stripped.as_str());
            let f = local_flag(&name, enabled);
            result.push(f);
            let ghost added = seq![f@];
            let has_underscore = contains_char(name.as_str(), '_');
            if has_underscore {
                proof {
                    reveal_strlit("-");
                }
                let hyphenated = replace_char(name.as_str(), '_', "-");
                let g = local_flag(&hyphenated, enabled);
                result.push(g);
                proof {
                    added = added + seq![g@];
                }
            }
            if has_underscore || contains_char(name.as_str(), '-') {
                proof {
                    reveal_strlit(" ");
                }
                let once = replace_char(name.as_str(), '_', " ");
                let spaced = replace_char(once.as_str(), '-', " ");
                let h = local_flag(&spaced, enabled);
                result.push(h);
                proof {
                    added = added + seq![h@];
                }
            }
            proof {
                assert(views_of(result@) =~= before + added);
                assert(added =~= override_records(key@, value@));
            }
        } else {
            proof {
                assert(override_records(key@, value@) =~= Seq::<FlagView>::empty());
                assert(before + Seq::<FlagView>::empty() =~= before);
            }
        }
        i = i + 1;
    }
    proof {
        assert(vars@.take(vars@.len() as int) =~= vars@);
    }
    result
}

} // verus!
