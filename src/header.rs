//! The text of the request and response headers that name flags.
use vstd::prelude::*;

use crate::text::{trim_of, trimmed};

verus! {

/// The pieces of `s` between commas, in order; a string without commas is one
/// piece.
pub open spec fn comma_pieces(s: Seq<char>) -> Seq<Seq<char>>
    decreases s.len(),
{
    if s.len() == 0 {
        seq![Seq::empty()]
    } else {
        let p = comma_pieces(s.drop_last());
        if s.last() == ',' {
            p.push(Seq::empty())
        } else {
            p.update(p.len() - 1, p.last().push(s.last()))
        }
    }
}

/// The flag names that a header value asks about: the value split at commas,
/// each piece trimmed of whitespace.
pub fn requested_flags(value: &str) -> (r: Vec<String>)
    ensures
        r@.len() == comma_pieces(value@).len(),
        forall|i: int| 0 <= i < r@.len() ==> (#[trigger] r@[i])@ == trim_of(comma_pieces(value@)[i]),
{
    let n = value.unicode_len();
    let mut done: Vec<String> = Vec::new();
    let mut current = String::new();
    let mut i: usize = 0;
    proof {
        assert(value@.take(0) =~= Seq::<char>::empty());
    }
    while i < n
        invariant
            n == value@.len(),
            i <= n,
            comma_pieces(value@.take(i as int)).len() == done@.len() + 1,
            forall|k: int| 0 <= k < done@.len() ==> (#[trigger] done@[k])@ == trim_of(
                comma_pieces(value@.take(i as int))[k],
            ),
            current@ == comma_pieces(value@.take(i as int)).last(),
        decreases n - i,
    {
        let ch = value.get_char(i);
        let ghost before = comma_pieces(value@.take(i as int));
        proof {
            assert(value@.take(i + 1).drop_last() =~= value@.take(i as int));
            assert(value@.take(i + 1).last() == ch);
        }
        if ch == ',' {
            let piece = String::from_str(trimmed(current.as_str()));
            done.push(piece);
            current = String::new();
        } else {
            let one = value.substring_char(i, i + 1);
            current.append(one);
            proof {
                assert(one@ =~= seq![ch]);
                assert(current@ =~= before.last().push(ch));
            }
        }
        i = i + 1;
    }
    done.push(String::from_str(trimmed(current.as_str())));
    proof {
        assert(value@.take(n as int) =~= value@);
    }
    done
}

/// The names of `names` joined by commas.
pub open spec fn comma_joined(names: Seq<Seq<char>>) -> Seq<char>
    decreases names.len(),
{
    if names.len() == 0 {
        Seq::empty()
    } else if names.len() == 1 {
        names[0]
    } else {
        comma_joined(names.drop_last()) + ","@ + names.last()
    }
}

/// The response header value that reports the enabled flags: none when no flag
/// is enabled, else their names joined by commas.
pub fn enabled_header(enabled: &Vec<String>) -> (r: Option<String>)
    ensures
        enabled@.len() == 0 ==> r is None,
        enabled@.len() > 0 ==> r is Some && r->0@ == comma_joined(enabled@.map_values(|s: String| s@)),
{
    if enabled.len() == 0 {
        return None;
    }
    let ghost names = enabled@.map_values(|s: String| s@);
    let mut out = enabled[0].clone();
    let mut i: usize = 1;
    proof {
        assert(names.take(1).len() == 1);
        assert(comma_joined(names.take(1)) == names[0]);
    }
    while i < enabled.len()
        invariant
            names == enabled@.map_values(|s: String| s@),
            1 <= i <= enabled@.len(),
            out@ == comma_joined(names.take(i as int)),
        decreases enabled@.len() - i,
    {
        out.append(",");
        out.append(enabled[i].as_str());
        proof {
            assert(names.take(i + 1).drop_last() =~= names.take(i as int));
            assert(names.take(i + 1).last() == enabled@[i as int]@);
        }
        i = i + 1;
    }
    proof {
        assert(names.take(enabled@.len() as int) =~= names);
    }
    Some(out)
}

} // verus!
