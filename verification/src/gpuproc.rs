//! GPU engine counters (PDH `\GPU Engine(*)\Utilization Percentage`):
//! the instance name carries `pid_<PID>_..._engtype_<type>`. The counter
//! values are floating point and are summed outside this crate; the
//! instance names are read here.

use vstd::prelude::*;

use crate::text::{
    chars_of, find_spec, occurs_at, parse_u32, parse_u32_spec, rfind, slice_chars,
    starts_with, string_from, is_last_at, occurs_from, find_from,
};

verus! {

/// The PID in an instance name `pid_1234_luid_..._engtype_3D`: the
/// digits after the `pid_` prefix up to the next `_`.
pub open spec fn pid_spec(name: Seq<char>) -> Option<u32> {
    if !occurs_at(name, "pid_"@, 0) {
        None
    } else {
        let rest = name.skip(4);
        let end = match find_spec(rest, seq!['_'], 0) {
            Some(e) => e,
            None => rest.len() as int,
        };
        parse_u32_spec(rest.take(end))
    }
}

/// Reads the PID out of an instance name.
pub fn pid_from_instance(name: &str) -> (r: Option<u32>)
    ensures
        r == pid_spec(name@),
{
    let cs = chars_of(name);
    let pre = chars_of("pid_");
    proof {
        reveal_strlit("pid_");
    }
    if !starts_with(&cs, &pre) {
        return None;
    }
    let rest = slice_chars(&cs, 4, cs.len());
    assert(rest@ =~= cs@.skip(4));
    let us: Vec<char> = vec!['_'];
    let end = match find_from(&rest, &us, 0) {
        Some(e) => e,
        None => rest.len(),
    };
    proof {
        crate::text::lemma_find_spec(rest@, us@, 0);
        assert(us@ =~= seq!['_']);
    }
    let digits = slice_chars(&rest, 0, end);
    assert(digits@ =~= rest@.take(end as int));
    parse_u32(&digits)
}

/// The engine type in an instance name ("3D", "Copy", …): the text after
/// the last `engtype_`.
pub open spec fn engtype_spec(name: Seq<char>) -> Option<Seq<char>> {
    if occurs_from(name, "engtype_"@, 0) {
        let i = choose|i: int| is_last_at(name, "engtype_"@, i);
        Some(name.skip(i + 8))
    } else {
        None
    }
}

/// Reads the engine type out of an instance name.
pub fn engtype_from_instance(name: &str) -> (r: Option<String>)
    ensures
        match r {
            Some(t) => engtype_spec(name@) == Some(t@),
            None => engtype_spec(name@) is None,
        },
{
    let cs = chars_of(name);
    let pat = chars_of("engtype_");
    proof {
        reveal_strlit("engtype_");
    }
    match rfind(&cs, &pat) {
        Some(i) => {
            proof {
                let j = choose|j: int| is_last_at(cs@, pat@, j);
                assert(j == i);
                assert(occurs_from(cs@, pat@, 0));
                assert(occurs_at(cs@, pat@, i as int));
                assert(pat@.len() == 8);
                assert(cs@.len() == cs.len());
            }
            let t = slice_chars(&cs, i + 8, cs.len());
            assert(t@ =~= cs@.skip(i + 8));
            Some(string_from(&t))
        },
        None => None,
    }
}

} // verus!
