//! The player's identity, entered as one free-form name line.

use vstd::prelude::*;
use vstd::string::StringSliceAdditionalSpecFns;
use crate::text::{bytes_to_string, decoded_text, spec_tokens, tokenize};

verus! {

/// Who is playing; the score report is headed and named after it.
pub struct PlayerInfo {
    pub first_name: String,
    pub last_name: String,
}

impl PlayerInfo {
    pub fn new(first_name: String, last_name: String) -> (r: PlayerInfo)
        ensures
            r.first_name@ == first_name@,
            r.last_name@ == last_name@,
    {
        PlayerInfo { first_name, last_name }
    }
}

/// The words from index `j` on, joined with single spaces.
pub open spec fn spec_join_space(parts: Seq<Seq<u8>>, j: int) -> Seq<u8>
    decreases parts.len() - j,
{
    if j < 0 || j >= parts.len() {
        Seq::empty()
    } else if j == parts.len() - 1 {
        parts[j]
    } else {
        parts[j] + seq![' ' as u8] + spec_join_space(parts, j + 1)
    }
}

/// What a full-name line denotes: nothing unless it holds at least two
/// words; else the first word is the last name and the remaining words,
/// joined with single spaces, are the first name.
pub open spec fn spec_parse_full_name(s: Seq<u8>) -> Option<(Seq<char>, Seq<char>)> {
    let parts = spec_tokens(s);
    if parts.len() < 2 {
        None
    } else {
        Some((decoded_text(parts[0]), decoded_text(spec_join_space(parts, 1))))
    }
}

/// Splits a full-name line into (last name, first name), or nothing when it
/// holds fewer than two words.
#[verifier::loop_isolation(false)]
pub fn parse_full_name(full_name: &str) -> (r: Option<(String, String)>)
    ensures
        match r {
            Some(p) => spec_parse_full_name(full_name.spec_bytes()) == Some((p.0@, p.1@)),
            None => spec_parse_full_name(full_name.spec_bytes()) is None,
        },
{
    let parts = tokenize(full_name.as_bytes());
    let ghost pv = parts.deep_view();
    if parts.len() < 2 {
        return None;
    }
    proof {
        assert(pv[0] == parts@[0]@);
    }
    let last_name = bytes_to_string(parts[0].as_slice());
    let mut joined: Vec<u8> = Vec::new();
    let mut j: usize = 1;
    proof {
        assert(joined@ + spec_join_space(pv, 1) =~= spec_join_space(pv, 1));
    }
    while j < parts.len()
        invariant
            1 <= j <= parts@.len(),
            joined@ + spec_join_space(pv, j as int) == spec_join_space(pv, 1),
        decreases parts@.len() - j,
    {
        proof {
            assert(pv[j as int] == parts@[j as int]@);
        }
        let ghost pre = joined@;
        let mut k: usize = 0;
        let part = &parts[j];
        while k < part.len()
            invariant
                k <= part@.len(),
                joined@ == pre + part@.take(k as int),
            decreases part@.len() - k,
        {
            joined.push(part[k]);
            proof {
                assert(pre + part@.take(k + 1) =~= (pre + part@.take(k as int)).push(
                    part@[k as int],
                ));
            }
            k = k + 1;
        }
        proof {
            assert(part@.take(part@.len() as int) =~= part@);
        }
        if j + 1 < parts.len() {
            joined.push(' ' as u8);
            proof {
                assert((pre + pv[j as int]).push(' ' as u8) + spec_join_space(pv, j + 1) =~= pre
                    + (pv[j as int] + seq![' ' as u8] + spec_join_space(pv, j + 1)));
            }
        } else {
            proof {
                assert(spec_join_space(pv, j as int) =~= pv[j as int]);
                assert(pre + pv[j as int] + spec_join_space(pv, j + 1) =~= pre + pv[j as int]);
            }
        }
        j = j + 1;
    }
    proof {
        assert(spec_join_space(pv, j as int) =~= Seq::<u8>::empty());
        assert(joined@ + Seq::<u8>::empty() =~= joined@);
    }
    let first_name = bytes_to_string(joined.as_slice());
    Some((last_name, first_name))
}

} // verus!
