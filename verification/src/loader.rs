//! Loading a level set from a directory listing: files named
//! `<integer>.txt` are taken, sorted numerically by their stem (not
//! lexically), parsed in that order and numbered from zero; files whose
//! names are not numeric are ignored, and the first file that fails to
//! parse aborts the whole batch with an error naming it.
//!
//! The directory itself is read outside; this module takes the file names
//! with their contents as plain values.

use vstd::prelude::*;
use vstd::slice::{slice_subrange, slice_to_vec};
use vstd::string::StringSliceAdditionalSpecFns;
use crate::level::{spec_field_usize, spec_parse_level, LevelData, LevelV, ParseError};
use crate::text::parse_usize;

verus! {

/// Why a batch of level files was rejected: the file that failed and how.
#[derive(Debug)]
pub struct LevelLoadError {
    pub file_name: String,
    pub error: ParseError,
}

/// The four bytes of the `.txt` suffix.
pub open spec fn txt_suffix() -> Seq<u8> {
    seq!['.' as u8, 't' as u8, 'x' as u8, 't' as u8]
}

/// The level number a file name denotes: its stem read as an unsigned
/// number, provided the name ends in `.txt`.
pub open spec fn spec_stem_num(b: Seq<u8>) -> Option<int> {
    if b.len() >= 4 && b.skip(b.len() - 4) == txt_suffix() {
        spec_field_usize(b.take(b.len() - 4))
    } else {
        None
    }
}

/// The (level number, file index) pairs of the numerically named files,
/// in directory order, from file `i` on.
pub open spec fn spec_stems(files: Seq<(String, Vec<u8>)>, i: int) -> Seq<(int, int)>
    decreases files.len() - i,
{
    if i < 0 || i >= files.len() {
        Seq::empty()
    } else {
        match spec_stem_num(vstd::utf8::encode_utf8(files[i].0@)) {
            Some(n) => seq![(n, i)] + spec_stems(files, i + 1),
            None => spec_stems(files, i + 1),
        }
    }
}

/// Insertion before the first entry with an equal or greater number, so
/// equal numbers keep their directory order.
pub open spec fn spec_insert_file(e: (int, int), s: Seq<(int, int)>) -> Seq<(int, int)>
    decreases s.len(),
{
    if s.len() == 0 {
        seq![e]
    } else if e.0 <= s[0].0 {
        seq![e] + s
    } else {
        seq![s[0]] + spec_insert_file(e, s.drop_first())
    }
}

/// Stable insertion sort of the (number, index) pairs by number.
pub open spec fn spec_sort_files(s: Seq<(int, int)>) -> Seq<(int, int)>
    decreases s.len(),
{
    if s.len() == 0 {
        Seq::empty()
    } else {
        spec_insert_file(s[0], spec_sort_files(s.drop_first()))
    }
}

/// What loading the sorted files from position `k` on yields: each parsed
/// with its position as id, or the index of the first file that fails with
/// its parse error.
pub open spec fn spec_load(
    files: Seq<(String, Vec<u8>)>,
    sorted: Seq<(int, int)>,
    k: int,
) -> Result<Seq<LevelV>, (int, ParseError)>
    decreases sorted.len() - k,
{
    if k < 0 || k >= sorted.len() {
        Ok(Seq::empty())
    } else {
        match spec_parse_level(files[sorted[k].1].1@, k) {
            Err(e) => Err((sorted[k].1, e)),
            Ok(lv) => match spec_load(files, sorted, k + 1) {
                Err(e) => Err(e),
                Ok(rest) => Ok(seq![lv] + rest),
            },
        }
    }
}

/// Every entry of an insertion comes from the inserted element or the
/// sequence inserted into.
proof fn lemma_insert_file_membership(e: (int, int), s: Seq<(int, int)>)
    ensures
        forall|t: int|
            0 <= t < spec_insert_file(e, s).len() ==> (#[trigger] spec_insert_file(e, s)[t]) == e
                || s.contains(spec_insert_file(e, s)[t]),
        spec_insert_file(e, s).len() == s.len() + 1,
    decreases s.len(),
{
    if s.len() > 0 && !(e.0 <= s[0].0) {
        lemma_insert_file_membership(e, s.drop_first());
        assert forall|t: int| 0 <= t < spec_insert_file(e, s).len() implies (
        #[trigger] spec_insert_file(e, s)[t]) == e || s.contains(spec_insert_file(e, s)[t]) by {
            if t > 0 {
                let x = spec_insert_file(e, s)[t];
                assert(x == spec_insert_file(e, s.drop_first())[t - 1]);
                if x != e {
                    let w = choose|w: int|
                        0 <= w < s.drop_first().len() && s.drop_first()[w] == x;
                    assert(s[w + 1] == x);
                }
            }
        }
    }
}

/// Every entry of the sorted sequence comes from the unsorted one.
proof fn lemma_sort_files_membership(s: Seq<(int, int)>)
    ensures
        forall|t: int|
            0 <= t < spec_sort_files(s).len() ==> s.contains(#[trigger] spec_sort_files(s)[t]),
        spec_sort_files(s).len() == s.len(),
    decreases s.len(),
{
    if s.len() > 0 {
        lemma_sort_files_membership(s.drop_first());
        lemma_insert_file_membership(s[0], spec_sort_files(s.drop_first()));
        assert forall|t: int| 0 <= t < spec_sort_files(s).len() implies s.contains(
            #[trigger] spec_sort_files(s)[t],
        ) by {
            let x = spec_sort_files(s)[t];
            if x != s[0] {
                let w = choose|w: int|
                    0 <= w < spec_sort_files(s.drop_first()).len() && spec_sort_files(
                        s.drop_first(),
                    )[w] == x;
                let v = choose|v: int|
                    0 <= v < s.drop_first().len() && s.drop_first()[v] == x;
                assert(s[v + 1] == x);
            }
        }
    }
}

/// The (number, index) pairs as mathematical integers.
pub open spec fn pair_view(s: Seq<(usize, usize)>) -> Seq<(int, int)> {
    s.map_values(|p: (usize, usize)| (p.0 as int, p.1 as int))
}

/// Reads a file name's level number, if it is a numerically named `.txt`.
fn stem_num(name: &str) -> (r: Option<usize>)
    ensures
        match r {
            Some(v) => spec_stem_num(name.spec_bytes()) == Some(v as int),
            None => spec_stem_num(name.spec_bytes()) is None,
        },
{
    let b = name.as_bytes();
    if b.len() < 4 {
        return None;
    }
    let n = b.len();
    if !(b[n - 4] == '.' as u8 && b[n - 3] == 't' as u8 && b[n - 2] == 'x' as u8 && b[n - 1]
        == 't' as u8) {
        proof {
            if b@.skip(n - 4) == txt_suffix() {
                assert(forall|t: int|
                    0 <= t < 4 ==> b@[n - 4 + t] == #[trigger] b@.skip(n - 4)[t]);
            }
        }
        return None;
    }
    proof {
        assert(b@.skip(n - 4) =~= txt_suffix());
        assert(b@.subrange(0, n - 4) =~= b@.take(n - 4));
    }
    parse_usize(slice_subrange(b, 0, n - 4))
}

/// Inserts one pair before the first entry with an equal or greater
/// number.
fn insert_sorted(e: (usize, usize), v: &[(usize, usize)]) -> (r: Vec<(usize, usize)>)
    ensures
        pair_view(r@) == spec_insert_file((e.0 as int, e.1 as int), pair_view(v@)),
    decreases v@.len(),
{
    if v.len() == 0 {
        let mut r: Vec<(usize, usize)> = Vec::new();
        r.push(e);
        proof {
            assert(pair_view(r@) =~= seq![(e.0 as int, e.1 as int)]);
        }
        r
    } else if e.0 <= v[0].0 {
        let mut r: Vec<(usize, usize)> = Vec::new();
        r.push(e);
        let mut i: usize = 0;
        while i < v.len()
            invariant
                i <= v@.len(),
                r@ =~= seq![e] + v@.take(i as int),
            decreases v@.len() - i,
        {
            r.push(v[i]);
            proof {
                assert((seq![e] + v@.take(i as int)).push(v@[i as int]) =~= seq![e] + v@.take(
                    i + 1,
                ));
            }
            i = i + 1;
        }
        proof {
            assert(v@.take(v@.len() as int) =~= v@);
            assert(pair_view(r@) =~= seq![(e.0 as int, e.1 as int)] + pair_view(v@));
        }
        r
    } else {
        let head = v[0];
        let mut r = insert_sorted(e, slice_subrange(v, 1, v.len()));
        r.insert(0, head);
        proof {
            assert(v@.subrange(1, v@.len() as int) =~= v@.drop_first());
            assert(pair_view(v@.drop_first()) =~= pair_view(v@).drop_first());
            assert(pair_view(r@) =~= seq![(head.0 as int, head.1 as int)] + spec_insert_file(
                (e.0 as int, e.1 as int),
                pair_view(v@).drop_first(),
            ));
        }
        r
    }
}

/// Sorts the (number, index) pairs by number, stably.
fn sort_files(v: &[(usize, usize)]) -> (r: Vec<(usize, usize)>)
    ensures
        pair_view(r@) == spec_sort_files(pair_view(v@)),
    decreases v@.len(),
{
    if v.len() == 0 {
        let r: Vec<(usize, usize)> = Vec::new();
        proof {
            assert(pair_view(r@) =~= Seq::<(int, int)>::empty());
        }
        r
    } else {
        let rest = sort_files(slice_subrange(v, 1, v.len()));
        proof {
            assert(v@.subrange(1, v@.len() as int) =~= v@.drop_first());
            assert(pair_view(v@.drop_first()) =~= pair_view(v@).drop_first());
        }
        insert_sorted(v[0], rest.as_slice())
    }
}

/// Loads a level set from the files of a directory, given as (file name,
/// content) pairs in directory order: numerically named `.txt` files are
/// sorted by number and parsed in that order, each getting its position as
/// id; any file that fails to parse aborts the batch, naming the file.
#[verifier::loop_isolation(false)]
pub fn load_levels(files: &Vec<(String, Vec<u8>)>) -> (r: Result<Vec<LevelData>, LevelLoadError>)
    ensures
        ({
            let sorted = spec_sort_files(spec_stems(files@, 0));
            match r {
                Ok(levels) => spec_load(files@, sorted, 0) == Ok::<Seq<LevelV>, (int, ParseError)>(
                    levels@.map_values(|l: LevelData| l.view_v()),
                ) && (forall|k: int| 0 <= k < levels@.len() ==> (#[trigger] levels@[k]).id == k),
                Err(e) => spec_load(files@, sorted, 0) matches Err(err) && e.error == err.1 && 0
                    <= err.0 < files@.len() && e.file_name@ == files@[err.0].0@,
            }
        }),
{
    let mut stems: Vec<(usize, usize)> = Vec::new();
    let mut i: usize = 0;
    proof {
        assert(pair_view(stems@) + spec_stems(files@, 0) =~= spec_stems(files@, 0));
    }
    while i < files.len()
        invariant
            i <= files@.len(),
            spec_stems(files@, 0) == pair_view(stems@) + spec_stems(files@, i as int),
            forall|t: int| 0 <= t < stems@.len() ==> (#[trigger] stems@[t]).1 < files@.len(),
        decreases files@.len() - i,
    {
        let ghost pre = pair_view(stems@);
        match stem_num(files[i].0.as_str()) {
            Some(n) => {
                stems.push((n, i));
                proof {
                    assert(pair_view(stems@) =~= pre.push((n as int, i as int)));
                    assert(pre + (seq![(n as int, i as int)] + spec_stems(files@, i + 1))
                        =~= pair_view(stems@) + spec_stems(files@, i + 1));
                }
            },
            None => {},
        }
        i = i + 1;
    }
    proof {
        assert(spec_stems(files@, i as int) =~= Seq::<(int, int)>::empty());
        assert(pair_view(stems@) + Seq::<(int, int)>::empty() =~= pair_view(stems@));
    }
    let sorted = sort_files(stems.as_slice());
    let ghost sv = spec_sort_files(spec_stems(files@, 0));
    proof {
        lemma_sort_files_membership(pair_view(stems@));
        assert(forall|t: int| 0 <= t < sorted@.len() ==> (#[trigger] sorted@[t]).1 < files@.len())
            by {
            assert forall|t: int| 0 <= t < sorted@.len() implies (#[trigger] sorted@[t]).1
                < files@.len() by {
                assert(pair_view(sorted@)[t] == (sorted@[t].0 as int, sorted@[t].1 as int));
                let x = pair_view(sorted@)[t];
                let w = choose|w: int|
                    0 <= w < pair_view(stems@).len() && pair_view(stems@)[w] == x;
                assert(stems@[w].1 < files@.len());
            }
        }
    }
    let mut out: Vec<LevelData> = Vec::new();
    let mut k: usize = 0;
    proof {
        assert(out@.map_values(|l: LevelData| l.view_v()) =~= Seq::<LevelV>::empty());
        if spec_load(files@, sv, 0) is Ok {
            assert(Seq::<LevelV>::empty() + spec_load(files@, sv, 0)->Ok_0 =~= spec_load(
                files@,
                sv,
                0,
            )->Ok_0);
        }
    }
    while k < sorted.len()
        invariant
            k <= sorted@.len(),
            out@.len() == k,
            forall|t: int| 0 <= t < k ==> (#[trigger] out@[t]).id == t,
            match spec_load(files@, sv, k as int) {
                Ok(rest) => spec_load(files@, sv, 0) == Ok::<Seq<LevelV>, (int, ParseError)>(
                    out@.map_values(|l: LevelData| l.view_v()) + rest,
                ),
                Err(e) => spec_load(files@, sv, 0) == Err::<Seq<LevelV>, (int, ParseError)>(e),
            },
        decreases sorted@.len() - k,
    {
        let idx = sorted[k].1;
        proof {
            assert(pair_view(sorted@)[k as int] == (sorted@[k as int].0 as int, idx as int));
            assert(sv[k as int].1 == idx as int);
        }
        match LevelData::parse(files[idx].1.as_slice(), k) {
            Ok(ld) => {
                let ghost pre = out@.map_values(|l: LevelData| l.view_v());
                out.push(ld);
                proof {
                    assert(out@.map_values(|l: LevelData| l.view_v()) =~= pre.push(ld.view_v()));
                    if spec_load(files@, sv, k + 1) is Ok {
                        assert(pre + (seq![ld.view_v()] + spec_load(files@, sv, k + 1)->Ok_0)
                            =~= out@.map_values(|l: LevelData| l.view_v()) + spec_load(
                            files@,
                            sv,
                            k + 1,
                        )->Ok_0);
                    }
                }
            },
            Err(e) => {
                return Err(LevelLoadError { file_name: files[idx].0.clone(), error: e });
            },
        }
        k = k + 1;
    }
    proof {
        assert(spec_load(files@, sv, k as int) == Ok::<Seq<LevelV>, (int, ParseError)>(
            Seq::<LevelV>::empty(),
        ));
        assert(out@.map_values(|l: LevelData| l.view_v()) + Seq::<LevelV>::empty()
            =~= out@.map_values(|l: LevelData| l.view_v()));
    }
    Ok(out)
}

} // verus!
