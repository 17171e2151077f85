//! Node.js version directories (`v22.3.0`): reading them and choosing the
//! newest one that holds an `openclaw` executable.
use vstd::prelude::*;
use core::cmp::Ordering;
use crate::text::{chars_of, parse_uint, parse_unsigned, split, split_char, starts, starts_with, strip_leading, strip_leading_index, sub_vec, views, vviews};

verus! {

broadcast use vstd::string::group_string_axioms;

/// `major.minor.patch` read from a version text: leading `'v'`s removed,
/// the first three `'.'`-separated pieces read as `u32` (more pieces are ignored).
pub open spec fn semver_of(version: Seq<char>) -> Option<(u32, u32, u32)> {
    let ps = split(strip_leading(version, 'v'), '.');
    if ps.len() < 3 {
        None
    } else {
        match (
            parse_unsigned(ps[0], 0xffff_ffff),
            parse_unsigned(ps[1], 0xffff_ffff),
            parse_unsigned(ps[2], 0xffff_ffff),
        ) {
            (Some(a), Some(b), Some(c)) => Some((a as u32, b as u32, c as u32)),
            _ => None,
        }
    }
}

/// Reads `major.minor.patch` from a version text.
pub fn parse_semver_tuple(version: &str) -> (r: Option<(u32, u32, u32)>)
    ensures
        r == semver_of(version@),
{
    let v = chars_of(version);
    let start = strip_leading_index(&v, 'v');
    let rest = sub_vec(&v, start, v.len());
    let ps = split_char(&rest, '.');
    assert(vviews(ps@) == split(strip_leading(version@, 'v'), '.'));
    if ps.len() < 3 {
        return None;
    }
    assert(vviews(ps@)[0] == ps@[0]@);
    assert(vviews(ps@)[1] == ps@[1]@);
    assert(vviews(ps@)[2] == ps@[2]@);
    let a = parse_uint(&ps[0], 0xffff_ffff);
    let b = parse_uint(&ps[1], 0xffff_ffff);
    let c = parse_uint(&ps[2], 0xffff_ffff);
    match (a, b, c) {
        (Some(a), Some(b), Some(c)) => Some((a as u32, b as u32, c as u32)),
        _ => None,
    }
}

/// Version `a` is older than version `b`.
pub open spec fn older(a: (u32, u32, u32), b: (u32, u32, u32)) -> bool {
    a.0 < b.0 || (a.0 == b.0 && (a.1 < b.1 || (a.1 == b.1 && a.2 < b.2)))
}

/// Orders two versions field by field.
pub fn compare_semver(a: (u32, u32, u32), b: (u32, u32, u32)) -> (r: Ordering)
    ensures
        (r == Ordering::Less) == older(a, b),
        (r == Ordering::Equal) == (a == b),
        (r == Ordering::Greater) == older(b, a),
{
    if a.0 < b.0 {
        Ordering::Less
    } else if a.0 > b.0 {
        Ordering::Greater
    } else if a.1 < b.1 {
        Ordering::Less
    } else if a.1 > b.1 {
        Ordering::Greater
    } else if a.2 < b.2 {
        Ordering::Less
    } else if a.2 > b.2 {
        Ordering::Greater
    } else {
        Ordering::Equal
    }
}

/// Whether version `a` is newer than version `b`.
pub fn is_newer(a: (u32, u32, u32), b: (u32, u32, u32)) -> (r: bool)
    ensures
        r == older(b, a),
{
    match compare_semver(a, b) {
        Ordering::Greater => true,
        Ordering::Less => false,
        Ordering::Equal => false,
    }
}

/// A version directory takes part in the choice: its name starts with `'v'`,
/// reads as a version, and it holds an executable.
pub open spec fn eligible(name: Seq<char>, executable: bool) -> bool {
    starts(name, "v"@) && semver_of(name) is Some && executable
}

/// Abstract view of the scanned directories.
pub open spec fn entry_views(es: Seq<(String, bool)>) -> Seq<(Seq<char>, bool)> {
    es.map_values(|e: (String, bool)| (e.0@, e.1))
}

/// `i` is the chosen directory among `es`: eligible, not older than any
/// eligible one, and newer than every eligible one before it (the first of
/// equal newest versions wins).
pub open spec fn is_latest(es: Seq<(Seq<char>, bool)>, i: int) -> bool {
    &&& 0 <= i < es.len()
    &&& eligible(es[i].0, es[i].1)
    &&& forall|j: int|
        0 <= j < es.len() && eligible(es[j].0, es[j].1) ==> !older(
            semver_of(es[i].0).unwrap(),
            semver_of(es[j].0).unwrap(),
        )
    &&& forall|j: int|
        0 <= j < i && eligible(es[j].0, es[j].1) ==> older(
            semver_of(es[j].0).unwrap(),
            semver_of(es[i].0).unwrap(),
        )
}

/// Chooses the newest Node.js version directory that holds `openclaw`
/// (`entries` lists each directory name with whether `bin/openclaw` in it is
/// executable).
pub fn pick_latest_version(entries: &Vec<(String, bool)>) -> (r: Option<usize>)
    ensures
        match r {
            Some(i) => is_latest(entry_views(entries@), i as int),
            None => forall|j: int|
                0 <= j < entries@.len() ==> !eligible(
                    #[trigger] entry_views(entries@)[j].0,
                    entry_views(entries@)[j].1,
                ),
        },
{
    let ghost es = entry_views(entries@);
    let mut best: Option<(usize, (u32, u32, u32))> = None;
    let mut k: usize = 0;
    while k < entries.len()
        invariant
            k <= entries.len(),
            es == entry_views(entries@),
            match best {
                Some((i, ver)) => {
                    &&& i < k
                    &&& eligible(es[i as int].0, es[i as int].1)
                    &&& semver_of(es[i as int].0) == Some(ver)
                    &&& forall|j: int|
                        0 <= j < k && eligible(es[j].0, es[j].1) ==> !older(
                            ver,
                            semver_of(es[j].0).unwrap(),
                        )
                    &&& forall|j: int|
                        0 <= j < i && eligible(es[j].0, es[j].1) ==> older(
                            semver_of(es[j].0).unwrap(),
                            ver,
                        )
                },
                None => forall|j: int| 0 <= j < k ==> !eligible(#[trigger] es[j].0, es[j].1),
            },
        decreases entries.len() - k,
    {
        assert(es[k as int] == (entries@[k as int].0@, entries@[k as int].1));
        let name = chars_of(entries[k].0.as_str());
        if starts_with(&name, "v") {
            match parse_semver_tuple(entries[k].0.as_str()) {
                Some(ver) => {
                    if entries[k].1 {
                        match best {
                            None => {
                                best = Some((k, ver));
                            },
                            Some((_, best_ver)) => {
                                if is_newer(ver, best_ver) {
                                    best = Some((k, ver));
                                }
                            },
                        }
                    }
                },
                None => {},
            }
        }
        k += 1;
    }
    match best {
        Some((i, _)) => Some(i),
        None => None,
    }
}

} // verus!
