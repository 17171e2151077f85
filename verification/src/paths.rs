//! The `PATH` the helper runs commands with, and finding a command in it.
use vstd::prelude::*;
use crate::platform::Platform;
use crate::task::owned;
use crate::text::{
    chars_of, find, first_occ, has_char, is_space, last_char, trim_end, trim_start, join, join_texts, lemma_has_first,
    lemma_split_nonempty, lower, lower_vec, push_owned, split, split_char, string_from, sub_vec,
    trim, trim_range, views, vviews, str_eq, contains_char, push_char,
};

verus! {

broadcast use vstd::string::group_string_axioms;

/// The separator between `PATH` entries.
pub open spec fn separator(platform: Platform) -> char {
    if platform == Platform::Windows {
        ';'
    } else {
        ':'
    }
}

/// The separator between `PATH` entries on `platform`.
pub fn path_separator(platform: Platform) -> (c: char)
    ensures
        c == separator(platform),
{
    if platform == Platform::Windows {
        ';'
    } else {
        ':'
    }
}

/// The value of an environment variable in a snapshot of the environment:
/// names compare without regard to ASCII case, as on Windows, and a name with
/// `'='` or NUL has no value.
pub open spec fn env_lookup(env: Seq<(Seq<char>, Seq<char>)>, name: Seq<char>) -> Option<Seq<char>>
    decreases env.len(),
{
    if has_char(name, '=') || has_char(name, '\0') || env.len() == 0 {
        None
    } else if lower(env[0].0) == lower(name) {
        Some(env[0].1)
    } else {
        env_lookup(env.drop_first(), name)
    }
}

/// Abstract view of an environment snapshot.
pub open spec fn env_view(env: Seq<(String, String)>) -> Seq<(Seq<char>, Seq<char>)> {
    env.map_values(|p: (String, String)| (p.0@, p.1@))
}

/// Looks a variable up in an environment snapshot.
pub fn env_value(env: &Vec<(String, String)>, name: &Vec<char>) -> (r: Option<String>)
    ensures
        match (r, env_lookup(env_view(env@), name@)) {
            (Some(v), Some(x)) => v@ == x,
            (None, None) => true,
            _ => false,
        },
{
    let ghost e = env_view(env@);
    if contains_char(name, '=') || contains_char(name, '\0') {
        return None;
    }
    let lname = lower_vec(name);
    let mut i: usize = 0;
    assert(e.skip(0) =~= e);
    while i < env.len()
        invariant
            i <= env.len(),
            e == env_view(env@),
            !has_char(name@, '=') && !has_char(name@, '\0'),
            lname@ == lower(name@),
            env_lookup(e, name@) == env_lookup(e.skip(i as int), name@),
        decreases env.len() - i,
    {
        assert(e.skip(i as int)[0] == (env@[i as int].0@, env@[i as int].1@));
        assert(e.skip(i as int).drop_first() =~= e.skip(i + 1));
        let key = chars_of(env[i].0.as_str());
        let lkey = lower_vec(&key);
        if crate::text::same_text(&lkey, crate::text::string_from(&lname).as_str()) {
            return Some(env[i].1.clone());
        }
        i += 1;
    }
    None
}

/// `%NAME%` references replaced by the trimmed value of `NAME` (itself
/// trimmed), scanning from position `i`; references to unset names and
/// lone `'%'` stay as written.
pub open spec fn expand_from(cs: Seq<char>, env: Seq<(Seq<char>, Seq<char>)>, i: int) -> Seq<char>
    decreases cs.len() - i,
{
    if i < 0 || i >= cs.len() {
        Seq::<char>::empty()
    } else {
        let rest = cs.subrange(i + 1, cs.len() as int);
        let e = first_occ(rest, seq!['%']);
        let name = trim(rest.subrange(0, if e < 0 {
            0
        } else {
            e
        }));
        if cs[i] == '%' && e >= 0 && name.len() > 0 && env_lookup(env, name) is Some {
            proof {
                crate::text::lemma_occ_from(rest, seq!['%'], 0);
            }
            trim(env_lookup(env, name).unwrap()) + expand_from(cs, env, i + e + 2)
        } else {
            seq![cs[i]] + expand_from(cs, env, i + 1)
        }
    }
}

/// Replaces `%NAME%` references with the values of a snapshot of the environment.
pub fn expand_windows_env_vars(value: &str, env: &Vec<(String, String)>) -> (r: String)
    ensures
        r@ == expand_from(value@, env_view(env@), 0),
{
    let cs = chars_of(value);
    let mut out = String::new();
    let mut index: usize = 0;
    while index < cs.len()
        invariant
            index <= cs.len(),
            cs@ == value@,
            expand_from(cs@, env_view(env@), 0) == out@ + expand_from(
                cs@,
                env_view(env@),
                index as int,
            ),
        decreases cs.len() - index,
    {
        let ghost rest = cs@.subrange(index + 1, cs@.len() as int);
        if cs[index] == '%' {
            let restv = sub_vec(&cs, index + 1, cs.len());
            let pct = vec!['%'];
            assert(pct@ =~= seq!['%']);
            match find(&restv, &pct) {
                Some(end_rel) => {
                    proof {
                        lemma_has_first(restv@, pct@);
                    }
                    let (a, b) = trim_range(&restv, 0, end_rel);
                    if a < b {
                        let name = sub_vec(&restv, a, b);
                        match env_value(env, &name) {
                            Some(expanded) => {
                                let t = crate::text::trim_str(expanded.as_str());
                                out.append(t.as_str());
                                index = index + end_rel + 2;
                                continue;
                            },
                            None => {},
                        }
                    }
                },
                None => {},
            }
        }
            push_char(&mut out, cs[index]);
        index += 1;
    }
    out
}

/// How an entry is compared for duplicates: lower-cased on Windows.
pub open spec fn entry_key(platform: Platform, t: Seq<char>) -> Seq<char> {
    if platform == Platform::Windows {
        lower(t)
    } else {
        t
    }
}

/// An entry as it is kept: environment references expanded on Windows, then trimmed.
pub open spec fn entry_form(platform: Platform, env: Seq<(Seq<char>, Seq<char>)>, part: Seq<char>) -> Seq<
    char,
> {
    if platform == Platform::Windows {
        trim(expand_from(part, env, 0))
    } else {
        trim(part)
    }
}

/// The entries kept from a list of parts: non-empty after normalizing, and
/// each key only once, first occurrence first.
pub open spec fn kept_entries(
    platform: Platform,
    env: Seq<(Seq<char>, Seq<char>)>,
    parts: Seq<Seq<char>>,
) -> Seq<Seq<char>>
    decreases parts.len(),
{
    if parts.len() == 0 {
        Seq::<Seq<char>>::empty()
    } else {
        let r = kept_entries(platform, env, parts.drop_last());
        let t = entry_form(platform, env, parts.last());
        if t.len() == 0 || r.map_values(|x: Seq<char>| entry_key(platform, x)).contains(
            entry_key(platform, t),
        ) {
            r
        } else {
            r.push(t)
        }
    }
}

/// A merged `PATH` holds no blank entry and no entry twice: every kept entry
/// is non-empty, and no two kept entries compare equal (case-insensitively
/// on Windows).
pub proof fn law_kept_entries_distinct(
    platform: Platform,
    env: Seq<(Seq<char>, Seq<char>)>,
    parts: Seq<Seq<char>>,
)
    ensures
        forall|i: int|
            0 <= i < kept_entries(platform, env, parts).len() ==> #[trigger] kept_entries(
                platform,
                env,
                parts,
            )[i].len() > 0,
        forall|i: int, j: int|
            0 <= i < j < kept_entries(platform, env, parts).len() ==> entry_key(
                platform,
                #[trigger] kept_entries(platform, env, parts)[i],
            ) != entry_key(platform, #[trigger] kept_entries(platform, env, parts)[j]),
    decreases parts.len(),
{
    if parts.len() > 0 {
        law_kept_entries_distinct(platform, env, parts.drop_last());
        let r = kept_entries(platform, env, parts.drop_last());
        let t = entry_form(platform, env, parts.last());
        let keys = r.map_values(|x: Seq<char>| entry_key(platform, x));
        if !(t.len() == 0 || keys.contains(entry_key(platform, t))) {
            let k = r.push(t);
            assert(kept_entries(platform, env, parts) == k);
            assert forall|i: int, j: int| 0 <= i < j < k.len() implies entry_key(platform, k[i])
                != entry_key(platform, k[j]) by {
                if j == k.len() - 1 {
                    assert(keys[i] == entry_key(platform, r[i]));
                    if entry_key(platform, k[i]) == entry_key(platform, k[j]) {
                        assert(keys.contains(entry_key(platform, t)));
                    }
                } else {
                    assert(k[i] == r[i] && k[j] == r[j]);
                }
            }
        }
    }
}

/// The pieces of every text split at `sep`, in order.
pub open spec fn split_all(texts: Seq<Seq<char>>, sep: char) -> Seq<Seq<char>>
    decreases texts.len(),
{
    if texts.len() == 0 {
        Seq::<Seq<char>>::empty()
    } else {
        split_all(texts.drop_last(), sep) + split(texts.last(), sep)
    }
}

/// `PATH` entries merged from the existing value and extra entries (which may
/// themselves hold several entries): extra ones first or last, duplicates and
/// blank entries dropped, joined with the platform separator.
pub open spec fn merged_path(
    platform: Platform,
    env: Seq<(Seq<char>, Seq<char>)>,
    existing: Seq<char>,
    extra: Seq<Seq<char>>,
    extra_first: bool,
) -> Seq<char> {
    join(
        kept_entries(platform, env, merge_parts(platform, existing, extra, extra_first)),
        seq![separator(platform)],
    )
}

/// The raw parts of a `PATH` merge: the pieces of the extra entries and of
/// the existing value, in the order asked for.
pub open spec fn merge_parts(
    platform: Platform,
    existing: Seq<char>,
    extra: Seq<Seq<char>>,
    extra_first: bool,
) -> Seq<Seq<char>> {
    let sep = separator(platform);
    if extra_first {
        split_all(extra, sep) + split(existing, sep)
    } else {
        split(existing, sep) + split_all(extra, sep)
    }
}

/// No piece of a split holds the separator.
pub proof fn lemma_split_pieces_free(s: Seq<char>, sep: char)
    ensures
        forall|i: int| 0 <= i < split(s, sep).len() ==> !has_char(#[trigger] split(s, sep)[i], sep),
    decreases s.len(),
{
    if s.len() > 0 {
        lemma_split_pieces_free(s.drop_last(), sep);
        lemma_split_nonempty(s.drop_last(), sep);
        let p = split(s.drop_last(), sep);
        if s.last() != sep {
            let q = split(s, sep);
            assert forall|i: int| 0 <= i < q.len() implies !has_char(#[trigger] q[i], sep) by {
                if i == p.len() - 1 {
                    assert(q[i] == p.last().push(s.last()));
                    if has_char(q[i], sep) {
                        let k = choose|k: int| 0 <= k < q[i].len() && q[i][k] == sep;
                        assert(p.last()[k] == sep);
                    }
                } else {
                    assert(q[i] == p[i]);
                }
            }
        } else {
            let q = split(s, sep);
            assert forall|i: int| 0 <= i < q.len() implies !has_char(#[trigger] q[i], sep) by {
                if i < p.len() {
                    assert(q[i] == p[i]);
                }
            }
        }
    }
}

/// No piece of the splits of several texts holds the separator.
pub proof fn lemma_split_all_free(texts: Seq<Seq<char>>, sep: char)
    ensures
        forall|i: int|
            0 <= i < split_all(texts, sep).len() ==> !has_char(#[trigger] split_all(texts, sep)[i], sep),
    decreases texts.len(),
{
    if texts.len() > 0 {
        lemma_split_all_free(texts.drop_last(), sep);
        lemma_split_pieces_free(texts.last(), sep);
        let a = split_all(texts.drop_last(), sep);
        let b = split(texts.last(), sep);
        assert forall|i: int| 0 <= i < split_all(texts, sep).len() implies !has_char(
            #[trigger] split_all(texts, sep)[i],
            sep,
        ) by {
            if i < a.len() {
                assert(split_all(texts, sep)[i] == a[i]);
            } else {
                assert(split_all(texts, sep)[i] == b[i - a.len()]);
            }
        }
    }
}

/// Trimming adds no character.
pub proof fn lemma_trim_free(x: Seq<char>, c: char)
    requires
        !has_char(x, c),
    ensures
        !has_char(trim(x), c),
{
    lemma_trim_start_free(x, c);
    let t = trim_start(x);
    crate::text::lemma_trim_end_shape(t);
    if has_char(trim_end(t), c) {
        let k = choose|k: int| 0 <= k < trim_end(t).len() && trim_end(t)[k] == c;
        assert(t[k] == trim_end(t)[k]);
    }
}

/// Trimming the start adds no character.
pub proof fn lemma_trim_start_free(x: Seq<char>, c: char)
    requires
        !has_char(x, c),
    ensures
        !has_char(trim_start(x), c),
    decreases x.len(),
{
    if x.len() > 0 && is_space(x[0]) {
        if has_char(x.drop_first(), c) {
            let k = choose|k: int| 0 <= k < x.drop_first().len() && x.drop_first()[k] == c;
            assert(x[k + 1] == c);
        }
        lemma_trim_start_free(x.drop_first(), c);
    }
}

/// Off Windows, the kept entries are free of a character that no part holds,
/// are already trimmed, and are exactly the trimmed non-blank parts.
pub proof fn lemma_kept_shape(
    platform: Platform,
    env: Seq<(Seq<char>, Seq<char>)>,
    parts: Seq<Seq<char>>,
    c: char,
)
    requires
        platform != Platform::Windows,
        forall|j: int| 0 <= j < parts.len() ==> !has_char(#[trigger] parts[j], c),
    ensures
        forall|i: int|
            0 <= i < kept_entries(platform, env, parts).len() ==> !has_char(
                #[trigger] kept_entries(platform, env, parts)[i],
                c,
            ) && trim(kept_entries(platform, env, parts)[i]) == kept_entries(platform, env, parts)[i],
        forall|t: Seq<char>|
            kept_entries(platform, env, parts).contains(t) <==> (t.len() > 0 && exists|j: int|
                0 <= j < parts.len() && #[trigger] trim(parts[j]) == t),
    decreases parts.len(),
{
    if parts.len() > 0 {
        let q = parts.drop_last();
        assert forall|j: int| 0 <= j < q.len() implies !has_char(#[trigger] q[j], c) by {
            assert(q[j] == parts[j]);
        }
        lemma_kept_shape(platform, env, q, c);
        let r = kept_entries(platform, env, q);
        let t = entry_form(platform, env, parts.last());
        let k = kept_entries(platform, env, parts);
        lemma_trim_free(parts.last(), c);
        crate::text::lemma_trim_idempotent(parts.last());
        let keys = r.map_values(|x: Seq<char>| entry_key(platform, x));
        assert(keys =~= r);
        assert forall|i: int| 0 <= i < k.len() implies !has_char(#[trigger] k[i], c) && trim(k[i])
            == k[i] by {
            if i < r.len() {
                assert(k[i] == r[i]);
            } else {
                assert(k[i] == t);
            }
        }
        assert forall|u: Seq<char>| k.contains(u) <==> (u.len() > 0 && exists|j: int|
            0 <= j < parts.len() && #[trigger] trim(parts[j]) == u) by {
            if k.contains(u) {
                let i = choose|i: int| 0 <= i < k.len() && k[i] == u;
                if i < r.len() {
                    assert(r.contains(u));
                    let j = choose|j: int| 0 <= j < q.len() && #[trigger] trim(q[j]) == u;
                    assert(trim(parts[j]) == u);
                } else {
                    assert(trim(parts[parts.len() - 1]) == u);
                }
            }
            if u.len() > 0 && exists|j: int| 0 <= j < parts.len() && #[trigger] trim(parts[j]) == u {
                let j = choose|j: int| 0 <= j < parts.len() && #[trigger] trim(parts[j]) == u;
                if j < q.len() {
                    assert(trim(q[j]) == u);
                    assert(r.contains(u));
                    let i = choose|i: int| 0 <= i < r.len() && r[i] == u;
                    if k.len() > r.len() {
                        assert(k[i] == r[i]);
                    }
                    assert(k.contains(u));
                } else {
                    if r.contains(u) {
                        let i = choose|i: int| 0 <= i < r.len() && r[i] == u;
                        if k.len() > r.len() {
                            assert(k[i] == r[i]);
                        }
                    } else {
                        assert(k[k.len() - 1] == u);
                    }
                    assert(k.contains(u));
                }
            }
        }
    }
}

/// Splitting `a + b`, where `b` holds no separator, extends the last piece
/// of `a` by `b`.
pub proof fn lemma_split_append_free(a: Seq<char>, b: Seq<char>, sep: char)
    requires
        !has_char(b, sep),
    ensures
        split(a + b, sep) == split(a, sep).update(
            split(a, sep).len() - 1,
            split(a, sep).last() + b,
        ),
    decreases b.len(),
{
    lemma_split_nonempty(a, sep);
    let p = split(a, sep);
    if b.len() == 0 {
        assert(a + b =~= a);
        assert(p.last() + b =~= p.last());
        assert(p.update(p.len() - 1, p.last()) =~= p);
    } else {
        let b0 = b.drop_last();
        if has_char(b0, sep) {
            let k = choose|k: int| 0 <= k < b0.len() && b0[k] == sep;
            assert(b[k] == sep);
        }
        lemma_split_append_free(a, b0, sep);
        assert((a + b).drop_last() =~= a + b0);
        assert((a + b).last() == b.last());
        assert(b.last() != sep) by {
            assert(b[b.len() - 1] == b.last());
        }
        let q = split(a + b0, sep);
        assert(q.last() == p.last() + b0);
        assert(q.last().push(b.last()) =~= p.last() + b);
        assert(q.update(q.len() - 1, q.last().push(b.last())) =~= p.update(
            p.len() - 1,
            p.last() + b,
        ));
    }
}

/// Splitting a join of separator-free parts gives the parts back.
pub proof fn lemma_split_join(ps: Seq<Seq<char>>, sep: char)
    requires
        ps.len() > 0,
        forall|i: int| 0 <= i < ps.len() ==> !has_char(#[trigger] ps[i], sep),
    ensures
        split(join(ps, seq![sep]), sep) == ps,
    decreases ps.len(),
{
    if ps.len() == 1 {
        lemma_split_append_free(Seq::<char>::empty(), ps[0], sep);
        assert(Seq::<char>::empty() + ps[0] =~= ps[0]);
        assert(Seq::<char>::empty() + ps[0] =~= ps[0]);
        assert(split(ps[0], sep) =~= ps);
    } else {
        let q = ps.drop_last();
        assert forall|i: int| 0 <= i < q.len() implies !has_char(#[trigger] q[i], sep) by {
            assert(q[i] == ps[i]);
        }
        lemma_split_join(q, sep);
        let a = join(q, seq![sep]) + seq![sep];
        assert(a.drop_last() =~= join(q, seq![sep]));
        assert(a.last() == sep);
        assert(split(a, sep) == q.push(Seq::<char>::empty()));
        assert(!has_char(ps.last(), sep)) by {
            assert(ps[ps.len() - 1] == ps.last());
        }
        lemma_split_append_free(a, ps.last(), sep);
        assert(join(ps, seq![sep]) == a + ps.last());
        assert(Seq::<char>::empty() + ps.last() =~= ps.last());
        assert(q.push(Seq::<char>::empty()).update(q.len() as int, Seq::<char>::empty() + ps.last())
            =~= ps);
    }
}

/// Off Windows, a list of distinct, trimmed, non-blank entries is kept as it is.
pub proof fn lemma_kept_fixed(platform: Platform, env: Seq<(Seq<char>, Seq<char>)>, k: Seq<Seq<char>>)
    requires
        platform != Platform::Windows,
        forall|i: int| 0 <= i < k.len() ==> (#[trigger] k[i]).len() > 0 && trim(k[i]) == k[i],
        forall|i: int, j: int| 0 <= i < j < k.len() ==> #[trigger] k[i] != #[trigger] k[j],
    ensures
        kept_entries(platform, env, k) == k,
    decreases k.len(),
{
    if k.len() > 0 {
        let q = k.drop_last();
        assert forall|i: int| 0 <= i < q.len() implies (#[trigger] q[i]).len() > 0 && trim(q[i])
            == q[i] by {
            assert(q[i] == k[i]);
        }
        assert forall|i: int, j: int| 0 <= i < j < q.len() implies #[trigger] q[i] != #[trigger] q[j] by {
            assert(q[i] == k[i] && q[j] == k[j]);
        }
        lemma_kept_fixed(platform, env, q);
        let keys = q.map_values(|x: Seq<char>| entry_key(platform, x));
        assert(keys =~= q);
        assert(k.last() == k[k.len() - 1]);
        if q.contains(k.last()) {
            let i = choose|i: int| 0 <= i < q.len() && q[i] == k.last();
            assert(k[i] == k[k.len() - 1]);
        }
        assert(q.push(k.last()) =~= k);
    }
}

/// Off Windows, parts whose trimmed forms are blank or already kept change
/// nothing when they come after the others.
pub proof fn lemma_kept_absorbs(
    platform: Platform,
    env: Seq<(Seq<char>, Seq<char>)>,
    p: Seq<Seq<char>>,
    extra: Seq<Seq<char>>,
)
    requires
        platform != Platform::Windows,
        forall|j: int|
            0 <= j < extra.len() ==> trim(#[trigger] extra[j]).len() == 0 || kept_entries(
                platform,
                env,
                p,
            ).contains(trim(extra[j])),
    ensures
        kept_entries(platform, env, p + extra) == kept_entries(platform, env, p),
    decreases extra.len(),
{
    if extra.len() == 0 {
        assert(p + extra =~= p);
    } else {
        let q = extra.drop_last();
        assert forall|j: int| 0 <= j < q.len() implies trim(#[trigger] q[j]).len() == 0
            || kept_entries(platform, env, p).contains(trim(q[j])) by {
            assert(q[j] == extra[j]);
        }
        lemma_kept_absorbs(platform, env, p, q);
        assert((p + extra).drop_last() =~= p + q);
        assert((p + extra).last() == extra[extra.len() - 1]);
        let r = kept_entries(platform, env, p);
        let keys = r.map_values(|x: Seq<char>| entry_key(platform, x));
        assert(keys =~= r);
    }
}

/// Off Windows, a merged `PATH` splits back into its kept entries: each
/// trimmed non-blank part once, first occurrences first, in order (so no
/// entry is blank, untrimmed or repeated, and the entries are exactly the
/// trimmed non-blank parts); it is empty exactly when no part is kept.
pub proof fn law_merged_path_splits_back(
    platform: Platform,
    env: Seq<(Seq<char>, Seq<char>)>,
    existing: Seq<char>,
    extra: Seq<Seq<char>>,
    extra_first: bool,
)
    requires
        platform != Platform::Windows,
    ensures
        ({
            let parts = merge_parts(platform, existing, extra, extra_first);
            let kept = kept_entries(platform, env, parts);
            let merged = merged_path(platform, env, existing, extra, extra_first);
            &&& (merged.len() == 0 <==> kept.len() == 0)
            &&& (kept.len() > 0 ==> split(merged, separator(platform)) == kept)
            &&& forall|t: Seq<char>|
                kept.contains(t) <==> (t.len() > 0 && exists|j: int|
                    0 <= j < parts.len() && #[trigger] trim(parts[j]) == t)
        }),
{
    let sep = separator(platform);
    let parts = merge_parts(platform, existing, extra, extra_first);
    lemma_merge_parts_free(platform, existing, extra, extra_first);
    lemma_kept_shape(platform, env, parts, sep);
    law_kept_entries_distinct(platform, env, parts);
    let kept = kept_entries(platform, env, parts);
    if kept.len() > 0 {
        lemma_split_join(kept, sep);
        if kept.len() == 1 {
            assert(join(kept, seq![sep]) == kept[0]);
        } else {
            assert(kept.last() == kept[kept.len() - 1]);
        }
    }
}

/// No raw part of a merge holds the separator.
pub proof fn lemma_merge_parts_free(
    platform: Platform,
    existing: Seq<char>,
    extra: Seq<Seq<char>>,
    extra_first: bool,
)
    ensures
        forall|j: int|
            0 <= j < merge_parts(platform, existing, extra, extra_first).len() ==> !has_char(
                #[trigger] merge_parts(platform, existing, extra, extra_first)[j],
                separator(platform),
            ),
{
    let sep = separator(platform);
    lemma_split_pieces_free(existing, sep);
    lemma_split_all_free(extra, sep);
    let a = split_all(extra, sep);
    let b = split(existing, sep);
    let ps = merge_parts(platform, existing, extra, extra_first);
    assert forall|j: int| 0 <= j < ps.len() implies !has_char(#[trigger] ps[j], sep) by {
        if extra_first {
            if j < a.len() {
                assert(ps[j] == a[j]);
            } else {
                assert(ps[j] == b[j - a.len()]);
            }
        } else {
            if j < b.len() {
                assert(ps[j] == b[j]);
            } else {
                assert(ps[j] == a[j - b.len()]);
            }
        }
    }
}

/// Off Windows, merging is idempotent: merging a merged `PATH` again, alone
/// or with itself as the extra entry, and in either order, gives it back.
pub proof fn law_merge_is_idempotent(
    platform: Platform,
    env: Seq<(Seq<char>, Seq<char>)>,
    existing: Seq<char>,
    extra: Seq<Seq<char>>,
    extra_first: bool,
    again_first: bool,
)
    requires
        platform != Platform::Windows,
    ensures
        merged_path(
            platform,
            env,
            merged_path(platform, env, existing, extra, extra_first),
            Seq::<Seq<char>>::empty(),
            again_first,
        ) == merged_path(platform, env, existing, extra, extra_first),
        merged_path(
            platform,
            env,
            merged_path(platform, env, existing, extra, extra_first),
            seq![merged_path(platform, env, existing, extra, extra_first)],
            again_first,
        ) == merged_path(platform, env, existing, extra, extra_first),
{
    let sep = separator(platform);
    let parts = merge_parts(platform, existing, extra, extra_first);
    let kept = kept_entries(platform, env, parts);
    let r = merged_path(platform, env, existing, extra, extra_first);
    law_merged_path_splits_back(platform, env, existing, extra, extra_first);
    lemma_merge_parts_free(platform, existing, extra, extra_first);
    lemma_kept_shape(platform, env, parts, sep);
    law_kept_entries_distinct(platform, env, parts);
    let none = Seq::<Seq<char>>::empty();
    assert(split_all(none, sep) =~= none);
    assert(split_all(seq![r], sep) =~= split(r, sep)) by {
        assert(seq![r].drop_last() =~= none);
        assert(none + split(r, sep) =~= split(r, sep));
    }
    let s = split(r, sep);
    assert(merge_parts(platform, r, none, again_first) =~= s);
    assert(merge_parts(platform, r, seq![r], again_first) =~= s + s);
    if kept.len() == 0 {
        assert(r.len() == 0);
        assert(s =~= seq![Seq::<char>::empty()]);
        assert(trim(Seq::<char>::empty()) =~= Seq::<char>::empty());
        assert(kept_entries(platform, env, s) =~= none) by {
            assert(s.drop_last() =~= none);
            assert(kept_entries(platform, env, none) =~= none);
            assert(s.last() =~= Seq::<char>::empty());
            assert(entry_form(platform, env, s.last()).len() == 0);
        }
        assert forall|j: int| 0 <= j < s.len() implies trim(#[trigger] s[j]).len() == 0
            || kept_entries(platform, env, s).contains(trim(s[j])) by {
            assert(s[j] == Seq::<char>::empty());
        }
        lemma_kept_absorbs(platform, env, s, s);
        assert(join(none, seq![sep]) =~= r);
    } else {
        assert(s == kept);
        lemma_kept_fixed(platform, env, kept);
        assert forall|j: int| 0 <= j < s.len() implies trim(#[trigger] s[j]).len() == 0
            || kept_entries(platform, env, s).contains(trim(s[j])) by {
            assert(trim(s[j]) == s[j]);
        }
        lemma_kept_absorbs(platform, env, s, s);
    }
}

/// Appends the parts of `pieces` to `parts`.
fn append_pieces(parts: &mut Vec<Vec<char>>, pieces: Vec<Vec<char>>)
    ensures
        vviews(final(parts)@) == vviews(old(parts)@) + vviews(pieces@),
{
    let ghost start = vviews(parts@);
    let mut i: usize = 0;
    while i < pieces.len()
        invariant
            i <= pieces.len(),
            vviews(parts@) == start + vviews(pieces@).take(i as int),
        decreases pieces.len() - i,
    {
        let ghost before = vviews(parts@);
        parts.push(sub_vec(&pieces[i], 0, pieces[i].len()));
        assert(pieces@[i as int]@.subrange(0, pieces@[i as int]@.len() as int) =~= pieces@[i as int]@);
        assert(vviews(parts@) =~= before.push(vviews(pieces@)[i as int]));
        assert(vviews(pieces@).take(i + 1) =~= vviews(pieces@).take(i as int).push(
            vviews(pieces@)[i as int],
        ));
        i += 1;
    }
    assert(vviews(pieces@).take(pieces.len() as int) =~= vviews(pieces@));
}

/// Merges `PATH` entries (see `merged_path`); `env` is a snapshot of the
/// environment used to expand `%NAME%` references on Windows.
#[verifier::spinoff_prover]
#[verifier::rlimit(40)]
pub fn merge_path_entries(
    platform: Platform,
    env: &Vec<(String, String)>,
    existing_path: Option<&str>,
    extra_entries: &Vec<String>,
    extra_first: bool,
) -> (r: String)
    ensures
        r@ == merged_path(
            platform,
            env_view(env@),
            match existing_path {
                Some(e) => e@,
                None => Seq::<char>::empty(),
            },
            views(extra_entries@),
            extra_first,
        ),
{
    let sep = path_separator(platform);
    let existing_v = match existing_path {
        Some(e) => chars_of(e),
        None => Vec::new(),
    };
    let ghost ex = views(extra_entries@);
    let mut extra_parts: Vec<Vec<char>> = Vec::new();
    assert(vviews(extra_parts@) =~= Seq::<Seq<char>>::empty());
    let mut i: usize = 0;
    assert(ex.take(0) =~= Seq::<Seq<char>>::empty());
    while i < extra_entries.len()
        invariant
            i <= extra_entries.len(),
            ex == views(extra_entries@),
            sep == separator(platform),
            vviews(extra_parts@) == split_all(ex.take(i as int), sep),
        decreases extra_entries.len() - i,
    {
        assert(ex[i as int] == extra_entries@[i as int]@);
        assert(ex.take(i + 1).drop_last() =~= ex.take(i as int));
        let v = chars_of(extra_entries[i].as_str());
        let pieces = split_char(&v, sep);
        append_pieces(&mut extra_parts, pieces);
        i += 1;
    }
    assert(ex.take(extra_entries.len() as int) =~= ex);
    let existing_parts = split_char(&existing_v, sep);
    let mut parts: Vec<Vec<char>> = Vec::new();
    assert(vviews(parts@) =~= Seq::<Seq<char>>::empty());
    if extra_first {
        append_pieces(&mut parts, extra_parts);
        append_pieces(&mut parts, existing_parts);
    } else {
        append_pieces(&mut parts, existing_parts);
        append_pieces(&mut parts, extra_parts);
    }
    let ghost ps = vviews(parts@);
    assert(ps =~= merge_parts(
        platform,
        match existing_path {
            Some(e) => e@,
            None => Seq::<char>::empty(),
        },
        views(extra_entries@),
        extra_first,
    ));
    let mut entries: Vec<String> = Vec::new();
    let mut keys: Vec<String> = Vec::new();
    let mut k: usize = 0;
    assert(ps.take(0) =~= Seq::<Seq<char>>::empty());
    while k < parts.len()
        invariant
            k <= parts.len(),
            ps == vviews(parts@),
            views(entries@) == kept_entries(platform, env_view(env@), ps.take(k as int)),
            views(keys@) == views(entries@).map_values(|x: Seq<char>| entry_key(platform, x)),
        decreases parts.len() - k,
    {
        assert(ps[k as int] == parts@[k as int]@);
        assert(ps.take(k + 1).drop_last() =~= ps.take(k as int));
        let part = string_from(&parts[k]);
        let normalized = if platform == Platform::Windows {
            expand_windows_env_vars(part.as_str(), env)
        } else {
            part
        };
        let t = crate::text::trim_str(normalized.as_str());
        if !t.as_str().is_empty() {
            let key = if platform == Platform::Windows {
                let tv = chars_of(t.as_str());
                string_from(&lower_vec(&tv))
            } else {
                t.clone()
            };
            if !crate::config::texts_contain(&keys, key.as_str()) {
                let ghost e0 = views(entries@);
                let ghost k0 = views(keys@);
                let ghost tv = t@;
                let ghost kv = key@;
                push_owned(&mut entries, t);
                push_owned(&mut keys, key);
                assert(views(entries@).map_values(|x: Seq<char>| entry_key(platform, x)) =~= k0.push(
                    kv,
                ));
            }
        }
        k += 1;
    }
    assert(ps.take(parts.len() as int) =~= ps);
    let mut sep_text = String::new();
    push_char(&mut sep_text, sep);
    assert(sep_text@ =~= seq![sep]);
    join_texts(&entries, sep_text.as_str())
}


/// A path separator on some platform the helper is built for: `'/'`
/// everywhere, `'\\'` on Windows too.
pub open spec fn is_sep(c: char) -> bool {
    c == '/' || c == '\\'
}

/// Position of the last `'/'` or `'\\'` in `p`, or `-1`.
pub open spec fn last_sep(p: Seq<char>) -> int
    decreases p.len(),
{
    if p.len() == 0 {
        -1
    } else if is_sep(p.last()) {
        p.len() - 1
    } else {
        last_sep(p.drop_last())
    }
}

/// The text after the last separator of `p`.
pub open spec fn last_part(p: Seq<char>) -> Seq<char> {
    p.subrange(last_sep(p) + 1, p.len() as int)
}

/// `p` has an extension that every platform's path rules agree on: it does
/// not start with two separators (a Windows network or device prefix), its
/// last part holds no `':'` (a Windows drive prefix) and is not `..`, and
/// that part has a `'.'` after its first character.
pub open spec fn plain_extension(p: Seq<char>) -> bool {
    let name = last_part(p);
    &&& !(p.len() >= 2 && is_sep(p[0]) && is_sep(p[1]))
    &&& !has_char(name, ':')
    &&& name != ".."@
    &&& last_char(name, '.') > 0
}

/// The text after the last `'.'` of the last part of `p`.
pub open spec fn extension_text(p: Seq<char>) -> Seq<char> {
    let name = last_part(p);
    name.subrange(last_char(name, '.') + 1, name.len() as int)
}

/// `p` has no `'.'` after its first character, so no file name in it can
/// have an extension (a file name's only `'.'` first gives none).
pub open spec fn no_extension(p: Seq<char>) -> bool {
    forall|i: int| 1 <= i < p.len() ==> p[i] != '.'
}

/// `std::path::Path::extension`, lossily as text: `foo.cmd` has the
/// extension `cmd`, `foo` and `.bashrc` have none. The documentation says
/// that the extension is the part of the file name (the last component)
/// after its final `'.'`, and that there is none when the file name is
/// missing, `..`, has no `'.'`, or has its only `'.'` first. Which part of
/// the path is the file name follows the path rules of the platform the
/// helper is built for (`'\\'` separates, and drive and network prefixes
/// exist, on Windows only), so the contract states the extension only for
/// paths on which all platforms agree (`plain_extension`); otherwise it
/// states only that an extension comes after a `'.'` of the path, and that
/// there is none when no `'.'` follows the first character (`no_extension`).
#[verifier::external_body]
pub(crate) fn path_extension(path: &str) -> (r: Option<String>)
    ensures
        r is Some ==> has_char(path@, '.'),
        no_extension(path@) ==> r is None,
        plain_extension(path@) ==> r is Some && r.unwrap()@ == extension_text(path@),
{
    std::path::Path::new(path).extension().map(|e| e.to_string_lossy().to_string())
}

/// The file names tried for a command on Windows: the name itself when it
/// has an extension, otherwise the name with `.cmd`, `.exe`, `.bat`, `.com`
/// and then bare.
pub open spec fn windows_names(command: Seq<char>, has_extension: bool) -> Seq<Seq<char>> {
    if has_extension {
        seq![command]
    } else {
        seq![command + ".cmd"@, command + ".exe"@, command + ".bat"@, command + ".com"@, command]
    }
}

/// Builds the file names tried for a command on Windows.
pub fn windows_command_candidates_for(command: &str, has_extension: bool) -> (r: Vec<String>)
    ensures
        views(r@) == windows_names(command@, has_extension),
{
    let mut v: Vec<String> = Vec::new();
    if has_extension {
        crate::text::push_text(&mut v, command);
    } else {
        push_owned(&mut v, crate::text::concat2(command, ".cmd"));
        push_owned(&mut v, crate::text::concat2(command, ".exe"));
        push_owned(&mut v, crate::text::concat2(command, ".bat"));
        push_owned(&mut v, crate::text::concat2(command, ".com"));
        crate::text::push_text(&mut v, command);
    }
    assert(views(v@) =~= windows_names(command@, has_extension));
    v
}

/// The file names tried for a command on Windows, by whether `Path` sees an
/// extension in it.
pub fn windows_command_candidates(command: &str) -> (r: Vec<String>)
    ensures
        views(r@) == windows_names(command@, true) || views(r@) == windows_names(command@, false),
        no_extension(command@) ==> views(r@) == windows_names(command@, false),
{
    let has_ext = path_extension(command).is_some();
    windows_command_candidates_for(command, has_ext)
}

/// The file names tried for a command.
pub open spec fn command_names(platform: Platform, command: Seq<char>, has_extension: bool) -> Seq<
    Seq<char>,
> {
    if platform == Platform::Windows {
        windows_names(command, has_extension)
    } else {
        seq![command]
    }
}

/// The non-blank pieces, as written.
pub open spec fn nonblank(ps: Seq<Seq<char>>) -> Seq<Seq<char>>
    decreases ps.len(),
{
    if ps.len() == 0 {
        ps
    } else if trim(ps.last()).len() > 0 {
        nonblank(ps.drop_last()).push(ps.last())
    } else {
        nonblank(ps.drop_last())
    }
}

/// Every directory paired with every name, directories first, in order.
pub open spec fn pairs(dirs: Seq<Seq<char>>, names: Seq<Seq<char>>) -> Seq<(Seq<char>, Seq<char>)>
    decreases dirs.len(),
{
    if dirs.len() == 0 {
        Seq::<(Seq<char>, Seq<char>)>::empty()
    } else {
        pairs(dirs.drop_last(), names) + names.map_values(|n: Seq<char>| (dirs.last(), n))
    }
}

/// The places searched for a command, in order: each non-blank `PATH` entry
/// with each file name.
pub open spec fn search_order(
    platform: Platform,
    path_env: Seq<char>,
    command: Seq<char>,
    has_extension: bool,
) -> Seq<(Seq<char>, Seq<char>)> {
    pairs(
        nonblank(split(path_env, separator(platform))),
        command_names(platform, command, has_extension),
    )
}

/// The probe was run on this directory and file name and found nothing.
pub open spec fn probed_none<F: Fn(String, String) -> Option<String>>(
    probe: F,
    c: (Seq<char>, Seq<char>),
) -> bool {
    exists|d: String, n: String|
        d@ == c.0 && n@ == c.1 && #[trigger] call_ensures(probe, (d, n), None::<String>)
}

/// The probe was run on this directory and file name and found `p`.
pub open spec fn probed_found<F: Fn(String, String) -> Option<String>>(
    probe: F,
    c: (Seq<char>, Seq<char>),
    p: String,
) -> bool {
    exists|d: String, n: String|
        d@ == c.0 && n@ == c.1 && #[trigger] call_ensures(probe, (d, n), Some(p))
}

/// `r` is what a search over `cands` gives: nothing when every probe found
/// nothing, else the find of the first probe that found something.
pub open spec fn search_result<F: Fn(String, String) -> Option<String>>(
    probe: F,
    cands: Seq<(Seq<char>, Seq<char>)>,
    r: Option<String>,
) -> bool {
    &&& r is None ==> forall|k: int|
        0 <= k < cands.len() ==> probed_none(probe, #[trigger] cands[k])
    &&& r matches Some(p) ==> exists|k: int|
        0 <= k < cands.len() && probed_found(probe, #[trigger] cands[k], p) && forall|j: int|
            0 <= j < k ==> probed_none(probe, #[trigger] cands[j])
}

/// The outcome `r` of searching `PATH` for `command`: the search went
/// through the candidates in one of the two orders (by whether `Path` sees
/// an extension in `command`); the order without an extension when
/// `command` has no `'.'` after its first character, and the one with an extension when every
/// platform sees one (`plain_extension`).
pub open spec fn path_search_result<F: Fn(String, String) -> Option<String>>(
    probe: F,
    platform: Platform,
    path_env: Seq<char>,
    command: Seq<char>,
    r: Option<String>,
) -> bool {
    &&& (search_result(probe, search_order(platform, path_env, command, true), r) || search_result(
        probe,
        search_order(platform, path_env, command, false),
        r,
    ))
    &&& (no_extension(command) ==> search_result(
        probe,
        search_order(platform, path_env, command, false),
        r,
    ))
    &&& (plain_extension(command) ==> search_result(
        probe,
        search_order(platform, path_env, command, true),
        r,
    ))
}

/// Finds a command in `PATH`: tries each non-blank entry in order with each
/// candidate file name, and returns what `probe` (which joins the directory
/// and the name and checks for an executable file) finds first.
pub fn resolve_command_in_path<F: Fn(String, String) -> Option<String>>(
    command: &str,
    path_env: &str,
    platform: Platform,
    probe: &F,
) -> (r: Option<String>)
    requires
        forall|d: String, n: String| probe.requires((d, n)),
    ensures
        path_search_result(*probe, platform, path_env@, command@, r),
{
    let has_ext = if platform == Platform::Windows {
        path_extension(command).is_some()
    } else {
        false
    };
    let names = if platform == Platform::Windows {
        windows_command_candidates_for(command, has_ext)
    } else {
        let mut v: Vec<String> = Vec::new();
        crate::text::push_text(&mut v, command);
        assert(views(v@) =~= seq![command@]);
        v
    };
    let ghost nm = views(names@);
    assert(nm == command_names(platform, command@, has_ext));
    let sep = path_separator(platform);
    let pv = chars_of(path_env);
    let pieces = split_char(&pv, sep);
    let ghost ps = vviews(pieces@);
    let ghost cands = search_order(platform, path_env@, command@, has_ext);
    assert(ps.take(pieces.len() as int) =~= ps);
    let mut i: usize = 0;
    assert(ps.take(0) =~= Seq::<Seq<char>>::empty());
    while i < pieces.len()
        invariant
            i <= pieces.len(),
            ps == vviews(pieces@),
            ps == split(path_env@, separator(platform)),
            nm == views(names@),
            nm == command_names(platform, command@, has_ext),
            cands == pairs(nonblank(ps), nm),
            cands == search_order(platform, path_env@, command@, has_ext),
            has_ext ==> !no_extension(command@),
            platform == Platform::Windows && plain_extension(command@) ==> has_ext,
            platform != Platform::Windows ==> !has_ext,
            forall|d: String, n: String| probe.requires((d, n)),
            forall|k: int|
                0 <= k < pairs(nonblank(ps.take(i as int)), nm).len() ==> probed_none(
                    *probe,
                    #[trigger] pairs(nonblank(ps.take(i as int)), nm)[k],
                ),
        decreases pieces.len() - i,
    {
        assert(ps[i as int] == pieces@[i as int]@);
        assert(ps.take(i + 1).drop_last() =~= ps.take(i as int));
        let ghost prev = pairs(nonblank(ps.take(i as int)), nm);
        let dir = string_from(&pieces[i]);
        let (a, b) = trim_range(&pieces[i], 0, pieces[i].len());
        assert(pieces@[i as int]@.subrange(0, pieces@[i as int]@.len() as int) =~= pieces@[i as int]@);
        if a < b {
            let ghost now = pairs(nonblank(ps.take(i + 1)), nm);
            assert(nonblank(ps.take(i + 1)) == nonblank(ps.take(i as int)).push(dir@));
            assert(nonblank(ps.take(i + 1)).drop_last() =~= nonblank(ps.take(i as int)));
            assert(now == prev + nm.map_values(|n: Seq<char>| (dir@, n)));
            let mut j: usize = 0;
            while j < names.len()
                invariant
                    j <= names.len(),
                    i < pieces.len(),
                    ps == vviews(pieces@),
                    ps.len() == pieces.len(),
                    cands == pairs(nonblank(ps), nm),
                    cands == search_order(platform, path_env@, command@, has_ext),
                    has_ext ==> !no_extension(command@),
                    platform == Platform::Windows && plain_extension(command@) ==> has_ext,
                    platform != Platform::Windows ==> !has_ext,
                    now == pairs(nonblank(ps.take(i + 1)), nm),
                    nm == views(names@),
                    now == prev + nm.map_values(|n: Seq<char>| (dir@, n)),
                    forall|d: String, n: String| probe.requires((d, n)),
                    forall|k: int|
                        0 <= k < prev.len() ==> probed_none(*probe, #[trigger] prev[k]),
                    forall|k: int|
                        prev.len() <= k < prev.len() + j ==> probed_none(*probe, #[trigger] now[k]),
                decreases names.len() - j,
            {
                let d = dir.clone();
                let n = names[j].clone();
                assert(nm[j as int] == names@[j as int]@);
                let found = probe(d, n);
                assert(now[prev.len() + j] == (dir@, nm[j as int]));
                match found {
                    Some(p) => {
                        proof {
                            assert(probed_found(*probe, now[prev.len() + j], p));
                            assert forall|jj: int| 0 <= jj < prev.len() + j implies probed_none(
                                *probe,
                                #[trigger] now[jj],
                            ) by {
                                if jj < prev.len() {
                                    assert(now[jj] == prev[jj]);
                                }
                            }
                            lemma_pairs_prefix(ps, i as int, nm);
                            assert(cands.subrange(0, now.len() as int) == now);
                            assert(cands[prev.len() + j] == now[prev.len() + j]);
                            assert forall|jj: int| 0 <= jj < prev.len() + j implies probed_none(
                                *probe,
                                #[trigger] cands[jj],
                            ) by {
                                assert(cands[jj] == now[jj]);
                            }
                            let kk = prev.len() + j;
                            assert(probed_found(*probe, cands[kk], p));
                            assert(search_result(*probe, cands, Some(p)));
                        }
                        return Some(p);
                    },
                    None => {
                        assert(probed_none(*probe, now[prev.len() + j]));
                    },
                }
                j += 1;
            }
            assert forall|k: int| 0 <= k < now.len() implies probed_none(*probe, #[trigger] now[k]) by {
                if k < prev.len() {
                    assert(now[k] == prev[k]);
                }
            }
        } else {
            assert(nonblank(ps.take(i + 1)) == nonblank(ps.take(i as int)));
        }
        i += 1;
    }
    assert(ps.take(pieces.len() as int) =~= ps);
    None
}

/// The pairs of the first directories are a prefix of the pairs of all of them.
pub proof fn lemma_pairs_prefix(ps: Seq<Seq<char>>, i: int, nm: Seq<Seq<char>>)
    requires
        0 <= i < ps.len(),
    ensures
        pairs(nonblank(ps.take(i + 1)), nm).len() <= pairs(nonblank(ps), nm).len(),
        pairs(nonblank(ps), nm).subrange(0, pairs(nonblank(ps.take(i + 1)), nm).len() as int)
            == pairs(nonblank(ps.take(i + 1)), nm),
    decreases ps.len() - i,
{
    if i + 1 == ps.len() {
        assert(ps.take(i + 1) =~= ps);
        let all = pairs(nonblank(ps), nm);
        assert(all.subrange(0, all.len() as int) =~= all);
    } else {
        lemma_pairs_prefix(ps, i + 1, nm);
        lemma_pairs_step(ps.take(i + 2), nm);
        assert(ps.take(i + 2).drop_last() =~= ps.take(i + 1));
        let a = pairs(nonblank(ps.take(i + 1)), nm);
        let b = pairs(nonblank(ps.take(i + 2)), nm);
        let c = pairs(nonblank(ps), nm);
        assert(b.subrange(0, a.len() as int) == a);
        assert(c.subrange(0, a.len() as int) =~= c.subrange(0, b.len() as int).subrange(
            0,
            a.len() as int,
        ));
    }
}

/// One more piece adds its pairs at the end.
pub proof fn lemma_pairs_step(qs: Seq<Seq<char>>, nm: Seq<Seq<char>>)
    requires
        qs.len() > 0,
    ensures
        pairs(nonblank(qs.drop_last()), nm).len() <= pairs(nonblank(qs), nm).len(),
        pairs(nonblank(qs), nm).subrange(0, pairs(nonblank(qs.drop_last()), nm).len() as int)
            == pairs(nonblank(qs.drop_last()), nm),
{
    let a = pairs(nonblank(qs.drop_last()), nm);
    let b = pairs(nonblank(qs), nm);
    if trim(qs.last()).len() > 0 {
        assert(nonblank(qs).drop_last() =~= nonblank(qs.drop_last()));
        assert(b.subrange(0, a.len() as int) =~= a);
    } else {
        assert(b.subrange(0, a.len() as int) =~= a);
    }
}

/// Where the system looks for tools before anything else is found: the
/// values the `PATH` is built from, as the application reads them.
pub struct PathSources {
    /// `PATH` of the helper's own environment.
    pub existing: Option<String>,
    /// `~/.local/bin`, when the home directory is known (not on Windows).
    pub local_bin: Option<String>,
    /// The user's and the machine's `Path` from the registry (Windows).
    pub user_path: Option<String>,
    pub machine_path: Option<String>,
    /// npm's and nvm's directories under the home directory (Windows).
    pub home_dirs: Option<(String, String)>,
    /// `NVM_HOME` and `NVM_SYMLINK` (Windows).
    pub nvm_home: Option<String>,
    pub nvm_symlink: Option<String>,
}

/// An optional entry, as a list of zero or one.
pub open spec fn maybe(o: Option<String>) -> Seq<Seq<char>> {
    match o {
        Some(v) => seq![v@],
        None => Seq::<Seq<char>>::empty(),
    }
}

/// The entries added to the `PATH`: elsewhere than on Windows Homebrew's and
/// the system's usual directories, with `~/.local/bin` third; on Windows the
/// registry values, npm's and nvm's directories, `NVM_HOME`, `NVM_SYMLINK`
/// and the usual Git and Node.js directories.
pub open spec fn path_extras(platform: Platform, src: PathSources) -> Seq<Seq<char>> {
    if platform == Platform::Windows {
        maybe(src.user_path) + maybe(src.machine_path) + match src.home_dirs {
            Some((a, b)) => seq![a@, b@],
            None => Seq::<Seq<char>>::empty(),
        } + maybe(src.nvm_home) + maybe(src.nvm_symlink) + seq![
            "C:\\Program Files\\Git\\cmd"@,
            "C:\\Program Files\\nodejs"@,
            "C:\\nvm4w\\nodejs"@,
        ]
    } else {
        seq!["/opt/homebrew/bin"@, "/usr/local/bin"@] + maybe(src.local_bin) + seq![
            "/usr/bin"@,
            "/bin"@,
            "/usr/sbin"@,
            "/sbin"@,
        ]
    }
}

/// Splitting two lists of texts one after the other splits each in turn.
pub proof fn lemma_split_all_append(a: Seq<Seq<char>>, b: Seq<Seq<char>>, sep: char)
    ensures
        split_all(a + b, sep) == split_all(a, sep) + split_all(b, sep),
    decreases b.len(),
{
    if b.len() == 0 {
        assert(a + b =~= a);
        assert(split_all(a, sep) + split_all(b, sep) =~= split_all(a, sep));
    } else {
        lemma_split_all_append(a, b.drop_last(), sep);
        assert((a + b).drop_last() =~= a + b.drop_last());
        assert((a + b).last() == b.last());
        assert(split_all(a, sep) + split_all(b.drop_last(), sep) + split(b.last(), sep) =~= split_all(
            a,
            sep,
        ) + (split_all(b.drop_last(), sep) + split(b.last(), sep)));
    }
}

/// Every part whose normalized form is not blank is kept, as itself or as an
/// entry with the same key (the same text, up to case on Windows).
pub proof fn lemma_kept_covers(
    platform: Platform,
    env: Seq<(Seq<char>, Seq<char>)>,
    parts: Seq<Seq<char>>,
    j: int,
)
    requires
        0 <= j < parts.len(),
        entry_form(platform, env, parts[j]).len() > 0,
    ensures
        exists|i: int|
            0 <= i < kept_entries(platform, env, parts).len() && entry_key(
                platform,
                #[trigger] kept_entries(platform, env, parts)[i],
            ) == entry_key(platform, entry_form(platform, env, parts[j])),
    decreases parts.len(),
{
    let q = parts.drop_last();
    let r = kept_entries(platform, env, q);
    let k = kept_entries(platform, env, parts);
    let keys = r.map_values(|x: Seq<char>| entry_key(platform, x));
    if j < q.len() {
        assert(q[j] == parts[j]);
        lemma_kept_covers(platform, env, q, j);
        let i = choose|i: int|
            0 <= i < r.len() && entry_key(platform, #[trigger] r[i]) == entry_key(
                platform,
                entry_form(platform, env, q[j]),
            );
        assert(k[i] == r[i]);
    } else {
        let t = entry_form(platform, env, parts.last());
        assert(parts[j] == parts.last());
        if keys.contains(entry_key(platform, t)) {
            let i = choose|i: int| 0 <= i < keys.len() && keys[i] == entry_key(platform, t);
            assert(k[i] == r[i]);
        } else {
            assert(k[r.len() as int] == t);
        }
    }
}

/// The entries of the `PATH` that `create_base_path_env` builds from
/// `src`, before they are joined.
pub open spec fn built_entries(
    platform: Platform,
    env: Seq<(Seq<char>, Seq<char>)>,
    src: PathSources,
) -> Seq<Seq<char>> {
    kept_entries(
        platform,
        env,
        merge_parts(
            platform,
            match src.existing {
                Some(e) => e@,
                None => Seq::<char>::empty(),
            },
            path_extras(platform, src),
            platform != Platform::Windows,
        ),
    )
}

/// On Windows every non-blank entry of the user's and the machine's `Path`
/// in the registry is among the entries of the `PATH` the helper builds, up
/// to case (after `%NAME%` references are expanded and the entry trimmed).
pub proof fn law_registry_paths_are_kept(
    env: Seq<(Seq<char>, Seq<char>)>,
    src: PathSources,
    registry: String,
    piece: Seq<char>,
)
    requires
        src.user_path == Some(registry) || src.machine_path == Some(registry),
        split(registry@, ';').contains(piece),
        trim(expand_from(piece, env, 0)).len() > 0,
    ensures
        exists|i: int|
            0 <= i < built_entries(Platform::Windows, env, src).len() && lower(
                #[trigger] built_entries(Platform::Windows, env, src)[i],
            ) == lower(trim(expand_from(piece, env, 0))),
{
    let w = Platform::Windows;
    let existing = match src.existing {
        Some(e) => e@,
        None => Seq::<char>::empty(),
    };
    let extras = path_extras(w, src);
    let home = match src.home_dirs {
        Some((a, b)) => seq![a@, b@],
        None => Seq::<Seq<char>>::empty(),
    };
    let rest = home + maybe(src.nvm_home) + maybe(src.nvm_symlink) + seq![
        "C:\\Program Files\\Git\\cmd"@,
        "C:\\Program Files\\nodejs"@,
        "C:\\nvm4w\\nodejs"@,
    ];
    let u = maybe(src.user_path);
    let m = maybe(src.machine_path);
    assert(extras =~= u + (m + rest));
    lemma_split_all_append(u, m + rest, ';');
    lemma_split_all_append(m, rest, ';');
    let idx = choose|x: int| 0 <= x < split(registry@, ';').len() && split(registry@, ';')[x] == piece;
    let ex = split_all(extras, ';');
    let su = split_all(u, ';');
    let sm = split_all(m, ';');
    let pos = if src.user_path == Some(registry) {
        assert(u =~= seq![registry@]);
        assert(u.drop_last() =~= Seq::<Seq<char>>::empty());
        assert(u.last() == registry@);
        assert(split_all(u.drop_last(), ';') =~= Seq::<Seq<char>>::empty());
        assert(su == split_all(u.drop_last(), ';') + split(u.last(), ';'));
        assert(su =~= split(registry@, ';'));
        assert(ex[idx] == su[idx]);
        idx
    } else {
        assert(m =~= seq![registry@]);
        assert(m.drop_last() =~= Seq::<Seq<char>>::empty());
        assert(m.last() == registry@);
        assert(split_all(m.drop_last(), ';') =~= Seq::<Seq<char>>::empty());
        assert(sm == split_all(m.drop_last(), ';') + split(m.last(), ';'));
        assert(sm =~= split(registry@, ';'));
        assert(ex[su.len() + idx] == sm[idx]);
        su.len() + idx
    };
    let parts = merge_parts(w, existing, extras, false);
    let sp = split(existing, ';');
    assert(parts == sp + ex);
    assert(parts[sp.len() + pos] == piece);
    lemma_kept_covers(w, env, parts, sp.len() + pos);
    let kept = kept_entries(w, env, parts);
    let i = choose|i: int|
        0 <= i < kept.len() && entry_key(w, #[trigger] kept[i]) == entry_key(
            w,
            entry_form(w, env, parts[sp.len() + pos]),
        );
    assert(lower(kept[i]) == lower(trim(expand_from(piece, env, 0))));
    assert(kept == built_entries(w, env, src));
}

/// A piece of one of the texts is a piece of their splits.
pub proof fn lemma_split_all_has(texts: Seq<Seq<char>>, sep: char, text: Seq<char>, piece: Seq<char>)
    requires
        texts.contains(text),
        split(text, sep).contains(piece),
    ensures
        split_all(texts, sep).contains(piece),
    decreases texts.len(),
{
    let a = split_all(texts.drop_last(), sep);
    let b = split(texts.last(), sep);
    if texts.last() == text {
        let x = choose|x: int| 0 <= x < b.len() && b[x] == piece;
        assert((a + b)[a.len() + x] == piece);
    } else {
        let k = choose|k: int| 0 <= k < texts.len() && texts[k] == text;
        assert(texts.drop_last()[k] == text);
        lemma_split_all_has(texts.drop_last(), sep, text, piece);
        let x = choose|x: int| 0 <= x < a.len() && a[x] == piece;
        assert((a + b)[x] == piece);
    }
}

/// Every non-blank piece of an extra entry or of the existing `PATH` is kept.
pub proof fn lemma_sources_kept(
    platform: Platform,
    env: Seq<(Seq<char>, Seq<char>)>,
    src: PathSources,
    text: Seq<char>,
    piece: Seq<char>,
)
    requires
        path_extras(platform, src).contains(text) || (src.existing matches Some(e) && e@ == text),
        split(text, separator(platform)).contains(piece),
        entry_form(platform, env, piece).len() > 0,
    ensures
        exists|i: int|
            0 <= i < built_entries(platform, env, src).len() && entry_key(
                platform,
                #[trigger] built_entries(platform, env, src)[i],
            ) == entry_key(platform, entry_form(platform, env, piece)),
{
    let sep = separator(platform);
    let existing = match src.existing {
        Some(e) => e@,
        None => Seq::<char>::empty(),
    };
    let extras = path_extras(platform, src);
    let parts = merge_parts(platform, existing, extras, platform != Platform::Windows);
    let ex = split_all(extras, sep);
    let sp = split(existing, sep);
    let j = if path_extras(platform, src).contains(text) {
        lemma_split_all_has(extras, sep, text, piece);
        let x = choose|x: int| 0 <= x < ex.len() && ex[x] == piece;
        if platform != Platform::Windows {
            assert(parts[x] == piece);
            x
        } else {
            assert(parts[sp.len() + x] == piece);
            sp.len() + x
        }
    } else {
        let x = choose|x: int| 0 <= x < sp.len() && sp[x] == piece;
        if platform != Platform::Windows {
            assert(parts[ex.len() + x] == piece);
            ex.len() + x
        } else {
            assert(parts[x] == piece);
            x
        }
    };
    lemma_kept_covers(platform, env, parts, j);
    let kept = kept_entries(platform, env, parts);
    assert(kept == built_entries(platform, env, src));
    let i = choose|i: int|
        0 <= i < kept.len() && entry_key(platform, #[trigger] kept[i]) == entry_key(
            platform,
            entry_form(platform, env, parts[j]),
        );
    assert(entry_key(platform, built_entries(platform, env, src)[i]) == entry_key(
        platform,
        entry_form(platform, env, piece),
    ));
}

/// Every non-blank piece of each source of the `PATH` ends up among the
/// built entries: off Windows the existing `PATH`, `/opt/homebrew/bin`,
/// `/usr/local/bin`, `~/.local/bin`, `/usr/bin`, `/bin`, `/usr/sbin` and
/// `/sbin` (trimmed); on Windows the existing `PATH`, the user's and the
/// machine's registry `Path`, npm's and nvm's directories, `NVM_HOME`,
/// `NVM_SYMLINK` and the usual Git and Node.js directories (expanded and
/// trimmed, up to case).
pub proof fn law_path_sources_are_kept(
    platform: Platform,
    env: Seq<(Seq<char>, Seq<char>)>,
    src: PathSources,
    text: Seq<char>,
    piece: Seq<char>,
)
    requires
        (src.existing matches Some(e) && e@ == text) || (if platform == Platform::Windows {
            ||| (src.user_path matches Some(u) && u@ == text)
            ||| (src.machine_path matches Some(m) && m@ == text)
            ||| (src.home_dirs matches Some((a, b)) && (a@ == text || b@ == text))
            ||| (src.nvm_home matches Some(h) && h@ == text)
            ||| (src.nvm_symlink matches Some(l) && l@ == text)
            ||| text == "C:\\Program Files\\Git\\cmd"@
            ||| text == "C:\\Program Files\\nodejs"@
            ||| text == "C:\\nvm4w\\nodejs"@
        } else {
            ||| text == "/opt/homebrew/bin"@
            ||| text == "/usr/local/bin"@
            ||| (src.local_bin matches Some(l) && l@ == text)
            ||| text == "/usr/bin"@
            ||| text == "/bin"@
            ||| text == "/usr/sbin"@
            ||| text == "/sbin"@
        }),
        split(text, if platform == Platform::Windows {
            ';'
        } else {
            ':'
        }).contains(piece),
        if platform == Platform::Windows {
            trim(expand_from(piece, env, 0)).len() > 0
        } else {
            trim(piece).len() > 0
        },
    ensures
        platform == Platform::Windows ==> exists|i: int|
            0 <= i < built_entries(platform, env, src).len() && lower(
                #[trigger] built_entries(platform, env, src)[i],
            ) == lower(trim(expand_from(piece, env, 0))),
        platform != Platform::Windows ==> exists|i: int|
            0 <= i < built_entries(platform, env, src).len() && #[trigger] built_entries(
                platform,
                env,
                src,
            )[i] == trim(piece),
{
    let extras = path_extras(platform, src);
    if !(src.existing matches Some(e) && e@ == text) {
        if platform == Platform::Windows {
            let home = match src.home_dirs {
                Some((a, b)) => seq![a@, b@],
                None => Seq::<Seq<char>>::empty(),
            };
            let u = maybe(src.user_path);
            let m = maybe(src.machine_path);
            let h = maybe(src.nvm_home);
            let l = maybe(src.nvm_symlink);
            let fixed = seq![
                "C:\\Program Files\\Git\\cmd"@,
                "C:\\Program Files\\nodejs"@,
                "C:\\nvm4w\\nodejs"@,
            ];
            assert(extras == u + m + home + h + l + fixed);
            let n0: int = u.len() as int;
            let n1: int = n0 + m.len();
            let n2: int = n1 + home.len();
            let n3: int = n2 + h.len();
            let n4: int = n3 + l.len();
            if src.user_path matches Some(x) && x@ == text {
                assert(extras[0] == text);
            } else if src.machine_path matches Some(x) && x@ == text {
                assert(extras[n0] == text);
            } else if src.home_dirs matches Some((a, b)) && a@ == text {
                assert(extras[n1] == text);
            } else if src.home_dirs matches Some((a, b)) && b@ == text {
                assert(extras[n1 + 1] == text);
            } else if src.nvm_home matches Some(x) && x@ == text {
                assert(extras[n2] == text);
            } else if src.nvm_symlink matches Some(x) && x@ == text {
                assert(extras[n3] == text);
            } else if text == "C:\\Program Files\\Git\\cmd"@ {
                assert(extras[n4] == text);
            } else if text == "C:\\Program Files\\nodejs"@ {
                assert(extras[n4 + 1] == text);
            } else {
                assert(extras[n4 + 2] == text);
            }
        } else {
            let lb = maybe(src.local_bin);
            let n: int = 2 + lb.len() as int;
            assert(extras == seq!["/opt/homebrew/bin"@, "/usr/local/bin"@] + lb + seq![
                "/usr/bin"@,
                "/bin"@,
                "/usr/sbin"@,
                "/sbin"@,
            ]);
            if text == "/opt/homebrew/bin"@ {
                assert(extras[0] == text);
            } else if text == "/usr/local/bin"@ {
                assert(extras[1] == text);
            } else if src.local_bin matches Some(x) && x@ == text {
                assert(extras[2] == text);
            } else if text == "/usr/bin"@ {
                assert(extras[n] == text);
            } else if text == "/bin"@ {
                assert(extras[n + 1] == text);
            } else if text == "/usr/sbin"@ {
                assert(extras[n + 2] == text);
            } else {
                assert(extras[n + 3] == text);
            }
        }
    }
    lemma_sources_kept(platform, env, src, text, piece);
    let b = built_entries(platform, env, src);
    let i = choose|i: int|
        0 <= i < b.len() && entry_key(platform, #[trigger] b[i]) == entry_key(
            platform,
            entry_form(platform, env, piece),
        );
    assert(b[i] == b[i]);
}

/// Appends an optional entry.
fn push_maybe(v: &mut Vec<String>, o: &Option<String>)
    ensures
        views(final(v)@) == views(old(v)@) + maybe(*o),
{
    let ghost before = views(v@);
    match o {
        Some(x) => {
            crate::text::push_text(v, x.as_str());
            assert(views(v@) =~= before + maybe(*o));
        },
        None => {
            assert(views(v@) =~= before + maybe(*o));
        },
    }
}

/// Builds the entries added to the `PATH`.
pub fn path_extra_entries(platform: Platform, src: &PathSources) -> (r: Vec<String>)
    ensures
        views(r@) == path_extras(platform, *src),
{
    let mut v: Vec<String> = Vec::new();
    assert(views(v@) =~= Seq::<Seq<char>>::empty());
    if platform == Platform::Windows {
        push_maybe(&mut v, &src.user_path);
        push_maybe(&mut v, &src.machine_path);
        let ghost a = views(v@);
        match &src.home_dirs {
            Some((x, y)) => {
                crate::text::push_text(&mut v, x.as_str());
                crate::text::push_text(&mut v, y.as_str());
                assert(views(v@) =~= a + seq![x@, y@]);
            },
            None => {},
        }
        push_maybe(&mut v, &src.nvm_home);
        push_maybe(&mut v, &src.nvm_symlink);
        let ghost b = views(v@);
        crate::text::push_text(&mut v, "C:\\Program Files\\Git\\cmd");
        crate::text::push_text(&mut v, "C:\\Program Files\\nodejs");
        crate::text::push_text(&mut v, "C:\\nvm4w\\nodejs");
        assert(views(v@) =~= b + seq![
            "C:\\Program Files\\Git\\cmd"@,
            "C:\\Program Files\\nodejs"@,
            "C:\\nvm4w\\nodejs"@,
        ]);
    } else {
        crate::text::push_text(&mut v, "/opt/homebrew/bin");
        crate::text::push_text(&mut v, "/usr/local/bin");
        push_maybe(&mut v, &src.local_bin);
        let ghost b = views(v@);
        crate::text::push_text(&mut v, "/usr/bin");
        crate::text::push_text(&mut v, "/bin");
        crate::text::push_text(&mut v, "/usr/sbin");
        crate::text::push_text(&mut v, "/sbin");
        assert(views(v@) =~= b + seq!["/usr/bin"@, "/bin"@, "/usr/sbin"@, "/sbin"@]);
    }
    assert(views(v@) =~= path_extras(platform, *src));
    v
}

/// The `PATH` every tool runs with: the helper's own `PATH` merged with the
/// usual tool directories, which go first except on Windows; `env` is a
/// snapshot of the environment for `%NAME%` references on Windows.
pub fn create_base_path_env(platform: Platform, env: &Vec<(String, String)>, src: &PathSources) -> (r:
    String)
    ensures
        r@ == merged_path(
            platform,
            env_view(env@),
            match src.existing {
                Some(e) => e@,
                None => Seq::<char>::empty(),
            },
            path_extras(platform, *src),
            platform != Platform::Windows,
        ),
        r@ == join(built_entries(platform, env_view(env@), *src), seq![separator(platform)]),
{
    let extras = path_extra_entries(platform, src);
    let existing: Option<&str> = match &src.existing {
        Some(e) => Some(e.as_str()),
        None => None,
    };
    merge_path_entries(platform, env, existing, &extras, platform != Platform::Windows)
}

} // verus!
