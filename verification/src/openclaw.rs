//! Finding the `openclaw` command and describing the installed one.
use vstd::prelude::*;
use crate::platform::Platform;
use crate::task::{opt_view, owned};
use crate::text::{
    chars_of, concat2, first_occ, has_space, includes, is_space, lines, push_text, split_lines,
    string_of, sub_vec, text_lines, trim, trim_range, utf8_len, views, vviews, find,
    lemma_has_first, char_is_space, last_char, rfind_char, starts,
};
use crate::paths::{path_search_result, resolve_command_in_path};

verus! {

broadcast use vstd::string::group_string_axioms;

/// Where `openclaw` was found, and the `PATH` it runs with.
pub struct ResolvedOpenclaw {
    pub command: String,
    pub source: String,
    pub path_env: String,
}

/// What the helper knows about the installed `openclaw`.
pub struct OpenclawInfo {
    pub installed: bool,
    pub version: Option<String>,
    pub help: Option<String>,
    pub executable: Option<String>,
    pub error: Option<String>,
}

/// The first non-empty trimmed line of a command's output.
pub open spec fn first_line(text: Seq<char>) -> Option<Seq<char>> {
    if lines(text).len() == 0 {
        None
    } else {
        Some(lines(text)[0])
    }
}

/// The version that `openclaw --version` prints: its first non-empty line.
pub fn parse_version_from_output(text: &str) -> (r: Option<String>)
    ensures
        opt_view(r) == first_line(text@),
{
    let mut ls = split_lines(text);
    if ls.len() == 0 {
        return None;
    }
    assert(views(ls@)[0] == ls@[0]@);
    Some(ls.swap_remove(0))
}

/// What the helper reports after running `openclaw --version`: installed with
/// the version it printed (or `unknown`), or not installed with the error of
/// the failed run.
pub fn openclaw_info_from(
    version_run: Result<(String, String), String>,
    help: Option<String>,
    executable: Option<String>,
) -> (r: OpenclawInfo)
    ensures
        match version_run {
            Ok((out, err)) => {
                &&& r.installed
                &&& opt_view(r.version) == Some(
                    match first_line(out@ + "\n"@ + err@) {
                        Some(v) => v,
                        None => "unknown"@,
                    },
                )
                &&& opt_view(r.help) == opt_view(help)
                &&& opt_view(r.executable) == opt_view(executable)
                &&& r.error is None
            },
            Err(e) => {
                &&& !r.installed
                &&& r.version is None
                &&& r.help is None
                &&& opt_view(r.executable) == opt_view(executable)
                &&& opt_view(r.error) == Some(e@)
            },
        },
{
    match version_run {
        Ok((out, err)) => {
            let combined = crate::gateway::combine_output(out.as_str(), err.as_str());
            let version = match parse_version_from_output(combined.as_str()) {
                Some(v) => v,
                None => owned("unknown"),
            };
            OpenclawInfo { installed: true, version: Some(version), help, executable, error: None }
        },
        Err(e) => OpenclawInfo {
            installed: false,
            version: None,
            help: None,
            executable,
            error: Some(e),
        },
    }
}

/// Number of characters whose UTF-8 encoding fits in `n` bytes, counting
/// from character `k` on.
pub open spec fn fit_from(s: Seq<char>, n: nat, k: int) -> int
    decreases s.len() - k,
{
    if 0 <= k < s.len() && utf8_len(s.take(k + 1)) <= n {
        fit_from(s, n, k + 1)
    } else {
        k
    }
}

/// How many leading characters of `v` fit in `limit` bytes of UTF-8.
pub fn fit_count(v: &Vec<char>, limit: u64) -> (k: usize)
    requires
        limit < 0xffff_ffff,
    ensures
        k as int == fit_from(v@, limit as nat, 0),
        k <= v.len(),
{
    let mut k: usize = 0;
    let mut bytes: u64 = 0;
    assert(v@.take(0) =~= Seq::<char>::empty());
    while k < v.len()
        invariant_except_break
            fit_from(v@, limit as nat, 0) == fit_from(v@, limit as nat, k as int),
        invariant
            k <= v.len(),
            bytes as nat == utf8_len(v@.take(k as int)),
            bytes <= limit,
            limit < 0xffff_ffff,
        ensures
            k <= v.len(),
            fit_from(v@, limit as nat, 0) == k,
        decreases v.len() - k,
    {
        let ch = v[k];
        let c = ch as u32;
        let w: u64 = if c < 0x80 {
            1
        } else if c < 0x800 {
            2
        } else if c < 0x10000 {
            3
        } else {
            4
        };
        assert(v@.take(k + 1).drop_last() =~= v@.take(k as int));
        assert(v@.take(k + 1).last() == ch);
        assert(utf8_len(v@.take(k + 1)) == bytes + w);
        if bytes + w > limit {
            break;
        }
        bytes = bytes + w;
        k += 1;
    }
    k
}

/// The help text shown: the output of `openclaw --help` trimmed, or, when it
/// is longer than 200000 bytes, its first 200000 bytes followed by `"\n…"`.
pub open spec fn help_text(out: Seq<char>) -> Seq<char> {
    if utf8_len(out) > 200_000 {
        out.take(fit_from(out, 200_000, 0)) + "\n…"@
    } else {
        trim(out)
    }
}

/// Builds the help text from the output and error output of `openclaw --help`.
/// A long output is cut at byte 200000, which must fall between two
/// characters, as it must for string slicing, which panics elsewhere.
pub fn help_from_output(stdout: &str, stderr: &str) -> (r: String)
    requires
        utf8_len(stdout@ + "\n"@ + stderr@) > 200_000 ==> utf8_len(
            (stdout@ + "\n"@ + stderr@).take(fit_from(stdout@ + "\n"@ + stderr@, 200_000, 0)),
        ) == 200_000,
    ensures
        r@ == help_text(stdout@ + "\n"@ + stderr@),
{
    let combined = crate::gateway::combine_output(stdout, stderr);
    let v = chars_of(combined.as_str());
    if !crate::text::utf8_len_exceeds(&v, 200_000) {
        return crate::text::trim_str(combined.as_str());
    }
    let k = fit_count(&v, 200_000);
    let mut s = string_of(&v, 0, k);
    assert(v@.subrange(0, k as int) =~= v@.take(k as int));
    s.append("\n…");
    s
}

/// Why `cleanup` of a removed item is logged: `<label>: <path>`.
pub fn removed_item(label: &str, path: &str) -> (r: String)
    ensures
        r@ == label@ + ": "@ + path@,
{
    crate::text::concat3(label, ": ", path)
}

/// What a line of `reg query … /v Path` says: `None` to read on, `Some(v)`
/// to stop with `v` (nothing, when the value type is not followed by whitespace).
pub open spec fn reg_line(line: Seq<char>) -> Option<Option<Seq<char>>> {
    let i = first_occ(line, "REG_"@);
    if i < 0 {
        None
    } else {
        let tv = line.subrange(i, line.len() as int);
        let w = ws_index(tv, 0);
        if w < 0 {
            Some(None)
        } else {
            let value = trim(tv.subrange(w + 1, tv.len() as int));
            if value.len() > 0 {
                Some(Some(value))
            } else {
                None
            }
        }
    }
}

/// Position of the first whitespace character at or after `k`, or `-1`.
pub open spec fn ws_index(s: Seq<char>, k: int) -> int
    decreases s.len() - k,
{
    if k < 0 || k >= s.len() {
        -1
    } else if is_space(s[k]) {
        k
    } else {
        ws_index(s, k + 1)
    }
}

/// The registry value in `reg query` output, reading the lines in order.
pub open spec fn reg_scan(ls: Seq<Seq<char>>) -> Option<Seq<char>>
    decreases ls.len(),
{
    if ls.len() == 0 {
        None
    } else {
        match reg_line(ls[0]) {
            Some(v) => v,
            None => reg_scan(ls.drop_first()),
        }
    }
}

/// Reads the value from the output of `reg query <key> /v Path`.
pub fn parse_reg_query_value(output: &str) -> (r: Option<String>)
    ensures
        opt_view(r) == reg_scan(lines(output@)),
{
    let ls = split_lines(output);
    let ghost all = views(ls@);
    let marker = chars_of("REG_");
    let mut k: usize = 0;
    assert(all.skip(0) =~= all);
    while k < ls.len()
        invariant
            k <= ls.len(),
            all == views(ls@),
            all == lines(output@),
            marker@ == "REG_"@,
            reg_scan(all) == reg_scan(all.skip(k as int)),
        decreases ls.len() - k,
    {
        assert(all.skip(k as int)[0] == ls@[k as int]@);
        assert(all.skip(k as int).drop_first() =~= all.skip(k + 1));
        let line = chars_of(ls[k].as_str());
        match find(&line, &marker) {
            None => {},
            Some(i) => {
                proof {
                    lemma_has_first(line@, marker@);
                }
                let tv = sub_vec(&line, i, line.len());
                let mut w: usize = 0;
                while w < tv.len() && !char_is_space(tv[w])
                    invariant
                        w <= tv.len(),
                        ws_index(tv@, 0) == ws_index(tv@, w as int),
                    decreases tv.len() - w,
                {
                    w += 1;
                }
                if w == tv.len() {
                    return None;
                }
                let (a, b) = trim_range(&tv, w + 1, tv.len());
                if a < b {
                    return Some(string_of(&tv, a, b));
                }
            },
        }
        k += 1;
    }
    None
}

/// The global npm prefix printed by `npm prefix -g`: the first non-empty
/// line of its output and error output.
pub fn npm_prefix_from_output(stdout: &str, stderr: &str) -> (r: Option<String>)
    ensures
        opt_view(r) == first_line(stdout@ + "\n"@ + stderr@),
{
    let combined = crate::gateway::combine_output(stdout, stderr);
    parse_version_from_output(combined.as_str())
}

/// Where `openclaw` lives under the global npm prefix: `<prefix>\openclaw.cmd`
/// then `<prefix>\openclaw` on Windows, `<prefix>/bin/openclaw` elsewhere.
pub open spec fn npm_prefix_candidates(platform: Platform) -> Seq<Seq<Seq<char>>> {
    if platform == Platform::Windows {
        seq![seq!["openclaw.cmd"@], seq!["openclaw"@]]
    } else {
        seq![seq!["bin"@, "openclaw"@]]
    }
}

/// Builds the paths, relative to the npm prefix, where `openclaw` may be.
pub fn npm_prefix_candidate_paths(platform: Platform) -> (r: Vec<Vec<String>>)
    ensures
        r@.map_values(|c: Vec<String>| views(c@)) == npm_prefix_candidates(platform),
{
    let mut r: Vec<Vec<String>> = Vec::new();
    if platform == Platform::Windows {
        let mut a: Vec<String> = Vec::new();
        push_text(&mut a, "openclaw.cmd");
        let mut b: Vec<String> = Vec::new();
        push_text(&mut b, "openclaw");
        assert(views(a@) =~= seq!["openclaw.cmd"@]);
        assert(views(b@) =~= seq!["openclaw"@]);
        r.push(a);
        r.push(b);
    } else {
        let mut a: Vec<String> = Vec::new();
        push_text(&mut a, "bin");
        push_text(&mut a, "openclaw");
        assert(views(a@) =~= seq!["bin"@, "openclaw"@]);
        r.push(a);
    }
    assert(r@.map_values(|c: Vec<String>| views(c@)) =~= npm_prefix_candidates(platform));
    r
}

/// The Homebrew locations of `openclaw` tried on macOS, in order.
pub open spec fn brew_candidates(platform: Platform) -> Seq<Seq<char>> {
    if platform == Platform::MacOs {
        seq!["/opt/homebrew/bin/openclaw"@, "/usr/local/bin/openclaw"@]
    } else {
        Seq::<Seq<char>>::empty()
    }
}

/// Builds the Homebrew locations of `openclaw` to try.
pub fn brew_openclaw_candidates(platform: Platform) -> (r: Vec<String>)
    ensures
        views(r@) == brew_candidates(platform),
{
    let mut v: Vec<String> = Vec::new();
    if platform == Platform::MacOs {
        push_text(&mut v, "/opt/homebrew/bin/openclaw");
        push_text(&mut v, "/usr/local/bin/openclaw");
    }
    assert(views(v@) =~= brew_candidates(platform));
    v
}

/// What is removed in each Node.js version directory of nvm on macOS: the
/// `openclaw` executable and the package's module directory (and the
/// `openclaw` one); nothing elsewhere.
pub open spec fn nvm_cleanup_targets(platform: Platform, package: Seq<char>) -> Seq<
    (Seq<Seq<char>>, Seq<char>),
> {
    if platform == Platform::MacOs {
        seq![
            (seq!["bin"@, "openclaw"@], "bin"@),
            (seq!["lib"@, "node_modules"@, package], "module"@),
            (seq!["lib"@, "node_modules"@, "openclaw"@], "module"@),
        ]
    } else {
        Seq::<(Seq<Seq<char>>, Seq<char>)>::empty()
    }
}

/// Abstract view of cleanup targets.
pub open spec fn target_views(v: Seq<(Vec<String>, String)>) -> Seq<(Seq<Seq<char>>, Seq<char>)> {
    v.map_values(|t: (Vec<String>, String)| (views(t.0@), t.1@))
}

/// The items, relative to each nvm Node.js version directory, that the
/// cleanup removes, with their labels (none outside macOS, where the
/// cleanup then removes nothing).
pub fn cleanup_all_mac_nvm_openclaw(platform: Platform, openclaw_package: &str) -> (r: Vec<
    (Vec<String>, String),
>)
    ensures
        target_views(r@) == nvm_cleanup_targets(platform, openclaw_package@),
{
    let mut r: Vec<(Vec<String>, String)> = Vec::new();
    if platform == Platform::MacOs {
        let mut a: Vec<String> = Vec::new();
        push_text(&mut a, "bin");
        push_text(&mut a, "openclaw");
        let mut b: Vec<String> = Vec::new();
        push_text(&mut b, "lib");
        push_text(&mut b, "node_modules");
        push_text(&mut b, openclaw_package);
        let mut c: Vec<String> = Vec::new();
        push_text(&mut c, "lib");
        push_text(&mut c, "node_modules");
        push_text(&mut c, "openclaw");
        assert(views(a@) =~= seq!["bin"@, "openclaw"@]);
        assert(views(b@) =~= seq!["lib"@, "node_modules"@, openclaw_package@]);
        assert(views(c@) =~= seq!["lib"@, "node_modules"@, "openclaw"@]);
        r.push((a, owned("bin")));
        r.push((b, owned("module")));
        r.push((c, owned("module")));
    }
    assert(target_views(r@) =~= nvm_cleanup_targets(platform, openclaw_package@));
    r
}

/// `s` without its trailing `'/'`s.
pub open spec fn trim_slashes_end(s: Seq<char>) -> Seq<char>
    decreases s.len(),
{
    if s.len() > 0 && s.last() == '/' {
        trim_slashes_end(s.drop_last())
    } else {
        s
    }
}

/// The parent of a macOS path as text: what comes before its last `'/'`
/// once trailing `'/'`s are dropped, itself without trailing `'/'`s;
/// nothing when no `'/'` is left.
pub open spec fn parent_text(p: Seq<char>) -> Option<Seq<char>> {
    let t = trim_slashes_end(p);
    let i = last_char(t, '/');
    if i < 0 {
        None
    } else {
        Some(trim_slashes_end(t.subrange(0, i)))
    }
}

/// The last part of a macOS path as text: what follows its last `'/'`.
pub open spec fn name_text(p: Seq<char>) -> Seq<char> {
    p.subrange(last_char(p, '/') + 1, p.len() as int)
}

/// The Node.js version directory of nvm that a macOS `openclaw` path lies
/// in: the path is under `/.nvm/versions/node/`, its parent directory is
/// `bin`, and the root is the parent of that; nothing on other platforms.
pub open spec fn nvm_root(platform: Platform, openclaw_path: Seq<char>) -> Option<Seq<char>> {
    if platform != Platform::MacOs || !includes(openclaw_path, "/.nvm/versions/node/"@) {
        None
    } else {
        match parent_text(openclaw_path) {
            Some(bin_dir) => if name_text(bin_dir) == "bin"@ {
                parent_text(bin_dir)
            } else {
                None
            },
            None => None,
        }
    }
}

/// Index one past the last character of `v[..end]` that is not a `'/'`.
fn trim_slashes_index(v: &Vec<char>, end: usize) -> (r: usize)
    requires
        end <= v.len(),
    ensures
        r <= end,
        v@.subrange(0, r as int) == trim_slashes_end(v@.subrange(0, end as int)),
{
    let mut k = end;
    while k > 0 && v[k - 1] == '/'
        invariant
            k <= end <= v.len(),
            trim_slashes_end(v@.subrange(0, end as int)) == trim_slashes_end(
                v@.subrange(0, k as int),
            ),
        decreases k,
    {
        assert(v@.subrange(0, k as int).drop_last() =~= v@.subrange(0, k - 1));
        k -= 1;
    }
    if k > 0 {
        assert(v@.subrange(0, k as int).last() == v@[k - 1]);
    }
    k
}

/// The parent of `v[..end]` (see `parent_text`), as an end index.
fn parent_index(v: &Vec<char>, end: usize) -> (r: Option<usize>)
    requires
        end <= v.len(),
    ensures
        match r {
            Some(e) => e <= end && parent_text(v@.subrange(0, end as int)) == Some(
                v@.subrange(0, e as int),
            ),
            None => parent_text(v@.subrange(0, end as int)) is None,
        },
{
    let t = trim_slashes_index(v, end);
    let head = sub_vec(v, 0, t);
    assert(head@ == trim_slashes_end(v@.subrange(0, end as int)));
    match rfind_char(&head, '/') {
        Some(i) => {
            let e = trim_slashes_index(v, i);
            assert(head@.subrange(0, i as int) =~= v@.subrange(0, i as int));
            Some(e)
        },
        None => None,
    }
}

/// The nvm Node.js version directory that the `openclaw` at `openclaw_path`
/// belongs to (see `nvm_root`), whose copy of OpenClaw is then removed.
pub fn nvm_root_of(platform: Platform, openclaw_path: &str) -> (r: Option<String>)
    ensures
        opt_view(r) == nvm_root(platform, openclaw_path@),
{
    if platform != Platform::MacOs {
        return None;
    }
    let v = chars_of(openclaw_path);
    if !crate::text::contains(&v, "/.nvm/versions/node/") {
        return None;
    }
    assert(v@.subrange(0, v.len() as int) =~= v@);
    match parent_index(&v, v.len()) {
        Some(b) => {
            let ghost bin_dir = v@.subrange(0, b as int);
            let start = match rfind_char(&sub_vec(&v, 0, b), '/') {
                Some(j) => j + 1,
                None => 0,
            };
            let name = sub_vec(&v, start, b);
            assert(name@ =~= name_text(bin_dir));
            if crate::text::same_text(&name, "bin") {
                match parent_index(&v, b) {
                    Some(e) => Some(string_of(&v, 0, e)),
                    None => None,
                }
            } else {
                None
            }
        },
        None => None,
    }
}

/// Whether a target joined onto a directory stays inside it: joining a
/// component that starts with `'/'` replaces the path instead.
pub open spec fn stays_inside(components: Seq<Seq<char>>) -> bool {
    forall|i: int| 0 <= i < components.len() ==> !starts(#[trigger] components[i], "/"@)
}

/// Whether a cleanup target (`components` joined onto a directory) stays
/// inside that directory.
pub fn target_stays_inside(components: &Vec<String>) -> (b: bool)
    ensures
        b == stays_inside(views(components@)),
{
    let mut i: usize = 0;
    while i < components.len()
        invariant
            i <= components.len(),
            forall|k: int| 0 <= k < i ==> !starts(#[trigger] views(components@)[k], "/"@),
        decreases components.len() - i,
    {
        let c = chars_of(components[i].as_str());
        assert(views(components@)[i as int] == c@);
        if crate::text::starts_with(&c, "/") {
            return false;
        }
        i += 1;
    }
    true
}

/// The program separator of `std::path::MAIN_SEPARATOR`.
pub open spec fn main_separator(platform: Platform) -> char {
    if platform == Platform::Windows {
        '\\'
    } else {
        '/'
    }
}

/// Whether `std::path::Path::is_absolute` sees `p` as absolute. Which paths
/// are absolute follows the path rules of the platform the helper is built
/// for; on every platform an absolute path holds a separator (a Unix path
/// starts with `'/'`; a Windows one has a prefix and a root, or a `\\\\`
/// prefix), and that is all the contract states.
#[verifier::external_body]
fn path_is_absolute(p: &str) -> (r: bool)
    ensures
        r ==> crate::text::has_char(p@, '/') || crate::text::has_char(p@, '\\'),
{
    std::path::Path::new(p).is_absolute()
}

/// The program to run: as written when it is a path (absolute, or holding a
/// separator), otherwise what the `PATH` search finds, or an error. A name
/// without any `'/'` or `'\\'` is always searched for.
pub fn resolve_program<F: Fn(String, String) -> Option<String>>(
    platform: Platform,
    path_env: &str,
    program: &str,
    probe: &F,
) -> (r: Result<String, String>)
    requires
        forall|d: String, n: String| probe.requires((d, n)),
    ensures
        crate::text::has_char(program@, main_separator(platform)) ==> (r matches Ok(p) && p@
            == program@),
        !crate::text::has_char(program@, '/') && !crate::text::has_char(program@, '\\') ==> match r {
            Ok(p) => path_search_result(*probe, platform, path_env@, program@, Some(p)),
            Err(e) => e@ == "program not found"@ && path_search_result(
                *probe,
                platform,
                path_env@,
                program@,
                None,
            ),
        },
        match r {
            Ok(p) => p@ == program@ || path_search_result(
                *probe,
                platform,
                path_env@,
                program@,
                Some(p),
            ),
            Err(e) => e@ == "program not found"@ && path_search_result(
                *probe,
                platform,
                path_env@,
                program@,
                None,
            ),
        },
{
    let pv = chars_of(program);
    let sep = if platform == Platform::Windows {
        '\\'
    } else {
        '/'
    };
    if path_is_absolute(program) || crate::text::contains_char(&pv, sep) {
        return Ok(owned(program));
    }
    match resolve_command_in_path(program, path_env, platform, probe) {
        Some(p) => Ok(p),
        None => Err(owned("program not found")),
    }
}

} // verus!
