//! Reading the gateway service: its state from `openclaw gateway status`,
//! its dashboard address, its port, and the processes listening there.
use vstd::prelude::*;
use crate::task::{opt_view, owned};
use crate::text::{
    before_char, char_is_space, chars_of, decimal, find, first_occ, includes, has_char,
    lemma_has_first, lemma_split_nonempty, occurs_at, parse_uint, parse_unsigned, rfind_char,
    last_char, split, split_char, split_words, starts, starts_with, string_from, string_of,
    sub_vec, text_lines, trim, trim_range, vviews, words, nat_text, contains,
};

verus! {

broadcast use vstd::string::group_string_axioms;

/// The Unicode lower-case mapping of a text (`str::to_lowercase`).
pub uninterp spec fn unicode_lower(s: Seq<char>) -> Seq<char>;

/// `str::to_lowercase`: the result is `unicode_lower` of the argument; the
/// Unicode case tables it applies are not written out here.
#[verifier::external_body]
fn to_lowercase(s: &str) -> (r: String)
    ensures
        r@ == unicode_lower(s@),
{
    s.to_lowercase()
}

/// State of the gateway service as the status report words it.
pub struct GatewayStatus {
    pub state: String,
    pub dashboard_url: Option<String>,
    pub raw: String,
}

/// The gateway state named by a lower-cased status report: a successful
/// probe or a listening socket counts as running even when the service
/// manager reports the service as missing.
pub open spec fn gateway_state(lower: Seq<char>) -> Seq<char> {
    let has_rpc_ok = includes(lower, "rpc probe: ok"@) || includes(lower, "rpc probe ok"@);
    let has_listening = includes(lower, "listening:"@) || includes(lower, "listening on "@);
    let has_running = includes(lower, "active: active"@) || includes(lower, "(running)"@) || (includes(
        lower,
        "running"@,
    ) && !includes(lower, "not running"@)) || has_rpc_ok || has_listening;
    let has_stopped = includes(lower, "not running"@) || includes(lower, "inactive"@) || includes(lower, "dead"@)
        || includes(lower, "stopped"@) || includes(lower, "exited"@) || includes(lower, "failed"@);
    let has_loaded = includes(lower, "loaded: loaded"@) || (includes(lower, "(loaded)"@) && !includes(
        lower,
        "(not loaded)"@,
    ));
    let has_not_installed = includes(lower, "service not installed"@) || includes(
        lower,
        "service unit not found"@,
    ) || (includes(lower, "unit"@) && includes(lower, "not found"@)) || includes(lower, "loaded: not-found"@)
        || includes(lower, "not-found"@) || includes(lower, "scheduled task (missing)"@) || (includes(
        lower,
        "scheduled task"@,
    ) && includes(lower, "missing"@)) || includes(lower, "gateway service missing"@) || (includes(
        lower,
        "service"@,
    ) && includes(lower, "missing"@) && includes(lower, "gateway"@));
    if has_running {
        "running"@
    } else if has_not_installed && !has_loaded {
        "not_installed"@
    } else if has_stopped {
        "stopped"@
    } else if has_not_installed {
        "stopped"@
    } else {
        "unknown"@
    }
}

/// The gateway state for a status report already mapped to lower case.
pub fn gateway_state_from_lowercase(lower: &str) -> (r: String)
    ensures
        r@ == gateway_state(lower@),
{
    let l = chars_of(lower);
    let has_rpc_ok = contains(&l, "rpc probe: ok") || contains(&l, "rpc probe ok");
    let has_listening = contains(&l, "listening:") || contains(&l, "listening on ");
    let has_running = contains(&l, "active: active") || contains(&l, "(running)") || (contains(
        &l,
        "running",
    ) && !contains(&l, "not running")) || has_rpc_ok || has_listening;
    let has_stopped = contains(&l, "not running") || contains(&l, "inactive") || contains(
        &l,
        "dead",
    ) || contains(&l, "stopped") || contains(&l, "exited") || contains(&l, "failed");
    let has_loaded = contains(&l, "loaded: loaded") || (contains(&l, "(loaded)") && !contains(
        &l,
        "(not loaded)",
    ));
    let has_not_installed = contains(&l, "service not installed") || contains(
        &l,
        "service unit not found",
    ) || (contains(&l, "unit") && contains(&l, "not found")) || contains(
        &l,
        "loaded: not-found",
    ) || contains(&l, "not-found") || contains(&l, "scheduled task (missing)") || (contains(
        &l,
        "scheduled task",
    ) && contains(&l, "missing")) || contains(&l, "gateway service missing") || (contains(
        &l,
        "service",
    ) && contains(&l, "missing") && contains(&l, "gateway"));
    if has_running {
        owned("running")
    } else if has_not_installed && !has_loaded {
        owned("not_installed")
    } else if has_stopped {
        owned("stopped")
    } else if has_not_installed {
        owned("stopped")
    } else {
        owned("unknown")
    }
}

/// What one trimmed line of a status report says about the dashboard:
/// `None` to read on, `Some(None)` to give up (a line whose lower-case form
/// starts with `dashboard:` but that holds no `':'`), `Some(Some(url))` for
/// an `http(s)://` address after the first `':'`.
pub open spec fn dashboard_step(trimmed: Seq<char>, lowered: Seq<char>) -> Option<Option<Seq<char>>> {
    if !starts(lowered, "dashboard:"@) {
        None
    } else if !has_char(trimmed, ':') {
        Some(None)
    } else {
        let rest = trim(trimmed.subrange(first_occ(trimmed, seq![':']) + 1, trimmed.len() as int));
        if starts(rest, "http://"@) || starts(rest, "https://"@) {
            Some(Some(rest))
        } else {
            None
        }
    }
}

/// The dashboard address in a sequence of lines: the first line whose step
/// decides.
pub open spec fn dashboard_scan(ls: Seq<Seq<char>>) -> Option<Seq<char>>
    decreases ls.len(),
{
    if ls.len() == 0 {
        None
    } else {
        match dashboard_step(trim(ls[0]), unicode_lower(trim(ls[0]))) {
            Some(found) => found,
            None => dashboard_scan(ls.drop_first()),
        }
    }
}

/// The dashboard address that a status report announces.
pub open spec fn dashboard_url(text: Seq<char>) -> Option<Seq<char>> {
    dashboard_scan(text_lines(text))
}

/// One line's verdict on the dashboard address, given the line trimmed and
/// that trimmed line mapped to lower case.
pub fn dashboard_line(trimmed: &str, lowered: &str) -> (r: Option<Option<String>>)
    ensures
        match (r, dashboard_step(trimmed@, lowered@)) {
            (None, None) => true,
            (Some(None), Some(None)) => true,
            (Some(Some(u)), Some(Some(x))) => u@ == x,
            _ => false,
        },
{
    let lv = chars_of(lowered);
    if !starts_with(&lv, "dashboard:") {
        return None;
    }
    let t = chars_of(trimmed);
    let colon = vec![':'];
    assert(colon@ =~= seq![':']);
    match find(&t, &colon) {
        None => {
            proof {
                if has_char(t@, ':') {
                    let i = choose|i: int| 0 <= i < t@.len() && t@[i] == ':';
                    assert(t@.subrange(i, i + 1) =~= seq![':']);
                    assert(occurs_at(t@, colon@, i));
                }
            }
            Some(None)
        },
        Some(i) => {
            proof {
                lemma_has_first(t@, colon@);
                assert(t@.subrange(i as int, i + 1) =~= seq![':']);
                assert(t@[i as int] == ':');
            }
            let (a, b) = trim_range(&t, i + 1, t.len());
            let rest = sub_vec(&t, a, b);
            if starts_with(&rest, "http://") || starts_with(&rest, "https://") {
                Some(Some(string_from(&rest)))
            } else {
                None
            }
        },
    }
}

/// The pieces of `text_lines` as vectors.
fn text_line_pieces(v: &Vec<char>) -> (r: Vec<Vec<char>>)
    ensures
        vviews(r@) == text_lines(v@),
{
    let mut pieces = split_char(v, '\n');
    proof {
        lemma_split_nonempty(v@, '\n');
    }
    let n = pieces.len();
    if n > 0 && pieces[n - 1].len() == 0 {
        let ghost before = vviews(pieces@);
        assert(before[n - 1] == pieces@[n - 1]@);
        pieces.pop();
        assert(vviews(pieces@) =~= before.drop_last());
    }
    pieces
}

/// The dashboard address announced by a status report (`Dashboard: http…`).
pub fn extract_dashboard_url(text: &str) -> (r: Option<String>)
    ensures
        opt_view(r) == dashboard_url(text@),
{
    let v = chars_of(text);
    let ls = text_line_pieces(&v);
    let ghost all = vviews(ls@);
    let mut k: usize = 0;
    assert(all.skip(0) =~= all);
    while k < ls.len()
        invariant
            k <= ls.len(),
            all == vviews(ls@),
            all == text_lines(v@),
            v@ == text@,
            dashboard_scan(all) == dashboard_scan(all.skip(k as int)),
        decreases ls.len() - k,
    {
        let line = &ls[k];
        assert(all[k as int] == line@);
        assert(all.skip(k as int)[0] == line@);
        assert(all.skip(k as int).drop_first() =~= all.skip(k + 1));
        let (a, b) = trim_range(line, 0, line.len());
        assert(line@.subrange(0, line@.len() as int) =~= line@);
        let trimmed = string_of(line, a, b);
        let lowered = to_lowercase(trimmed.as_str());
        assert(trimmed@ == trim(all.skip(k as int)[0]));
        match dashboard_line(trimmed.as_str(), lowered.as_str()) {
            Some(found) => {
                assert(all.skip(k as int).len() > 0);
                assert(dashboard_scan(all.skip(k as int)) == opt_view(found));
                return found;
            },
            None => {},
        }
        k += 1;
    }
    None
}

/// A status report read into a state, a dashboard address and the trimmed text.
pub open spec fn status_of(text: Seq<char>) -> (Seq<char>, Option<Seq<char>>, Seq<char>) {
    (gateway_state(unicode_lower(trim(text))), dashboard_url(trim(text)), trim(text))
}

/// Reads the output of `openclaw gateway status`.
pub fn parse_gateway_status(text: &str) -> (r: GatewayStatus)
    ensures
        (r.state@, opt_view(r.dashboard_url), r.raw@) == status_of(text@),
{
    let v = chars_of(text);
    let (a, b) = trim_range(&v, 0, v.len());
    assert(v@.subrange(0, v@.len() as int) =~= v@);
    let raw = string_of(&v, a, b);
    let lower = to_lowercase(raw.as_str());
    let dashboard_url = extract_dashboard_url(raw.as_str());
    let state = gateway_state_from_lowercase(lower.as_str());
    GatewayStatus { state, dashboard_url, raw }
}

/// A status report that shows a successful RPC probe is read as running.
pub proof fn law_probe_means_running(text: Seq<char>)
    requires
        includes(unicode_lower(trim(text)), "rpc probe: ok"@),
    ensures
        status_of(text).0 == "running"@,
{
}

/// No sign of a running gateway in a lower-cased report: no
/// `active: active`, `(running)`, `running` (but as part of `not running`),
/// successful RPC probe or listening socket.
pub open spec fn shows_no_running_sign(lower: Seq<char>) -> bool {
    &&& !includes(lower, "active: active"@)
    &&& !includes(lower, "(running)"@)
    &&& !(includes(lower, "running"@) && !includes(lower, "not running"@))
    &&& !includes(lower, "rpc probe: ok"@)
    &&& !includes(lower, "rpc probe ok"@)
    &&& !includes(lower, "listening:"@)
    &&& !includes(lower, "listening on "@)
}

/// No sign of a missing gateway service in a lower-cased report.
pub open spec fn shows_no_missing_sign(lower: Seq<char>) -> bool {
    &&& !includes(lower, "service not installed"@)
    &&& !includes(lower, "service unit not found"@)
    &&& !(includes(lower, "unit"@) && includes(lower, "not found"@))
    &&& !includes(lower, "loaded: not-found"@)
    &&& !includes(lower, "not-found"@)
    &&& !includes(lower, "scheduled task (missing)"@)
    &&& !(includes(lower, "scheduled task"@) && includes(lower, "missing"@))
    &&& !includes(lower, "gateway service missing"@)
    &&& !(includes(lower, "service"@) && includes(lower, "missing"@) && includes(lower, "gateway"@))
}

/// Any sign of a running gateway makes the state `running`, whatever else
/// the report says.
pub proof fn law_running_signs_mean_running(lower: Seq<char>)
    requires
        !shows_no_running_sign(lower),
    ensures
        gateway_state(lower) == "running"@,
{
}

/// A report that says the gateway is stopped (`not running`, `inactive`,
/// `dead`, `stopped`, `exited` or `failed`), with no sign of it running and
/// none of a missing service, gives the state `stopped`.
pub proof fn law_stop_signs_mean_stopped(lower: Seq<char>)
    requires
        includes(lower, "not running"@) || includes(lower, "inactive"@) || includes(lower, "dead"@)
            || includes(lower, "stopped"@) || includes(lower, "exited"@) || includes(
            lower,
            "failed"@,
        ),
        shows_no_running_sign(lower),
        shows_no_missing_sign(lower),
    ensures
        gateway_state(lower) == "stopped"@,
{
}

/// A missing service, with no sign of the gateway running and no sign of it
/// being loaded, gives `not_installed`; with a loaded sign it gives `stopped`.
pub proof fn law_missing_service_means_not_installed(lower: Seq<char>)
    requires
        !shows_no_missing_sign(lower),
        shows_no_running_sign(lower),
    ensures
        !includes(lower, "loaded: loaded"@) && !(includes(lower, "(loaded)"@) && !includes(
            lower,
            "(not loaded)"@,
        )) ==> gateway_state(lower) == "not_installed"@,
        includes(lower, "loaded: loaded"@) ==> gateway_state(lower) == "stopped"@,
{
}

/// A report with no sign of any kind gives `unknown`.
pub proof fn law_no_sign_means_unknown(lower: Seq<char>)
    requires
        shows_no_running_sign(lower),
        shows_no_missing_sign(lower),
        !includes(lower, "not running"@),
        !includes(lower, "inactive"@),
        !includes(lower, "dead"@),
        !includes(lower, "stopped"@),
        !includes(lower, "exited"@),
        !includes(lower, "failed"@),
    ensures
        gateway_state(lower) == "unknown"@,
{
}

/// The state is always one of `running`, `not_installed`, `stopped`, `unknown`.
pub proof fn law_state_is_known(lower: Seq<char>)
    ensures
        gateway_state(lower) == "running"@ || gateway_state(lower) == "not_installed"@
            || gateway_state(lower) == "stopped"@ || gateway_state(lower) == "unknown"@,
{
}


/// The text after the scheme of an address: the piece between the first
/// `"://"` and the next one, or the whole text when it holds none
/// (`split("://").nth(1).unwrap_or(text)`).
pub open spec fn after_scheme(t: Seq<char>) -> Seq<char> {
    let i = first_occ(t, "://"@);
    if i < 0 {
        t
    } else {
        let rest = t.subrange(i + "://"@.len(), t.len() as int);
        let j = first_occ(rest, "://"@);
        if j < 0 {
            rest
        } else {
            rest.subrange(0, j)
        }
    }
}

/// The port written in an address: after `]:` for a bracketed IPv6 host,
/// otherwise after the last `':'` of the host part.
pub open spec fn url_port(url: Seq<char>) -> Option<nat> {
    let t = trim(url);
    let hp = before_char(after_scheme(t), '/');
    if t.len() == 0 || hp.len() == 0 {
        None
    } else if hp[0] == '[' {
        let end = first_occ(hp, seq![']']);
        if end < 0 {
            None
        } else {
            let rest = hp.subrange(end + 1, hp.len() as int);
            if rest.len() > 0 && rest[0] == ':' {
                parse_unsigned(rest.drop_first(), 65535)
            } else {
                None
            }
        }
    } else {
        let i = last_char(hp, ':');
        if i < 0 {
            None
        } else {
            parse_unsigned(hp.subrange(i + 1, hp.len() as int), 65535)
        }
    }
}

/// The port of a dashboard address such as `http://127.0.0.1:18789/`.
pub fn windows_extract_port_from_url(url: &str) -> (r: Option<u16>)
    ensures
        match r {
            Some(p) => url_port(url@) == Some(p as nat),
            None => url_port(url@) is None,
        },
{
    let v = chars_of(url);
    let (a, b) = trim_range(&v, 0, v.len());
    assert(v@.subrange(0, v@.len() as int) =~= v@);
    let t = sub_vec(&v, a, b);
    if t.len() == 0 {
        return None;
    }
    let sep = chars_of("://");
    let after = match find(&t, &sep) {
        None => sub_vec(&t, 0, t.len()),
        Some(i) => {
            proof {
                lemma_has_first(t@, sep@);
            }
            let rest = sub_vec(&t, i + sep.len(), t.len());
            match find(&rest, &sep) {
                None => rest,
                Some(j) => {
                    proof {
                        lemma_has_first(rest@, sep@);
                    }
                    sub_vec(&rest, 0, j)
                },
            }
        },
    };
    assert(t@.subrange(0, t@.len() as int) =~= t@);
    assert(after@ == after_scheme(t@));
    let hp = crate::text::before_char_vec(&after, '/');
    if hp.len() == 0 {
        return None;
    }
    let parsed = if hp[0] == '[' {
        let close = vec![']'];
        assert(close@ =~= seq![']']);
        match find(&hp, &close) {
            None => None,
            Some(end) => {
                proof {
                    lemma_has_first(hp@, close@);
                }
                let rest = sub_vec(&hp, end + 1, hp.len());
                if rest.len() > 0 && rest[0] == ':' {
                    let digits = sub_vec(&rest, 1, rest.len());
                    assert(digits@ =~= rest@.drop_first());
                    parse_uint(&digits, 65535)
                } else {
                    None
                }
            },
        }
    } else {
        match rfind_char(&hp, ':') {
            None => None,
            Some(i) => {
                let digits = sub_vec(&hp, i + 1, hp.len());
                parse_uint(&digits, 65535)
            },
        }
    };
    match parsed {
        Some(p) => Some(p as u16),
        None => None,
    }
}

/// The first word that starts with `http://` or `https://`.
pub open spec fn first_link(ws: Seq<Seq<char>>) -> Option<Seq<char>>
    decreases ws.len(),
{
    if ws.len() == 0 {
        None
    } else if starts(ws[0], "http://"@) || starts(ws[0], "https://"@) {
        Some(ws[0])
    } else {
        first_link(ws.drop_first())
    }
}

/// Why the dashboard cannot be opened when `openclaw dashboard` names no link.
pub open spec fn no_dashboard_message() -> Seq<char> {
    "未获取到控制台链接，请先启动网关或完成配置。"@
}

/// The dashboard link printed by `openclaw dashboard --no-open`: its first
/// `http(s)://` word, or an error when it prints none.
pub fn find_dashboard_link(output: &str) -> (r: Result<String, String>)
    ensures
        match first_link(words(output@)) {
            Some(u) => r matches Ok(x) && x@ == u,
            None => r matches Err(e) && e@ == no_dashboard_message(),
        },
{
    let v = chars_of(output);
    let ws = split_words(&v);
    let ghost all = vviews(ws@);
    let mut k: usize = 0;
    assert(all.skip(0) =~= all);
    while k < ws.len()
        invariant
            k <= ws.len(),
            all == vviews(ws@),
            all == words(output@),
            first_link(all) == first_link(all.skip(k as int)),
        decreases ws.len() - k,
    {
        let w = &ws[k];
        assert(all.skip(k as int)[0] == w@);
        assert(all.skip(k as int).drop_first() =~= all.skip(k + 1));
        if starts_with(w, "http://") || starts_with(w, "https://") {
            return Ok(string_from(w));
        }
        k += 1;
    }
    Err(owned("未获取到控制台链接，请先启动网关或完成配置。"))
}

/// The address that may be opened in the browser: trimmed, and only
/// `http://` or `https://`.
pub fn validate_external_url(url: &str) -> (r: Result<String, String>)
    ensures
        (starts(trim(url@), "http://"@) || starts(trim(url@), "https://"@)) ==> (r matches Ok(
            x,
        ) && x@ == trim(url@)),
        !(starts(trim(url@), "http://"@) || starts(trim(url@), "https://"@)) ==> (r matches Err(
            e,
        ) && e@ == "只允许打开 http/https 链接"@),
{
    let v = chars_of(url);
    let (a, b) = trim_range(&v, 0, v.len());
    assert(v@.subrange(0, v@.len() as int) =~= v@);
    let t = sub_vec(&v, a, b);
    if !(starts_with(&t, "http://") || starts_with(&t, "https://")) {
        return Err(owned("只允许打开 http/https 链接"));
    }
    Ok(string_from(&t))
}

/// Process ids listed one per line: each trimmed line that reads as a
/// positive `u32`, first occurrences only, in order.
pub open spec fn pid_scan(ls: Seq<Seq<char>>) -> Seq<u32>
    decreases ls.len(),
{
    if ls.len() == 0 {
        Seq::<u32>::empty()
    } else {
        let r = pid_scan(ls.drop_last());
        match parse_unsigned(trim(ls.last()), 0xffff_ffff) {
            Some(p) => if p > 0 && !r.contains(p as u32) {
                r.push(p as u32)
            } else {
                r
            },
            None => r,
        }
    }
}

/// The listening process ids printed by the port query script.
pub fn parse_listening_pids(output: &str) -> (r: Vec<u32>)
    ensures
        r@ == pid_scan(text_lines(output@)),
{
    let v = chars_of(output);
    let ls = text_line_pieces(&v);
    let ghost all = vviews(ls@);
    let mut out: Vec<u32> = Vec::new();
    let mut k: usize = 0;
    assert(all.take(0) =~= Seq::<Seq<char>>::empty());
    while k < ls.len()
        invariant
            k <= ls.len(),
            all == vviews(ls@),
            out@ == pid_scan(all.take(k as int)),
        decreases ls.len() - k,
    {
        let line = &ls[k];
        assert(all[k as int] == line@);
        assert(all.take(k + 1).drop_last() =~= all.take(k as int));
        let (a, b) = trim_range(line, 0, line.len());
        assert(line@.subrange(0, line@.len() as int) =~= line@);
        let t = sub_vec(line, a, b);
        match parse_uint(&t, 0xffff_ffff) {
            Some(p) => {
                let pid = p as u32;
                if pid > 0 && !vec_has_u32(&out, pid) {
                    out.push(pid);
                }
            },
            None => {},
        }
        k += 1;
    }
    assert(all.take(ls.len() as int) =~= all);
    out
}

/// Whether `x` is among `v`.
pub fn vec_has_u32(v: &Vec<u32>, x: u32) -> (b: bool)
    ensures
        b == v@.contains(x),
{
    let mut i: usize = 0;
    while i < v.len()
        invariant
            i <= v.len(),
            forall|j: int| 0 <= j < i ==> v@[j] != x,
        decreases v.len() - i,
    {
        if v[i] == x {
            return true;
        }
        i += 1;
    }
    false
}

/// The PowerShell script that prints the ids of processes listening on `port`.
pub open spec fn listening_pids_script(port: nat) -> Seq<char> {
    "$ErrorActionPreference='SilentlyContinue'\n$port="@ + decimal(port)
        + "\n$pids=@()\nif (Get-Command Get-NetTCPConnection -ErrorAction SilentlyContinue) {\n  $pids = Get-NetTCPConnection -LocalPort $port -ErrorAction SilentlyContinue |\n    Where-Object { $_.State -eq 'Listen' -or $_.State -eq 2 } |\n    Select-Object -ExpandProperty OwningProcess -Unique\n}\nif (-not $pids -or $pids.Count -eq 0) {\n  $lines = netstat -ano -p tcp | Select-String -Pattern (':'+$port+'\\s+.*LISTENING\\s+(\\d+)$')\n  $pids = $lines | ForEach-Object {\n    $m = [regex]::Match($_.Line, '\\s+(\\d+)\\s*$')\n    if ($m.Success) { [int]$m.Groups[1].Value }\n  } | Select-Object -Unique\n}\n$pids | ForEach-Object { [Console]::Out.WriteLine($_) }\n"@
}

/// Builds the PowerShell script that lists the processes listening on `port`.
pub fn listening_pids_script_for(port: u16) -> (r: String)
    ensures
        r@ == listening_pids_script(port as nat),
{
    let mut s = owned("$ErrorActionPreference='SilentlyContinue'\n$port=");
    let p = nat_text(port as u64);
    s.append(p.as_str());
    s.append(
        "\n$pids=@()\nif (Get-Command Get-NetTCPConnection -ErrorAction SilentlyContinue) {\n  $pids = Get-NetTCPConnection -LocalPort $port -ErrorAction SilentlyContinue |\n    Where-Object { $_.State -eq 'Listen' -or $_.State -eq 2 } |\n    Select-Object -ExpandProperty OwningProcess -Unique\n}\nif (-not $pids -or $pids.Count -eq 0) {\n  $lines = netstat -ano -p tcp | Select-String -Pattern (':'+$port+'\\s+.*LISTENING\\s+(\\d+)$')\n  $pids = $lines | ForEach-Object {\n    $m = [regex]::Match($_.Line, '\\s+(\\d+)\\s*$')\n    if ($m.Success) { [int]$m.Groups[1].Value }\n  } | Select-Object -Unique\n}\n$pids | ForEach-Object { [Console]::Out.WriteLine($_) }\n",
    );
    s
}

/// The PowerShell command that prints the start time of process `pid`.
pub open spec fn start_time_script(pid: nat) -> Seq<char> {
    "$p=Get-Process -Id "@ + decimal(pid)
        + " -ErrorAction SilentlyContinue; if ($p) { [Console]::Out.Write($p.StartTime.ToUniversalTime().ToString('o')) }"@
}

/// Builds the PowerShell command that prints the start time of process `pid`.
pub fn start_time_script_for(pid: u32) -> (r: String)
    ensures
        r@ == start_time_script(pid as nat),
{
    let mut s = owned("$p=Get-Process -Id ");
    let p = nat_text(pid as u64);
    s.append(p.as_str());
    s.append(
        " -ErrorAction SilentlyContinue; if ($p) { [Console]::Out.Write($p.StartTime.ToUniversalTime().ToString('o')) }",
    );
    s
}

/// A process start time as printed: the trimmed output, when not empty.
pub fn start_time_from_output(output: &str) -> (r: Option<String>)
    ensures
        trim(output@).len() == 0 ==> r is None,
        trim(output@).len() > 0 ==> (r matches Some(t) && t@ == trim(output@)),
{
    let v = chars_of(output);
    let (a, b) = trim_range(&v, 0, v.len());
    assert(v@.subrange(0, v@.len() as int) =~= v@);
    if a == b {
        None
    } else {
        Some(string_of(&v, a, b))
    }
}

/// The recorded gateway process, when it still runs: the pid counts only
/// while the process with that pid has the recorded start time (otherwise
/// the pid was reused by another process).
pub fn tracked_gateway_pid(pid: u32, recorded_start: &str, actual_start: &Option<String>) -> (r:
    Option<u32>)
    ensures
        r == (if opt_view(*actual_start) == Some(recorded_start@) {
            Some(pid)
        } else {
            None::<u32>
        }),
{
    match actual_start {
        Some(actual) => {
            if crate::text::str_eq(actual.as_str(), recorded_start) {
                Some(pid)
            } else {
                None
            }
        },
        None => None,
    }
}

/// Output and error output of a command, joined by a line break.
pub fn combine_output(stdout: &str, stderr: &str) -> (r: String)
    ensures
        r@ == stdout@ + "\n"@ + stderr@,
{
    let mut s = owned(stdout);
    s.append("\n");
    s.append(stderr);
    s
}

/// The status after noticing a gateway process started by this helper: a
/// report that is not `running` becomes `running`, with a note appended.
pub fn with_tracked_gateway_pid(status: GatewayStatus, pid: u32) -> (r: GatewayStatus)
    ensures
        status.state@ == "running"@ ==> r.state@ == status.state@ && r.raw@ == status.raw@,
        status.state@ != "running"@ ==> r.state@ == "running"@ && r.raw@ == (if status.raw@.len()
            == 0 {
            Seq::<char>::empty()
        } else {
            status.raw@ + "\n"@
        }) + "[helper] tracked direct gateway pid="@ + decimal(pid as nat),
        opt_view(r.dashboard_url) == opt_view(status.dashboard_url),
{
    if crate::text::str_eq(status.state.as_str(), "running") {
        return status;
    }
    let mut raw = status.raw;
    if !raw.as_str().is_empty() {
        raw.append("\n");
    }
    raw.append("[helper] tracked direct gateway pid=");
    let p = nat_text(pid as u64);
    raw.append(p.as_str());
    GatewayStatus { state: owned("running"), dashboard_url: status.dashboard_url, raw }
}

} // verus!
