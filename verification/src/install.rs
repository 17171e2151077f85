//! Decisions of the installer: which package, registry and GitHub mirror to
//! use, whether Node.js needs fixing, how to retry, how `openclaw onboard` is
//! invoked, and how secrets are hidden in the log.
use vstd::prelude::*;
use crate::platform::Platform;
use crate::task::{opt_view, owned, res_view};
use crate::text::{
    before_char, before_char_vec, char_is_space, chars_of, concat3, contains, contains_char,
    contains_space, decimal, ends_with, has_char, has_space, includes, int_text, int_text_exec,
    is_ascii_alnum, join, join_texts, lines, lower, lower_vec, parse_uint, parse_unsigned,
    push_owned, push_text, same_text, split_lines, starts, starts_with, string_from,
    strip_leading, strip_leading_index, sub_vec, trim, trim_range, utf8_len, utf8_len_exceeds,
    views, ends, str_eq,
};

verus! {

broadcast use vstd::string::group_string_axioms;

/// A character allowed in an npm package name here.
pub open spec fn package_char(c: char) -> bool {
    is_ascii_alnum(c) || c == '@' || c == '/' || c == '.' || c == '_' || c == '-'
}

/// The checked npm package name: trimmed, not empty, at most 214 bytes, no
/// whitespace, only letters, digits and `@ / . _ -`, no `..` or `//`.
pub open spec fn package_name_check(value: Seq<char>) -> Result<Seq<char>, Seq<char>> {
    let name = trim(value);
    if name.len() == 0 {
        Err("openclaw 包名不能为空"@)
    } else if utf8_len(name) > 214 {
        Err("openclaw 包名太长"@)
    } else if has_space(name) {
        Err("openclaw 包名不能包含空格"@)
    } else if !(forall|i: int| 0 <= i < name.len() ==> package_char(name[i])) || includes(
        name,
        ".."@,
    ) || includes(name, "//"@) || has_char(name, '\\') || has_char(name, '\'') || has_char(
        name,
        '"',
    ) || has_char(name, '`') {
        Err("openclaw 包名不合法"@)
    } else {
        Ok(name)
    }
}

/// Checks the npm package to install.
pub fn validate_npm_package_name(value: &str) -> (r: Result<String, String>)
    ensures
        res_view(r) == package_name_check(value@),
{
    let v = chars_of(value);
    let (a, b) = trim_range(&v, 0, v.len());
    assert(v@.subrange(0, v@.len() as int) =~= v@);
    let name = sub_vec(&v, a, b);
    if name.len() == 0 {
        return Err(owned("openclaw 包名不能为空"));
    }
    if utf8_len_exceeds(&name, 214) {
        return Err(owned("openclaw 包名太长"));
    }
    if contains_space(&name) {
        return Err(owned("openclaw 包名不能包含空格"));
    }
    let mut ok = true;
    let mut i: usize = 0;
    while i < name.len()
        invariant
            i <= name.len(),
            ok == (forall|j: int| 0 <= j < i ==> package_char(name@[j])),
        decreases name.len() - i,
    {
        let c = name[i];
        let cv = c as u32;
        let good = (48 <= cv && cv <= 57) || (65 <= cv && cv <= 90) || (97 <= cv && cv <= 122)
            || c == '@' || c == '/' || c == '.' || c == '_' || c == '-';
        ok = ok && good;
        i += 1;
    }
    if !ok || contains(&name, "..") || contains(&name, "//") || contains_char(&name, '\\')
        || contains_char(&name, '\'') || contains_char(&name, '"') || contains_char(&name, '`') {
        return Err(owned("openclaw 包名不合法"));
    }
    Ok(string_from(&name))
}

/// The checked GitHub mirror prefix: trimmed, not empty, no whitespace or
/// quotes, `http://` or `https://`, always ending in `'/'`.
pub open spec fn mirror_check(value: Seq<char>) -> Result<Seq<char>, Seq<char>> {
    let t = trim(value);
    if t.len() == 0 {
        Err("GitHub mirror 不能为空"@)
    } else if has_space(t) {
        Err("GitHub mirror 不能包含空格"@)
    } else if has_char(t, '\'') || has_char(t, '"') || has_char(t, '`') {
        Err("GitHub mirror 不合法"@)
    } else if !(starts(t, "https://"@) || starts(t, "http://"@)) {
        Err("GitHub mirror 必须以 http:// 或 https:// 开头"@)
    } else if t.last() == '/' {
        Ok(t)
    } else {
        Ok(t.push('/'))
    }
}

/// Checks a GitHub mirror prefix.
pub fn validate_github_mirror(value: &str) -> (r: Result<String, String>)
    ensures
        res_view(r) == mirror_check(value@),
{
    let v = chars_of(value);
    let (a, b) = trim_range(&v, 0, v.len());
    assert(v@.subrange(0, v@.len() as int) =~= v@);
    let t = sub_vec(&v, a, b);
    if t.len() == 0 {
        return Err(owned("GitHub mirror 不能为空"));
    }
    if contains_space(&t) {
        return Err(owned("GitHub mirror 不能包含空格"));
    }
    if contains_char(&t, '\'') || contains_char(&t, '"') || contains_char(&t, '`') {
        return Err(owned("GitHub mirror 不合法"));
    }
    if !(starts_with(&t, "https://") || starts_with(&t, "http://")) {
        return Err(owned("GitHub mirror 必须以 http:// 或 https:// 开头"));
    }
    let mut out = string_from(&t);
    if t[t.len() - 1] != '/' {
        crate::text::push_char(&mut out, '/');
    }
    Ok(out)
}

/// A setting that switches the GitHub mirror off.
pub open spec fn is_disable_word(value: Seq<char>) -> bool {
    let l = lower(trim(value));
    l == "off"@ || l == "false"@ || l == "none"@ || l == "direct"@ || l == "disable"@ || l
        == "disabled"@ || l == "0"@
}

/// Whether a setting switches the GitHub mirror off.
pub fn is_disable_keyword(value: &str) -> (b: bool)
    ensures
        b == is_disable_word(value@),
{
    let v = chars_of(value);
    let (a, c) = trim_range(&v, 0, v.len());
    assert(v@.subrange(0, v@.len() as int) =~= v@);
    let t = sub_vec(&v, a, c);
    let l = lower_vec(&t);
    same_text(&l, "off") || same_text(&l, "false") || same_text(&l, "none") || same_text(
        &l,
        "direct",
    ) || same_text(&l, "disable") || same_text(&l, "disabled") || same_text(&l, "0")
}

/// npm output that shows GitHub could not be reached.
pub open spec fn github_unreachable(output: Seq<char>) -> bool {
    let l = lower(output);
    includes(l, "github.com"@) && (includes(l, "failed to connect to github.com"@) || includes(
        l,
        "could not connect to server"@,
    ) || includes(l, "couldn't connect to server"@) || includes(
        l,
        "could not resolve host: github.com"@,
    ) || includes(l, "unable to access 'https://github.com"@) || includes(
        l,
        "connection timed out"@,
    ) || includes(l, "operation timed out"@) || includes(l, "timed out"@))
}

/// Whether npm output shows that GitHub could not be reached.
pub fn output_looks_like_github_connectivity_issue(output: &str) -> (b: bool)
    ensures
        b == github_unreachable(output@),
{
    let v = chars_of(output);
    let l = lower_vec(&v);
    if !contains(&l, "github.com") {
        return false;
    }
    contains(&l, "failed to connect to github.com") || contains(&l, "could not connect to server")
        || contains(&l, "couldn't connect to server") || contains(
        &l,
        "could not resolve host: github.com",
    ) || contains(&l, "unable to access 'https://github.com") || contains(
        &l,
        "connection timed out",
    ) || contains(&l, "operation timed out") || contains(&l, "timed out")
}

/// The major version in `node -v` output (`v22.3.0` gives 22): the first
/// non-empty line, leading `'v'`s removed, up to the first `'.'`.
pub open spec fn node_major(output: Seq<char>) -> Option<nat> {
    let ls = lines(output);
    if ls.len() == 0 {
        None
    } else {
        parse_unsigned(before_char(strip_leading(ls[0], 'v'), '.'), 0xffff_ffff)
    }
}

/// Reads the major version from `node -v` output.
pub fn parse_node_major(output: &str) -> (r: Option<u32>)
    ensures
        match r {
            Some(m) => node_major(output@) == Some(m as nat),
            None => node_major(output@) is None,
        },
{
    let ls = split_lines(output);
    if ls.len() == 0 {
        return None;
    }
    assert(views(ls@)[0] == ls@[0]@);
    let line = chars_of(ls[0].as_str());
    let i = strip_leading_index(&line, 'v');
    let rest = sub_vec(&line, i, line.len());
    let major = before_char_vec(&rest, '.');
    match parse_uint(&major, 0xffff_ffff) {
        Some(m) => Some(m as u32),
        None => None,
    }
}

/// The lowest Node.js major version OpenClaw runs on.
pub const MIN_NODE_MAJOR: u32 = 22;

/// Node.js is usable: its major version is known and high enough, and npm runs.
pub open spec fn node_usable(major: Option<u32>, npm_ok: bool) -> bool {
    npm_ok && match major {
        Some(m) => m >= MIN_NODE_MAJOR,
        None => false,
    }
}

/// Whether the installed Node.js and npm can be used as they are.
pub fn node_ready(major: Option<u32>, npm_ok: bool) -> (b: bool)
    ensures
        b == node_usable(major, npm_ok),
{
    npm_ok && match major {
        Some(m) => m >= MIN_NODE_MAJOR,
        None => false,
    }
}

/// The final Node.js check after any repair: `node -v` must run, print a
/// version, and that version must be recent enough.
pub open spec fn node_final_check(output: Option<Seq<char>>) -> Result<nat, Seq<char>> {
    match output {
        None => Err("安装后仍未检测到 node"@),
        Some(out) => match node_major(out) {
            None => Err("无法解析 node 版本"@),
            Some(m) => if m < MIN_NODE_MAJOR {
                Err("Node.js 版本过低："@ + out + "（需要 >= 22）"@)
            } else {
                Ok(m)
            },
        },
    }
}

/// Checks Node.js once more after the repair steps, given the output of
/// `node -v` (`None` when it did not run).
pub fn check_node_version(output: &Option<String>) -> (r: Result<u32, String>)
    ensures
        match (r, node_final_check(opt_view(*output))) {
            (Ok(m), Ok(x)) => m as nat == x,
            (Err(e), Err(x)) => e@ == x,
            _ => false,
        },
{
    match output {
        None => Err(owned("安装后仍未检测到 node")),
        Some(out) => match parse_node_major(out.as_str()) {
            None => Err(owned("无法解析 node 版本")),
            Some(m) => {
                if m < MIN_NODE_MAJOR {
                    Err(concat3("Node.js 版本过低：", out.as_str(), "（需要 >= 22）"))
                } else {
                    Ok(m)
                }
            },
        },
    }
}

/// Options the user gives the installer.
pub struct InstallOptions {
    pub openclaw_package: Option<String>,
    pub npm_registry: Option<String>,
    pub github_mirror: Option<String>,
    pub custom_base_url: Option<String>,
    pub custom_model_id: Option<String>,
    pub custom_api_key: Option<String>,
}

/// A setting, trimmed, when it is there and not blank.
pub open spec fn given(o: Option<Seq<char>>) -> Option<Seq<char>> {
    match o {
        Some(v) => if trim(v).len() > 0 {
            Some(trim(v))
        } else {
            None
        },
        None => None,
    }
}

/// A setting trimmed, when it is there and not blank.
pub fn given_setting(o: &Option<String>) -> (r: Option<String>)
    ensures
        opt_view(r) == given(opt_view(*o)),
{
    match o {
        Some(v) => {
            let c = chars_of(v.as_str());
            let (a, b) = trim_range(&c, 0, c.len());
            assert(c@.subrange(0, c@.len() as int) =~= c@);
            if a < b {
                Some(crate::text::string_of(&c, a, b))
            } else {
                None
            }
        },
        None => None,
    }
}

/// The registry used when none is given.
pub open spec fn default_registry() -> Seq<char> {
    "https://registry.npmmirror.com"@
}

/// The GitHub mirror used on Windows, and after a failed GitHub download.
pub open spec fn default_mirror() -> Seq<char> {
    "https://gitclone.com/github.com/"@
}

/// What the installer will do.
pub struct InstallPlan {
    pub openclaw_package: String,
    pub npm_registry: String,
    pub github_mirror: Option<String>,
    pub github_mirror_disabled: bool,
    pub needs_onboard: bool,
    pub total_steps: u32,
}

/// Abstract view of an `InstallPlan`.
pub struct PlanView {
    pub openclaw_package: Seq<char>,
    pub npm_registry: Seq<char>,
    pub github_mirror: Option<Seq<char>>,
    pub github_mirror_disabled: bool,
    pub needs_onboard: bool,
    pub total_steps: u32,
}

impl View for InstallPlan {
    type V = PlanView;

    open spec fn view(&self) -> PlanView {
        PlanView {
            openclaw_package: self.openclaw_package@,
            npm_registry: self.npm_registry@,
            github_mirror: opt_view(self.github_mirror),
            github_mirror_disabled: self.github_mirror_disabled,
            needs_onboard: self.needs_onboard,
            total_steps: self.total_steps,
        }
    }
}

/// The installer's plan for the given options, or the first error among them
/// (the package name is checked before the mirror).
pub open spec fn install_plan(
    package: Option<Seq<char>>,
    registry: Option<Seq<char>>,
    mirror: Option<Seq<char>>,
    api_key: Option<Seq<char>>,
    platform: Platform,
) -> Result<PlanView, Seq<char>> {
    let source = match package {
        Some(p) => p,
        None => "openclaw"@,
    };
    match package_name_check(source) {
        Err(e) => Err(e),
        Ok(pkg) => {
            let reg = match given(registry) {
                Some(r) => r,
                None => default_registry(),
            };
            let user = given(mirror);
            let disabled = match user {
                Some(v) => is_disable_word(v),
                None => false,
            };
            let chosen: Result<Option<Seq<char>>, Seq<char>> = match user {
                Some(v) => if is_disable_word(v) {
                    Ok(None)
                } else {
                    match mirror_check(v) {
                        Ok(m) => Ok(Some(m)),
                        Err(e) => Err(e),
                    }
                },
                None => Ok(None),
            };
            match chosen {
                Err(e) => Err(e),
                Ok(m) => {
                    let final_mirror = if platform == Platform::Windows && m is None && !disabled {
                        Some(default_mirror())
                    } else {
                        m
                    };
                    let needs = match api_key {
                        Some(k) => trim(k).len() > 0,
                        None => false,
                    };
                    Ok(
                        PlanView {
                            openclaw_package: pkg,
                            npm_registry: reg,
                            github_mirror: final_mirror,
                            github_mirror_disabled: disabled,
                            needs_onboard: needs,
                            total_steps: if needs {
                                7
                            } else {
                                5
                            },
                        },
                    )
                },
            }
        },
    }
}

/// Works out the installer's plan from the user's options.
pub fn plan_install(options: &InstallOptions, platform: Platform) -> (r: Result<InstallPlan, String>)
    ensures
        match (
            r,
            install_plan(
                opt_view(options.openclaw_package),
                opt_view(options.npm_registry),
                opt_view(options.github_mirror),
                opt_view(options.custom_api_key),
                platform,
            ),
        ) {
            (Ok(p), Ok(x)) => p@ == x,
            (Err(e), Err(x)) => e@ == x,
            _ => false,
        },
{
    let package = match &options.openclaw_package {
        Some(p) => validate_npm_package_name(p.as_str()),
        None => validate_npm_package_name("openclaw"),
    };
    let openclaw_package = match package {
        Ok(p) => p,
        Err(e) => {
            return Err(e);
        },
    };
    let npm_registry = match given_setting(&options.npm_registry) {
        Some(r) => r,
        None => owned("https://registry.npmmirror.com"),
    };
    let user = given_setting(&options.github_mirror);
    let disabled = match &user {
        Some(v) => is_disable_keyword(v.as_str()),
        None => false,
    };
    let mut github_mirror = match &user {
        Some(v) => {
            if is_disable_keyword(v.as_str()) {
                None
            } else {
                match validate_github_mirror(v.as_str()) {
                    Ok(m) => Some(m),
                    Err(e) => {
                        return Err(e);
                    },
                }
            }
        },
        None => None,
    };
    if platform == Platform::Windows && github_mirror.is_none() && !disabled {
        github_mirror = Some(owned("https://gitclone.com/github.com/"));
    }
    let needs_onboard = match &options.custom_api_key {
        Some(k) => {
            let c = chars_of(k.as_str());
            let (a, b) = trim_range(&c, 0, c.len());
            assert(c@.subrange(0, c@.len() as int) =~= c@);
            a < b
        },
        None => false,
    };
    let total_steps: u32 = if needs_onboard {
        7
    } else {
        5
    };
    Ok(
        InstallPlan {
            openclaw_package,
            npm_registry,
            github_mirror,
            github_mirror_disabled: disabled,
            needs_onboard,
            total_steps,
        },
    )
}

/// The arguments of `npm install -g <package> --registry <registry>`.
pub open spec fn npm_install_args(package: Seq<char>, registry: Seq<char>) -> Seq<Seq<char>> {
    seq!["install"@, "-g"@, package, "--registry"@, registry]
}

/// Builds the arguments of the global npm install.
pub fn npm_install_arguments(package: &str, registry: &str) -> (r: Vec<String>)
    ensures
        views(r@) == npm_install_args(package@, registry@),
{
    let mut v: Vec<String> = Vec::new();
    push_text(&mut v, "install");
    push_text(&mut v, "-g");
    push_text(&mut v, package);
    push_text(&mut v, "--registry");
    push_text(&mut v, registry);
    assert(views(v@) =~= npm_install_args(package@, registry@));
    v
}

/// A failed npm install is retried once through the default mirror when the
/// failure came from GitHub and no mirror was chosen or switched off.
pub fn should_retry_with_default_mirror(output: &str, mirror: &Option<String>, disabled: bool) -> (b:
    bool)
    ensures
        b == (github_unreachable(output@) && mirror is None && !disabled),
{
    output_looks_like_github_connectivity_issue(output) && mirror.is_none() && !disabled
}

/// Git settings that send GitHub URLs through the mirror, or, without one,
/// turn GitHub SSH URLs into HTTPS ones.
pub open spec fn git_rewrite_env(mirror: Option<Seq<char>>) -> Seq<(Seq<char>, Seq<char>)> {
    match mirror {
        Some(m) => {
            let key = "url."@ + m + ".insteadOf"@;
            seq![
                ("GIT_CONFIG_COUNT"@, "3"@),
                ("GIT_CONFIG_KEY_0"@, key),
                ("GIT_CONFIG_VALUE_0"@, "ssh://git@github.com/"@),
                ("GIT_CONFIG_KEY_1"@, key),
                ("GIT_CONFIG_VALUE_1"@, "git@github.com:"@),
                ("GIT_CONFIG_KEY_2"@, key),
                ("GIT_CONFIG_VALUE_2"@, "https://github.com/"@),
            ]
        },
        None => seq![
            ("GIT_CONFIG_COUNT"@, "2"@),
            ("GIT_CONFIG_KEY_0"@, "url.https://github.com/.insteadOf"@),
            ("GIT_CONFIG_VALUE_0"@, "ssh://git@github.com/"@),
            ("GIT_CONFIG_KEY_1"@, "url.https://github.com/.insteadOf"@),
            ("GIT_CONFIG_VALUE_1"@, "git@github.com:"@),
        ],
    }
}

/// The log line that announces the Git rewrite.
pub open spec fn git_rewrite_message(mirror: Option<Seq<char>>) -> Seq<char> {
    match mirror {
        Some(m) => "已启用 GitHub 镜像："@ + m + "（用于加速/绕过 GitHub 访问问题；仅本次安装生效）"@,
        None => "已启用 GitHub SSH -> HTTPS 重写（避免 git@github.com 权限问题；仅本次安装生效）"@,
    }
}

/// Abstract view of environment settings.
pub open spec fn pair_views(v: Seq<(String, String)>) -> Seq<(Seq<char>, Seq<char>)> {
    v.map_values(|p: (String, String)| (p.0@, p.1@))
}

/// Appends one environment setting.
fn push_pair(v: &mut Vec<(String, String)>, k: &str, val: &str)
    ensures
        pair_views(final(v)@) == pair_views(old(v)@).push((k@, val@)),
{
    let ghost before = pair_views(v@);
    v.push((owned(k), owned(val)));
    assert(pair_views(v@) =~= before.push((k@, val@)));
}

/// The Git environment of the npm install, with the line that announces it.
pub fn github_git_rewrite(mirror: &Option<String>) -> (r: (String, Vec<(String, String)>))
    ensures
        r.0@ == git_rewrite_message(opt_view(*mirror)),
        pair_views(r.1@) == git_rewrite_env(opt_view(*mirror)),
{
    let mut env: Vec<(String, String)> = Vec::new();
    match mirror {
        Some(m) => {
            let key = concat3("url.", m.as_str(), ".insteadOf");
            push_pair(&mut env, "GIT_CONFIG_COUNT", "3");
            push_pair(&mut env, "GIT_CONFIG_KEY_0", key.as_str());
            push_pair(&mut env, "GIT_CONFIG_VALUE_0", "ssh://git@github.com/");
            push_pair(&mut env, "GIT_CONFIG_KEY_1", key.as_str());
            push_pair(&mut env, "GIT_CONFIG_VALUE_1", "git@github.com:");
            push_pair(&mut env, "GIT_CONFIG_KEY_2", key.as_str());
            push_pair(&mut env, "GIT_CONFIG_VALUE_2", "https://github.com/");
            assert(pair_views(env@) =~= git_rewrite_env(opt_view(*mirror)));
            let msg = concat3(
                "已启用 GitHub 镜像：",
                m.as_str(),
                "（用于加速/绕过 GitHub 访问问题；仅本次安装生效）",
            );
            (msg, env)
        },
        None => {
            push_pair(&mut env, "GIT_CONFIG_COUNT", "2");
            push_pair(&mut env, "GIT_CONFIG_KEY_0", "url.https://github.com/.insteadOf");
            push_pair(&mut env, "GIT_CONFIG_VALUE_0", "ssh://git@github.com/");
            push_pair(&mut env, "GIT_CONFIG_KEY_1", "url.https://github.com/.insteadOf");
            push_pair(&mut env, "GIT_CONFIG_VALUE_1", "git@github.com:");
            assert(pair_views(env@) =~= git_rewrite_env(opt_view(*mirror)));
            let msg = owned(
                "已启用 GitHub SSH -> HTTPS 重写（避免 git@github.com 权限问题；仅本次安装生效）",
            );
            (msg, env)
        },
    }
}

/// The provider settings for `openclaw onboard`: base URL and model id with
/// their defaults, and the API key, which must not be blank.
pub open spec fn onboard_settings(
    base_url: Option<Seq<char>>,
    model_id: Option<Seq<char>>,
    api_key: Option<Seq<char>>,
) -> Result<(Seq<char>, Seq<char>, Seq<char>), Seq<char>> {
    let base = match given(base_url) {
        Some(b) => b,
        None => "https://sub.yeelovo.com/v1"@,
    };
    let model = match given(model_id) {
        Some(m) => m,
        None => "gpt-5.4"@,
    };
    let key = match api_key {
        Some(k) => trim(k),
        None => Seq::<char>::empty(),
    };
    if key.len() == 0 {
        Err("缺少 CUSTOM_API_KEY（用于 openclaw onboard）。"@)
    } else {
        Ok((base, model, key))
    }
}

/// Reads the provider settings for `openclaw onboard` from the options.
pub fn onboard_settings_from(options: &InstallOptions) -> (r: Result<(String, String, String), String>)
    ensures
        match (
            r,
            onboard_settings(
                opt_view(options.custom_base_url),
                opt_view(options.custom_model_id),
                opt_view(options.custom_api_key),
            ),
        ) {
            (Ok(t), Ok(x)) => (t.0@, t.1@, t.2@) == x,
            (Err(e), Err(x)) => e@ == x,
            _ => false,
        },
{
    let base = match given_setting(&options.custom_base_url) {
        Some(b) => b,
        None => owned("https://sub.yeelovo.com/v1"),
    };
    let model = match given_setting(&options.custom_model_id) {
        Some(m) => m,
        None => owned("gpt-5.4"),
    };
    let key = match &options.custom_api_key {
        Some(k) => crate::text::trim_str(k.as_str()),
        None => String::new(),
    };
    if key.as_str().is_empty() {
        return Err(owned("缺少 CUSTOM_API_KEY（用于 openclaw onboard）。"));
    }
    Ok((base, model, key))
}

/// The arguments of the non-interactive `openclaw onboard`: the daemon is
/// installed except on Windows without administrator rights.
pub open spec fn onboard_args(
    platform: Platform,
    is_admin: bool,
    base_url: Seq<char>,
    model_id: Seq<char>,
    api_key: Seq<char>,
) -> Seq<Seq<char>> {
    let head = seq!["onboard"@, "--non-interactive"@, "--accept-risk"@];
    let daemon = if platform != Platform::Windows || is_admin {
        seq!["--install-daemon"@]
    } else {
        Seq::<Seq<char>>::empty()
    };
    head + daemon + seq![
        "--skip-ui"@,
        "--skip-health"@,
        "--skip-skills"@,
        "--skip-search"@,
        "--skip-channels"@,
        "--auth-choice"@,
        "custom-api-key"@,
        "--custom-base-url"@,
        base_url,
        "--custom-model-id"@,
        model_id,
        "--custom-api-key"@,
        api_key,
        "--secret-input-mode"@,
        "plaintext"@,
        "--custom-compatibility"@,
        "openai"@,
    ]
}

/// Builds the arguments of the non-interactive `openclaw onboard`.
pub fn onboard_arguments(
    platform: Platform,
    is_admin: bool,
    base_url: &str,
    model_id: &str,
    api_key: &str,
) -> (r: Vec<String>)
    ensures
        views(r@) == onboard_args(platform, is_admin, base_url@, model_id@, api_key@),
{
    let mut v: Vec<String> = Vec::new();
    push_text(&mut v, "onboard");
    push_text(&mut v, "--non-interactive");
    push_text(&mut v, "--accept-risk");
    if platform != Platform::Windows || is_admin {
        push_text(&mut v, "--install-daemon");
    }
    push_text(&mut v, "--skip-ui");
    push_text(&mut v, "--skip-health");
    push_text(&mut v, "--skip-skills");
    push_text(&mut v, "--skip-search");
    push_text(&mut v, "--skip-channels");
    push_text(&mut v, "--auth-choice");
    push_text(&mut v, "custom-api-key");
    push_text(&mut v, "--custom-base-url");
    push_text(&mut v, base_url);
    push_text(&mut v, "--custom-model-id");
    push_text(&mut v, model_id);
    push_text(&mut v, "--custom-api-key");
    push_text(&mut v, api_key);
    push_text(&mut v, "--secret-input-mode");
    push_text(&mut v, "plaintext");
    push_text(&mut v, "--custom-compatibility");
    push_text(&mut v, "openai");
    assert(views(v@) =~= onboard_args(platform, is_admin, base_url@, model_id@, api_key@));
    v
}

/// A flag whose value must not reach the log.
pub open spec fn sensitive_flag(a: Seq<char>) -> bool {
    a == "--custom-api-key"@ || a == "--api-key"@ || a == "--token"@ || a == "--password"@
}

/// The placeholder written instead of a secret.
pub open spec fn mask() -> Seq<char> {
    "\"***\""@
}

/// The logged words from position `i` on: a sensitive flag followed by
/// another word keeps the flag and masks that word, then reading goes on
/// after the masked word.
pub open spec fn redacted_from(args: Seq<Seq<char>>, i: int) -> Seq<Seq<char>>
    decreases args.len() - i,
{
    if i < 0 || i >= args.len() {
        Seq::<Seq<char>>::empty()
    } else if sensitive_flag(args[i]) && i + 1 < args.len() {
        seq![args[i], mask()] + redacted_from(args, i + 2)
    } else {
        seq![args[i]] + redacted_from(args, i + 1)
    }
}

/// A command line for the log, with secrets masked and words joined by spaces.
pub open spec fn redacted(args: Seq<Seq<char>>) -> Seq<char> {
    join(redacted_from(args, 0), " "@)
}

/// Writes a command line for the log with the values of secret flags masked.
pub fn redact_sensitive_args(args: &[String]) -> (r: String)
    ensures
        r@ == redacted(views(args@)),
{
    let ghost a = views(args@);
    let mut out: Vec<String> = Vec::new();
    let mut i: usize = 0;
    assert(views(out@) + redacted_from(a, 0) =~= redacted_from(a, 0));
    while i < args.len()
        invariant
            i <= args.len(),
            a == views(args@),
            views(out@) + redacted_from(a, i as int) == redacted_from(a, 0),
        decreases args.len() - i,
    {
        let current = args[i].as_str();
        assert(a[i as int] == current@);
        let sensitive = str_eq(current, "--custom-api-key") || str_eq(current, "--api-key")
            || str_eq(current, "--token") || str_eq(current, "--password");
        let ghost before = views(out@);
        push_text(&mut out, current);
        if sensitive && i + 1 < args.len() {
            push_text(&mut out, "\"***\"");
            assert(views(out@) + redacted_from(a, i + 2) =~= before + redacted_from(a, i as int));
            i += 2;
        } else {
            assert(views(out@) + redacted_from(a, i + 1) =~= before + redacted_from(a, i as int));
            i += 1;
        }
    }
    assert(redacted_from(a, i as int) =~= Seq::<Seq<char>>::empty());
    assert(views(out@) =~= redacted_from(a, 0));
    join_texts(&out, " ")
}

/// The redacted words are as many as the words given.
pub proof fn lemma_redacted_len(args: Seq<Seq<char>>, i: int)
    requires
        0 <= i <= args.len(),
    ensures
        redacted_from(args, i).len() == args.len() - i,
    decreases args.len() - i,
{
    if i < args.len() {
        if sensitive_flag(args[i]) && i + 1 < args.len() {
            lemma_redacted_len(args, i + 2);
        } else {
            lemma_redacted_len(args, i + 1);
        }
    }
}

/// Each redacted word is the word given at its place or the mask.
pub proof fn lemma_redacted_words(args: Seq<Seq<char>>, i: int)
    requires
        0 <= i <= args.len(),
    ensures
        forall|j: int|
            0 <= j < args.len() - i ==> #[trigger] redacted_from(args, i)[j] == args[i + j]
                || redacted_from(args, i)[j] == mask(),
    decreases args.len() - i,
{
    lemma_redacted_len(args, i);
    if i < args.len() {
        if sensitive_flag(args[i]) && i + 1 < args.len() {
            lemma_redacted_words(args, i + 2);
            lemma_redacted_len(args, i + 2);
            assert forall|j: int| 0 <= j < args.len() - i implies #[trigger] redacted_from(args, i)[j]
                == args[i + j] || redacted_from(args, i)[j] == mask() by {
                if j >= 2 {
                    assert(redacted_from(args, i)[j] == redacted_from(args, i + 2)[j - 2]);
                }
            }
        } else {
            lemma_redacted_words(args, i + 1);
            lemma_redacted_len(args, i + 1);
            assert forall|j: int| 0 <= j < args.len() - i implies #[trigger] redacted_from(args, i)[j]
                == args[i + j] || redacted_from(args, i)[j] == mask() by {
                if j >= 1 {
                    assert(redacted_from(args, i)[j] == redacted_from(args, i + 1)[j - 1]);
                }
            }
        }
    }
}

/// From any place at or before `k`, the word after a lone sensitive flag at
/// `k` comes out masked.
pub proof fn lemma_redacted_masks(args: Seq<Seq<char>>, i: int, k: int)
    requires
        0 <= i <= k,
        k + 1 < args.len(),
        sensitive_flag(args[k]),
        k == 0 || !sensitive_flag(args[k - 1]),
    ensures
        redacted_from(args, i)[k + 1 - i] == mask(),
    decreases k - i,
{
    lemma_redacted_len(args, i);
    if i == k {
    } else if sensitive_flag(args[i]) && i + 1 < args.len() {
        if i + 2 <= k {
            lemma_redacted_masks(args, i + 2, k);
            lemma_redacted_len(args, i + 2);
            assert(redacted_from(args, i)[k + 1 - i] == redacted_from(args, i + 2)[k + 1 - (i + 2)]);
        } else {
            assert(i == k - 1);
        }
    } else {
        lemma_redacted_masks(args, i + 1, k);
        lemma_redacted_len(args, i + 1);
        assert(redacted_from(args, i)[k + 1 - i] == redacted_from(args, i + 1)[k + 1 - (i + 1)]);
    }
}

/// Secrets stay out of the log: the logged words correspond one to one to the
/// words given, each is the word itself or the mask, and the word that follows
/// a sensitive flag (one not itself preceded by a sensitive flag) is masked.
pub proof fn law_redaction_hides_secrets(args: Seq<Seq<char>>)
    ensures
        redacted_from(args, 0).len() == args.len(),
        forall|j: int|
            0 <= j < args.len() ==> #[trigger] redacted_from(args, 0)[j] == args[j]
                || redacted_from(args, 0)[j] == mask(),
        forall|k: int|
            0 <= k && k + 1 < args.len() && sensitive_flag(args[k]) && (k == 0 || !sensitive_flag(
                args[k - 1],
            )) ==> #[trigger] redacted_from(args, 0)[k + 1] == mask(),
{
    lemma_redacted_len(args, 0);
    lemma_redacted_words(args, 0);
    assert forall|k: int|
        0 <= k && k + 1 < args.len() && sensitive_flag(args[k]) && (k == 0 || !sensitive_flag(
            args[k - 1],
        )) implies #[trigger] redacted_from(args, 0)[k + 1] == mask() by {
        lemma_redacted_masks(args, 0, k);
    }
}

/// A text, a number and a text, as one message (`"…{code}…"`).
pub fn message_with_code(before: &str, code: i64, after: &str) -> (r: String)
    ensures
        r@ == before@ + int_text(code as int) + after@,
{
    let c = int_text_exec(code);
    concat3(before, c.as_str(), after)
}

} // verus!
