//! The OpenClaw configuration as the helper reads it: JSON values, the
//! primary model reference, configuration paths, the workspace directory and
//! the Markdown files that are edited there.
use vstd::prelude::*;
use crate::task::{opt_view, owned, res_view};
use crate::text::{
    chars_of, concat2, concat3, contains, contains_char, decimal, ends, ends_with, first_occ,
    has_char, includes, int_text, int_text_exec, lemma_has_first, lower, lower_vec, nat_text,
    push_char, same_text, starts, starts_with, str_eq, string_from, string_of, sub_vec, trim,
    trim_range, trim_str, views, find,
};

verus! {

broadcast use vstd::string::group_string_axioms;

/// A JSON value as the configuration holds it; numbers keep their text.
pub enum JsonValue {
    Null,
    Bool(bool),
    Number(String),
    Str(String),
    Array(Vec<JsonValue>),
    Object(Vec<(String, JsonValue)>),
}

/// The value of the first member named `key`.
pub open spec fn member(ms: Seq<(String, JsonValue)>, key: Seq<char>) -> Option<JsonValue>
    decreases ms.len(),
{
    if ms.len() == 0 {
        None
    } else if ms[0].0@ == key {
        Some(ms[0].1)
    } else {
        member(ms.drop_first(), key)
    }
}

/// The member `key` of an object; nothing for other values.
pub open spec fn json_get(v: JsonValue, key: Seq<char>) -> Option<JsonValue> {
    match v {
        JsonValue::Object(ms) => member(ms@, key),
        _ => None,
    }
}

/// The value reached by following object members named by `path`.
pub open spec fn json_path(v: JsonValue, path: Seq<Seq<char>>) -> Option<JsonValue>
    decreases path.len(),
{
    if path.len() == 0 {
        Some(v)
    } else {
        match json_get(v, path[0]) {
            Some(c) => json_path(c, path.drop_first()),
            None => None,
        }
    }
}

/// The member `key` of an object value.
pub fn json_member<'a>(v: &'a JsonValue, key: &str) -> (r: Option<&'a JsonValue>)
    ensures
        match (r, json_get(*v, key@)) {
            (Some(x), Some(y)) => *x == y,
            (None, None) => true,
            _ => false,
        },
{
    match v {
        JsonValue::Object(ms) => {
            let mut i: usize = 0;
            assert(ms@.skip(0) =~= ms@);
            while i < ms.len()
                invariant
                    i <= ms.len(),
                    json_get(*v, key@) == member(ms@, key@),
                    member(ms@, key@) == member(ms@.skip(i as int), key@),
                decreases ms.len() - i,
            {
                assert(ms@.skip(i as int)[0] == ms@[i as int]);
                assert(ms@.skip(i as int).drop_first() =~= ms@.skip(i + 1));
                if str_eq(ms[i].0.as_str(), key) {
                    return Some(&ms[i].1);
                }
                i += 1;
            }
            None
        },
        _ => None,
    }
}

/// The value at `path` inside `root`, following object members.
pub fn get_json_value_at_path<'a>(root: &'a JsonValue, path: &[&str]) -> (r: Option<&'a JsonValue>)
    ensures
        match (r, json_path(*root, path@.map_values(|s: &str| s@))) {
            (Some(x), Some(y)) => *x == y,
            (None, None) => true,
            _ => false,
        },
{
    let ghost p = path@.map_values(|s: &str| s@);
    let mut current = root;
    let mut i: usize = 0;
    assert(p.skip(0) =~= p);
    while i < path.len()
        invariant
            i <= path.len(),
            p == path@.map_values(|s: &str| s@),
            json_path(*root, p) == json_path(*current, p.skip(i as int)),
        decreases path.len() - i,
    {
        assert(p.skip(i as int)[0] == path@[i as int]@);
        assert(p.skip(i as int).drop_first() =~= p.skip(i + 1));
        match json_member(current, path[i]) {
            Some(next) => {
                current = next;
            },
            None => {
                return None;
            },
        }
        i += 1;
    }
    assert(p.skip(i as int) =~= Seq::<Seq<char>>::empty());
    Some(current)
}

/// The text of the primary model setting: the value itself when it is text,
/// or its `primary` member when it is an object holding text there.
pub open spec fn primary_text(v: JsonValue) -> Option<Seq<char>> {
    match v {
        JsonValue::Str(s) => Some(s@),
        JsonValue::Object(ms) => match member(ms@, "primary"@) {
            Some(JsonValue::Str(s)) => Some(s@),
            _ => None,
        },
        _ => None,
    }
}

/// The `provider/model` reference of the primary model: split at the first
/// `'/'`, both parts trimmed and not empty.
pub open spec fn model_ref(v: JsonValue) -> Option<(Seq<char>, Seq<char>)> {
    match primary_text(v) {
        None => None,
        Some(p) => {
            let t = trim(p);
            let i = first_occ(t, seq!['/']);
            if t.len() == 0 || i < 0 {
                None
            } else {
                let provider = trim(t.subrange(0, i));
                let model = trim(t.subrange(i + 1, t.len() as int));
                if provider.len() == 0 || model.len() == 0 {
                    None
                } else {
                    Some((provider, model))
                }
            }
        },
    }
}

/// Reads `provider/model` from the `agents.defaults.model` setting.
pub fn parse_primary_model_ref_from_config_value(value: &JsonValue) -> (r: Option<(String, String)>)
    ensures
        match (r, model_ref(*value)) {
            (Some(x), Some(y)) => (x.0@, x.1@) == y,
            (None, None) => true,
            _ => false,
        },
{
    let primary: &String = match value {
        JsonValue::Str(s) => s,
        JsonValue::Object(_) => match json_member(value, "primary") {
            Some(JsonValue::Str(s)) => s,
            _ => {
                return None;
            },
        },
        _ => {
            return None;
        },
    };
    let c = chars_of(primary.as_str());
    let (a, b) = trim_range(&c, 0, c.len());
    assert(c@.subrange(0, c@.len() as int) =~= c@);
    let t = sub_vec(&c, a, b);
    if t.len() == 0 {
        return None;
    }
    let slash = vec!['/'];
    assert(slash@ =~= seq!['/']);
    let i = match find(&t, &slash) {
        Some(i) => i,
        None => {
            return None;
        },
    };
    proof {
        lemma_has_first(t@, slash@);
    }
    let (pa, pb) = trim_range(&t, 0, i);
    let (ma, mb) = trim_range(&t, i + 1, t.len());
    if pa == pb || ma == mb {
        return None;
    }
    Some((string_of(&t, pa, pb), string_of(&t, ma, mb)))
}

/// A position in a JSON array whose `id` member, trimmed, is `model_id`.
pub open spec fn model_matches(item: JsonValue, model_id: Seq<char>) -> bool {
    match json_get(item, "id"@) {
        Some(JsonValue::Str(s)) => trim(s@) == model_id,
        _ => false,
    }
}

/// The first index at or after `i` of a matching model, or `-1`.
pub open spec fn model_index_from(items: Seq<JsonValue>, model_id: Seq<char>, i: int) -> int
    decreases items.len() - i,
{
    if i < 0 || i >= items.len() {
        -1
    } else if model_matches(items[i], model_id) {
        i
    } else {
        model_index_from(items, model_id, i + 1)
    }
}

/// Where the model `model_id` sits in the provider's model list, or why it
/// cannot be found.
pub open spec fn model_index(models: JsonValue, model_id: Seq<char>, list_path: Seq<char>) -> Result<
    int,
    Seq<char>,
> {
    match models {
        JsonValue::Array(items) => {
            let i = model_index_from(items@, model_id, 0);
            if i < 0 {
                Err("未在 "@ + list_path + " 中找到 model="@ + model_id)
            } else {
                Ok(i)
            }
        },
        _ => Err("models.providers.<provider>.models 不是数组"@),
    }
}

/// Finds the configured model in the provider's model list.
pub fn find_model_index(models: &JsonValue, model_id: &str, list_path: &str) -> (r: Result<
    usize,
    String,
>)
    ensures
        match (r, model_index(*models, model_id@, list_path@)) {
            (Ok(i), Ok(x)) => i as int == x,
            (Err(e), Err(x)) => e@ == x,
            _ => false,
        },
{
    match models {
        JsonValue::Array(items) => {
            let mut i: usize = 0;
            while i < items.len()
                invariant
                    i <= items.len(),
                    *models == JsonValue::Array(*items),
                    model_index_from(items@, model_id@, 0) == model_index_from(
                        items@,
                        model_id@,
                        i as int,
                    ),
                decreases items.len() - i,
            {
                let found = match json_member(&items[i], "id") {
                    Some(JsonValue::Str(s)) => {
                        let t = trim_str(s.as_str());
                        str_eq(t.as_str(), model_id)
                    },
                    _ => false,
                };
                if found {
                    return Ok(i);
                }
                i += 1;
            }
            let mut e = concat3("未在 ", list_path, " 中找到 model=");
            e.append(model_id);
            Err(e)
        },
        _ => Err(owned("models.providers.<provider>.models 不是数组")),
    }
}

/// `models.providers.<provider>.<field>`.
pub open spec fn provider_path(provider: Seq<char>, field: Seq<char>) -> Seq<char> {
    "models.providers."@ + provider + "."@ + field
}

/// Builds `models.providers.<provider>.<field>`.
pub fn provider_setting_path(provider: &str, field: &str) -> (r: String)
    ensures
        r@ == provider_path(provider@, field@),
{
    let mut s = concat3("models.providers.", provider, ".");
    s.append(field);
    s
}

/// `models.providers.<provider>.models[<index>].<field>`.
pub open spec fn model_field_path(provider: Seq<char>, index: nat, field: Seq<char>) -> Seq<char> {
    "models.providers."@ + provider + ".models["@ + decimal(index) + "]."@ + field
}

/// Builds `models.providers.<provider>.models[<index>].<field>`.
pub fn model_setting_path(provider: &str, index: u64, field: &str) -> (r: String)
    ensures
        r@ == model_field_path(provider@, index as nat, field@),
{
    let mut s = concat3("models.providers.", provider, ".models[");
    let n = nat_text(index);
    s.append(n.as_str());
    s.append("].");
    s.append(field);
    s
}

/// Context window written for the `openai-responses` API.
pub const OPENAI_RESPONSES_CONTEXT_WINDOW: u64 = 320_000;

/// Output token limit written for the `openai-responses` API.
pub const OPENAI_RESPONSES_MAX_TOKENS: u64 = 81_920;

/// Result of a finished command.
pub struct CapturedCommandOutput {
    pub code: i32,
    pub stdout: String,
    pub stderr: String,
}

/// The reason a command failed: its error output, else its output (both
/// trimmed), else its exit code.
pub open spec fn failure_text(stdout: Seq<char>, stderr: Seq<char>, code_text: Seq<char>) -> Seq<
    char,
> {
    if trim(stderr).len() > 0 {
        trim(stderr)
    } else if trim(stdout).len() > 0 {
        trim(stdout)
    } else {
        "退出码 "@ + code_text
    }
}

/// The reason a captured command failed.
pub fn openclaw_command_error_from_captured(output: &CapturedCommandOutput) -> (r: String)
    ensures
        r@ == failure_text(output.stdout@, output.stderr@, int_text(output.code as int)),
{
    let stderr = trim_str(output.stderr.as_str());
    if !stderr.as_str().is_empty() {
        return stderr;
    }
    let stdout = trim_str(output.stdout.as_str());
    if !stdout.as_str().is_empty() {
        return stdout;
    }
    let code = int_text_exec(output.code as i64);
    concat2("退出码 ", code.as_str())
}

/// How `{:?}` writes an optional exit code.
pub open spec fn debug_code(code: Option<i32>) -> Seq<char> {
    match code {
        Some(c) => "Some("@ + int_text(c as int) + ")"@,
        None => "None"@,
    }
}

/// The reason a command failed, when its exit code may be missing (a
/// process ended by a signal has none).
pub fn openclaw_command_error(stdout: &str, stderr: &str, code: Option<i32>) -> (r: String)
    ensures
        r@ == failure_text(stdout@, stderr@, debug_code(code)),
{
    let e = trim_str(stderr);
    if !e.as_str().is_empty() {
        return e;
    }
    let o = trim_str(stdout);
    if !o.as_str().is_empty() {
        return o;
    }
    match code {
        Some(c) => {
            let t = int_text_exec(c as i64);
            let mut s = concat3("退出码 ", "Some(", t.as_str());
            s.append(")");
            assert(s@ =~= "退出码 "@ + debug_code(code));
            assert(trim(stderr@).len() == 0);
            assert(trim(stdout@).len() == 0);
            s
        },
        None => concat2("退出码 ", "None"),
    }
}

/// A file system location: `base` followed by path components, joined with
/// the platform's separator by the caller (as `Path::join` does).
pub struct PathSpec {
    pub base: String,
    pub components: Vec<String>,
}

/// Abstract view of a location: base and components.
pub open spec fn path_view(p: PathSpec) -> (Seq<char>, Seq<Seq<char>>) {
    (p.base@, views(p.components@))
}

/// The user's home directory as `dirs::home_dir` reports it, lossily as
/// text. Nothing is stated of the result: it comes from the environment and
/// the operating system.
#[verifier::external_body]
fn dirs_home_dir() -> (r: Option<String>) {
    dirs::home_dir().map(|p| p.to_string_lossy().to_string())
}

/// The home directory from a `HOME` value, trimmed and not empty.
pub open spec fn home_from_env(env_home: Option<Seq<char>>) -> Option<Seq<char>> {
    match env_home {
        Some(h) => if trim(h).len() > 0 {
            Some(trim(h))
        } else {
            None
        },
        None => None,
    }
}

/// The user's home directory: `$HOME` when set and not blank (given as
/// `env_home`), otherwise what `dirs::home_dir` reports.
pub fn home_dir(env_home: &Option<String>) -> (r: Option<String>)
    ensures
        home_from_env(opt_view(*env_home)) is Some ==> opt_view(r) == home_from_env(
            opt_view(*env_home),
        ),
{
    match env_home {
        Some(h) => {
            let t = trim_str(h.as_str());
            if !t.as_str().is_empty() {
                return Some(t);
            }
        },
        None => {},
    }
    dirs_home_dir()
}

/// A single location.
fn plain_path(base: String) -> (r: PathSpec)
    ensures
        path_view(r) == (base@, Seq::<Seq<char>>::empty()),
{
    let components: Vec<String> = Vec::new();
    assert(views(components@) =~= Seq::<Seq<char>>::empty());
    PathSpec { base, components }
}

/// `~`, `~/rest` and `~\rest` resolved against `home`; other texts as written
/// (trimmed), and so are these when there is no home directory.
pub open spec fn expand_home(value: Seq<char>, home: Option<Seq<char>>) -> (
    Seq<char>,
    Seq<Seq<char>>,
) {
    let t = trim(value);
    if t == "~"@ {
        match home {
            Some(h) => (h, Seq::<Seq<char>>::empty()),
            None => (t, Seq::<Seq<char>>::empty()),
        }
    } else if starts(t, "~/"@) || starts(t, "~\\"@) {
        match home {
            Some(h) => (h, seq![t.subrange(2, t.len() as int)]),
            None => (t, Seq::<Seq<char>>::empty()),
        }
    } else {
        (t, Seq::<Seq<char>>::empty())
    }
}

/// Resolves a leading `~` against the given home directory.
pub fn expand_home_path_with(value: &str, home: Option<String>) -> (r: PathSpec)
    ensures
        path_view(r) == expand_home(value@, opt_view(home)),
{
    let v = chars_of(value);
    let (a, b) = trim_range(&v, 0, v.len());
    assert(v@.subrange(0, v@.len() as int) =~= v@);
    let t = sub_vec(&v, a, b);
    proof {
        reveal_strlit("~");
        assert("~"@.len() == 1);
        reveal_strlit("~/");
        assert("~/"@.len() == 2);
        reveal_strlit("~\\");
        assert("~\\"@.len() == 2);
    }
    if same_text(&t, "~") {
        return match home {
            Some(h) => plain_path(h),
            None => plain_path(string_from(&t)),
        };
    }
    if starts_with(&t, "~/") || starts_with(&t, "~\\") {
        return match home {
            Some(h) => {
                let mut components: Vec<String> = Vec::new();
                crate::text::push_owned(&mut components, string_of(&t, 2, t.len()));
                assert(views(components@) =~= seq![t@.subrange(2, t@.len() as int)]);
                PathSpec { base: h, components }
            },
            None => plain_path(string_from(&t)),
        };
    }
    plain_path(string_from(&t))
}

/// Resolves a leading `~` against the user's home directory.
pub fn expand_home_path(value: &str, env_home: &Option<String>) -> (r: PathSpec)
    ensures
        exists|h: Option<Seq<char>>|
            (home_from_env(opt_view(*env_home)) is Some ==> h == home_from_env(
                opt_view(*env_home),
            )) && path_view(r) == expand_home(value@, h),
{
    let home = home_dir(env_home);
    let r = expand_home_path_with(value, home);
    assert(path_view(r) == expand_home(value@, opt_view(home)));
    r
}

/// `<home>/.openclaw/<leaf>`, or `.openclaw/<leaf>` without a home directory.
pub open spec fn openclaw_dir_path(home: Option<Seq<char>>, leaf: Seq<char>) -> (
    Seq<char>,
    Seq<Seq<char>>,
) {
    match home {
        Some(h) => (h, seq![".openclaw"@, leaf]),
        None => (".openclaw"@, seq![leaf]),
    }
}

/// Builds `<home>/.openclaw/<leaf>`, or `.openclaw/<leaf>` without a home.
pub fn openclaw_dir_path_with(home: Option<String>, leaf: &str) -> (r: PathSpec)
    ensures
        path_view(r) == openclaw_dir_path(opt_view(home), leaf@),
{
    let mut components: Vec<String> = Vec::new();
    match home {
        Some(h) => {
            crate::text::push_text(&mut components, ".openclaw");
            crate::text::push_text(&mut components, leaf);
            assert(views(components@) =~= seq![".openclaw"@, leaf@]);
            PathSpec { base: h, components }
        },
        None => {
            crate::text::push_text(&mut components, leaf);
            assert(views(components@) =~= seq![leaf@]);
            PathSpec { base: owned(".openclaw"), components }
        },
    }
}

/// The default workspace, `~/.openclaw/workspace`, with the home directory
/// that `dirs::home_dir` reports.
pub fn default_workspace_dir() -> (r: PathSpec)
    ensures
        exists|h: Option<Seq<char>>| path_view(r) == openclaw_dir_path(h, "workspace"@),
{
    let home = dirs_home_dir();
    openclaw_dir_path_with(home, "workspace")
}

/// The default configuration file, `~/.openclaw/openclaw.json`, with the home
/// directory of `home_dir`.
pub fn default_openclaw_config_file_path(env_home: &Option<String>) -> (r: PathSpec)
    ensures
        exists|h: Option<Seq<char>>|
            (home_from_env(opt_view(*env_home)) is Some ==> h == home_from_env(
                opt_view(*env_home),
            )) && path_view(r) == openclaw_dir_path(h, "openclaw.json"@),
{
    let home = home_dir(env_home);
    let r = openclaw_dir_path_with(home, "openclaw.json");
    assert(path_view(r) == openclaw_dir_path(opt_view(home), "openclaw.json"@));
    r
}

/// The configured workspace: the setting when it is non-blank text (with `~`
/// resolved), otherwise nothing, meaning the default workspace.
pub open spec fn workspace_setting(value: Option<JsonValue>) -> Option<Seq<char>> {
    match value {
        Some(JsonValue::Str(s)) => if trim(s@).len() > 0 {
            Some(trim(s@))
        } else {
            None
        },
        _ => None,
    }
}

/// The value behind an optional reference.
pub open spec fn opt_deref(o: Option<&JsonValue>) -> Option<JsonValue> {
    match o {
        Some(v) => Some(*v),
        None => None,
    }
}

/// The workspace directory named by the `agents.defaults.workspace` setting.
pub fn resolve_workspace_dir_from_value(value: Option<&JsonValue>, env_home: &Option<String>) -> (r:
    PathSpec)
    ensures
        workspace_setting(opt_deref(value)) is Some ==> exists|h: Option<Seq<char>>|
            (home_from_env(opt_view(*env_home)) is Some ==> h == home_from_env(
                opt_view(*env_home),
            )) && path_view(r) == expand_home(workspace_setting(opt_deref(value)).unwrap(), h),
        workspace_setting(opt_deref(value)) is None ==> exists|h: Option<Seq<char>>|
            path_view(r) == openclaw_dir_path(h, "workspace"@),
{
    match value {
        Some(JsonValue::Str(raw)) => {
            let t = trim_str(raw.as_str());
            if !t.as_str().is_empty() {
                let home = home_dir(env_home);
                let r = expand_home_path_with(t.as_str(), home);
                assert(path_view(r) == expand_home(t@, opt_view(home)));
                let ghost hw = opt_view(home);
                assert(home_from_env(opt_view(*env_home)) is Some ==> hw == home_from_env(
                    opt_view(*env_home)));
                assert(opt_deref(value) == Some(*value.unwrap()));
                assert(workspace_setting(opt_deref(value)) == Some(t@));
                assert(path_view(r) == expand_home(workspace_setting(opt_deref(value)).unwrap(), hw));
                assert(exists|h: Option<Seq<char>>|
                    (home_from_env(opt_view(*env_home)) is Some ==> h == home_from_env(
                        opt_view(*env_home),
                    )) && path_view(r) == expand_home(t@, h));
                return r;
            }
        },
        _ => {},
    }
    default_workspace_dir()
}

/// The workspace directory named by the `agents.defaults` section.
pub fn resolve_workspace_dir_from_agents_defaults(agents_defaults: &JsonValue, env_home: &Option<
    String,
>) -> (r: PathSpec)
    ensures
        workspace_setting(json_get(*agents_defaults, "workspace"@)) is Some ==> exists|
            h: Option<Seq<char>>,
        |
            (home_from_env(opt_view(*env_home)) is Some ==> h == home_from_env(
                opt_view(*env_home),
            )) && path_view(r) == expand_home(
                workspace_setting(json_get(*agents_defaults, "workspace"@)).unwrap(),
                h,
            ),
        workspace_setting(json_get(*agents_defaults, "workspace"@)) is None ==> exists|
            h: Option<Seq<char>>,
        | path_view(r) == openclaw_dir_path(h, "workspace"@),
{
    resolve_workspace_dir_from_value(json_member(agents_defaults, "workspace"), env_home)
}


/// The checked name of a workspace Markdown file: trimmed, not empty, no
/// path separators, ending in `.md` (any case), no `..`.
pub open spec fn markdown_name_check(name: Seq<char>) -> Result<Seq<char>, Seq<char>> {
    let t = trim(name);
    if t.len() == 0 {
        Err("Markdown 文件名不能为空。"@)
    } else if has_char(t, '/') || has_char(t, '\\') {
        Err("Markdown 文件名不能包含路径分隔符。"@)
    } else if !ends(lower(t), ".md"@) {
        Err("仅支持编辑 .md 文件。"@)
    } else if t == "."@ || t == ".."@ || includes(t, ".."@) {
        Err("Markdown 文件名不合法。"@)
    } else {
        Ok(t)
    }
}

/// Checks the name of a workspace Markdown file.
pub fn normalize_workspace_markdown_name(name: &str) -> (r: Result<String, String>)
    ensures
        res_view(r) == markdown_name_check(name@),
{
    let v = chars_of(name);
    let (a, b) = trim_range(&v, 0, v.len());
    assert(v@.subrange(0, v@.len() as int) =~= v@);
    let t = sub_vec(&v, a, b);
    if t.len() == 0 {
        return Err(owned("Markdown 文件名不能为空。"));
    }
    if contains_char(&t, '/') || contains_char(&t, '\\') {
        return Err(owned("Markdown 文件名不能包含路径分隔符。"));
    }
    let l = lower_vec(&t);
    if !ends_with(&l, ".md") {
        return Err(owned("仅支持编辑 .md 文件。"));
    }
    if same_text(&t, ".") || same_text(&t, "..") || contains(&t, "..") {
        return Err(owned("Markdown 文件名不合法。"));
    }
    Ok(string_from(&t))
}

/// The workspace files always listed first, in this order.
pub open spec fn preferred_markdown_names() -> Seq<Seq<char>> {
    seq![
        "SOUL.md"@,
        "USER.md"@,
        "AGENTS.md"@,
        "BOOTSTRAP.md"@,
        "IDENTITY.md"@,
        "TOOLS.md"@,
        "HEARTBEAT.md"@,
        "MEMORY.md"@,
    ]
}

/// Code-point order of texts, which is the byte order of their UTF-8
/// encodings and so the order of `String`.
pub open spec fn text_lt(a: Seq<char>, b: Seq<char>) -> bool
    decreases a.len(),
{
    if a.len() == 0 {
        b.len() > 0
    } else if b.len() == 0 {
        false
    } else if a[0] != b[0] {
        (a[0] as u32) < (b[0] as u32)
    } else {
        text_lt(a.drop_first(), b.drop_first())
    }
}

/// No text comes before itself.
pub proof fn lemma_text_lt_irreflexive(a: Seq<char>)
    ensures
        !text_lt(a, a),
    decreases a.len(),
{
    if a.len() > 0 {
        lemma_text_lt_irreflexive(a.drop_first());
    }
}

/// The order is transitive.
pub proof fn lemma_text_lt_transitive(a: Seq<char>, b: Seq<char>, c: Seq<char>)
    requires
        text_lt(a, b),
        text_lt(b, c),
    ensures
        text_lt(a, c),
    decreases a.len(),
{
    if a.len() > 0 && b.len() > 0 && c.len() > 0 && a[0] == b[0] && b[0] == c[0] {
        lemma_text_lt_transitive(a.drop_first(), b.drop_first(), c.drop_first());
    }
}

/// Of two different texts, one comes first.
pub proof fn lemma_text_lt_total(a: Seq<char>, b: Seq<char>)
    requires
        a != b,
    ensures
        text_lt(a, b) || text_lt(b, a),
    decreases a.len(),
{
    if a.len() > 0 && b.len() > 0 {
        if a[0] == b[0] {
            if a.drop_first() == b.drop_first() {
                assert(a =~= seq![a[0]] + a.drop_first());
                assert(b =~= seq![b[0]] + b.drop_first());
            } else {
                lemma_text_lt_total(a.drop_first(), b.drop_first());
            }
        } else {
            vstd::utf8::char_u32_cast(a[0], a[0] as u32);
            vstd::utf8::char_u32_cast(b[0], b[0] as u32);
        }
    } else if a.len() == 0 && b.len() == 0 {
        assert(a =~= b);
    }
}

/// Whether `a` comes before `b` in code-point order.
pub fn text_less(a: &Vec<char>, b: &Vec<char>) -> (r: bool)
    ensures
        r == text_lt(a@, b@),
{
    let mut i: usize = 0;
    assert(a@.skip(0) =~= a@);
    assert(b@.skip(0) =~= b@);
    loop
        invariant
            i <= a.len(),
            i <= b.len(),
            text_lt(a@, b@) == text_lt(a@.skip(i as int), b@.skip(i as int)),
        decreases a.len() - i,
    {
        if i == a.len() {
            return i < b.len();
        }
        if i == b.len() {
            return false;
        }
        assert(a@.skip(i as int)[0] == a@[i as int]);
        assert(b@.skip(i as int)[0] == b@[i as int]);
        if a[i] != b[i] {
            return (a[i] as u32) < (b[i] as u32);
        }
        assert(a@.skip(i as int).drop_first() =~= a@.skip(i + 1));
        assert(b@.skip(i as int).drop_first() =~= b@.skip(i + 1));
        i += 1;
    }
}

/// Each text comes strictly before every later one.
pub open spec fn strictly_sorted(s: Seq<Seq<char>>) -> bool {
    forall|i: int, j: int| 0 <= i < j < s.len() ==> text_lt(s[i], s[j])
}

/// Inserts `name` into a strictly sorted list unless it is already there.
pub fn insert_sorted(list: &mut Vec<String>, name: String)
    requires
        strictly_sorted(views(old(list)@)),
    ensures
        strictly_sorted(views(final(list)@)),
        forall|t: Seq<char>|
            views(final(list)@).contains(t) <==> (views(old(list)@).contains(t) || t == name@),
{
    let ghost before = views(list@);
    let nv = chars_of(name.as_str());
    let mut p: usize = 0;
    while p < list.len()
        invariant
            p <= list.len(),
            views(list@) == before,
            nv@ == name@,
            forall|j: int| 0 <= j < p ==> text_lt(before[j], name@),
        ensures
            p <= list.len(),
            views(list@) == before,
            nv@ == name@,
            forall|j: int| 0 <= j < p ==> text_lt(before[j], name@),
            p < list.len() ==> !text_lt(before[p as int], name@),
        decreases list.len() - p,
    {
        let cur = chars_of(list[p].as_str());
        assert(before[p as int] == list@[p as int]@);
        if !text_less(&cur, &nv) {
            break;
        }
        p += 1;
    }
    if p < list.len() {
        let cur = chars_of(list[p].as_str());
        assert(before[p as int] == list@[p as int]@);
        if same_text(&cur, name.as_str()) {
            assert(before.contains(name@));
            return;
        }
        proof {
            lemma_text_lt_total(before[p as int], name@);
        }
    }
    let ghost nm = name@;
    list.insert(p, name);
    let ghost after = views(list@);
    assert(after =~= before.insert(p as int, nm));
    proof {
        assert forall|m: int| p <= m < before.len() implies text_lt(nm, before[m]) by {
            if m > p {
                lemma_text_lt_transitive(nm, before[p as int], before[m]);
            }
        }
        assert forall|i: int, j: int| 0 <= i < j < after.len() implies text_lt(after[i], after[j]) by {
            if j < p {
            } else if j == p {
            } else if i < p {
                lemma_text_lt_transitive(before[i], nm, before[j - 1]);
            } else if i == p {
            } else {
            }
        }
        assert forall|t: Seq<char>| after.contains(t) <==> (before.contains(t) || t == nm) by {
            if after.contains(t) {
                let k = choose|k: int| 0 <= k < after.len() && after[k] == t;
                if k < p {
                    assert(before[k] == t);
                } else if k > p {
                    assert(before[k - 1] == t);
                }
            }
            if before.contains(t) {
                let k = choose|k: int| 0 <= k < before.len() && before[k] == t;
                if k < p {
                    assert(after[k] == t);
                } else {
                    assert(after[k + 1] == t);
                }
            }
            if t == nm {
                assert(after[p as int] == t);
            }
        }
    }
}

/// A discovered file name contributes its checked form, unless that is a
/// preferred name.
pub open spec fn discovered_name(ds: Seq<Seq<char>>, t: Seq<char>) -> bool {
    !preferred_markdown_names().contains(t) && exists|j: int|
        0 <= j < ds.len() && #[trigger] markdown_name_check(ds[j]) == Ok::<Seq<char>, Seq<char>>(
            t,
        )
}

/// Whether `name` is among `list`.
pub fn texts_contain(list: &Vec<String>, name: &str) -> (b: bool)
    ensures
        b == views(list@).contains(name@),
{
    let mut i: usize = 0;
    while i < list.len()
        invariant
            i <= list.len(),
            forall|j: int| 0 <= j < i ==> views(list@)[j] != name@,
        decreases list.len() - i,
    {
        assert(views(list@)[i as int] == list@[i as int]@);
        if str_eq(list[i].as_str(), name) {
            return true;
        }
        i += 1;
    }
    false
}

/// The Markdown files to show for a workspace: the preferred files first,
/// then the other valid `.md` files found there (`discovered` holds the names
/// of its regular files), each once, in code-point order.
pub fn collect_workspace_markdown_names(discovered: &Vec<String>) -> (r: Vec<String>)
    ensures
        views(r@).len() >= 8,
        views(r@).subrange(0, 8) == preferred_markdown_names(),
        strictly_sorted(views(r@).skip(8)),
        forall|t: Seq<char>|
            views(r@).skip(8).contains(t) <==> discovered_name(views(discovered@), t),
{
    let mut names: Vec<String> = Vec::new();
    crate::text::push_text(&mut names, "SOUL.md");
    crate::text::push_text(&mut names, "USER.md");
    crate::text::push_text(&mut names, "AGENTS.md");
    crate::text::push_text(&mut names, "BOOTSTRAP.md");
    crate::text::push_text(&mut names, "IDENTITY.md");
    crate::text::push_text(&mut names, "TOOLS.md");
    crate::text::push_text(&mut names, "HEARTBEAT.md");
    crate::text::push_text(&mut names, "MEMORY.md");
    assert(views(names@) =~= preferred_markdown_names());
    let ghost ds = views(discovered@);
    let mut tail: Vec<String> = Vec::new();
    let mut k: usize = 0;
    while k < discovered.len()
        invariant
            k <= discovered.len(),
            ds == views(discovered@),
            views(names@) == preferred_markdown_names(),
            strictly_sorted(views(tail@)),
            forall|t: Seq<char>|
                views(tail@).contains(t) <==> discovered_name(ds.take(k as int), t),
        decreases discovered.len() - k,
    {
        assert(ds[k as int] == discovered@[k as int]@);
        let checked = normalize_workspace_markdown_name(discovered[k].as_str());
        let ghost before = views(tail@);
        match checked {
            Ok(t) => {
                if !texts_contain(&names, t.as_str()) {
                    let ghost tv = t@;
                    insert_sorted(&mut tail, t);
                    assert forall|x: Seq<char>|
                        views(tail@).contains(x) <==> discovered_name(ds.take(k + 1), x) by {
                        if discovered_name(ds.take(k as int), x) {
                            let j = choose|j: int|
                                0 <= j < k && #[trigger] markdown_name_check(ds.take(k as int)[j])
                                    == Ok::<Seq<char>, Seq<char>>(x);
                            assert(ds.take(k + 1)[j] == ds.take(k as int)[j]);
                        }
                        if x == tv {
                            assert(ds.take(k + 1)[k as int] == ds[k as int]);
                        }
                        if discovered_name(ds.take(k + 1), x) {
                            let j = choose|j: int|
                                0 <= j < k + 1 && #[trigger] markdown_name_check(
                                    ds.take(k + 1)[j],
                                ) == Ok::<Seq<char>, Seq<char>>(x);
                            if j < k {
                                assert(ds.take(k as int)[j] == ds.take(k + 1)[j]);
                            }
                        }
                    }
                } else {
                    assert forall|x: Seq<char>|
                        views(tail@).contains(x) <==> discovered_name(ds.take(k + 1), x) by {
                        if discovered_name(ds.take(k as int), x) {
                            let j = choose|j: int|
                                0 <= j < k && #[trigger] markdown_name_check(ds.take(k as int)[j])
                                    == Ok::<Seq<char>, Seq<char>>(x);
                            assert(ds.take(k + 1)[j] == ds.take(k as int)[j]);
                        }
                        if discovered_name(ds.take(k + 1), x) {
                            let j = choose|j: int|
                                0 <= j < k + 1 && #[trigger] markdown_name_check(
                                    ds.take(k + 1)[j],
                                ) == Ok::<Seq<char>, Seq<char>>(x);
                            if j < k {
                                assert(ds.take(k as int)[j] == ds.take(k + 1)[j]);
                            } else {
                                assert(ds.take(k + 1)[j] == ds[k as int]);
                            }
                        }
                    }
                }
            },
            Err(_) => {
                assert forall|x: Seq<char>|
                    views(tail@).contains(x) <==> discovered_name(ds.take(k + 1), x) by {
                    if discovered_name(ds.take(k as int), x) {
                        let j = choose|j: int|
                            0 <= j < k && #[trigger] markdown_name_check(ds.take(k as int)[j])
                                == Ok::<Seq<char>, Seq<char>>(x);
                        assert(ds.take(k + 1)[j] == ds.take(k as int)[j]);
                    }
                    if discovered_name(ds.take(k + 1), x) {
                        let j = choose|j: int|
                            0 <= j < k + 1 && #[trigger] markdown_name_check(ds.take(k + 1)[j])
                                == Ok::<Seq<char>, Seq<char>>(x);
                        if j < k {
                            assert(ds.take(k as int)[j] == ds.take(k + 1)[j]);
                        } else {
                            assert(ds.take(k + 1)[j] == ds[k as int]);
                        }
                    }
                }
            },
        }
        k += 1;
    }
    assert(ds.take(discovered.len() as int) =~= ds);
    let ghost pre = views(names@);
    let ghost tl = views(tail@);
    let mut i: usize = 0;
    while i < tail.len()
        invariant
            i <= tail.len(),
            tl == views(tail@),
            views(names@) == pre + tl.take(i as int),
        decreases tail.len() - i,
    {
        let t = tail[i].clone();
        assert(tl[i as int] == t@);
        crate::text::push_owned(&mut names, t);
        assert(pre + tl.take(i + 1) =~= (pre + tl.take(i as int)).push(tl[i as int]));
        i += 1;
    }
    assert(tl.take(tail.len() as int) =~= tl);
    assert(views(names@).subrange(0, 8) =~= pre);
    assert(views(names@).skip(8) =~= tl);
    names
}

/// `"\r\n"` line endings turned into `"\n"`, scanning from the left.
pub open spec fn crlf_to_lf(s: Seq<char>) -> Seq<char>
    decreases s.len(),
{
    if s.len() == 0 {
        s
    } else if s.len() >= 2 && s[0] == '\r' && s[1] == '\n' {
        seq!['\n'] + crlf_to_lf(s.skip(2))
    } else {
        seq![s[0]] + crlf_to_lf(s.drop_first())
    }
}

/// The text of a saved Markdown file, with Windows line endings normalized.
pub fn normalize_newlines(content: &str) -> (r: String)
    ensures
        r@ == crlf_to_lf(content@),
{
    let v = chars_of(content);
    let mut out = String::new();
    let mut i: usize = 0;
    assert(v@.skip(0) =~= v@);
    while i < v.len()
        invariant
            i <= v.len(),
            v@ == content@,
            crlf_to_lf(v@) == out@ + crlf_to_lf(v@.skip(i as int)),
        decreases v.len() - i,
    {
        let ghost rest = v@.skip(i as int);
        if i + 1 < v.len() && v[i] == '\r' && v[i + 1] == '\n' {
            assert(rest[0] == '\r' && rest[1] == '\n');
            assert(rest.skip(2) =~= v@.skip(i + 2));
            push_char(&mut out, '\n');
            assert(out@ + crlf_to_lf(v@.skip(i + 2)) =~= (out@.drop_last() + seq!['\n']) + crlf_to_lf(rest.skip(2)));
            i += 2;
        } else {
            assert(rest[0] == v@[i as int]);
            assert(rest.drop_first() =~= v@.skip(i + 1));
            push_char(&mut out, v[i]);
            i += 1;
        }
    }
    assert(v@.skip(i as int) =~= Seq::<char>::empty());
    assert(out@ =~= out@ + Seq::<char>::empty());
    out
}

/// A workspace Markdown file as the editor shows it.
pub struct WorkspaceMarkdownDocument {
    pub name: String,
    pub path: String,
    pub exists: bool,
    pub content: String,
}

/// What the configuration center shows.
pub struct ConfigCenterData {
    pub agents_defaults: JsonValue,
    pub gateway: JsonValue,
    pub models_providers: JsonValue,
    pub workspace_markdowns: Vec<WorkspaceMarkdownDocument>,
}

/// An empty JSON object, the value shown for a section that cannot be read.
pub fn empty_object() -> (r: JsonValue)
    ensures
        r matches JsonValue::Object(ms) && ms@.len() == 0,
{
    JsonValue::Object(Vec::new())
}

/// `serde_json::Value`, the parsed form of a JSON text, carried only into
/// the conversion to `JsonValue`.
#[verifier::external_type_specification]
#[verifier::external_body]
pub struct ExSerdeJsonValue(serde_json::Value);

/// The value that `serde_json::from_str` reads from a JSON text, taken into
/// `JsonValue` (numbers by their text, object members in the order
/// `serde_json::Map` keeps them); nothing when the text is not JSON.
pub uninterp spec fn json_value_of(text: Seq<char>) -> Option<JsonValue>;

/// A `serde_json::Value` as a `JsonValue`, variant for variant: numbers by
/// their `Display` text, members in the map's order. The conversion is part
/// of what `json_value_of` names.
#[verifier::external_body]
fn json_of(v: &serde_json::Value) -> JsonValue {
    match v {
        serde_json::Value::Null => JsonValue::Null,
        serde_json::Value::Bool(b) => JsonValue::Bool(*b),
        serde_json::Value::Number(n) => JsonValue::Number(n.to_string()),
        serde_json::Value::String(t) => JsonValue::Str(t.clone()),
        serde_json::Value::Array(items) => JsonValue::Array(items.iter().map(json_of).collect()),
        serde_json::Value::Object(ms) => JsonValue::Object(ms.iter().map(|(k, x)| (k.clone(), json_of(x))).collect()),
    }
}

/// `serde_json::from_str` into a `serde_json::Value`, as a `JsonValue`: the
/// text parses exactly when `json_value_of` names a value for it, and the
/// result is that value. On failure the error is serde_json's message,
/// which the contract does not state.
#[verifier::external_body]
pub(crate) fn parse_json(text: &str) -> (r: Result<JsonValue, String>)
    ensures
        r is Ok <==> json_value_of(text@) is Some,
        r matches Ok(v) ==> json_value_of(text@) == Some(v),
{
    serde_json::from_str::<serde_json::Value>(text).map(|v| json_of(&v)).map_err(|e| e.to_string())
}

/// What a JSON read gives: the value, or the parser's message behind
/// `before`, `path` and `" 失败："`.
pub fn parse_outcome(before: &str, path: &str, parsed: Result<JsonValue, String>) -> (r: Result<
    JsonValue,
    String,
>)
    ensures
        match (parsed, r) {
            (Ok(a), Ok(b)) => a == b,
            (Err(e), Err(m)) => m@ == before@ + path@ + " 失败："@ + e@,
            _ => false,
        },
{
    match parsed {
        Ok(v) => Ok(v),
        Err(e) => Err(path_message(before, path, " 失败：", e.as_str())),
    }
}

/// The JSON value of a file's text `raw`, shown in errors as `shown`.
pub fn read_json_text(shown: &str, raw: &str) -> (r: Result<JsonValue, String>)
    ensures
        r is Ok <==> json_value_of(raw@) is Some,
        r matches Ok(v) ==> json_value_of(raw@) == Some(v),
        r matches Err(m) ==> starts(m@, "解析 "@ + shown@ + " 失败："@),
{
    let parsed = parse_json(raw);
    let r = parse_outcome("解析 ", shown, parsed);
    proof {
        if let Err(m) = &r {
            assert(m@.subrange(0, ("解析 "@ + shown@ + " 失败："@).len() as int) =~= "解析 "@ + shown@
                + " 失败："@);
        }
    }
    r
}

/// The value that `openclaw config get <path> --json` printed: an error
/// behind `读取配置 <path> 失败：` when the command failed (`failure` holds
/// its detail), otherwise the JSON of the trimmed output, or an error behind
/// `解析配置 <path> 失败：`.
pub fn config_get_result(path: &str, failure: Option<String>, stdout: &str) -> (r: Result<
    JsonValue,
    String,
>)
    ensures
        match failure {
            Some(d) => r matches Err(m) && m@ == "读取配置 "@ + path@ + " 失败："@ + d@,
            None => {
                &&& (r is Ok <==> json_value_of(trim(stdout@)) is Some)
                &&& (r matches Ok(v) ==> json_value_of(trim(stdout@)) == Some(v))
                &&& (r matches Err(m) ==> starts(m@, "解析配置 "@ + path@ + " 失败："@))
            },
        },
{
    match failure {
        Some(d) => Err(path_message("读取配置 ", path, " 失败：", d.as_str())),
        None => {
            let text = trim_str(stdout);
            let parsed = parse_json(text.as_str());
            let r = parse_outcome("解析配置 ", path, parsed);
            proof {
                if let Err(m) = &r {
                    assert(m@.subrange(0, ("解析配置 "@ + path@ + " 失败："@).len() as int)
                        =~= "解析配置 "@ + path@ + " 失败："@);
                }
            }
            r
        },
    }
}

/// Index of the first member named `key`.
fn member_index(ms: &Vec<(String, JsonValue)>, key: &str) -> (r: Option<usize>)
    ensures
        match r {
            Some(i) => i < ms.len() && member(ms@, key@) == Some(ms@[i as int].1),
            None => member(ms@, key@) is None,
        },
{
    let mut i: usize = 0;
    assert(ms@.skip(0) =~= ms@);
    while i < ms.len()
        invariant
            i <= ms.len(),
            member(ms@, key@) == member(ms@.skip(i as int), key@),
        decreases ms.len() - i,
    {
        assert(ms@.skip(i as int)[0] == ms@[i as int]);
        assert(ms@.skip(i as int).drop_first() =~= ms@.skip(i + 1));
        if str_eq(ms[i].0.as_str(), key) {
            return Some(i);
        }
        i += 1;
    }
    None
}

/// The member `key` of an object value, taken out of it.
pub fn take_json_member(v: JsonValue, key: &str) -> (r: Option<JsonValue>)
    ensures
        r == json_get(v, key@),
{
    match v {
        JsonValue::Object(ms) => {
            let mut ms = ms;
            let ghost before = ms@;
            match member_index(&ms, key) {
                Some(i) => {
                    let (_, x) = ms.remove(i);
                    assert(x == before[i as int].1);
                    Some(x)
                },
                None => None,
            }
        },
        _ => None,
    }
}

/// The value at `path` inside `root`, taken out of it.
pub fn take_json_path(root: JsonValue, path: &[&str]) -> (r: Option<JsonValue>)
    ensures
        r == json_path(root, path@.map_values(|s: &str| s@)),
{
    let ghost p = path@.map_values(|s: &str| s@);
    let mut current = root;
    let mut i: usize = 0;
    assert(p.skip(0) =~= p);
    while i < path.len()
        invariant
            i <= path.len(),
            p == path@.map_values(|s: &str| s@),
            json_path(root, p) == json_path(current, p.skip(i as int)),
        decreases path.len() - i,
    {
        assert(p.skip(i as int)[0] == path@[i as int]@);
        assert(p.skip(i as int).drop_first() =~= p.skip(i + 1));
        match take_json_member(current, path[i]) {
            Some(c) => {
                current = c;
            },
            None => {
                return None;
            },
        }
        i += 1;
    }
    assert(p.skip(path.len() as int).len() == 0);
    Some(current)
}

/// A section of the configuration as the config center shows it: the value
/// at `path` in the configuration file's root when there is one, else the
/// value that `openclaw config get` gave (`fetched`), else `{}`.
pub fn config_section(root: Option<JsonValue>, path: &[&str], fetched: Option<JsonValue>) -> (r:
    JsonValue)
    ensures
        match match root {
            Some(v) => json_path(v, path@.map_values(|s: &str| s@)),
            None => None,
        } {
            Some(x) => r == x,
            None => match fetched {
                Some(f) => r == f,
                None => r matches JsonValue::Object(ms) && ms@.len() == 0,
            },
        },
{
    let from_root = match root {
        Some(v) => take_json_path(v, path),
        None => None,
    };
    match from_root {
        Some(x) => x,
        None => match fetched {
            Some(f) => f,
            None => empty_object(),
        },
    }
}

/// Prefix of the errors about the configuration file path.
pub open spec fn config_path_error(detail: Seq<char>) -> Seq<char> {
    "读取配置文件路径失败："@ + detail
}

/// The configuration file named by `openclaw config file`: the command must
/// succeed and print a path, in which `~` is resolved.
pub fn config_file_path_from_output(
    success: bool,
    stdout: &str,
    stderr: &str,
    code: Option<i32>,
    env_home: &Option<String>,
) -> (r: Result<PathSpec, String>)
    ensures
        !success ==> (r matches Err(e) && e@ == config_path_error(
            failure_text(stdout@, stderr@, debug_code(code)),
        )),
        success && trim(stdout@).len() == 0 ==> (r matches Err(e) && e@ == config_path_error(
            "openclaw 未返回路径。"@,
        )),
        success && trim(stdout@).len() > 0 ==> (r matches Ok(p) && exists|h: Option<Seq<char>>|
            (home_from_env(opt_view(*env_home)) is Some ==> h == home_from_env(
                opt_view(*env_home),
            )) && path_view(p) == expand_home(trim(stdout@), h)),
{
    if !success {
        let detail = openclaw_command_error(stdout, stderr, code);
        return Err(concat2("读取配置文件路径失败：", detail.as_str()));
    }
    let t = trim_str(stdout);
    if t.as_str().is_empty() {
        return Err(concat2("读取配置文件路径失败：", "openclaw 未返回路径。"));
    }
    let home = home_dir(env_home);
    let p = expand_home_path_with(t.as_str(), home);
    proof {
        crate::text::lemma_trim_idempotent(stdout@);
        let hw = opt_view(home);
        assert(path_view(p) == expand_home(trim(stdout@), hw));
    }
    Ok(p)
}

/// `<before><path><after><detail>`, the shape of the configuration errors
/// (`读取配置 {path} 失败：{detail}` and the like).
pub fn path_message(before: &str, path: &str, after: &str, detail: &str) -> (r: String)
    ensures
        r@ == before@ + path@ + after@ + detail@,
{
    let mut s = concat3(before, path, after);
    s.append(detail);
    s
}

/// The error of a configuration file that cannot be loaded: the error of the
/// default file first, when there was one, then the error of the named file.
pub fn combine_config_errors(first: &Option<String>, error: &str) -> (r: String)
    ensures
        match first {
            Some(f) => r@ == f@ + "；"@ + error@,
            None => r@ == error@,
        },
{
    match first {
        Some(f) => concat3(f.as_str(), "；", error),
        None => owned(error),
    }
}

/// The arguments of `openclaw config set`, with `--strict-json` for values
/// that must be read as JSON.
pub open spec fn config_set_args(path: Seq<char>, value: Seq<char>, strict_json: bool) -> Seq<
    Seq<char>,
> {
    if strict_json {
        seq!["config"@, "set"@, "--strict-json"@, path, value]
    } else {
        seq!["config"@, "set"@, path, value]
    }
}

/// Builds the arguments of `openclaw config set`.
pub fn config_set_arguments(path: &str, value: &str, strict_json: bool) -> (r: Vec<String>)
    ensures
        views(r@) == config_set_args(path@, value@, strict_json),
{
    let mut v: Vec<String> = Vec::new();
    crate::text::push_text(&mut v, "config");
    crate::text::push_text(&mut v, "set");
    if strict_json {
        crate::text::push_text(&mut v, "--strict-json");
    }
    crate::text::push_text(&mut v, path);
    crate::text::push_text(&mut v, value);
    assert(views(v@) =~= config_set_args(path@, value@, strict_json));
    v
}

} // verus!
