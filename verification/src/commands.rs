//! The decisions behind the helper's commands: checking what the user asked
//! for, choosing how a gateway command runs on Windows, building the
//! scripts and command lines that are run, and the messages that report
//! how a run ended.
use vstd::prelude::*;
use crate::install_flow::{no_lines, one_line, with_code};
use crate::paths::{extension_text, no_extension, path_extension, plain_extension};
use crate::platform::Platform;
use crate::task::{opt_view, owned};
use crate::text::{
    chars_of, concat2, concat3, has_char, int_text, join, join_texts, lines, lower, push_char,
    push_owned, push_text, split_lines, views,
};

verus! {

broadcast use vstd::string::group_string_axioms;

/// The message when `openclaw` is run without arguments.
pub open spec fn missing_args_message() -> Seq<char> {
    "缺少 openclaw 参数"@
}

/// `openclaw` must be given at least one argument.
pub fn check_openclaw_args(args: &[String]) -> (r: Result<(), String>)
    ensures
        r is Ok <==> args@.len() > 0,
        r matches Err(e) ==> e@ == missing_args_message(),
{
    if args.len() == 0 {
        Err(owned("缺少 openclaw 参数"))
    } else {
        Ok(())
    }
}

/// How a gateway command runs on Windows: installing the service needs
/// administrator rights, and the gateway is started and stopped directly
/// rather than through a scheduled task.
#[derive(PartialEq, Eq, Structural, Clone, Copy, Debug)]
pub enum GatewayRoute {
    Install,
    Start,
    Stop,
    Other,
}

/// The route of `openclaw <args>`: on Windows `gateway install …` (two or more
/// arguments), `gateway start` and `gateway stop` (exactly two) are handled
/// apart; everything else, and everything elsewhere, runs as it is.
pub open spec fn route_of(platform: Platform, args: Seq<Seq<char>>) -> GatewayRoute {
    if platform != Platform::Windows || args.len() < 2 || args[0] != "gateway"@ {
        GatewayRoute::Other
    } else if args[1] == "install"@ {
        GatewayRoute::Install
    } else if args.len() == 2 && args[1] == "start"@ {
        GatewayRoute::Start
    } else if args.len() == 2 && args[1] == "stop"@ {
        GatewayRoute::Stop
    } else {
        GatewayRoute::Other
    }
}

/// Chooses how `openclaw <args>` runs.
pub fn gateway_route(platform: Platform, args: &[String]) -> (r: GatewayRoute)
    ensures
        r == route_of(platform, views(args@)),
{
    proof {
        assert(args@.len() >= 2 ==> views(args@)[0] == args@[0]@ && views(args@)[1] == args@[1]@);
    }
    if platform != Platform::Windows || args.len() < 2 || !crate::text::str_eq(
        args[0].as_str(),
        "gateway",
    ) {
        GatewayRoute::Other
    } else if crate::text::str_eq(args[1].as_str(), "install") {
        GatewayRoute::Install
    } else if args.len() == 2 && crate::text::str_eq(args[1].as_str(), "start") {
        GatewayRoute::Start
    } else if args.len() == 2 && crate::text::str_eq(args[1].as_str(), "stop") {
        GatewayRoute::Stop
    } else {
        GatewayRoute::Other
    }
}

/// The arguments `openclaw` runs with: colours off, then the user's.
pub fn openclaw_run_args(args: &[String]) -> (r: Vec<String>)
    ensures
        views(r@) == seq!["--no-color"@] + views(args@),
{
    let mut v: Vec<String> = Vec::new();
    push_text(&mut v, "--no-color");
    let ghost head = views(v@);
    let mut i: usize = 0;
    while i < args.len()
        invariant
            i <= args.len(),
            head == seq!["--no-color"@],
            views(v@) == head + views(args@).take(i as int),
        decreases args.len() - i,
    {
        push_text(&mut v, args[i].as_str());
        assert(views(args@).take(i + 1) =~= views(args@).take(i as int).push(args@[i as int]@));
        assert(views(v@) =~= head + views(args@).take(i + 1));
        i += 1;
    }
    assert(views(args@).take(args.len() as int) =~= views(args@));
    v
}

/// The log line that opens a run: `openclaw <args> (<source>)`.
pub fn run_log_line(args: &Vec<String>, source: &str) -> (r: String)
    ensures
        r@ == "openclaw "@ + join(views(args@), " "@) + " ("@ + source@ + ")"@,
{
    let joined = join_texts(args, " ");
    let mut s = concat3("openclaw ", joined.as_str(), " (");
    s.append(source);
    s.append(")");
    s
}

/// How a streamed `openclaw` run ended: success on exit code 0.
pub fn run_exit_result(code: i32) -> (r: Result<(), String>)
    ensures
        r is Ok <==> code == 0,
        r matches Err(e) ==> e@ == "openclaw 退出码："@ + int_text(code as int),
{
    if code == 0 {
        Ok(())
    } else {
        let m = with_code("openclaw 退出码：", code, "");
        proof {
            reveal_strlit("");
        }
        assert(m@ =~= "openclaw 退出码："@ + int_text(code as int));
        Err(m)
    }
}

/// How the elevated `gateway install` ended: on exit code 0 a line to log,
/// otherwise the error.
pub fn elevated_install_result(code: i32) -> (r: Result<String, String>)
    ensures
        r is Ok <==> code == 0,
        r matches Ok(l) ==> l@ == "[gateway] install: ok"@,
        r matches Err(e) ==> e@ == "gateway install 失败（退出码 "@ + int_text(code as int) + "）"@,
{
    if code == 0 {
        Ok(owned("[gateway] install: ok"))
    } else {
        Err(with_code("gateway install 失败（退出码 ", code, "）"))
    }
}

/// The text of `s` ready to stand between single quotes in PowerShell: each
/// `'` doubled.
pub open spec fn ps_quoted(s: Seq<char>) -> Seq<char>
    decreases s.len(),
{
    if s.len() == 0 {
        seq![]
    } else if s.last() == '\'' {
        ps_quoted(s.drop_last()) + seq!['\'', '\'']
    } else {
        ps_quoted(s.drop_last()).push(s.last())
    }
}

/// Doubles each `'` of `value`, for a single-quoted PowerShell string.
pub fn powershell_escape_single_quoted(value: &str) -> (r: String)
    ensures
        r@ == ps_quoted(value@),
{
    let v = chars_of(value);
    let mut s = String::new();
    let mut i: usize = 0;
    assert(v@.take(0) =~= Seq::<char>::empty());
    while i < v.len()
        invariant
            i <= v.len(),
            v@ == value@,
            s@ == ps_quoted(v@.take(i as int)),
        decreases v.len() - i,
    {
        assert(v@.take(i + 1).drop_last() =~= v@.take(i as int));
        assert(v@.take(i + 1).last() == v@[i as int]);
        if v[i] == '\'' {
            push_char(&mut s, '\'');
            push_char(&mut s, '\'');
        } else {
            push_char(&mut s, v[i]);
        }
        assert(s@ =~= ps_quoted(v@.take(i + 1)));
        i += 1;
    }
    assert(v@.take(v.len() as int) =~= v@);
    s
}

/// An extension of a Windows batch script: `cmd` or `bat`, in any case.
pub open spec fn batch_ext(e: Seq<char>) -> bool {
    lower(e) == "cmd"@ || lower(e) == "bat"@
}

/// Whether an extension is that of a Windows batch script.
pub fn is_batch_extension(ext: &str) -> (b: bool)
    ensures
        b == batch_ext(ext@),
{
    let l = crate::text::lower_vec(&chars_of(ext));
    crate::text::same_text(&l, "cmd") || crate::text::same_text(&l, "bat")
}

/// Whether `path` names a Windows batch script, which must be started
/// through `cmd.exe`: its extension, as `Path::extension` finds it, is a
/// batch script's. Where the platforms' path rules could disagree on the
/// extension (see `plain_extension`), only the first clause is stated.
pub fn is_batch_script(path: &str) -> (b: bool)
    ensures
        b ==> has_char(path@, '.'),
        no_extension(path@) ==> !b,
        plain_extension(path@) ==> (b == batch_ext(extension_text(path@))),
{
    match path_extension(path) {
        Some(e) => is_batch_extension(e.as_str()),
        None => false,
    }
}

/// The PowerShell words of an argument list: each argument single-quoted.
pub open spec fn ps_words(args: Seq<Seq<char>>) -> Seq<Seq<char>> {
    args.map_values(|a: Seq<char>| "'"@ + ps_quoted(a) + "'"@)
}

/// The PowerShell script that runs `openclaw <args>` elevated (through UAC)
/// in a visible window and exits with its exit code; a batch script is
/// started through `cmd.exe`.
pub open spec fn elevated_script(path: Seq<char>, args: Seq<Seq<char>>, batch: bool) -> Seq<char> {
    let note = "# Show a visible window for elevated install steps (UAC-required), so users can see progress/errors.\n"@;
    if batch {
        "$ErrorActionPreference='Stop';\n$command='\"\""@ + ps_quoted(path) + "\" "@ + join(args, " "@)
            + "\"';\n"@ + note
            + "$p=Start-Process -FilePath 'cmd.exe' -ArgumentList @('/d','/s','/c',$command) -Verb RunAs -PassThru -Wait -WindowStyle Normal;\nexit $p.ExitCode\n"@
    } else {
        "$ErrorActionPreference='Stop';\n"@ + note + "$p=Start-Process -FilePath '"@ + ps_quoted(path)
            + "' -ArgumentList @("@ + join(ps_words(args), ", "@)
            + ") -Verb RunAs -PassThru -Wait -WindowStyle Normal;\nexit $p.ExitCode\n"@
    }
}

/// Builds the PowerShell script of an elevated `openclaw` run.
pub fn elevated_powershell_script(path: &str, args: &Vec<String>, batch: bool) -> (r: String)
    ensures
        r@ == elevated_script(path@, views(args@), batch),
{
    let escaped = powershell_escape_single_quoted(path);
    let note = "# Show a visible window for elevated install steps (UAC-required), so users can see progress/errors.\n";
    if batch {
        let joined = join_texts(args, " ");
        let mut s = concat3("$ErrorActionPreference='Stop';\n$command='\"\"", escaped.as_str(), "\" ");
        s.append(joined.as_str());
        s.append("\"';\n");
        s.append(note);
        s.append(
            "$p=Start-Process -FilePath 'cmd.exe' -ArgumentList @('/d','/s','/c',$command) -Verb RunAs -PassThru -Wait -WindowStyle Normal;\nexit $p.ExitCode\n",
        );
        s
    } else {
        let mut words: Vec<String> = Vec::new();
        let mut i: usize = 0;
        while i < args.len()
            invariant
                i <= args.len(),
                views(words@) == ps_words(views(args@)).take(i as int),
            decreases args.len() - i,
        {
            let q = powershell_escape_single_quoted(args[i].as_str());
            push_owned(&mut words, concat3("'", q.as_str(), "'"));
            assert(ps_words(views(args@)).take(i + 1) =~= ps_words(views(args@)).take(i as int).push(
                "'"@ + ps_quoted(args@[i as int]@) + "'"@,
            ));
            i += 1;
        }
        assert(ps_words(views(args@)).take(args.len() as int) =~= ps_words(views(args@)));
        let list = join_texts(&words, ", ");
        let mut s = concat3("$ErrorActionPreference='Stop';\n", note, "$p=Start-Process -FilePath '");
        s.append(escaped.as_str());
        s.append("' -ArgumentList @(");
        s.append(list.as_str());
        s.append(") -Verb RunAs -PassThru -Wait -WindowStyle Normal;\nexit $p.ExitCode\n");
        s
    }
}

/// The arguments of the elevated gateway service install.
pub fn elevated_install_args() -> (r: Vec<String>)
    ensures
        views(r@) == seq!["--no-color"@, "gateway"@, "install"@],
{
    let mut v: Vec<String> = Vec::new();
    push_text(&mut v, "--no-color");
    push_text(&mut v, "gateway");
    push_text(&mut v, "install");
    assert(views(v@) =~= seq!["--no-color"@, "gateway"@, "install"@]);
    v
}

/// A text escaped for an AppleScript string: `\` and `"` behind a `\`.
pub open spec fn applescript_escaped(s: Seq<char>) -> Seq<char>
    decreases s.len(),
{
    if s.len() == 0 {
        seq![]
    } else if s.last() == '\\' {
        applescript_escaped(s.drop_last()) + seq!['\\', '\\']
    } else if s.last() == '"' {
        applescript_escaped(s.drop_last()) + seq!['\\', '"']
    } else {
        applescript_escaped(s.drop_last()).push(s.last())
    }
}

/// Escapes a text for an AppleScript string.
pub fn applescript_escape(value: &str) -> (r: String)
    ensures
        r@ == applescript_escaped(value@),
{
    let v = chars_of(value);
    let mut s = String::new();
    let mut i: usize = 0;
    assert(v@.take(0) =~= Seq::<char>::empty());
    while i < v.len()
        invariant
            i <= v.len(),
            v@ == value@,
            s@ == applescript_escaped(v@.take(i as int)),
        decreases v.len() - i,
    {
        assert(v@.take(i + 1).drop_last() =~= v@.take(i as int));
        assert(v@.take(i + 1).last() == v@[i as int]);
        if v[i] == '\\' {
            push_char(&mut s, '\\');
            push_char(&mut s, '\\');
        } else if v[i] == '"' {
            push_char(&mut s, '\\');
            push_char(&mut s, '"');
        } else {
            push_char(&mut s, v[i]);
        }
        assert(s@ =~= applescript_escaped(v@.take(i + 1)));
        i += 1;
    }
    assert(v@.take(v.len() as int) =~= v@);
    s
}

/// The shell command that opens the setup wizard: `<openclaw> onboard`, the
/// path in double quotes when it holds a space.
pub open spec fn onboard_shell_command(command: Seq<char>) -> Seq<char> {
    if has_char(command, ' ') {
        "\""@ + command + "\" onboard"@
    } else {
        command + " onboard"@
    }
}

/// The message where no terminal can be opened for the wizard.
pub open spec fn no_wizard_message() -> Seq<char> {
    "当前平台暂不支持自动打开配置向导终端窗口。"@
}

/// The AppleScript that opens Terminal on the setup wizard (macOS only).
pub open spec fn wizard_script(platform: Platform, command: Seq<char>) -> Result<Seq<char>, Seq<char>> {
    if platform == Platform::MacOs {
        Ok(
            "tell application \"Terminal\"\nactivate\ndo script \""@ + applescript_escaped(
                onboard_shell_command(command),
            ) + "\"\nend tell"@,
        )
    } else {
        Err(no_wizard_message())
    }
}

/// Builds the AppleScript that opens the setup wizard in Terminal.
pub fn wizard_applescript(platform: Platform, command: &str) -> (r: Result<String, String>)
    ensures
        match (r, wizard_script(platform, command@)) {
            (Ok(s), Ok(x)) => s@ == x,
            (Err(e), Err(x)) => e@ == x,
            _ => false,
        },
{
    if platform != Platform::MacOs {
        return Err(owned("当前平台暂不支持自动打开配置向导终端窗口。"));
    }
    let cv = chars_of(command);
    let shell = if crate::text::contains_char(&cv, ' ') {
        concat3("\"", command, "\" onboard")
    } else {
        concat2(command, " onboard")
    };
    let escaped = applescript_escape(shell.as_str());
    Ok(concat3("tell application \"Terminal\"\nactivate\ndo script \"", escaped.as_str(), "\"\nend tell"))
}

/// A word of a logged command line: in double quotes when it holds a space.
pub open spec fn log_word(a: Seq<char>) -> Seq<char> {
    if has_char(a, ' ') {
        "\""@ + a + "\""@
    } else {
        a
    }
}

/// How a command line is logged: the program, then each argument, quoted
/// when it holds a space, separated by spaces.
pub open spec fn command_line(program: Seq<char>, args: Seq<Seq<char>>) -> Seq<char> {
    join(seq![program] + args.map_values(|a: Seq<char>| log_word(a)), " "@)
}

/// Formats a command line for the log.
pub fn format_command_for_log(program: &str, args: &Vec<String>) -> (r: String)
    ensures
        r@ == command_line(program@, views(args@)),
{
    let mut parts: Vec<String> = Vec::new();
    push_text(&mut parts, program);
    let ghost head = views(parts@);
    let mut i: usize = 0;
    while i < args.len()
        invariant
            i <= args.len(),
            head == seq![program@],
            views(parts@) == head + views(args@).take(i as int).map_values(|a: Seq<char>| log_word(a)),
        decreases args.len() - i,
    {
        let a = args[i].as_str();
        let av = chars_of(a);
        if crate::text::contains_char(&av, ' ') {
            push_owned(&mut parts, concat3("\"", a, "\""));
        } else {
            push_text(&mut parts, a);
        }
        assert(views(args@).take(i + 1) =~= views(args@).take(i as int).push(args@[i as int]@));
        assert(views(parts@) =~= head + views(args@).take(i + 1).map_values(|a: Seq<char>| log_word(a)));
        i += 1;
    }
    assert(views(args@).take(args.len() as int) =~= views(args@));
    join_texts(&parts, " ")
}

/// The status text when `openclaw gateway status` could not run.
pub fn gateway_status_failure_text(error: &str) -> (r: String)
    ensures
        r@ == "gateway status failed: "@ + error@,
{
    concat2("gateway status failed: ", error)
}

/// The first 60 lines of `openclaw gateway status`, as logged after a failed
/// onboarding.
pub open spec fn gateway_report(text: Seq<char>) -> Seq<Seq<char>> {
    let ls = lines(text);
    let shown = if ls.len() > 60 {
        ls.take(60)
    } else {
        ls
    };
    shown.map_values(|l: Seq<char>| "[gateway] "@ + l)
}

/// Builds the log lines of `openclaw gateway status` after a failed onboarding.
pub fn gateway_report_lines(text: &str) -> (r: Vec<String>)
    ensures
        views(r@) == gateway_report(text@),
{
    let ls = split_lines(text);
    let n = if ls.len() > 60 {
        60
    } else {
        ls.len()
    };
    let ghost shown = views(ls@).take(n as int);
    let mut out: Vec<String> = Vec::new();
    let mut i: usize = 0;
    while i < n
        invariant
            i <= n <= ls.len(),
            shown == views(ls@).take(n as int),
            views(out@) == shown.take(i as int).map_values(|l: Seq<char>| "[gateway] "@ + l),
        decreases n - i,
    {
        push_owned(&mut out, concat2("[gateway] ", ls[i].as_str()));
        assert(shown.take(i + 1) =~= shown.take(i as int).push(ls@[i as int]@));
        assert(views(out@) =~= shown.take(i + 1).map_values(|l: Seq<char>| "[gateway] "@ + l));
        i += 1;
    }
    assert(shown.take(n as int) =~= shown);
    assert(views(ls@).take(ls.len() as int) =~= views(ls@));
    out
}

/// One diagnostic probe: its label, program and arguments.
pub struct Probe {
    pub label: String,
    pub program: String,
    pub args: Vec<String>,
}

/// Abstract view of a probe.
pub open spec fn probe_views(v: Seq<Probe>) -> Seq<(Seq<char>, Seq<char>, Seq<Seq<char>>)> {
    v.map_values(|p: Probe| (p.label@, p.program@, views(p.args@)))
}

/// The tools whose versions and settings the installation log records, in order.
pub open spec fn diagnostic_probes() -> Seq<(Seq<char>, Seq<char>, Seq<Seq<char>>)> {
    seq![
        ("brew"@, "brew"@, seq!["--version"@]),
        ("git"@, "git"@, seq!["--version"@]),
        ("node -v"@, "node"@, seq!["-v"@]),
        ("node execPath"@, "node"@, seq!["-p"@, "process.execPath"@]),
        ("npm -v"@, "npm"@, seq!["-v"@]),
        ("npm prefix -g"@, "npm"@, seq!["prefix"@, "-g"@]),
        ("npm config get prefix"@, "npm"@, seq!["config"@, "get"@, "prefix"@]),
        ("npm config get userconfig"@, "npm"@, seq!["config"@, "get"@, "userconfig"@]),
    ]
}

/// Appends a probe.
fn push_probe(v: &mut Vec<Probe>, label: &str, program: &str, args: Vec<String>)
    ensures
        probe_views(final(v)@) == probe_views(old(v)@).push((label@, program@, views(args@))),
{
    let ghost before = probe_views(v@);
    let ghost av = views(args@);
    v.push(Probe { label: owned(label), program: owned(program), args });
    assert(probe_views(v@) =~= before.push((label@, program@, av)));
}

/// One word.
fn one_word(a: &str) -> (r: Vec<String>)
    ensures
        views(r@) == seq![a@],
{
    let mut v: Vec<String> = Vec::new();
    push_text(&mut v, a);
    assert(views(v@) =~= seq![a@]);
    v
}

/// Two words.
fn two_words(a: &str, b: &str) -> (r: Vec<String>)
    ensures
        views(r@) == seq![a@, b@],
{
    let mut v = one_word(a);
    push_text(&mut v, b);
    assert(views(v@) =~= seq![a@, b@]);
    v
}

/// Three words.
fn three_words(a: &str, b: &str, c: &str) -> (r: Vec<String>)
    ensures
        views(r@) == seq![a@, b@, c@],
{
    let mut v = two_words(a, b);
    push_text(&mut v, c);
    assert(views(v@) =~= seq![a@, b@, c@]);
    v
}

/// Builds the diagnostic probes of the installation log.
pub fn diagnostic_probe_list() -> (r: Vec<Probe>)
    ensures
        probe_views(r@) == diagnostic_probes(),
{
    let mut v: Vec<Probe> = Vec::new();
    push_probe(&mut v, "brew", "brew", one_word("--version"));
    push_probe(&mut v, "git", "git", one_word("--version"));
    push_probe(&mut v, "node -v", "node", one_word("-v"));
    push_probe(&mut v, "node execPath", "node", two_words("-p", "process.execPath"));
    push_probe(&mut v, "npm -v", "npm", one_word("-v"));
    push_probe(&mut v, "npm prefix -g", "npm", two_words("prefix", "-g"));
    push_probe(&mut v, "npm config get prefix", "npm", three_words("config", "get", "prefix"));
    push_probe(
        &mut v,
        "npm config get userconfig",
        "npm",
        three_words("config", "get", "userconfig"),
    );
    assert(probe_views(v@) =~= diagnostic_probes());
    v
}

/// What a probe's output gives in the log: its non-empty lines joined with
/// `" | "`, or the reason it failed.
pub open spec fn probe_text(result: Result<Seq<char>, Seq<char>>) -> Seq<char> {
    match result {
        Ok(t) => join(lines(t), " | "@),
        Err(e) => "(failed: "@ + e + ")"@,
    }
}

/// A text cut to its first 800 bytes, followed by `…`, when it is longer.
pub open spec fn shortened(t: Seq<char>) -> Seq<char> {
    if crate::text::utf8_len(t) > 800 {
        t.take(crate::openclaw::fit_from(t, 800, 0)) + "…"@
    } else {
        t
    }
}

/// The text of a probe fits the cut: a long one has a character boundary
/// at byte 800 (elsewhere the cut panics).
pub open spec fn cut_fits(t: Seq<char>) -> bool {
    crate::text::utf8_len(t) > 800 ==> crate::text::utf8_len(
        t.take(crate::openclaw::fit_from(t, 800, 0)),
    ) == 800
}

/// The text a diagnostic probe gives in the log.
pub fn diagnostic_text(result: &Result<String, String>) -> (r: String)
    ensures
        r@ == probe_text(
            match result {
                Ok(t) => Ok(t@),
                Err(e) => Err(e@),
            },
        ),
{
    match result {
        Ok(t) => {
            let ls = split_lines(t.as_str());
            join_texts(&ls, " | ")
        },
        Err(e) => concat3("(failed: ", e.as_str(), ")"),
    }
}

/// The log line of a diagnostic probe: `<label>: <text>`, the text cut to
/// 800 bytes; the cut must fall between two characters, as it must for
/// string slicing, which panics elsewhere.
pub fn diagnostic_line(label: &str, text: &str) -> (r: String)
    requires
        cut_fits(text@),
    ensures
        r@ == label@ + ": "@ + shortened(text@),
{
    let v = chars_of(text);
    if crate::text::utf8_len_exceeds(&v, 800) {
        let k = crate::openclaw::fit_count(&v, 800);
        let mut c = crate::text::string_of(&v, 0, k);
        assert(v@.subrange(0, k as int) =~= v@.take(k as int));
        c.append("…");
        concat3(label, ": ", c.as_str())
    } else {
        concat3(label, ": ", text)
    }
}

/// The log line on whether `~/.nvm` exists.
pub fn nvm_dir_line(exists: bool) -> (r: String)
    ensures
        r@ == "nvm dir: "@ + (if exists {
            "yes"@
        } else {
            "no"@
        }),
{
    if exists {
        concat2("nvm dir: ", "yes")
    } else {
        concat2("nvm dir: ", "no")
    }
}

/// The log line listing the Node.js versions under nvm, sorted, when there
/// are any.
pub fn nvm_versions_line(names: &Vec<String>) -> (r: Option<String>)
    ensures
        names@.len() == 0 <==> r is None,
        r matches Some(l) ==> exists|sorted: Seq<Seq<char>>|
            crate::config::strictly_sorted(sorted) && (forall|t: Seq<char>|
                sorted.contains(t) <==> views(names@).contains(t)) && l@ == "nvm node versions: "@
                + join(sorted, ", "@),
{
    if names.len() == 0 {
        return None;
    }
    let mut sorted: Vec<String> = Vec::new();
    let mut i: usize = 0;
    while i < names.len()
        invariant
            i <= names.len(),
            crate::config::strictly_sorted(views(sorted@)),
            forall|t: Seq<char>|
                views(sorted@).contains(t) <==> views(names@).take(i as int).contains(t),
        decreases names.len() - i,
    {
        let ghost before = views(sorted@);
        let name = names[i].clone();
        let ghost nm = name@;
        assert(nm == names@[i as int]@);
        crate::config::insert_sorted(&mut sorted, name);
        proof {
            let prev = views(names@).take(i as int);
            let tk = views(names@).take(i + 1);
            assert(tk =~= prev.push(nm));
            assert forall|t: Seq<char>| views(sorted@).contains(t) <==> tk.contains(t) by {
                if prev.contains(t) {
                    let k = choose|k: int| 0 <= k < prev.len() && prev[k] == t;
                    assert(tk[k] == t);
                }
                if t == nm {
                    assert(tk[i as int] == t);
                }
                if tk.contains(t) {
                    let k = choose|k: int| 0 <= k < tk.len() && tk[k] == t;
                    if k < i {
                        assert(prev[k] == t);
                    }
                }
            }
        }
        i += 1;
    }
    assert(views(names@).take(names.len() as int) =~= views(names@));
    let joined = join_texts(&sorted, ", ");
    let l = concat2("nvm node versions: ", joined.as_str());
    proof {
        assert(crate::config::strictly_sorted(views(sorted@)));
    }
    Some(l)
}

/// The log line on where `openclaw` was found.
pub fn resolved_line(source: Option<&str>) -> (r: String)
    ensures
        r@ == match source {
            Some(s) => "openclaw resolved: (found) ("@ + s@ + ")"@,
            None => "openclaw resolved: (not found)"@,
        },
{
    match source {
        Some(s) => concat3("openclaw resolved: (found) (", s, ")"),
        None => owned("openclaw resolved: (not found)"),
    }
}

/// The log line of `openclaw --version`: its first non-empty line, or a note
/// that it printed nothing or did not run.
pub fn version_line(output: &Option<(String, String)>) -> (r: String)
    ensures
        r@ == "openclaw --version: "@ + match output {
            Some((o, e)) => match crate::openclaw::first_line(o@ + "\n"@ + e@) {
                Some(l) => l,
                None => "(no output)"@,
            },
            None => "(failed)"@,
        },
{
    match output {
        Some((o, e)) => {
            let combined = crate::gateway::combine_output(o.as_str(), e.as_str());
            match crate::openclaw::parse_version_from_output(combined.as_str()) {
                Some(l) => concat2("openclaw --version: ", l.as_str()),
                None => concat2("openclaw --version: ", "(no output)"),
            }
        },
        None => concat2("openclaw --version: ", "(failed)"),
    }
}

/// Where the port-based stop of the gateway stands after reading its status.
pub enum PortStop {
    /// The status gives no dashboard address.
    NoDashboard,
    /// The dashboard address gives no port.
    NoPort(String),
    /// The gateway listens on this port.
    Port(u16),
}

/// Finds the port to free from the output of `openclaw gateway status`.
pub fn port_stop_target(status_text: &str) -> (r: PortStop)
    ensures
        match crate::gateway::status_of(status_text@).1 {
            None => r is NoDashboard,
            Some(url) => match crate::gateway::url_port(url) {
                None => r matches PortStop::NoPort(u) && u@ == url,
                Some(p) => r matches PortStop::Port(q) && q as nat == p,
            },
        },
{
    let status = crate::gateway::parse_gateway_status(status_text);
    match status.dashboard_url {
        None => PortStop::NoDashboard,
        Some(url) => match crate::gateway::windows_extract_port_from_url(url.as_str()) {
            None => PortStop::NoPort(url),
            Some(p) => PortStop::Port(p),
        },
    }
}

/// The processes to stop on the port: all those listening there but the
/// helper itself, in order.
pub fn stop_targets(pids: &Vec<u32>, current: u32) -> (r: Vec<u32>)
    ensures
        r@ == pids@.filter(|p: u32| p != current),
{
    let mut out: Vec<u32> = Vec::new();
    let mut i: usize = 0;
    while i < pids.len()
        invariant
            i <= pids.len(),
            out@ == pids@.take(i as int).filter(|p: u32| p != current),
        decreases pids.len() - i,
    {
        assert(pids@.take(i + 1).drop_last() =~= pids@.take(i as int));
        reveal(Seq::filter);
        if pids[i] != current {
            out.push(pids[i]);
        }
        i += 1;
    }
    assert(pids@.take(pids.len() as int) =~= pids@);
    out
}

/// What stopping the directly started Windows gateway does first.
pub enum DirectStop {
    /// Stop the gateway process the helper holds.
    HeldChild,
    /// Stop the recorded gateway process with this id.
    Recorded(u32),
    /// Neither is there: read the gateway status and stop by port.
    ByPort,
}

/// The first step of stopping the direct gateway: the process the helper
/// holds, else the recorded process, else the port-based stop.
pub fn direct_stop_step(holds_child: bool, tracked_pid: Option<u32>) -> (r: DirectStop)
    ensures
        holds_child ==> r is HeldChild,
        !holds_child ==> match tracked_pid {
            Some(p) => r matches DirectStop::Recorded(q) && q == p,
            None => r is ByPort,
        },
{
    if holds_child {
        DirectStop::HeldChild
    } else {
        match tracked_pid {
            Some(p) => DirectStop::Recorded(p),
            None => DirectStop::ByPort,
        }
    }
}

/// Whether a stop of the direct gateway stopped anything: always when a
/// held or recorded process was stopped; by port, only when the status gave
/// a port and some process other than the helper listened on it.
pub fn direct_stop_result(step: &DirectStop, port: &PortStop, targets: &Vec<u32>) -> (r: bool)
    ensures
        r == match step {
            DirectStop::ByPort => port is Port && targets@.len() > 0,
            _ => true,
        },
{
    match step {
        DirectStop::ByPort => match port {
            PortStop::Port(_) => targets.len() > 0,
            _ => false,
        },
        _ => true,
    }
}

/// What starting the direct Windows gateway does.
pub enum DirectStart {
    /// The gateway process the helper holds still runs: nothing to do.
    HeldRunning,
    /// The recorded gateway process with this id still runs: nothing to do.
    RecordedRunning(u32),
    /// Start a new gateway process.
    Spawn,
}

/// The decision of a direct gateway start: nothing when the held process
/// still runs or a recorded one does, otherwise a new process.
pub fn direct_start_step(held_running: bool, tracked_pid: Option<u32>) -> (r: DirectStart)
    ensures
        held_running ==> r is HeldRunning,
        !held_running ==> match tracked_pid {
            Some(p) => r matches DirectStart::RecordedRunning(q) && q == p,
            None => r is Spawn,
        },
{
    if held_running {
        DirectStart::HeldRunning
    } else {
        match tracked_pid {
            Some(p) => DirectStart::RecordedRunning(p),
            None => DirectStart::Spawn,
        }
    }
}

/// The program and arguments of the WeChat connector setup:
/// `npx -y @tencent-weixin/openclaw-weixin-cli@latest install` (`npx.cmd` on
/// Windows).
pub fn weixin_command(platform: Platform) -> (r: (String, Vec<String>))
    ensures
        r.0@ == (if platform == Platform::Windows {
            "npx.cmd"@
        } else {
            "npx"@
        }),
        views(r.1@) == seq!["-y"@, "@tencent-weixin/openclaw-weixin-cli@latest"@, "install"@],
{
    let program = if platform == Platform::Windows {
        owned("npx.cmd")
    } else {
        owned("npx")
    };
    (program, three_words("-y", "@tencent-weixin/openclaw-weixin-cli@latest", "install"))
}

/// How the WeChat connector setup ended: success on exit code 0; a failure
/// to start points at a missing Node.js.
pub fn weixin_result(run: &Result<i32, String>) -> (r: Result<(), String>)
    ensures
        r is Ok <==> run == &Ok::<i32, String>(0),
        match run {
            Ok(c) => r matches Err(e) ==> e@ == "执行结束（退出码 "@ + int_text(*c as int) + "）"@,
            Err(d) => r matches Err(e) && e@ == "运行 npx 失败：请确认 Node.js 环境已安装。\n详情："@ + d@,
        },
{
    match run {
        Ok(c) => {
            if *c == 0 {
                Ok(())
            } else {
                Err(with_code("执行结束（退出码 ", *c, "）"))
            }
        },
        Err(d) => Err(concat2("运行 npx 失败：请确认 Node.js 环境已安装。\n详情：", d.as_str())),
    }
}

/// The shim files tried next to a command that is still found on Windows.
pub fn windows_shim_names() -> (r: Vec<String>)
    ensures
        views(r@) == seq!["openclaw.cmd"@, "openclaw"@, "openclaw.ps1"@],
{
    three_words("openclaw.cmd", "openclaw", "openclaw.ps1")
}

/// The log lines of the shims removed, when there are any.
pub fn shim_report_lines(removed: &Vec<String>) -> (r: Vec<String>)
    ensures
        views(r@) == (if removed@.len() == 0 {
            Seq::<Seq<char>>::empty()
        } else {
            seq!["[cleanup] removed "@ + crate::text::decimal(removed@.len() as nat) + " shim(s)"@]
                + views(removed@).map_values(|i: Seq<char>| "[cleanup] shim: "@ + i)
        }),
{
    if removed.len() == 0 {
        return no_lines();
    }
    let count = crate::text::nat_text(removed.len() as u64);
    let mut out = one_line(concat3("[cleanup] removed ", count.as_str(), " shim(s)"));
    let ghost head = views(out@);
    let mut i: usize = 0;
    while i < removed.len()
        invariant
            i <= removed.len(),
            views(out@) == head + views(removed@).take(i as int).map_values(
                |x: Seq<char>| "[cleanup] shim: "@ + x,
            ),
        decreases removed.len() - i,
    {
        push_owned(&mut out, concat2("[cleanup] shim: ", removed[i].as_str()));
        assert(views(removed@).take(i + 1) =~= views(removed@).take(i as int).push(
            removed@[i as int]@,
        ));
        assert(views(out@) =~= head + views(removed@).take(i + 1).map_values(
            |x: Seq<char>| "[cleanup] shim: "@ + x,
        ));
        i += 1;
    }
    assert(views(removed@).take(removed.len() as int) =~= views(removed@));
    out
}

} // verus!
