use openclaw_helper::config::{
    collect_workspace_markdown_names, combine_config_errors, config_file_path_from_output,
    config_get_result, config_section, config_set_arguments, default_openclaw_config_file_path, default_workspace_dir, empty_object,
    expand_home_path, expand_home_path_with, find_model_index, get_json_value_at_path, home_dir,
    model_setting_path, normalize_newlines, normalize_workspace_markdown_name,
    openclaw_command_error, openclaw_command_error_from_captured, openclaw_dir_path_with,
    parse_primary_model_ref_from_config_value, path_message, provider_setting_path, read_json_text,
    take_json_path,
    resolve_workspace_dir_from_agents_defaults, CapturedCommandOutput, JsonValue, PathSpec,
};

fn s(t: &str) -> JsonValue {
    JsonValue::Str(t.to_string())
}

fn obj(members: Vec<(&str, JsonValue)>) -> JsonValue {
    JsonValue::Object(members.into_iter().map(|(k, v)| (k.to_string(), v)).collect())
}

fn path(p: &PathSpec) -> (String, Vec<String>) {
    (p.base.clone(), p.components.clone())
}

#[test]
fn json_paths() {
    let root = obj(vec![(
        "agents",
        obj(vec![("defaults", obj(vec![("workspace", s("~/ws"))]))]),
    )]);
    match get_json_value_at_path(&root, &["agents", "defaults", "workspace"]) {
        Some(JsonValue::Str(t)) => assert_eq!(t, "~/ws"),
        _ => panic!("missing"),
    }
    assert!(get_json_value_at_path(&root, &["agents", "nope"]).is_none());
    assert!(get_json_value_at_path(&root, &["agents", "defaults", "workspace", "x"]).is_none());
    assert!(matches!(get_json_value_at_path(&root, &[]), Some(JsonValue::Object(_))));
}

#[test]
fn primary_model_reference() {
    let r = parse_primary_model_ref_from_config_value(&s(" openai / gpt-5 "));
    assert_eq!(r, Some(("openai".to_string(), "gpt-5".to_string())));
    let r = parse_primary_model_ref_from_config_value(&obj(vec![("primary", s("custom/a/b"))]));
    assert_eq!(r, Some(("custom".to_string(), "a/b".to_string())));
    assert_eq!(parse_primary_model_ref_from_config_value(&s("no-slash")), None);
    assert_eq!(parse_primary_model_ref_from_config_value(&s("/model")), None);
    assert_eq!(parse_primary_model_ref_from_config_value(&s("provider/ ")), None);
    assert_eq!(parse_primary_model_ref_from_config_value(&s("   ")), None);
    assert_eq!(parse_primary_model_ref_from_config_value(&JsonValue::Bool(true)), None);
    assert_eq!(parse_primary_model_ref_from_config_value(&obj(vec![("primary", JsonValue::Null)])), None);
}

#[test]
fn model_position_in_provider_list() {
    let models = JsonValue::Array(vec![
        obj(vec![("id", s("a"))]),
        obj(vec![("name", s("b"))]),
        obj(vec![("id", s(" gpt-5 "))]),
        obj(vec![("id", s("gpt-5"))]),
    ]);
    assert_eq!(find_model_index(&models, "gpt-5", "models.providers.p.models"), Ok(2));
    assert_eq!(
        find_model_index(&models, "zzz", "models.providers.p.models").unwrap_err(),
        "未在 models.providers.p.models 中找到 model=zzz"
    );
    assert_eq!(
        find_model_index(&s("x"), "a", "l").unwrap_err(),
        "models.providers.<provider>.models 不是数组"
    );
}

#[test]
fn setting_paths() {
    assert_eq!(provider_setting_path("custom", "api"), "models.providers.custom.api");
    assert_eq!(
        model_setting_path("custom", 12, "contextWindow"),
        "models.providers.custom.models[12].contextWindow"
    );
    assert_eq!(
        config_set_arguments("a.b", "1", true),
        vec!["config", "set", "--strict-json", "a.b", "1"]
    );
    assert_eq!(config_set_arguments("a.b", "x", false), vec!["config", "set", "a.b", "x"]);
}

#[test]
fn command_error_texts() {
    let out = CapturedCommandOutput { code: 3, stdout: " out ".into(), stderr: "  ".into() };
    assert_eq!(openclaw_command_error_from_captured(&out), "out");
    let out = CapturedCommandOutput { code: 3, stdout: "".into(), stderr: " err\n".into() };
    assert_eq!(openclaw_command_error_from_captured(&out), "err");
    let out = CapturedCommandOutput { code: -2, stdout: "".into(), stderr: "".into() };
    assert_eq!(openclaw_command_error_from_captured(&out), "退出码 -2");
    assert_eq!(openclaw_command_error("", "", Some(1)), "退出码 Some(1)");
    assert_eq!(openclaw_command_error("", "", None), "退出码 None");
    assert_eq!(openclaw_command_error("o", "", None), "o");
}

#[test]
fn home_directory_prefers_home_variable() {
    assert_eq!(home_dir(&Some("  /home/me  ".into())).as_deref(), Some("/home/me"));
    let fallback = dirs::home_dir().map(|p| p.to_string_lossy().to_string());
    assert_eq!(home_dir(&Some("   ".into())), fallback);
    assert_eq!(home_dir(&None), fallback);
}

#[test]
fn tilde_expansion() {
    let home = Some("/home/me".to_string());
    assert_eq!(path(&expand_home_path_with(" ~ ", home.clone())), ("/home/me".into(), vec![]));
    assert_eq!(
        path(&expand_home_path_with("~/docs/a", home.clone())),
        ("/home/me".into(), vec!["docs/a".to_string()])
    );
    assert_eq!(
        path(&expand_home_path_with("~\\docs", home.clone())),
        ("/home/me".into(), vec!["docs".to_string()])
    );
    assert_eq!(path(&expand_home_path_with("~docs", home.clone())), ("~docs".into(), vec![]));
    assert_eq!(path(&expand_home_path_with("~/x", None)), ("~/x".into(), vec![]));
    assert_eq!(
        path(&expand_home_path("~/y", &Some("/h".into()))),
        ("/h".into(), vec!["y".to_string()])
    );
}

#[test]
fn openclaw_directories() {
    assert_eq!(
        path(&openclaw_dir_path_with(Some("/h".into()), "openclaw.json")),
        ("/h".into(), vec![".openclaw".to_string(), "openclaw.json".to_string()])
    );
    assert_eq!(
        path(&openclaw_dir_path_with(None, "workspace")),
        (".openclaw".into(), vec!["workspace".to_string()])
    );
    assert_eq!(
        path(&default_openclaw_config_file_path(&Some("/h".into()))),
        ("/h".into(), vec![".openclaw".to_string(), "openclaw.json".to_string()])
    );
    let ws = default_workspace_dir();
    match dirs::home_dir() {
        Some(h) => assert_eq!(
            path(&ws),
            (h.to_string_lossy().to_string(), vec![".openclaw".to_string(), "workspace".to_string()])
        ),
        None => assert_eq!(path(&ws), (".openclaw".into(), vec!["workspace".to_string()])),
    }
}

#[test]
fn workspace_from_agents_defaults() {
    let home = Some("/h".to_string());
    let d = obj(vec![("workspace", s(" ~/work "))]);
    assert_eq!(
        path(&resolve_workspace_dir_from_agents_defaults(&d, &home)),
        ("/h".into(), vec!["work".to_string()])
    );
    let d = obj(vec![("workspace", s("/abs/ws"))]);
    assert_eq!(path(&resolve_workspace_dir_from_agents_defaults(&d, &home)), ("/abs/ws".into(), vec![]));
    let d = obj(vec![("workspace", s("  "))]);
    let fallback = resolve_workspace_dir_from_agents_defaults(&d, &home);
    assert_eq!(fallback.components.last().map(|c| c.as_str()), Some("workspace"));
}

#[test]
fn markdown_names_are_checked() {
    assert_eq!(normalize_workspace_markdown_name(" notes.MD ").as_deref(), Ok("notes.MD"));
    assert_eq!(normalize_workspace_markdown_name("").unwrap_err(), "Markdown 文件名不能为空。");
    assert_eq!(
        normalize_workspace_markdown_name("a/b.md").unwrap_err(),
        "Markdown 文件名不能包含路径分隔符。"
    );
    assert_eq!(normalize_workspace_markdown_name("a.txt").unwrap_err(), "仅支持编辑 .md 文件。");
    assert_eq!(normalize_workspace_markdown_name("a..md").unwrap_err(), "Markdown 文件名不合法。");
}

#[test]
fn workspace_markdown_listing() {
    let found: Vec<String> = ["zeta.md", "USER.md", "alpha.md", "notes.txt", "alpha.md", "Beta.MD"]
        .iter()
        .map(|x| x.to_string())
        .collect();
    let names = collect_workspace_markdown_names(&found);
    assert_eq!(
        names,
        vec![
            "SOUL.md", "USER.md", "AGENTS.md", "BOOTSTRAP.md", "IDENTITY.md", "TOOLS.md",
            "HEARTBEAT.md", "MEMORY.md", "Beta.MD", "alpha.md", "zeta.md",
        ]
    );
}

#[test]
fn newlines_are_normalized() {
    assert_eq!(normalize_newlines("a\r\nb\rc\r\n"), "a\nb\rc\n");
}

#[test]
fn config_file_path_errors() {
    let home = Some("/h".to_string());
    assert_eq!(
        config_file_path_from_output(false, "", "boom", Some(1), &home).err().unwrap(),
        "读取配置文件路径失败：boom"
    );
    assert_eq!(
        config_file_path_from_output(true, "  \n", "", Some(0), &home).err().unwrap(),
        "读取配置文件路径失败：openclaw 未返回路径。"
    );
    let p = config_file_path_from_output(true, "~/.openclaw/openclaw.json\n", "", Some(0), &home).ok().unwrap();
    assert_eq!(path(&p), ("/h".into(), vec![".openclaw/openclaw.json".to_string()]));
}

#[test]
fn config_messages() {
    assert_eq!(path_message("读取配置 ", "a.b", " 失败：", "x"), "读取配置 a.b 失败：x");
    assert_eq!(combine_config_errors(&Some("first".into()), "second"), "first；second");
    assert_eq!(combine_config_errors(&None, "second"), "second");
    assert!(matches!(empty_object(), JsonValue::Object(m) if m.is_empty()));
}

fn err_of(r: Result<JsonValue, String>) -> String {
    match r {
        Ok(_) => panic!("expected an error"),
        Err(e) => e,
    }
}

fn ok_of(r: Result<JsonValue, String>) -> JsonValue {
    match r {
        Ok(v) => v,
        Err(e) => panic!("unexpected error: {e}"),
    }
}

fn text_of(v: &JsonValue) -> Option<&str> {
    match v {
        JsonValue::Str(t) => Some(t.as_str()),
        _ => None,
    }
}

#[test]
fn json_text_is_parsed_or_reported() {
    let v = ok_of(read_json_text("/c.json", r#"{"gateway": {"port": 18789}, "a": [true, null, "x"]}"#));
    match &v {
        JsonValue::Object(ms) => {
            assert_eq!(ms.len(), 2);
            assert_eq!(ms[0].0, "a");
            assert!(matches!(&ms[0].1, JsonValue::Array(items) if items.len() == 3));
            assert_eq!(ms[1].0, "gateway");
        }
        _ => panic!("not an object"),
    }
    let port = take_json_path(v, &["gateway", "port"]);
    assert!(matches!(port, Some(JsonValue::Number(ref n)) if n == "18789"));
    let err = err_of(read_json_text("/c.json", "{oops"));
    assert!(err.starts_with("解析 /c.json 失败："));
}

#[test]
fn config_get_output_is_checked() {
    let err = err_of(config_get_result("gateway", Some("boom".to_string()), "{}"));
    assert_eq!(err, "读取配置 gateway 失败：boom");
    let v = ok_of(config_get_result("gateway", None, "  \"hi\"\n"));
    assert_eq!(text_of(&v), Some("hi"));
    let err = err_of(config_get_result("gateway", None, "not json"));
    assert!(err.starts_with("解析配置 gateway 失败："));
}

#[test]
fn config_sections_fall_back_in_order() {
    let root = || obj(vec![("agents", obj(vec![("defaults", s("from-file"))]))]);
    let v = config_section(Some(root()), &["agents", "defaults"], Some(s("fetched")));
    assert_eq!(text_of(&v), Some("from-file"));
    let v = config_section(Some(root()), &["gateway"], Some(s("fetched")));
    assert_eq!(text_of(&v), Some("fetched"));
    let v = config_section(None, &["gateway"], None);
    assert!(matches!(v, JsonValue::Object(ref ms) if ms.is_empty()));
}
