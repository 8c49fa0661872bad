use ansible_module::ansible_module::AnsibleModule;
use ansible_module::builder::AnsibleModuleBuilder;
use ansible_module::json::JsonValue;
use ansible_module::render::render_json;

fn jstr(x: &str) -> JsonValue {
    JsonValue::Str(x.to_string())
}

fn dict(entries: Vec<(&str, JsonValue)>) -> JsonValue {
    JsonValue::Dict(entries.into_iter().map(|(k, v)| (k.to_string(), v)).collect())
}

#[test]
fn check_no_log() {
    let input = dict(vec![
        ("api_url", jstr("localhost")),
        ("_ansible_no_log", JsonValue::Bool(true)),
    ]);
    let arg_spec = dict(vec![(
        "api_url",
        dict(vec![
            ("type", jstr("str")),
            ("required", JsonValue::Bool(true)),
            ("no_log", JsonValue::Bool(true)),
        ]),
    )]);

    let module: AnsibleModule = AnsibleModuleBuilder::new(arg_spec, input).build().unwrap();

    let result = vec![("api_url".to_string(), module.params.get("api_url").unwrap().value.clone())];
    let out = module.exit_json_output(&result, false);

    assert_eq!(
        out,
        r#"{"changed":false,"failed":false,"api_url":"VALUE_SPECIFIED_IN_NO_LOG_PARAMETER"}"#
    );
}

#[test]
fn check_no_log_masks_any_value() {
    let arg_spec = dict(vec![(
        "token",
        dict(vec![("type", jstr("str")), ("no_log", JsonValue::Bool(true))]),
    )]);
    let input = dict(vec![("token", jstr("SECRET-REDACTED"))]);

    let module = AnsibleModuleBuilder::new(arg_spec, input).build().unwrap();

    let result = vec![
        ("token".to_string(), jstr("SECRET-REDACTED")),
        ("note".to_string(), jstr("fine")),
    ];
    let masked_false = module.exit_json_output(&result, false);
    let masked_true = module.exit_json_output(&result, true);

    assert_eq!(
        masked_false,
        r#"{"changed":false,"failed":false,"token":"VALUE_SPECIFIED_IN_NO_LOG_PARAMETER","note":"fine"}"#
    );
    assert_eq!(
        masked_true,
        r#"{"changed":true,"failed":false,"token":"VALUE_SPECIFIED_IN_NO_LOG_PARAMETER","note":"fine"}"#
    );
    assert!(!masked_false.contains("SECRET-REDACTED"));
    assert!(!masked_true.contains("SECRET-REDACTED"));
}

#[test]
fn builder_check_exit_json_macro() {
    let input = dict(vec![]);
    let arg_spec = dict(vec![("api_url", dict(vec![("type", jstr("str"))]))]);

    let module = AnsibleModuleBuilder::new(arg_spec, input).build().unwrap();

    let result = vec![
        ("also".to_string(), JsonValue::Uint(52)),
        ("msg".to_string(), jstr("Bye bye!")),
    ];
    let out = module.exit_json_output(&result, false);

    assert_eq!(out, r#"{"changed":false,"failed":false,"also":52,"msg":"Bye bye!"}"#);
}

#[test]
fn builder_check_fail_json_macro() {
    let out = AnsibleModule::fail_json_output("Something went horribly wrong!");
    assert_eq!(
        out,
        r#"{"msg":"Something went horribly wrong!","changed":false,"failed":true}"#
    );
}

#[test]
fn macros_check_exit_json_macro() {
    let input = dict(vec![]);
    let arg_spec = dict(vec![("api_url", dict(vec![("type", jstr("str"))]))]);

    let module = AnsibleModuleBuilder::new(arg_spec, input).build().unwrap();

    let out = module.exit_json_output(&Vec::new(), false);
    assert_eq!(out, r#"{"changed":false,"failed":false}"#);

    let result = vec![
        ("also".to_string(), JsonValue::Uint(52)),
        ("msg".to_string(), jstr("Bye bye!")),
    ];
    let out = module.exit_json_output(&result, false);
    assert_eq!(out, r#"{"changed":false,"failed":false,"also":52,"msg":"Bye bye!"}"#);
}

#[test]
fn macros_check_fail_json_macro() {
    let out = AnsibleModule::fail_json_output("Something went horribly wrong!");
    assert_eq!(
        out,
        r#"{"msg":"Something went horribly wrong!","changed":false,"failed":true}"#
    );
}

#[test]
fn check_fail_output_escapes_message() {
    let out = AnsibleModule::fail_json_output("a \"quoted\" \\ and\ttab\nline");
    assert_eq!(
        out,
        r#"{"msg":"a \"quoted\" \\ and\ttab\nline","changed":false,"failed":true}"#
    );
}

#[test]
fn check_render_json_values() {
    assert_eq!(render_json(&JsonValue::Null), "null");
    assert_eq!(render_json(&JsonValue::Bool(true)), "true");
    assert_eq!(render_json(&JsonValue::Uint(0)), "0");
    assert_eq!(render_json(&JsonValue::Uint(18446744073709551615)), "18446744073709551615");
    assert_eq!(render_json(&JsonValue::Int(-9223372036854775808)), "-9223372036854775808");
    assert_eq!(render_json(&JsonValue::Float("1.5".to_string())), "1.5");
    assert_eq!(render_json(&jstr("hi")), r#""hi""#);
    assert_eq!(
        render_json(&JsonValue::List(vec![JsonValue::Uint(1), JsonValue::Null, jstr("x")])),
        r#"[1,null,"x"]"#
    );
    assert_eq!(
        render_json(&dict(vec![("a", JsonValue::Uint(1)), ("b", JsonValue::List(vec![]))])),
        r#"{"a":1,"b":[]}"#
    );
    assert_eq!(render_json(&jstr("ctl\u{1}")), "\"ctl\\u0001\"");
}
