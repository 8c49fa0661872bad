use ansible_module::ansible_module::AnsibleModule;
use ansible_module::builder::{
    AnsibleModuleBuilder, MutuallyExclusive, RequiredBy, RequiredIf, RequiredOneOf,
    RequiredTogether,
};
use ansible_module::json::JsonValue;

fn s(x: &str) -> String {
    x.to_string()
}

fn jstr(x: &str) -> JsonValue {
    JsonValue::Str(x.to_string())
}

fn dict(entries: Vec<(&str, JsonValue)>) -> JsonValue {
    JsonValue::Dict(entries.into_iter().map(|(k, v)| (k.to_string(), v)).collect())
}

fn arg_str_required() -> JsonValue {
    dict(vec![("type", jstr("str")), ("required", JsonValue::Bool(true))])
}

fn arg_str() -> JsonValue {
    dict(vec![("type", jstr("str"))])
}

#[test]
fn check_required() {
    let input = dict(vec![("api_url", jstr("localhost"))]);
    let arg_spec = dict(vec![
        ("api_url", arg_str_required()),
        (
            "username",
            dict(vec![("type", jstr("str")), ("required", JsonValue::Bool(false))]),
        ),
        ("password", arg_str()),
    ]);

    let module: AnsibleModule = AnsibleModuleBuilder::new(arg_spec, input).build().unwrap();

    assert_eq!(jstr("localhost"), module.params.get("api_url").unwrap().value);
    assert!(!module.params.contains_key("username"));
    assert!(!module.params.contains_key("password"));
}

#[test]
fn check_required_fail() {
    let arg_spec = dict(vec![("api_url", arg_str_required()), ("password", arg_str())]);
    let input = dict(vec![("password", jstr("123"))]);

    let module = AnsibleModuleBuilder::new(arg_spec, input).build();

    assert_eq!(
        module.unwrap_err(),
        r#"missing required arguments: ["api_url"]"#
    );
}

#[test]
fn check_default() {
    let arg_spec = dict(vec![(
        "api_url",
        dict(vec![("type", jstr("int")), ("default", JsonValue::Uint(123))]),
    )]);
    let input = dict(vec![]);

    let module = AnsibleModuleBuilder::new(arg_spec, input).build().unwrap();

    assert_eq!(JsonValue::Uint(123), module.params.get("api_url").unwrap().value);
}

#[test]
fn check_choices() {
    let arg_spec = dict(vec![(
        "api_url",
        dict(vec![
            ("type", jstr("str")),
            (
                "choices",
                JsonValue::List(vec![jstr("localhost"), jstr("127.0.0.1"), jstr("::1")]),
            ),
        ]),
    )]);
    let input = dict(vec![("api_url", jstr("localhost"))]);

    let module = AnsibleModuleBuilder::new(arg_spec, input).build().unwrap();

    assert_eq!(jstr("localhost"), module.params.get("api_url").unwrap().value);
}

#[test]
fn check_choices_fail() {
    let arg_spec = dict(vec![(
        "api_url",
        dict(vec![
            ("type", jstr("str")),
            (
                "choices",
                JsonValue::List(vec![jstr("localhost"), jstr("127.0.0.1"), jstr("::1")]),
            ),
        ]),
    )]);
    let input = dict(vec![("api_url", jstr("192.0.2.1"))]);

    let module = AnsibleModuleBuilder::new(arg_spec, input).build();

    assert_eq!(
        module.unwrap_err(),
        r#"Argument 'api_url' can only have '[String("localhost"), String("127.0.0.1"), String("::1")]' values"#
    );
}

#[test]
fn check_fallback() {
    let arg_spec = dict(vec![(
        "api_url",
        dict(vec![
            ("type", jstr("str")),
            ("required", JsonValue::Bool(true)),
            ("fallback", jstr("TEST_API_URL")),
        ]),
    )]);
    let input = dict(vec![]);

    let module = AnsibleModuleBuilder::new(arg_spec, input)
        .environment(vec![(s("TEST_API_URL"), s("Hello"))])
        .build()
        .unwrap();

    assert_eq!(jstr("Hello"), module.params.get("api_url").unwrap().value);
}

#[test]
fn check_fallback_fail() {
    let arg_spec = dict(vec![(
        "api_url",
        dict(vec![
            ("type", jstr("str")),
            ("required", JsonValue::Bool(true)),
            ("fallback", jstr("TEST_API_URL")),
        ]),
    )]);
    let input = dict(vec![]);

    let module = AnsibleModuleBuilder::new(arg_spec, input).build();

    assert_eq!(
        module.unwrap_err(),
        r#"missing required arguments: ["api_url"]"#
    );
}

#[test]
fn check_mutually_exclusive_fail() {
    let mutually_exclusive: MutuallyExclusive = vec![(s("api_url"), s("url"))];
    let arg_spec = dict(vec![("api_url", arg_str()), ("url", arg_str())]);
    let input = dict(vec![
        ("api_url", JsonValue::Uint(123)),
        ("url", JsonValue::Uint(123)),
    ]);

    let module = AnsibleModuleBuilder::new(arg_spec, input)
        .mutually_exclusive(mutually_exclusive)
        .build();

    assert_eq!(
        module.unwrap_err(),
        r#"Arguments 'api_url' and 'url' are mutually exclusive"#
    );
}

#[test]
fn check_mutually_exclusive_single_key_fail() {
    // Either name alone already violates the pair.
    let mutually_exclusive: MutuallyExclusive = vec![(s("api_url"), s("url"))];
    let arg_spec = dict(vec![("api_url", arg_str()), ("url", arg_str())]);
    let input = dict(vec![("url", jstr("a"))]);

    let module = AnsibleModuleBuilder::new(arg_spec, input)
        .mutually_exclusive(mutually_exclusive)
        .build();

    assert_eq!(
        module.unwrap_err(),
        r#"Arguments 'api_url' and 'url' are mutually exclusive"#
    );
}

#[test]
fn check_required_together_fail() {
    let required_together: RequiredTogether = vec![(s("api_url"), s("url"))];
    let arg_spec = dict(vec![("api_url", arg_str()), ("url", arg_str())]);
    let input = dict(vec![("api_url", JsonValue::Uint(123))]);

    let module = AnsibleModuleBuilder::new(arg_spec, input)
        .required_together(required_together)
        .build();

    assert_eq!(
        module.unwrap_err(),
        r#"Arguments 'api_url' and 'url' are required together"#
    );
}

#[test]
fn check_required_one_of_fail() {
    let required_one_of: RequiredOneOf = vec![(s("api_url"), s("url"))];
    let arg_spec = dict(vec![("api_url", arg_str()), ("url", arg_str())]);
    let input = dict(vec![]);

    let module = AnsibleModuleBuilder::new(arg_spec, input)
        .required_one_of(required_one_of)
        .build();

    assert_eq!(
        module.unwrap_err(),
        r#"At least one of the arguments 'api_url' and 'url' must be present"#
    );
}

#[test]
fn check_required_if_all_fail() {
    let required_if: RequiredIf = vec![(
        s("login"),
        JsonValue::Bool(true),
        vec![s("user"), s("password")],
        false,
    )];
    let arg_spec = dict(vec![
        ("api_url", arg_str()),
        ("url", arg_str()),
        ("login", dict(vec![("type", jstr("bool"))])),
    ]);
    let input = dict(vec![("login", JsonValue::Bool(true)), ("user", jstr("John"))]);

    let module = AnsibleModuleBuilder::new(arg_spec, input)
        .required_if(required_if)
        .build();

    assert_eq!(
        module.unwrap_err(),
        r#"Not all arguments required by 'login'='true' are present"#
    );
}

#[test]
fn check_required_if_any_fail() {
    let required_if: RequiredIf = vec![(
        s("login"),
        JsonValue::Bool(true),
        vec![s("user"), s("password")],
        true,
    )];
    let arg_spec = dict(vec![
        ("api_url", arg_str()),
        ("url", arg_str()),
        ("login", dict(vec![("type", jstr("bool"))])),
    ]);
    let input = dict(vec![("login", JsonValue::Bool(true))]);

    let module = AnsibleModuleBuilder::new(arg_spec, input)
        .required_if(required_if)
        .build();

    assert_eq!(
        module.unwrap_err(),
        r#"No arguments required by 'login'='true' are present"#
    );
}

#[test]
fn check_required_if_skipped_when_trigger_differs() {
    let required_if: RequiredIf = vec![(
        s("login"),
        JsonValue::Bool(true),
        vec![s("user"), s("password")],
        false,
    )];
    let arg_spec = dict(vec![("login", dict(vec![("type", jstr("bool"))]))]);
    let input = dict(vec![("login", JsonValue::Bool(false))]);

    let module = AnsibleModuleBuilder::new(arg_spec, input)
        .required_if(required_if)
        .build()
        .unwrap();

    assert_eq!(JsonValue::Bool(false), module.params.get("login").unwrap().value);
}

#[test]
fn check_required_by_fail() {
    let required_by: RequiredBy = vec![(s("login"), vec![s("user"), s("password")])];
    let arg_spec = dict(vec![
        ("api_url", arg_str()),
        ("url", arg_str()),
        ("login", dict(vec![("type", jstr("bool"))])),
    ]);
    let input = dict(vec![("login", JsonValue::Bool(true))]);

    let module = AnsibleModuleBuilder::new(arg_spec, input)
        .required_by(required_by)
        .build();

    assert_eq!(
        module.unwrap_err(),
        r#"Arguments required by 'login' '["user", "password"]' are not present"#
    );
}

#[test]
fn check_internal_args() {
    let arg_spec = dict(vec![("hello", arg_str())]);
    let input = dict(vec![
        ("_ansible_check_mode", JsonValue::Bool(false)),
        ("_ansible_no_log", JsonValue::Bool(false)),
        ("_ansible_debug", JsonValue::Bool(false)),
        ("_ansible_diff", JsonValue::Bool(false)),
        ("_ansible_verbosity", JsonValue::Uint(0)),
        ("_ansible_version", jstr("2.18.2")),
        ("_ansible_module_name", jstr("ansible_mod")),
        ("_ansible_syslog_facility", jstr("LOG_USER")),
        (
            "_ansible_selinux_special_fs",
            JsonValue::List(vec![jstr("fuse"), jstr("nfs")]),
        ),
        ("_ansible_string_conversion_action", jstr("warn")),
        ("_ansible_socket", JsonValue::Null),
        ("_ansible_shell_executable", jstr("/bin/sh")),
        ("_ansible_keep_remote_files", JsonValue::Bool(false)),
        (
            "_ansible_tmpdir",
            jstr("/home/alexander/.ansible/tmp/ansible-tmp-1751129048.123-321-123/"),
        ),
        ("_ansible_remote_tmp", jstr("~/.ansible/tmp")),
        ("_ansible_ignore_unknown_opts", JsonValue::Bool(false)),
        ("_ansible_target_log_info", JsonValue::Null),
    ]);

    let module = AnsibleModuleBuilder::new(arg_spec, input).build().unwrap();
    let params = module.internal_params;

    assert!(!params.no_log);
    assert!(!params.debug);
    assert!(!params.check_mode);
    assert!(!params.diff);
    assert_eq!(params.verbosity, 0_u8);
    assert_eq!(params.socket, None);
    assert_eq!(params.target_log_info, None);
    assert!(!params.ignore_unknown_opts);
    assert!(!params.keep_remote_files);
    assert_eq!(params.string_conversion_action.unwrap(), "warn".to_string());
    assert_eq!(params.version.unwrap(), "2.18.2".to_string());
    assert_eq!(params.module_name.unwrap(), "ansible_mod".to_string());
    assert_eq!(params.syslog_facility.unwrap(), "LOG_USER".to_string());
    assert_eq!(
        params.selinux_special_fs,
        vec!["fuse".to_string(), "nfs".to_string()]
    );
    assert_eq!(
        params.tmpdir.unwrap(),
        "/home/alexander/.ansible/tmp/ansible-tmp-1751129048.123-321-123/".to_string()
    );
    assert_eq!(params.remote_tmp.unwrap(), "~/.ansible/tmp".to_string());
}

#[test]
fn check_type_fail() {
    let arg_spec = dict(vec![(
        "uint",
        dict(vec![("type", jstr("uint")), ("default", JsonValue::Uint(123))]),
    )]);
    let input = dict(vec![("uint", JsonValue::Int(-1))]);

    let module = AnsibleModuleBuilder::new(arg_spec, input).build();

    assert_eq!(
        module.unwrap_err(),
        r#"'uint' expected to be of type 'Uint', but got -1"#
    );
}

#[test]
fn check_unknown_argument_fail() {
    let arg_spec = dict(vec![("api_url", arg_str())]);
    let input = dict(vec![("zzz", JsonValue::Uint(1))]);

    let module = AnsibleModuleBuilder::new(arg_spec, input).build();

    assert_eq!(
        module.unwrap_err(),
        r#"Unknown arguments for module found: '["zzz"]'"#
    );
}

#[test]
fn check_input_not_object_fail() {
    let arg_spec = dict(vec![("api_url", arg_str())]);
    let input = JsonValue::List(vec![]);

    let module = AnsibleModuleBuilder::new(arg_spec, input).build();

    assert_eq!(module.unwrap_err(), "Input argument is not a JSON object");
}

#[test]
fn check_spec_not_object_fail() {
    let arg_spec = jstr("nope");
    let input = dict(vec![]);

    let module = AnsibleModuleBuilder::new(arg_spec, input).build();

    assert_eq!(
        module.unwrap_err(),
        "Wrong argument spec format, must be a valid JSON object"
    );
}

#[test]
fn check_spec_unknown_type_fail() {
    let arg_spec = dict(vec![("api_url", dict(vec![("type", jstr("strr"))]))]);
    let input = dict(vec![]);

    let module = AnsibleModuleBuilder::new(arg_spec, input).build();

    assert_eq!(
        module.unwrap_err(),
        "Wrong argument spec format: argument 'api_url' has an invalid 'type'"
    );
}

#[test]
fn check_spec_missing_type_fail() {
    let arg_spec = dict(vec![("api_url", dict(vec![("required", JsonValue::Bool(true))]))]);
    let input = dict(vec![]);

    let module = AnsibleModuleBuilder::new(arg_spec, input).build();

    assert_eq!(
        module.unwrap_err(),
        "Wrong argument spec format: argument 'api_url' has no 'type' field"
    );
}

#[test]
fn check_spec_type_case_insensitive() {
    let arg_spec = dict(vec![("api_url", dict(vec![("type", jstr("STR"))]))]);
    let input = dict(vec![("api_url", jstr("localhost"))]);

    let module = AnsibleModuleBuilder::new(arg_spec, input).build().unwrap();

    assert_eq!(jstr("localhost"), module.params.get("api_url").unwrap().value);
}

#[test]
fn check_null_default_counts_as_absent() {
    let arg_spec = dict(vec![(
        "api_url",
        dict(vec![("type", jstr("str")), ("default", JsonValue::Null)]),
    )]);
    let input = dict(vec![]);

    let module = AnsibleModuleBuilder::new(arg_spec, input).build().unwrap();

    assert!(!module.params.contains_key("api_url"));
}

#[test]
fn check_fallback_ignored_when_not_required() {
    let arg_spec = dict(vec![(
        "api_url",
        dict(vec![("type", jstr("str")), ("fallback", jstr("TEST_API_URL"))]),
    )]);
    let input = dict(vec![]);

    let module = AnsibleModuleBuilder::new(arg_spec, input)
        .environment(vec![(s("TEST_API_URL"), s("Hello"))])
        .build()
        .unwrap();

    assert!(!module.params.contains_key("api_url"));
}

#[test]
fn check_int_accepts_fitting_unsigned() {
    let arg_spec = dict(vec![("n", dict(vec![("type", jstr("int"))]))]);
    let input = dict(vec![("n", JsonValue::Uint(9223372036854775807))]);

    let module = AnsibleModuleBuilder::new(arg_spec, input).build().unwrap();

    assert_eq!(
        JsonValue::Uint(9223372036854775807),
        module.params.get("n").unwrap().value
    );
}

#[test]
fn check_int_rejects_oversized_unsigned() {
    let arg_spec = dict(vec![("n", dict(vec![("type", jstr("int"))]))]);
    let input = dict(vec![("n", JsonValue::Uint(9223372036854775808))]);

    let module = AnsibleModuleBuilder::new(arg_spec, input).build();

    assert_eq!(
        module.unwrap_err(),
        r#"'n' expected to be of type 'Int', but got 9223372036854775808"#
    );
}

#[test]
fn check_internal_args_bad_verbosity_fail() {
    let arg_spec = dict(vec![]);
    let input = dict(vec![("_ansible_verbosity", JsonValue::Uint(300))]);

    let module = AnsibleModuleBuilder::new(arg_spec, input).build();

    assert_eq!(
        module.unwrap_err(),
        r#"Could not parse internal arguments from {"_ansible_verbosity":300}: '_ansible_verbosity' has the wrong type"#
    );
}

#[test]
fn check_validate_twice_same_outcome() {
    let make = || {
        AnsibleModuleBuilder::new(
            dict(vec![("api_url", arg_str_required()), ("port", dict(vec![
                ("type", jstr("uint")),
                ("default", JsonValue::Uint(80)),
            ]))]),
            dict(vec![("api_url", jstr("localhost"))]),
        )
        .environment(vec![(s("HOME"), s("/root"))])
    };

    let first = make().build().unwrap();
    let second = make().build().unwrap();

    assert_eq!(
        first.params.get("api_url").unwrap().value,
        second.params.get("api_url").unwrap().value
    );
    assert_eq!(
        first.params.get("port").unwrap().value,
        second.params.get("port").unwrap().value
    );
    assert_eq!(first.params.len(), second.params.len());

    let failing = dict(vec![("zzz", JsonValue::Uint(1))]);
    let spec = dict(vec![]);
    let e1 = AnsibleModuleBuilder::new(spec.clone(), failing.clone()).build().unwrap_err();
    let e2 = AnsibleModuleBuilder::new(spec, failing).build().unwrap_err();
    assert_eq!(e1, e2);
}

#[test]
fn check_success_mapping_exact() {
    // Present, defaulted and absent-optional arguments: the mapping holds
    // exactly the first two.
    let arg_spec = dict(vec![
        ("present", arg_str_required()),
        (
            "defaulted",
            dict(vec![("type", jstr("uint")), ("default", JsonValue::Uint(7))]),
        ),
        ("absent", arg_str()),
    ]);
    let input = dict(vec![("present", jstr("v"))]);

    let module = AnsibleModuleBuilder::new(arg_spec, input).build().unwrap();

    assert_eq!(jstr("v"), module.params.get("present").unwrap().value);
    assert_eq!(JsonValue::Uint(7), module.params.get("defaulted").unwrap().value);
    assert!(!module.params.contains_key("absent"));
    assert_eq!(module.params.len(), 2);
}

#[test]
fn check_float_list_dict_types() {
    let arg_spec = dict(vec![
        ("ratio", dict(vec![("type", jstr("float"))])),
        ("tags", dict(vec![("type", jstr("list"))])),
        ("extra", dict(vec![("type", jstr("dict"))])),
    ]);
    let input = dict(vec![
        ("ratio", JsonValue::Float("1.5".to_string())),
        ("tags", JsonValue::List(vec![jstr("a"), jstr("b")])),
        ("extra", dict(vec![("k", JsonValue::Uint(1))])),
    ]);

    let module = AnsibleModuleBuilder::new(arg_spec, input).build().unwrap();

    assert_eq!(
        JsonValue::Float("1.5".to_string()),
        module.params.get("ratio").unwrap().value
    );
    assert_eq!(
        JsonValue::List(vec![jstr("a"), jstr("b")]),
        module.params.get("tags").unwrap().value
    );
    assert!(module.params.get("extra").is_some());
}

#[test]
fn check_float_rejects_integer() {
    let arg_spec = dict(vec![("ratio", dict(vec![("type", jstr("float"))]))]);
    let input = dict(vec![("ratio", JsonValue::Uint(1))]);

    let module = AnsibleModuleBuilder::new(arg_spec, input).build();

    assert_eq!(
        module.unwrap_err(),
        r#"'ratio' expected to be of type 'Float', but got 1"#
    );
}

#[test]
fn check_choices_deep_equality() {
    // A choice may be any value; membership is deep equality.
    let arg_spec = dict(vec![(
        "pair",
        dict(vec![
            ("type", jstr("list")),
            (
                "choices",
                JsonValue::List(vec![
                    JsonValue::List(vec![JsonValue::Uint(1), JsonValue::Uint(2)]),
                    JsonValue::List(vec![JsonValue::Uint(3), JsonValue::Uint(4)]),
                ]),
            ),
        ]),
    )]);
    let input = dict(vec![(
        "pair",
        JsonValue::List(vec![JsonValue::Uint(3), JsonValue::Uint(4)]),
    )]);

    let module = AnsibleModuleBuilder::new(arg_spec, input).build().unwrap();

    assert_eq!(
        JsonValue::List(vec![JsonValue::Uint(3), JsonValue::Uint(4)]),
        module.params.get("pair").unwrap().value
    );
}

#[test]
fn check_fallback_wins_over_default() {
    let arg_spec = dict(vec![(
        "api_url",
        dict(vec![
            ("type", jstr("str")),
            ("required", JsonValue::Bool(true)),
            ("fallback", jstr("TEST_API_URL")),
            ("default", jstr("fallback-should-win")),
        ]),
    )]);
    let input = dict(vec![]);

    let module = AnsibleModuleBuilder::new(arg_spec, input)
        .environment(vec![(s("TEST_API_URL"), s("Hello"))])
        .build()
        .unwrap();

    assert_eq!(jstr("Hello"), module.params.get("api_url").unwrap().value);
}

#[test]
fn check_constraint_order_mutually_exclusive_first() {
    // The input violates both the exclusion pair and the co-requirement
    // pair; the exclusion complaint comes first in the fixed order.
    let arg_spec = dict(vec![("a", arg_str()), ("b", arg_str()), ("c", arg_str())]);
    let input = dict(vec![("a", jstr("x"))]);

    let module = AnsibleModuleBuilder::new(arg_spec, input)
        .mutually_exclusive(vec![(s("a"), s("b"))])
        .required_together(vec![(s("a"), s("c"))])
        .build();

    assert_eq!(
        module.unwrap_err(),
        r#"Arguments 'a' and 'b' are mutually exclusive"#
    );
}

#[test]
fn check_type_error_precedes_unknown() {
    let arg_spec = dict(vec![("a", dict(vec![("type", jstr("uint"))]))]);
    let input = dict(vec![("a", jstr("not a number")), ("zzz", JsonValue::Uint(1))]);

    let module = AnsibleModuleBuilder::new(arg_spec, input).build();

    assert_eq!(
        module.unwrap_err(),
        r#"'a' expected to be of type 'Uint', but got "not a number""#
    );
}

#[test]
fn check_missing_names_in_spec_order() {
    let arg_spec = dict(vec![("b", arg_str_required()), ("a", arg_str_required())]);
    let input = dict(vec![]);

    let module = AnsibleModuleBuilder::new(arg_spec, input).build();

    assert_eq!(
        module.unwrap_err(),
        r#"missing required arguments: ["b", "a"]"#
    );
}
