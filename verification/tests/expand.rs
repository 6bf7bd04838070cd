use rush_env::env_source::{EnvSourceChain, FnEnvSource};
use rush_env::vars::{expand_env, expand_env_recursive};
use std::collections::{BTreeMap, HashMap};

#[test]
fn test_expand_basic() {
    let mut env = HashMap::new();
    env.insert("FOO".to_string(), "bar".to_string());
    assert_eq!(expand_env("$FOO/bin", &env), "bar/bin");
}

#[test]
fn test_expand_brace() {
    let mut env = HashMap::new();
    env.insert("FOO".to_string(), "bar".to_string());
    assert_eq!(expand_env("${FOO}/lib", &env), "bar/lib");
}

#[test]
fn test_expand_with_default() {
    let env = HashMap::new();
    assert_eq!(expand_env("${FOO:-baz}/bin", &env), "baz/bin");
}

#[test]
fn test_unterminated_brace() {
    let mut env = HashMap::new();
    env.insert("FOO".to_string(), "bar".to_string());
    assert_eq!(expand_env("${FOO", &env), "bar");
}

#[test]
fn test_mixed_vars_and_defaults() {
    let mut env = HashMap::new();
    env.insert("X".to_string(), "123".to_string());
    env.insert("Y".to_string(), "abc".to_string());
    assert_eq!(expand_env("$X/${Y:-zzz}/$Z", &env), "123/abc/");
}

#[test]
fn test_literal_dollar_sign() {
    let env = HashMap::new();
    assert_eq!(expand_env("Price is $$100", &env), "Price is $100");
}

#[test]
fn test_non_alphanumeric_after_dollar() {
    let env = HashMap::new();
    assert_eq!(expand_env("Hello $!", &env), "Hello $!");
}

#[test]
fn test_multiple_variables() {
    let mut env = HashMap::new();
    env.insert("A".to_string(), "1".to_string());
    env.insert("B".to_string(), "2".to_string());
    env.insert("C".to_string(), "3".to_string());
    assert_eq!(expand_env("$A-$B-${C:-0}", &env), "1-2-3");
}

#[test]
fn test_empty_input() {
    let env = HashMap::new();
    assert_eq!(expand_env("", &env), "");
}

#[test]
fn test_default_value_with_special_chars() {
    let env = HashMap::new();
    assert_eq!(expand_env("${MISSING:-/usr/local/bin}", &env), "/usr/local/bin");
}

#[test]
fn test_no_substitution() {
    let env = HashMap::new();
    assert_eq!(expand_env("just a string", &env), "just a string");
}

#[test]
fn test_env_source_btree_map() {
    let mut env = BTreeMap::new();
    env.insert("FOO".to_string(), "baz".to_string());
    assert_eq!(expand_env("$FOO", &env), "baz");
}

#[test]
fn test_env_source_slice() {
    let env: &[(&str, &str)] = &[("FOO", "baz")];
    assert_eq!(expand_env("prefix_$FOO", &env), "prefix_baz");
}

#[test]
fn test_env_source_fn_adapter() {
    let env_fn = FnEnvSource(|key: &str| {
        if key == "FOO" {
            Some("baz".to_string())
        } else {
            None
        }
    });
    assert_eq!(expand_env("abc$FOO", &env_fn), "abcbaz");
}

#[test]
fn test_chain_env_source() {
    let env1 = [("FOO", "a")];
    let mut env2 = HashMap::new();
    env2.insert("BAR".to_string(), "b".to_string());
    let chain = EnvSourceChain { primary: &env1[..], fallback: &env2 };
    assert_eq!(expand_env("$FOO:$BAR:$BAZ", &chain), "a:b:");
}

#[test]
fn test_recursive_expand() {
    let mut env = HashMap::new();
    env.insert("FOO".to_string(), "$BAR".to_string());
    env.insert("BAR".to_string(), "hello".to_string());
    assert_eq!(expand_env_recursive("$FOO world", &env), "hello world");
}

#[test]
fn test_recursive_multi_layer() {
    let mut env = HashMap::new();
    env.insert("A".to_string(), "$B".to_string());
    env.insert("B".to_string(), "$C".to_string());
    env.insert("C".to_string(), "$D".to_string());
    env.insert("D".to_string(), "42".to_string());
    assert_eq!(expand_env_recursive("A=$A, B=$B, C=$C, D=$D", &env), "A=42, B=42, C=42, D=42");
}

#[test]
fn test_recursive_prevent_infinite() {
    let mut env = HashMap::new();
    env.insert("LOOP".to_string(), "$LOOP".to_string());
    let res = expand_env_recursive("start:$LOOP:end", &env);
    assert!(res.contains("$LOOP"));
}
