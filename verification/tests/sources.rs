use rush_env::env_map::EnvMap;
use rush_env::env_source::{EnvSource, EnvSourceChain};
use rush_env::net_proxy::Proxy;
use rush_env::say::{visual_width_char, Section};
use rush_env::vars::{expand_env, expand_env_recursive};

#[test]
fn env_map_set_replaces_and_get_distinguishes_absence() {
    let mut m = EnvMap::new();
    assert_eq!(m.get("A"), None);
    m.set("A", "1");
    m.set("B", "");
    assert_eq!(m.get("A"), Some("1".to_string()));
    assert_eq!(m.get("B"), Some("".to_string()));
    m.set("A", "2");
    assert_eq!(m.get("A"), Some("2".to_string()));
    assert_eq!(m.get("C"), None);
}

#[test]
fn env_map_backs_the_expander() {
    let mut m = EnvMap::new();
    m.set("A", "v");
    assert_eq!(expand_env("${A}", &m), "v");
    assert_eq!(expand_env("${MISSING:-X}", &EnvMap::new()), "X");
}

#[test]
fn chain_prefers_primary_even_when_empty() {
    let mut primary = EnvMap::new();
    primary.set("K", "");
    let mut fallback = EnvMap::new();
    fallback.set("K", "fb");
    fallback.set("ONLY", "fb");
    let chain = EnvSourceChain { primary: &primary, fallback: &fallback };
    assert_eq!(chain.get("K"), Some("".to_string()));
    assert_eq!(chain.get("ONLY"), Some("fb".to_string()));
    assert_eq!(chain.get("NONE"), None);
    assert_eq!(expand_env("${K:-d}|$ONLY", &chain), "|fb");
}

#[test]
fn recursive_expansion_settles_on_chained_definitions() {
    let mut m = EnvMap::new();
    m.set("A", "$B");
    m.set("B", "$C");
    m.set("C", "$D");
    m.set("D", "42");
    assert_eq!(expand_env_recursive("$A", &m), "42");
}

#[test]
fn cyclic_definition_keeps_its_reference() {
    let mut m = EnvMap::new();
    m.set("LOOP", "$LOOP");
    let r = expand_env_recursive("start:$LOOP:end", &m);
    assert!(r.contains("$LOOP"));
}

#[test]
fn braced_key_scanning_edge_cases() {
    let mut m = EnvMap::new();
    m.set("A", "v");
    assert_eq!(expand_env("${}", &m), "");
    assert_eq!(expand_env("$", &m), "$");
    assert_eq!(expand_env("${A:-}", &m), "v");
    assert_eq!(expand_env("${Z:-}", &m), "");
    assert_eq!(expand_env("a$-b", &m), "a$-b");
}

#[test]
fn proxy_settings_derive_the_three_values() {
    let p = Proxy::new("proxy.local".to_string(), 8080, 1080);
    assert_eq!(p.host_url, "proxy.local");
    assert_eq!(p.http_proxy_port, 8080);
    assert_eq!(p.socks_proxy_port, 1080);
    assert_eq!(p.http_proxy, "http://proxy.local:8080");
    assert_eq!(p.https_proxy, "http://proxy.local:8080");
    assert_eq!(p.all_proxy, "socks5://proxy.local:1080");
}

#[test]
fn proxy_ports_render_single_digits_too() {
    let p = Proxy::new("h".to_string(), 7, 65535);
    assert_eq!(p.http_proxy, "http://h:7");
    assert_eq!(p.all_proxy, "socks5://h:65535");
}

#[test]
fn visual_widths_count_wide_characters_double() {
    assert_eq!(visual_width_char('a'), 1);
    assert_eq!(visual_width_char(' '), 1);
    assert_eq!(visual_width_char('中'), 2);
    assert_eq!(visual_width_char('Ａ'), 2);
    assert_eq!(visual_width_char('🎉'), 2);
}

#[test]
fn section_style_frames_content() {
    let s = Section::new(10, 1);
    let mut buf = String::new();
    s.say(&mut buf, "ab").unwrap();
    assert_eq!(buf, "#--------#\n#   ab   #\n#--------#\n");
}
