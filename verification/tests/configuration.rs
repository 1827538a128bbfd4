use genpwd::config::{parse_config, ConfigMap};
use genpwd::errors::PassError;
use genpwd::resolve::{resolve_value, Params, ResolvedConfig};

fn lines(list: &[&str]) -> Vec<String> {
    list.iter().map(|l| l.to_string()).collect()
}

fn parsed(list: &[&str]) -> ConfigMap {
    parse_config(&lines(list)).unwrap()
}

fn no_params() -> Params {
    Params {
        word_count: None,
        prefix: None,
        suffix: None,
        shared_path: None,
        interactive: false,
        emit_visual_code: false,
    }
}

#[test]
fn three_fields_malformed_at_line() {
    let r = parse_config(&lines(&["A=B=C"]));
    assert_eq!(r.unwrap_err(), PassError::MalformedConfigLine(1));
}

#[test]
fn no_delimiter_malformed() {
    let r = parse_config(&lines(&["PREFIX=ok", "JUSTAKEY"]));
    assert_eq!(r.unwrap_err(), PassError::MalformedConfigLine(2));
}

#[test]
fn duplicate_key_at_line() {
    let r = parse_config(&lines(&["KEY=1", "KEY=2"]));
    assert_eq!(r.unwrap_err(), PassError::DuplicateConfigKey(2));
}

#[test]
fn first_error_wins() {
    let r = parse_config(&lines(&["KEY=1", "A=B=C", "KEY=2"]));
    assert_eq!(r.unwrap_err(), PassError::MalformedConfigLine(2));
}

#[test]
fn empty_lines_skipped() {
    let m = parsed(&["", "A=1", ""]);
    assert_eq!(m.get("A"), Some("1".to_string()));
}

#[test]
fn keys_and_values_trimmed_inner_spaces_kept() {
    let m = parsed(&["  KEY  =  v al  "]);
    assert_eq!(m.get("KEY"), Some("v al".to_string()));
}

#[test]
fn unicode_whitespace_trimmed() {
    let m = parsed(&["\u{a0}KEY\u{2003} = value\u{3000}"]);
    assert_eq!(m.get("KEY"), Some("value".to_string()));
}

#[test]
fn keys_are_case_sensitive() {
    let m = parsed(&["prefix=low", "PREFIX=high"]);
    assert_eq!(m.get("prefix"), Some("low".to_string()));
    assert_eq!(m.get("PREFIX"), Some("high".to_string()));
    assert_eq!(m.get("Prefix"), None);
}

#[test]
fn empty_value_allowed() {
    let m = parsed(&["SUFFIX="]);
    assert_eq!(m.get("SUFFIX"), Some("".to_string()));
}

#[test]
fn precedence_explicit_then_persisted_then_absent() {
    let cfg = Some(parsed(&["PREFIX=bar"]));

    let explicit = Some("foo".to_string());
    assert_eq!(
        resolve_value(&explicit, &cfg, "prefix"),
        Some("foo".to_string())
    );

    assert_eq!(resolve_value(&None, &cfg, "prefix"), Some("bar".to_string()));

    let empty_cfg = Some(parsed(&[]));
    assert_eq!(resolve_value(&None, &empty_cfg, "prefix"), None);
}

#[test]
fn explicit_spaces_become_underscores() {
    let explicit = Some("a b c".to_string());
    assert_eq!(
        resolve_value(&explicit, &None, "prefix"),
        Some("a_b_c".to_string())
    );
}

#[test]
fn persisted_value_is_not_normalized() {
    let cfg = Some(parsed(&["PREFIX=b ar"]));
    assert_eq!(resolve_value(&None, &cfg, "prefix"), Some("b ar".to_string()));
}

#[test]
fn missing_persisted_source_is_not_fatal() {
    let mut params = no_params();
    params.prefix = Some("foo".to_string());
    let r = ResolvedConfig::resolve(&params, &None, "/fallback");
    assert_eq!(r.prefix, Some("foo".to_string()));
    assert_eq!(r.suffix, None);
    assert_eq!(r.word_count, 3);
    assert_eq!(r.corpus_path, "/fallback");
}

#[test]
fn word_count_explicit_overrides_default() {
    let mut params = no_params();
    params.word_count = Some(5);
    let r = ResolvedConfig::resolve(&params, &None, "/fallback");
    assert_eq!(r.word_count, 5);
}

#[test]
fn shared_path_precedence() {
    let cfg = Some(parsed(&["SHARED_PATH=/persisted"]));

    let mut params = no_params();
    params.shared_path = Some("/explicit".to_string());
    let r = ResolvedConfig::resolve(&params, &cfg, "/fallback");
    assert_eq!(r.corpus_path, "/explicit");

    let r = ResolvedConfig::resolve(&no_params(), &cfg, "/fallback");
    assert_eq!(r.corpus_path, "/persisted");

    let r = ResolvedConfig::resolve(&no_params(), &None, "/fallback");
    assert_eq!(r.corpus_path, "/fallback");
}

#[test]
fn flags_pass_through() {
    let mut params = no_params();
    params.interactive = true;
    params.emit_visual_code = true;
    let r = ResolvedConfig::resolve(&params, &None, "/fallback");
    assert!(r.interactive);
    assert!(r.emit_visual_code);
}
