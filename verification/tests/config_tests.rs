use hijekt::config::{ConfigError, HijektArgs, HijektConfig, Literal, MetaForm, MetaItem};

fn s(x: &str) -> String {
    x.to_string()
}

fn value(key: &str, v: &str) -> MetaItem {
    MetaItem { key: s(key), form: MetaForm::Value(Literal::Str(s(v))) }
}

fn list(key: &str, vs: &[&str]) -> MetaItem {
    MetaItem { key: s(key), form: MetaForm::List(vs.iter().map(|v| Literal::Str(s(v))).collect()) }
}

#[test]
fn single_values_append_in_source_order() {
    let items = vec![value("feat", "patched"), value("begin", "a"), value("begin", "b")];
    let config = HijektArgs::parse(&items).unwrap().config;
    assert_eq!(config.feat, "patched");
    assert_eq!(config.begin, vec![s("a"), s("b")]);
    assert!(config.begin_with.is_empty());
    assert!(config.end.is_empty());
    assert!(config.rm.is_empty());
    assert_eq!(config.replace, None);
    assert!(config.add.is_empty());
}

#[test]
fn list_form_appends_every_value() {
    let items = vec![
        list("rm", &["x", "y"]),
        value("feat", "f"),
        list("end", &["e1", "e2", "e3"]),
        list("add", &["count: u32", "Vec<u8>"]),
        list("begin_with", &["w"]),
    ];
    let config = HijektArgs::parse(&items).unwrap().config;
    assert_eq!(config.rm, vec![s("x"), s("y")]);
    assert_eq!(config.end, vec![s("e1"), s("e2"), s("e3")]);
    assert_eq!(config.add, vec![s("count: u32"), s("Vec<u8>")]);
    assert_eq!(config.begin_with, vec![s("w")]);
}

#[test]
fn both_forms_share_one_list() {
    let items = vec![value("feat", "f"), value("begin", "a"), list("begin", &["b", "c"]), value("begin", "d")];
    let config = HijektArgs::parse(&items).unwrap().config;
    assert_eq!(config.begin, vec![s("a"), s("b"), s("c"), s("d")]);
}

#[test]
fn empty_list_appends_nothing() {
    let items = vec![value("feat", "f"), list("begin", &[])];
    let config = HijektArgs::parse(&items).unwrap().config;
    assert!(config.begin.is_empty());
    assert!(config.is_simple_feature_only());
}

#[test]
fn last_swap_wins() {
    let items = vec![value("swap", "first"), value("feat", "f"), value("swap", "second")];
    let config = HijektArgs::parse(&items).unwrap().config;
    assert_eq!(config.replace, Some(s("second")));
}

#[test]
fn last_feat_wins() {
    let items = vec![value("feat", "one"), value("feat", "two")];
    let config = HijektArgs::parse(&items).unwrap().config;
    assert_eq!(config.feature_flag(), "two");
}

#[test]
fn unknown_key_is_rejected_with_its_key() {
    let items = vec![value("feat", "f"), value("bogus", "x")];
    let err = HijektArgs::parse(&items).unwrap_err();
    assert_eq!(err, ConfigError::UnknownKey(s("bogus")));
    assert_eq!(err.message(), "unrecognized hijekt attribute");
}

#[test]
fn keys_are_case_sensitive() {
    let items = vec![value("Feat", "f")];
    assert_eq!(HijektArgs::parse(&items).unwrap_err(), ConfigError::UnknownKey(s("Feat")));
}

#[test]
fn missing_feat_is_rejected() {
    let items = vec![value("begin", "a")];
    let err = HijektArgs::parse(&items).unwrap_err();
    assert_eq!(err, ConfigError::MissingFeature);
    assert_eq!(err.message(), "feat attribute is required");
}

#[test]
fn empty_argument_list_is_rejected() {
    assert_eq!(HijektArgs::parse(&Vec::new()).unwrap_err(), ConfigError::MissingFeature);
}

#[test]
fn empty_feat_is_rejected() {
    let items = vec![value("feat", "")];
    assert_eq!(HijektArgs::parse(&items).unwrap_err(), ConfigError::MissingFeature);
}

#[test]
fn bare_key_is_malformed() {
    let items = vec![value("feat", "f"), MetaItem { key: s("begin"), form: MetaForm::Bare }];
    let err = HijektArgs::parse(&items).unwrap_err();
    assert_eq!(err, ConfigError::Malformed(s("begin")));
    assert_eq!(err.message(), "expected key-value or list");
}

#[test]
fn literal_that_is_no_string_is_malformed() {
    let items = vec![MetaItem { key: s("feat"), form: MetaForm::Value(Literal::Other) }];
    assert_eq!(HijektArgs::parse(&items).unwrap_err(), ConfigError::Malformed(s("feat")));
    let items = vec![
        value("feat", "f"),
        MetaItem { key: s("rm"), form: MetaForm::List(vec![Literal::Str(s("a")), Literal::Other]) },
    ];
    assert_eq!(HijektArgs::parse(&items).unwrap_err(), ConfigError::Malformed(s("rm")));
}

#[test]
fn feat_and_swap_take_a_single_value_only() {
    assert_eq!(
        HijektArgs::parse(&vec![list("feat", &["f"])]).unwrap_err(),
        ConfigError::Malformed(s("feat"))
    );
    assert_eq!(
        HijektArgs::parse(&vec![value("feat", "f"), list("swap", &["g"])]).unwrap_err(),
        ConfigError::Malformed(s("swap"))
    );
}

#[test]
fn first_error_is_reported() {
    let items = vec![value("nope", "x"), value("also_nope", "y")];
    assert_eq!(HijektArgs::parse(&items).unwrap_err(), ConfigError::UnknownKey(s("nope")));
}

#[test]
fn rejected_item_leaves_the_configuration_as_it_was() {
    let mut config = HijektConfig::default();
    config.parse_meta_item(&value("feat", "f")).unwrap();
    config.parse_meta_item(&value("end", "log")).unwrap();
    let before = config.clone();
    assert!(config.parse_meta_item(&value("bogus", "x")).is_err());
    assert_eq!(config, before);
    let bad = MetaItem { key: s("end"), form: MetaForm::List(vec![Literal::Str(s("a")), Literal::Other]) };
    assert!(config.parse_meta_item(&bad).is_err());
    assert_eq!(config, before);
}

#[test]
fn simple_means_only_the_feature_is_set() {
    let mut config = HijektConfig::default();
    config.parse_meta_item(&value("feat", "f")).unwrap();
    assert!(config.is_simple_feature_only());
    for key in ["begin", "begin_with", "end", "rm", "swap", "add"] {
        let mut c = config.clone();
        c.parse_meta_item(&value(key, "x")).unwrap();
        assert!(!c.is_simple_feature_only(), "{}", key);
    }
}

#[test]
fn bad_identifier_message() {
    assert_eq!(ConfigError::BadIdentifier(s("1x")).message(), "expected identifier");
}

#[test]
fn simple_arguments_gate_the_declaration() {
    let e = hijekt::hijekt(&vec![value("feat", "extra")], hijekt::emit::Declaration::Other(2)).unwrap();
    assert_eq!(
        e,
        hijekt::emit::Emission::Gated { feature: s("extra"), item: hijekt::emit::Declaration::Other(2) }
    );
}
