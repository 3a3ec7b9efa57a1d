use oxide_emit::ast::{Expression, PropertyKey, StringLiteral, TemplateLiteral};
use oxide_emit::keys::{
    class_property_name, computed_const_key, is_array_index_str, pool_key_marker, pool_key_plain, pool_key_property,
    static_property_name,
};
use oxide_emit::text::{str_eq, str_lt};

#[test]
fn plain_keys_escape_the_replacement_character() {
    assert_eq!(pool_key_plain("abc"), "abc");
    assert_eq!(pool_key_plain("a\u{FFFD}b"), "a\u{FFFD}fffdb");
    assert_eq!(pool_key_plain("\u{FFFD}\u{FFFD}"), "\u{FFFD}fffd\u{FFFD}fffd");
    assert_eq!(pool_key_plain(""), "");
}

#[test]
fn marker_keys_pass_through_when_flagged() {
    assert_eq!(pool_key_marker("x\u{FFFD}d800", true), "x\u{FFFD}d800");
    assert_eq!(pool_key_marker("x\u{FFFD}", false), "x\u{FFFD}fffd");
}

#[test]
fn property_keys_by_kind() {
    assert_eq!(pool_key_property(&PropertyKey::StaticIdentifier("foo".to_string())), Ok("foo".to_string()));
    assert_eq!(pool_key_property(&PropertyKey::NumericLiteral("1.5".to_string())), Ok("1.5".to_string()));
    assert_eq!(
        pool_key_property(&PropertyKey::StringLiteral(StringLiteral { value: "\u{FFFD}".to_string(), lone_surrogates: false })),
        Ok("\u{FFFD}fffd".to_string())
    );
    assert_eq!(
        pool_key_property(&PropertyKey::PrivateIdentifier("p".to_string())),
        Err("private class elements not yet supported".to_string())
    );
    assert_eq!(
        pool_key_property(&PropertyKey::Computed(Box::new(Expression::This))),
        Err("unsupported class property key type".to_string())
    );
    assert_eq!(
        class_property_name(&PropertyKey::StringLiteral(StringLiteral { value: "\u{FFFD}".to_string(), lone_surrogates: false })),
        Ok("\u{FFFD}".to_string())
    );
    assert_eq!(
        static_property_name(&PropertyKey::PrivateIdentifier("p".to_string())),
        Err("computed destructuring keys not yet supported".to_string())
    );
}

#[test]
fn array_index_strings() {
    assert!(is_array_index_str("0"));
    assert!(is_array_index_str("42"));
    assert!(is_array_index_str("4294967295"));
    assert!(!is_array_index_str("4294967296"));
    assert!(!is_array_index_str(""));
    assert!(!is_array_index_str("01"));
    assert!(!is_array_index_str("1a"));
    assert!(!is_array_index_str("-1"));
    assert!(!is_array_index_str("99999999999999999999"));
}

#[test]
fn computed_constant_keys() {
    let s = |v: &str| Expression::StringLiteral(StringLiteral { value: v.to_string(), lone_surrogates: false });
    assert_eq!(computed_const_key(&s("name")), Some("name".to_string()));
    assert_eq!(computed_const_key(&s("7")), None);
    assert_eq!(computed_const_key(&s("07")), Some("07".to_string()));
    let tpl = Expression::TemplateLiteral(TemplateLiteral { quasis: vec![Some("k".to_string())], raws: vec!["k".to_string()], expressions: vec![] });
    assert_eq!(computed_const_key(&tpl), Some("k".to_string()));
    let raw_only = Expression::TemplateLiteral(TemplateLiteral { quasis: vec![None], raws: vec!["\\u{".to_string()], expressions: vec![] });
    assert_eq!(computed_const_key(&raw_only), Some(String::new()));
    let interp = Expression::TemplateLiteral(TemplateLiteral {
        quasis: vec![Some("a".to_string()), Some("b".to_string())],
        raws: vec!["a".to_string(), "b".to_string()],
        expressions: vec![Expression::This],
    });
    assert_eq!(computed_const_key(&interp), None);
    assert_eq!(computed_const_key(&Expression::NumericLiteral("1".to_string())), None);
}

#[test]
fn text_order_and_equality() {
    assert!(str_eq("abc", "abc"));
    assert!(!str_eq("abc", "abd"));
    assert!(str_lt("a", "b"));
    assert!(str_lt("ab", "abc"));
    assert!(!str_lt("abc", "ab"));
    assert!(!str_lt("x", "x"));
    assert!(str_lt("Z", "a"));
    assert!(str_lt("", "a"));
}
