use ldap3_proto::proto::{LdapFilter, LdapSubstringFilter};
use ldap3_proto::{parse_ldap_filter_str, LdapFilterError};

fn eq(a: &str, v: &str) -> LdapFilter {
    LdapFilter::Equality(a.to_string(), v.to_string())
}

#[test]
fn presence() {
    assert_eq!(
        parse_ldap_filter_str("(cn=*)"),
        Ok(LdapFilter::Present("cn".to_string()))
    );
}

#[test]
fn equality() {
    assert_eq!(parse_ldap_filter_str("(cn=abc)"), Ok(eq("cn", "abc")));
    assert_eq!(parse_ldap_filter_str("(cn=)"), Ok(eq("cn", "")));
    assert_eq!(
        parse_ldap_filter_str("(objectClass=person)"),
        Ok(eq("objectClass", "person"))
    );
}

#[test]
fn substring() {
    assert_eq!(
        parse_ldap_filter_str("(cn=abc*def*ghi)"),
        Ok(LdapFilter::Substring(
            "cn".to_string(),
            LdapSubstringFilter {
                initial: Some("abc".to_string()),
                any: vec!["def".to_string()],
                final_: Some("ghi".to_string()),
            }
        ))
    );
    assert_eq!(
        parse_ldap_filter_str("(cn=abc*)"),
        Ok(LdapFilter::Substring(
            "cn".to_string(),
            LdapSubstringFilter {
                initial: Some("abc".to_string()),
                any: vec![],
                final_: None,
            }
        ))
    );
    assert_eq!(
        parse_ldap_filter_str("(cn=*abc)"),
        Ok(LdapFilter::Substring(
            "cn".to_string(),
            LdapSubstringFilter {
                initial: None,
                any: vec![],
                final_: Some("abc".to_string()),
            }
        ))
    );
    assert_eq!(
        parse_ldap_filter_str("(cn=*a*b*)"),
        Ok(LdapFilter::Substring(
            "cn".to_string(),
            LdapSubstringFilter {
                initial: None,
                any: vec!["a".to_string(), "b".to_string()],
                final_: None,
            }
        ))
    );
}

#[test]
fn groups_and_negation() {
    assert_eq!(
        parse_ldap_filter_str("(&(a=b)(!(c=d)))"),
        Ok(LdapFilter::And(vec![
            eq("a", "b"),
            LdapFilter::Not(Box::new(eq("c", "d")))
        ]))
    );
    assert_eq!(
        parse_ldap_filter_str("(|(a=b)(c=d)(e=*))"),
        Ok(LdapFilter::Or(vec![
            eq("a", "b"),
            eq("c", "d"),
            LdapFilter::Present("e".to_string())
        ]))
    );
    assert_eq!(
        parse_ldap_filter_str("(&(|(a=1)(a=2))(&(b=3)))"),
        Ok(LdapFilter::And(vec![
            LdapFilter::Or(vec![eq("a", "1"), eq("a", "2")]),
            LdapFilter::And(vec![eq("b", "3")]),
        ]))
    );
}

#[test]
fn escapes() {
    assert_eq!(parse_ldap_filter_str("(cn=\\2a)"), Ok(eq("cn", "*")));
    assert_eq!(parse_ldap_filter_str("(cn=a\\28b\\29)"), Ok(eq("cn", "a(b)")));
    assert_eq!(parse_ldap_filter_str("(cn=\\5C)"), Ok(eq("cn", "\\")));
    assert_eq!(
        parse_ldap_filter_str("(cn=\\c3\\a9t\\C3\\A9)"),
        Ok(eq("cn", "été"))
    );
    assert_eq!(
        parse_ldap_filter_str("(cn=a\\2a*b)"),
        Ok(LdapFilter::Substring(
            "cn".to_string(),
            LdapSubstringFilter {
                initial: Some("a*".to_string()),
                any: vec![],
                final_: Some("b".to_string()),
            }
        ))
    );
    assert_eq!(parse_ldap_filter_str("(cn=été)"), Ok(eq("cn", "été")));
}

#[test]
fn invalid_escapes() {
    assert_eq!(
        parse_ldap_filter_str("(cn=\\2)"),
        Err(LdapFilterError::InvalidEscape)
    );
    assert_eq!(
        parse_ldap_filter_str("(cn=\\zz)"),
        Err(LdapFilterError::InvalidEscape)
    );
    assert_eq!(
        parse_ldap_filter_str("(cn=a\\"),
        Err(LdapFilterError::InvalidEscape)
    );
    assert_eq!(
        parse_ldap_filter_str("(cn=\\ff)"),
        Err(LdapFilterError::InvalidUtf8)
    );
}

#[test]
fn unbalanced() {
    assert_eq!(parse_ldap_filter_str(""), Err(LdapFilterError::Unbalanced));
    assert_eq!(parse_ldap_filter_str("("), Err(LdapFilterError::Unbalanced));
    assert_eq!(
        parse_ldap_filter_str("cn=abc"),
        Err(LdapFilterError::Unbalanced)
    );
    assert_eq!(
        parse_ldap_filter_str("(cn=abc"),
        Err(LdapFilterError::Unbalanced)
    );
    assert_eq!(
        parse_ldap_filter_str("(&(a=b)"),
        Err(LdapFilterError::Unbalanced)
    );
    assert_eq!(
        parse_ldap_filter_str("(!(a=b)(c=d))"),
        Err(LdapFilterError::Unbalanced)
    );
    assert_eq!(parse_ldap_filter_str("(cn"), Err(LdapFilterError::Unbalanced));
}

#[test]
fn empty_groups() {
    assert_eq!(parse_ldap_filter_str("(&)"), Err(LdapFilterError::EmptyGroup));
    assert_eq!(parse_ldap_filter_str("(|)"), Err(LdapFilterError::EmptyGroup));
    assert_eq!(
        parse_ldap_filter_str("(&a=b)"),
        Err(LdapFilterError::EmptyGroup)
    );
}

#[test]
fn trailing_garbage() {
    assert_eq!(
        parse_ldap_filter_str("(cn=abc)x"),
        Err(LdapFilterError::TrailingGarbage)
    );
    assert_eq!(
        parse_ldap_filter_str("(cn=abc)(a=b)"),
        Err(LdapFilterError::TrailingGarbage)
    );
    assert_eq!(
        parse_ldap_filter_str("(cn=abc))"),
        Err(LdapFilterError::TrailingGarbage)
    );
}

#[test]
fn unsupported_operators() {
    assert_eq!(
        parse_ldap_filter_str("(age>=5)"),
        Err(LdapFilterError::Unsupported)
    );
    assert_eq!(
        parse_ldap_filter_str("(age<=5)"),
        Err(LdapFilterError::Unsupported)
    );
    assert_eq!(
        parse_ldap_filter_str("(cn~=bob)"),
        Err(LdapFilterError::Unsupported)
    );
    assert_eq!(
        parse_ldap_filter_str("(cn:dn:=bob)"),
        Err(LdapFilterError::Unsupported)
    );
}

#[test]
fn malformed_items() {
    assert_eq!(parse_ldap_filter_str("(=abc)"), Err(LdapFilterError::Malformed));
    assert_eq!(parse_ldap_filter_str("()"), Err(LdapFilterError::Malformed));
    assert_eq!(parse_ldap_filter_str("(cn)"), Err(LdapFilterError::Malformed));
    assert_eq!(
        parse_ldap_filter_str("(cn=a(b)"),
        Err(LdapFilterError::Malformed)
    );
}
