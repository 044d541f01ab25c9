use merco::errors::{AppError, ErrorKind};
use merco::utils::{confine, safe_join, str_to_bigdecimal};

#[test]
fn safe_join_joins_under_the_base() {
    assert_eq!(safe_join("/srv/data", "a/b.txt").unwrap(), "/srv/data/a/b.txt");
    assert_eq!(safe_join("/srv/data/", "a").unwrap(), "/srv/data/a");
    assert_eq!(safe_join("rel", "x").unwrap(), "rel/x");
}

#[test]
fn safe_join_trims_and_strips_leading_slashes() {
    assert_eq!(safe_join("/srv/data", "  /a/b  ").unwrap(), "/srv/data/a/b");
    assert_eq!(safe_join("/srv/data", "///etc/passwd").unwrap(), "/srv/data/etc/passwd");
    assert_eq!(safe_join("/srv/data", "\t\n a \r\n").unwrap(), "/srv/data/a");
    assert_eq!(safe_join("/srv/data", "a b").unwrap(), "/srv/data/a b");
}

#[test]
fn safe_join_refuses_a_parent_marker() {
    for path in ["../x", "a/../b", "a/..", "..", "a..b", "  /../x "] {
        let err = safe_join("/srv/data", path).unwrap_err();
        assert_eq!(err.kind(), ErrorKind::BadRequest);
        assert_eq!(err.message(), "Path traversal attempt detected");
    }
    assert!(safe_join("/srv/data", "a/./b").is_ok());
    assert!(safe_join("/srv/data", ". .").is_ok());
}

#[test]
fn confine_goes_by_whole_components() {
    assert_eq!(confine("/srv/data", "/srv/data/a".to_string()).unwrap(), "/srv/data/a");
    assert_eq!(confine("/srv/data", "/srv/data".to_string()).unwrap(), "/srv/data");
    let err = confine("/srv/data", "/srv/database".to_string()).unwrap_err();
    assert!(matches!(err, AppError::BadRequest(_)));
    assert_eq!(err.message(), "Path traversal attempt detected");
    assert!(confine("/srv/data", "/etc/passwd".to_string()).is_err());
    assert!(confine("/srv/data", "/srv".to_string()).is_err());
}

#[test]
fn str_to_bigdecimal_reads_a_decimal() {
    let d = str_to_bigdecimal("0.001", "maker").unwrap();
    assert!(d.equals(&merco::decimal::Decimal::parse("0.0010").unwrap()));
    assert_eq!(d.scale(), 3);
}

#[test]
fn str_to_bigdecimal_names_field_and_text() {
    let err = str_to_bigdecimal("abc", "price").unwrap_err();
    assert_eq!(err.kind(), ErrorKind::Internal);
    assert_eq!(err.message(), "Invalid price: abc");
}
