use stellar_analytics::api::analytics_dashboard::{
    asset_identifier, distinct_asset_identifiers, AssetKey,
};

fn key(asset_type: &str, code: Option<&str>, issuer: Option<&str>) -> AssetKey {
    AssetKey {
        asset_type: asset_type.to_string(),
        asset_code: code.map(|c| c.to_string()),
        asset_issuer: issuer.map(|i| i.to_string()),
    }
}

#[test]
fn native_asset_is_xlm() {
    assert_eq!(asset_identifier("native", None, None), "XLM:native");
    assert_eq!(asset_identifier("native", Some("XLM"), Some("GABC")), "XLM:native");
}

#[test]
fn issued_asset_is_code_and_issuer() {
    assert_eq!(
        asset_identifier("credit_alphanum4", Some("USDC"), Some("GA5Z")),
        "USDC:GA5Z"
    );
}

#[test]
fn missing_code_and_issuer_use_placeholders() {
    assert_eq!(asset_identifier("credit_alphanum4", None, Some("GA5Z")), "UNKNOWN:GA5Z");
    assert_eq!(asset_identifier("credit_alphanum12", Some("EURC"), None), "EURC:unknown");
    assert_eq!(asset_identifier("credit_alphanum4", None, None), "UNKNOWN:unknown");
}

#[test]
fn asset_type_must_match_native_exactly() {
    assert_eq!(asset_identifier("Native", None, None), "UNKNOWN:unknown");
    assert_eq!(asset_identifier("native ", Some("A"), Some("B")), "A:B");
}

#[test]
fn distinct_identifiers_keep_first_occurrence_order() {
    let rows = vec![
        key("credit_alphanum4", Some("USDC"), Some("GA5Z")),
        key("native", None, None),
        key("credit_alphanum4", Some("USDC"), Some("GA5Z")),
        key("credit_alphanum4", Some("EURC"), None),
        key("native", Some("ignored"), None),
    ];
    assert_eq!(
        distinct_asset_identifiers(&rows),
        vec![
            "USDC:GA5Z".to_string(),
            "XLM:native".to_string(),
            "EURC:unknown".to_string(),
        ]
    );
}

#[test]
fn distinct_identifiers_of_no_rows_is_empty() {
    assert!(distinct_asset_identifiers(&Vec::new()).is_empty());
}

#[test]
fn rows_that_differ_only_in_missing_parts_share_an_identifier() {
    let rows = vec![
        key("credit_alphanum4", None, Some("GA5Z")),
        key("credit_alphanum4", Some("UNKNOWN"), Some("GA5Z")),
    ];
    assert_eq!(distinct_asset_identifiers(&rows), vec!["UNKNOWN:GA5Z".to_string()]);
}
