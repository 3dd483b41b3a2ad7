use deptox::license::{
    gumroad_product_id, mask_license_key, validate_gumroad_response, GumroadPurchase,
    GumroadResponse,
};

#[test]
fn test_mask_license_key() {
    assert_eq!(mask_license_key("ABCD-1234-EFGH-5678"), "ABCD...5678");
    assert_eq!(mask_license_key("SHORT"), "*****");
    assert_eq!(mask_license_key("12345678"), "********");
    assert_eq!(mask_license_key("123456789"), "1234...6789");
}

#[test]
fn test_validate_gumroad_response_success_with_valid_data() {
    let response = GumroadResponse {
        success: true,
        message: None,
        purchase: Some(GumroadPurchase {
            email: Some("user@example.com".to_string()),
            product_id: Some(gumroad_product_id().to_string()),
            license_key: Some("TEST-LICENSE-KEY".to_string()),
        }),
    };

    let result = validate_gumroad_response(&response, "TEST-LICENSE-KEY");
    assert!(result.is_none(), "Valid response should pass validation");
}

#[test]
fn test_validate_gumroad_response_failed_response_skips_validation() {
    let response = GumroadResponse {
        success: false,
        message: Some("Invalid license".to_string()),
        purchase: None,
    };

    let result = validate_gumroad_response(&response, "ANY-KEY");
    assert!(result.is_none(), "Failed responses should skip validation");
}

#[test]
fn test_validate_gumroad_response_missing_purchase() {
    let response = GumroadResponse {
        success: true,
        message: None,
        purchase: None,
    };

    let result = validate_gumroad_response(&response, "TEST-KEY");
    assert!(result.is_some(), "Missing purchase should fail validation");
    assert!(result.unwrap().contains("missing purchase data"));
}

#[test]
fn test_validate_gumroad_response_wrong_product_id() {
    let response = GumroadResponse {
        success: true,
        message: None,
        purchase: Some(GumroadPurchase {
            email: Some("user@example.com".to_string()),
            product_id: Some("WRONG-PRODUCT-ID".to_string()),
            license_key: Some("TEST-KEY".to_string()),
        }),
    };

    let result = validate_gumroad_response(&response, "TEST-KEY");
    assert!(result.is_some(), "Wrong product ID should fail validation");
    assert!(result.unwrap().contains("product mismatch"));
}

#[test]
fn test_validate_gumroad_response_missing_product_id() {
    let response = GumroadResponse {
        success: true,
        message: None,
        purchase: Some(GumroadPurchase {
            email: Some("user@example.com".to_string()),
            product_id: None,
            license_key: Some("TEST-KEY".to_string()),
        }),
    };

    let result = validate_gumroad_response(&response, "TEST-KEY");
    assert!(result.is_some(), "Missing product ID should fail validation");
    assert!(result.unwrap().contains("missing product verification"));
}

#[test]
fn test_validate_gumroad_response_wrong_license_key() {
    let response = GumroadResponse {
        success: true,
        message: None,
        purchase: Some(GumroadPurchase {
            email: Some("user@example.com".to_string()),
            product_id: Some(gumroad_product_id().to_string()),
            license_key: Some("DIFFERENT-KEY".to_string()),
        }),
    };

    let result = validate_gumroad_response(&response, "EXPECTED-KEY");
    assert!(result.is_some(), "Wrong license key should fail validation");
    assert!(result.unwrap().contains("license key mismatch"));
}

#[test]
fn test_validate_gumroad_response_missing_license_key() {
    let response = GumroadResponse {
        success: true,
        message: None,
        purchase: Some(GumroadPurchase {
            email: Some("user@example.com".to_string()),
            product_id: Some(gumroad_product_id().to_string()),
            license_key: None,
        }),
    };

    let result = validate_gumroad_response(&response, "TEST-KEY");
    assert!(result.is_some(), "Missing license key should fail validation");
    assert!(result.unwrap().contains("missing license verification"));
}
