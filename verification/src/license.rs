//! License bookkeeping that needs no network: masking a key for display,
//! checking a verification response against the expected product and key,
//! and deriving the user-visible license state from the stored record.

use vstd::prelude::*;

verus! {

use vstd::string::StrSliceExecFns;
use vstd::string::StringExecFns;
use crate::strutil::str_eq;

/// The product identifier licenses must carry.
pub open spec fn product_id_spec() -> Seq<char> {
    "-I6OpIuv1ULHDdhOvkCs5g=="@
}

/// The product identifier licenses must carry.
pub fn gumroad_product_id() -> (r: &'static str)
    ensures
        r@ == product_id_spec(),
{
    "-I6OpIuv1ULHDdhOvkCs5g=="
}

#[derive(Clone, Debug)]
pub struct LicenseInfo {
    pub is_licensed: bool,
    pub license_key: Option<String>,
    pub licensed_email: Option<String>,
    /// Whether the license state is a cached answer after a network
    /// failure rather than a fresh validation.
    pub is_cached: bool,
}

/// What is persisted about a license between runs.
#[derive(Clone, Debug)]
pub struct StoredLicense {
    pub license_key: String,
    pub licensed_email: Option<String>,
    pub validated: bool,
}

/// The body of a license-verification response.
#[derive(Clone, Debug)]
pub struct GumroadResponse {
    pub success: bool,
    pub message: Option<String>,
    pub purchase: Option<GumroadPurchase>,
}

#[derive(Clone, Debug)]
pub struct GumroadPurchase {
    pub email: Option<String>,
    pub product_id: Option<String>,
    pub license_key: Option<String>,
}

/// A run of `n` asterisks.
pub open spec fn star_run(n: int) -> Seq<char>
    decreases n,
{
    if n <= 0 {
        Seq::<char>::empty()
    } else {
        star_run(n - 1).push('*')
    }
}

/// A key of at most eight characters is fully starred out; a longer key
/// shows its first and last four characters around an ellipsis.
pub open spec fn masked_key(key: Seq<char>) -> Seq<char> {
    if key.len() <= 8 {
        star_run(key.len() as int)
    } else {
        key.subrange(0, 4) + "..."@ + key.subrange(key.len() - 4, key.len() as int)
    }
}

/// Masks a license key for display.
pub fn mask_license_key(key: &str) -> (r: String)
    ensures
        r@ == masked_key(key@),
{
    let char_count = key.unicode_len();
    if char_count <= 8 {
        let mut s = String::new();
        let mut i: usize = 0;
        while i < char_count
            invariant
                i <= char_count,
                s@ == star_run(i as int),
            decreases char_count - i,
        {
            s.append("*");
            proof {
                assert(star_run(i + 1) =~= star_run(i as int) + "*"@) by {
                    reveal_strlit("*");
                }
            }
            i = i + 1;
        }
        s
    } else {
        let first = key.substring_char(0, 4);
        let last = key.substring_char(char_count - 4, char_count);
        first.to_owned().concat("...").concat(last)
    }
}

/// What checking a successful verification response must report: the
/// purchase, its product identifier, and the echoed license key are each
/// required and must match; a failed response is not checked further.
pub open spec fn expected_validation_error(
    resp: GumroadResponse,
    expected: Seq<char>,
) -> Option<Seq<char>> {
    if !resp.success {
        None
    } else {
        match resp.purchase {
            None => Some("Invalid response: missing purchase data"@),
            Some(p) => match p.product_id {
                None => Some("Invalid response: missing product verification"@),
                Some(pid) => if pid@ != product_id_spec() {
                    Some("Invalid license: product mismatch"@)
                } else {
                    match p.license_key {
                        None => Some("Invalid response: missing license verification"@),
                        Some(k) => if k@ == expected {
                            None
                        } else {
                            Some("Invalid response: license key mismatch"@)
                        },
                    }
                },
            },
        }
    }
}

/// Checks that a verification response is authentic for this product and
/// the key that was sent; a message describes the first mismatch.
pub fn validate_gumroad_response(
    response: &GumroadResponse,
    expected_license_key: &str,
) -> (r: Option<String>)
    ensures
        match r {
            Some(m) => expected_validation_error(*response, expected_license_key@) == Some(m@),
            None => expected_validation_error(*response, expected_license_key@) is None,
        },
{
    if !response.success {
        return None;
    }
    let purchase = match &response.purchase {
        Some(purchase) => purchase,
        None => {
            return Some("Invalid response: missing purchase data".to_owned());
        },
    };
    match &purchase.product_id {
        Some(product_id) => {
            if !str_eq(product_id.as_str(), gumroad_product_id()) {
                return Some("Invalid license: product mismatch".to_owned());
            }
        },
        None => {
            return Some("Invalid response: missing product verification".to_owned());
        },
    }
    match &purchase.license_key {
        Some(response_key) => {
            if !str_eq(response_key.as_str(), expected_license_key) {
                return Some("Invalid response: license key mismatch".to_owned());
            }
        },
        None => {
            return Some("Invalid response: missing license verification".to_owned());
        },
    }
    None
}

/// The license state shown to the user for a given stored record: licensed
/// exactly when a validated record exists, with the key masked for display.
pub fn license_info_from_stored(stored: Option<&StoredLicense>) -> (r: LicenseInfo)
    ensures
        match stored {
            Some(s) if s.validated => r.is_licensed && (r.license_key matches Some(k)
                && k@ == masked_key(s.license_key@)) && r.licensed_email == s.licensed_email
                && !r.is_cached,
            _ => !r.is_licensed && r.license_key is None && r.licensed_email is None
                && !r.is_cached,
        },
{
    match stored {
        Some(s) => {
            if s.validated {
                LicenseInfo {
                    is_licensed: true,
                    license_key: Some(mask_license_key(s.license_key.as_str())),
                    licensed_email: s.licensed_email.clone(),
                    is_cached: false,
                }
            } else {
                LicenseInfo {
                    is_licensed: false,
                    license_key: None,
                    licensed_email: None,
                    is_cached: false,
                }
            }
        },
        None => LicenseInfo {
            is_licensed: false,
            license_key: None,
            licensed_email: None,
            is_cached: false,
        },
    }
}

} // verus!
