//! Tenant identification for multi-tenant web applications.
use vstd::prelude::*;
use crate::support::strip_prefix;
use crate::text::to_string;

verus! {

/// Error type for tenant extraction failures.
#[derive(Debug)]
pub struct TenantExtractionError {
    pub message: String,
}

/// Extracts the tenant from a bearer token of the form `tenant-<id>` in the
/// `Authorization` header.
pub struct JwtTenantExtractor {}

/// The outcome of tenant extraction from an `Authorization` header value (absent when the
/// header is missing or not text): the text after `Bearer tenant-`, or the error message.
pub open spec fn tenant_outcome(header: Option<Seq<char>>) -> Result<Seq<char>, Seq<char>> {
    match header {
        None => Err("Missing authorization header"@),
        Some(h) => if !"Bearer "@.is_prefix_of(h) {
            Err("Invalid authorization format"@)
        } else if !"tenant-"@.is_prefix_of(h.skip(7)) {
            Err("Invalid tenant token"@)
        } else {
            Ok(h.skip(14))
        },
    }
}

/// The view of an extraction result.
pub open spec fn tenant_result_view(r: Result<String, TenantExtractionError>) -> Result<Seq<char>, Seq<char>> {
    match r {
        Ok(t) => Ok(t@),
        Err(e) => Err(e.message@),
    }
}

impl JwtTenantExtractor {
    /// The tenant named by an `Authorization` header value.
    pub fn extract_from_header(&self, header: Option<&str>) -> (r: Result<String, TenantExtractionError>)
        ensures
            tenant_result_view(r) == tenant_outcome(match header {
                Some(h) => Some(h@),
                None => None,
            }),
    {
        proof {
            reveal_strlit("Bearer ");
            reveal_strlit("tenant-");
        }
        let auth = match header {
            Some(h) => h,
            None => return Err(TenantExtractionError { message: to_string("Missing authorization header") }),
        };
        let token = match strip_prefix(auth, "Bearer ") {
            Some(t) => t,
            None => return Err(TenantExtractionError { message: to_string("Invalid authorization format") }),
        };
        proof {
            assert(auth@.skip(7) =~= token@);
        }
        match strip_prefix(token, "tenant-") {
            Some(id) => {
                proof {
                    assert(auth@.skip(14) =~= id@);
                }
                Ok(to_string(id))
            },
            None => Err(TenantExtractionError { message: to_string("Invalid tenant token") }),
        }
    }
}

} // verus!
