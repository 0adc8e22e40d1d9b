use vstd::prelude::*;

use crate::manager::TEAMS_CLIENT_ID;
use crate::token::AccessToken;

verus! {

/// Root of the identity provider.
pub const LOGIN_HOST: &'static str = "https://login.microsoftonline.com/";

/// Path, under the tenant, that issues device codes.
pub const DEVICE_CODE_PATH: &'static str = "/oauth2/devicecode";

/// Path, under the tenant, polled for the device-code sign-in.
pub const DEVICE_TOKEN_PATH: &'static str = "/oauth2/token";

/// Path, under the tenant, of the refresh-token grant.
pub const TOKEN_PATH: &'static str = "/oauth2/v2.0/token";

/// Endpoint that derives the skype token.
pub const SKYPE_AUTHZ_URL: &'static str = "https://teams.microsoft.com/api/authsvc/v1.0/authz";

/// Origin header the token endpoints expect.
pub const TEAMS_ORIGIN: &'static str = "https://teams.microsoft.com";

/// Form field that names the client.
pub const CLIENT_ID_FIELD: &'static str = "client_id=";

/// Form field that names the resource a device code is asked for.
pub const DEVICE_RESOURCE_FIELD: &'static str = "&resource=https://api.spaces.skype.com";

/// Form field that carries the device code.
pub const CODE_FIELD: &'static str = "&code=";

/// Form field of the device-code grant.
pub const DEVICE_GRANT_FIELD: &'static str = "&grant_type=urn:ietf:params:oauth:grant-type:device_code";

/// Form field that lists the scopes asked for.
pub const SCOPE_FIELD: &'static str = "&scope=";

/// Scopes asked for when renewing the refresh token.
pub const BASE_SCOPES: &'static str = "openid profile offline_access";

/// Scopes asked for beside the resource scope in an exchange.
pub const EXTRA_SCOPES: &'static str = " openid profile offline_access";

/// Form fields of the refresh-token grant, up to the token itself.
pub const REFRESH_GRANT_FIELDS: &'static str =
    "&grant_type=refresh_token&client_info=1&x-client-SKU=msal.js.browser&x-client-VER=3.7.1&refresh_token=";

/// Form field that asks for tokens usable with continuous access evaluation.
pub const CLAIMS_FIELD: &'static str = "&claims={\"access_token\":{\"xms_cc\":{\"values\":[\"CP1\"]}}}";

/// Scheme prefix of an `Authorization` header.
pub const BEARER_PREFIX: &'static str = "Bearer ";

/// `a` followed by `b`.
fn joined(a: &str, b: &str) -> (r: String)
    ensures
        r@ == a@ + b@,
{
    let mut r = a.to_string();
    r.append(b);
    r
}

/// The endpoint at `path` under the tenant.
pub fn tenant_url(tenant: &str, path: &str) -> (r: String)
    ensures
        r@ == LOGIN_HOST@ + tenant@ + path@,
{
    let mut r = joined(LOGIN_HOST, tenant);
    r.append(path);
    r
}

/// Form body that asks for a device code.
pub fn device_code_form() -> (r: String)
    ensures
        r@ == CLIENT_ID_FIELD@ + TEAMS_CLIENT_ID@ + DEVICE_RESOURCE_FIELD@,
{
    let mut r = joined(CLIENT_ID_FIELD, TEAMS_CLIENT_ID);
    r.append(DEVICE_RESOURCE_FIELD);
    r
}

/// Form body of one poll for the device-code sign-in.
pub fn device_poll_form(device_code: &str) -> (r: String)
    ensures
        r@ == CLIENT_ID_FIELD@ + TEAMS_CLIENT_ID@ + CODE_FIELD@ + device_code@ + DEVICE_GRANT_FIELD@,
{
    let mut r = joined(CLIENT_ID_FIELD, TEAMS_CLIENT_ID);
    r.append(CODE_FIELD);
    r.append(device_code);
    r.append(DEVICE_GRANT_FIELD);
    r
}

/// Form body that renews a refresh token.
pub fn renewal_form(refresh: &AccessToken) -> (r: String)
    ensures
        r@ == CLIENT_ID_FIELD@ + TEAMS_CLIENT_ID@ + SCOPE_FIELD@ + BASE_SCOPES@ + REFRESH_GRANT_FIELDS@
            + refresh.value@,
{
    let mut r = joined(CLIENT_ID_FIELD, TEAMS_CLIENT_ID);
    r.append(SCOPE_FIELD);
    r.append(BASE_SCOPES);
    r.append(REFRESH_GRANT_FIELDS);
    r.append(refresh.value.as_str());
    r
}

/// Form body that exchanges a refresh token for a token of `scope`.
pub fn exchange_form(refresh: &AccessToken, scope: &str) -> (r: String)
    ensures
        r@ == CLIENT_ID_FIELD@ + TEAMS_CLIENT_ID@ + SCOPE_FIELD@ + scope@ + EXTRA_SCOPES@
            + REFRESH_GRANT_FIELDS@ + refresh.value@ + CLAIMS_FIELD@,
{
    let mut r = joined(CLIENT_ID_FIELD, TEAMS_CLIENT_ID);
    r.append(SCOPE_FIELD);
    r.append(scope);
    r.append(EXTRA_SCOPES);
    r.append(REFRESH_GRANT_FIELDS);
    r.append(refresh.value.as_str());
    r.append(CLAIMS_FIELD);
    r
}

/// The `Authorization` header value that presents `token`.
pub fn bearer(token: &AccessToken) -> (r: String)
    ensures
        r@ == BEARER_PREFIX@ + token.value@,
{
    joined(BEARER_PREFIX, token.value.as_str())
}

} // verus!
