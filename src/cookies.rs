use vstd::prelude::*;

verus! {

/// The four tokens that present the browser session as a signed-in reader.
#[derive(Debug)]
pub struct Credentials {
    pub access_token: String,
    pub session: String,
    pub xsrf_token: String,
    pub cf_clearance: String,
}

/// A required credential is absent; `key` names the setting that was missing.
#[derive(Debug)]
pub struct MissingCredential {
    pub key: String,
}

/// A cookie to set on the browser before a page is opened.
#[derive(Debug)]
pub struct Cookie {
    pub name: String,
    pub value: String,
    pub url: String,
    pub path: String,
    pub secure: bool,
}

/// The first of the four settings, in the order access token, session,
/// cross-site request token, clearance token, that has no value.
pub open spec fn first_missing(
    access_token: Option<String>,
    session: Option<String>,
    xsrf_token: Option<String>,
    cf_clearance: Option<String>,
) -> Option<Seq<char>> {
    if access_token is None {
        Some("accessToken"@)
    } else if session is None {
        Some("me_truyen_chu_session"@)
    } else if xsrf_token is None {
        Some("XSRF_TOKEN"@)
    } else if cf_clearance is None {
        Some("cf_clearance"@)
    } else {
        None
    }
}

/// Gathers the credentials from the four settings' values, or names the
/// first setting that has none.
pub fn load_credentials(
    access_token: Option<String>,
    session: Option<String>,
    xsrf_token: Option<String>,
    cf_clearance: Option<String>,
) -> (r: Result<Credentials, MissingCredential>)
    ensures
        r is Ok <==> first_missing(access_token, session, xsrf_token, cf_clearance) is None,
        r matches Err(e) ==> Some(e.key@) == first_missing(
            access_token,
            session,
            xsrf_token,
            cf_clearance,
        ),
        r matches Ok(c) ==> {
            &&& Some(c.access_token) == access_token
            &&& Some(c.session) == session
            &&& Some(c.xsrf_token) == xsrf_token
            &&& Some(c.cf_clearance) == cf_clearance
        },
{
    let access_token = match access_token {
        Some(v) => v,
        None => return Err(MissingCredential { key: String::from_str("accessToken") }),
    };
    let session = match session {
        Some(v) => v,
        None => return Err(MissingCredential { key: String::from_str("me_truyen_chu_session") }),
    };
    let xsrf_token = match xsrf_token {
        Some(v) => v,
        None => return Err(MissingCredential { key: String::from_str("XSRF_TOKEN") }),
    };
    let cf_clearance = match cf_clearance {
        Some(v) => v,
        None => return Err(MissingCredential { key: String::from_str("cf_clearance") }),
    };
    Ok(Credentials { access_token, session, xsrf_token, cf_clearance })
}

/// A secure cookie with path `/`, scoped to `url`.
pub open spec fn is_cookie(c: Cookie, name: Seq<char>, value: Seq<char>, url: Seq<char>) -> bool {
    &&& c.name@ == name
    &&& c.value@ == value
    &&& c.url@ == url
    &&& c.path@ == "/"@
    &&& c.secure
}

fn make_cookie(name: &str, value: &String, url: &str) -> (r: Cookie)
    ensures
        is_cookie(r, name@, value@, url@),
{
    Cookie {
        name: String::from_str(name),
        value: value.clone(),
        url: String::from_str(url),
        path: String::from_str("/"),
        secure: true,
    }
}

/// The four session cookies for a page at `url`.
pub fn create_cookies(credentials: &Credentials, url: &str) -> (r: Vec<Cookie>)
    ensures
        r.len() == 4,
        is_cookie(r[0], "accessToken"@, credentials.access_token@, url@),
        is_cookie(r[1], "me_truyen_chu_session"@, credentials.session@, url@),
        is_cookie(r[2], "XSRF-TOKEN"@, credentials.xsrf_token@, url@),
        is_cookie(r[3], "cf_clearance"@, credentials.cf_clearance@, url@),
{
    let mut cookies: Vec<Cookie> = Vec::new();
    cookies.push(make_cookie("accessToken", &credentials.access_token, url));
    cookies.push(make_cookie("me_truyen_chu_session", &credentials.session, url));
    cookies.push(make_cookie("XSRF-TOKEN", &credentials.xsrf_token, url));
    cookies.push(make_cookie("cf_clearance", &credentials.cf_clearance, url));
    cookies
}

} // verus!
