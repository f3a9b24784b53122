use vstd::prelude::*;
use base64::Engine;
use vstd::string::*;
use crate::pipeline::{Authentication, lower_of, to_lower};
use crate::trace::{ApiTrace, KeyVal, opt_text, same_text};

verus! {

/// The HMAC-SHA256 tag of the UTF-8 bytes of `msg` under the key bytes `key`.
pub uninterp spec fn hmac_sha256_of(key: Seq<u8>, msg: Seq<char>) -> Seq<u8>;

/// The character of the standard base64 alphabet for the six bits `v`.
pub open spec fn base64_digit(v: int) -> char {
    if v < 26 {
        (65 + v) as u32 as char
    } else if v < 52 {
        (97 + v - 26) as u32 as char
    } else if v < 62 {
        (48 + v - 52) as u32 as char
    } else if v == 62 {
        '+'
    } else {
        '/'
    }
}

/// The standard, padded base64 text of `bytes`: four characters for each three
/// bytes, the last group padded with `=`.
#[verifier::opaque]
pub open spec fn base64_of(bytes: Seq<u8>) -> Seq<char>
    decreases bytes.len(),
{
    if bytes.len() == 0 {
        Seq::empty()
    } else if bytes.len() == 1 {
        let b0 = bytes[0] as int;
        seq![base64_digit(b0 / 4), base64_digit((b0 % 4) * 16), '=', '=']
    } else if bytes.len() == 2 {
        let (b0, b1) = (bytes[0] as int, bytes[1] as int);
        seq![base64_digit(b0 / 4), base64_digit((b0 % 4) * 16 + b1 / 16), base64_digit((b1 % 16) * 4), '=']
    } else {
        let (b0, b1, b2) = (bytes[0] as int, bytes[1] as int, bytes[2] as int);
        seq![
            base64_digit(b0 / 4),
            base64_digit((b0 % 4) * 16 + b1 / 16),
            base64_digit((b1 % 16) * 4 + b2 / 64),
            base64_digit(b2 % 64),
        ] + base64_of(bytes.skip(3))
    }
}

/// Relies on ring's `hmac::Key::new` with `HMAC_SHA256` and `hmac::sign`.
#[verifier::external_body]
fn hmac_sign(key: &Vec<u8>, msg: &str) -> (r: Vec<u8>)
    ensures
        r@ == hmac_sha256_of(key@, msg@),
{
    let k = ring::hmac::Key::new(ring::hmac::HMAC_SHA256, key.as_slice());
    ring::hmac::sign(&k, msg.as_bytes()).as_ref().to_vec()
}

/// Relies on base64's `STANDARD` engine `encode`: padded base64 with the standard
/// alphabet.
#[verifier::external_body]
pub(crate) fn to_base64(bytes: &Vec<u8>) -> (r: String)
    ensures
        r@ == base64_of(bytes@),
        r@.len() == 4 * ((bytes@.len() + 2) / 3),
{
    base64::engine::general_purpose::STANDARD.encode(bytes)
}

/// What the collector is told of a trace's caller.
pub struct SessionMeta {
    pub authentication_provided: Option<bool>,
    pub authentication_successful: Option<bool>,
    pub auth_type: Option<String>,
    pub unique_session_key: Option<String>,
    pub user: Option<String>,
}

/// Whether `p` occurs in `s` at position `k`.
pub open spec fn occurs_at(s: Seq<char>, p: Seq<char>, k: int) -> bool {
    0 <= k && k + p.len() <= s.len() && s.subrange(k, k + p.len()) == p
}

/// The first position from `i` on where `p` occurs in `s`.
pub open spec fn find_from(s: Seq<char>, p: Seq<char>, i: int) -> Option<int>
    decreases s.len() + 1 - i,
{
    if i < 0 || i + p.len() > s.len() {
        None
    } else if occurs_at(s, p, i) {
        Some(i)
    } else {
        find_from(s, p, i + 1)
    }
}

proof fn lemma_find_from_occurs(s: Seq<char>, p: Seq<char>, i: int)
    ensures
        find_from(s, p, i) matches Some(k) ==> occurs_at(s, p, k),
    decreases s.len() + 1 - i,
{
    if !(i < 0 || i + p.len() > s.len()) && !occurs_at(s, p, i) {
        lemma_find_from_occurs(s, p, i + 1);
    }
}

/// The first position where `pat` occurs in `s`.
pub fn find_text(s: &str, pat: &str) -> (r: Option<usize>)
    ensures
        r matches Some(k) ==> find_from(s@, pat@, 0) == Some(k as int),
        r is None ==> find_from(s@, pat@, 0) is None,
{
    let n = s.unicode_len();
    let m = pat.unicode_len();
    if m > n {
        return None;
    }
    let mut i: usize = 0;
    while i <= n - m
        invariant
            n == s@.len(),
            m == pat@.len(),
            m <= n,
            i <= n,
            find_from(s@, pat@, 0) == find_from(s@, pat@, i as int),
        decreases n - i,
    {
        let mut j: usize = 0;
        while j < m && s.get_char(i + j) == pat.get_char(j)
            invariant
                n == s@.len(),
                m == pat@.len(),
                i + m <= n,
                j <= m,
                forall|q: int| 0 <= q < j ==> s@[i + q] == pat@[q],
            decreases m - j,
        {
            j = j + 1;
        }
        if j == m {
            assert(s@.subrange(i as int, i + m) =~= pat@);
            return Some(i);
        }
        assert(s@.subrange(i as int, i + m)[j as int] != pat@[j as int]);
        i = i + 1;
    }
    None
}

/// The credential text that header `h` carries under `auth`, if it carries one.
pub open spec fn header_material(auth: Authentication, h: KeyVal) -> Option<Seq<char>> {
    let name = lower_of(h.name@);
    if auth.auth_type@ == "basic"@ {
        if name == "authorization"@ && find_from(lower_of(h.value@), "basic"@, 0) is Some {
            match find_from(h.value@, "Basic"@, 0) {
                Some(k) => Some(h.value@.skip(k + 5)),
                None => None,
            }
        } else {
            None
        }
    } else if auth.auth_type@ == "header"@ || auth.auth_type@ == "jwt"@ {
        match auth.header_key {
            Some(hk) => if lower_of(hk@) == name { Some(h.value@) } else { None },
            None => None,
        }
    } else if auth.auth_type@ == "session_cookie"@ {
        match auth.cookie_name {
            Some(cn) => if lower_of(cn@) == name { Some(h.value@) } else { None },
            None => None,
        }
    } else {
        None
    }
}

/// The credential of the last header among the first `n` that carries one.
pub open spec fn last_material(auth: Authentication, hs: Seq<KeyVal>, n: nat) -> Option<Seq<char>>
    decreases n,
{
    if n == 0 || n > hs.len() {
        None
    } else {
        match header_material(auth, hs[n - 1]) {
            Some(m) => Some(m),
            None => last_material(auth, hs, (n - 1) as nat),
        }
    }
}

/// The credential text that `header` carries under `auth`.
pub fn credential_of(auth: &Authentication, header: &KeyVal) -> (r: Option<String>)
    ensures
        match r {
            Some(m) => header_material(*auth, *header) == Some(m@),
            None => header_material(*auth, *header) is None,
        },
{
    let name = to_lower(header.name.as_str());
    if same_text(&auth.auth_type, "basic") {
        let lower_value = to_lower(header.value.as_str());
        if same_text(&name, "authorization") && find_text(lower_value.as_str(), "basic").is_some() {
            match find_text(header.value.as_str(), "Basic") {
                Some(k) => {
                    proof {
                        reveal_strlit("Basic");
                        lemma_find_from_occurs(header.value@, "Basic"@, 0);
                    }
                    let n = header.value.as_str().unicode_len();
                    let rest = header.value.as_str().substring_char(k + 5, n);
                    assert(rest@ =~= header.value@.skip(k + 5));
                    Some(String::from_str(rest))
                },
                None => None,
            }
        } else {
            None
        }
    } else if same_text(&auth.auth_type, "header") || same_text(&auth.auth_type, "jwt") {
        match &auth.header_key {
            Some(hk) => {
                let l = to_lower(hk.as_str());
                if l == name {
                    Some(header.value.clone())
                } else {
                    None
                }
            },
            None => None,
        }
    } else if same_text(&auth.auth_type, "session_cookie") {
        match &auth.cookie_name {
            Some(cn) => {
                let l = to_lower(cn.as_str());
                if l == name {
                    Some(header.value.clone())
                } else {
                    None
                }
            },
            None => None,
        }
    } else {
        None
    }
}

/// The session key made from a credential: base64 of its HMAC-SHA256 tag.
pub open spec fn session_key_of(key: Seq<u8>, material: Seq<char>) -> Seq<char> {
    base64_of(hmac_sha256_of(key, material))
}

pub fn session_key(key: &Vec<u8>, material: &str) -> (r: String)
    ensures
        r@ == session_key_of(key@, material@),
{
    let tag = hmac_sign(key, material);
    to_base64(&tag)
}

/// Derives the session identity of a trace. With no HMAC key nothing is known.
/// With an authentication descriptor for the host: its type, whether a credential
/// was found, whether the response (if any) was not 401 or 403, and the key of the
/// last credential found. Without one: the key of the trace's non-empty source.
pub fn get_session_metadata(
    authentication: Option<&Authentication>,
    hmac_key: &Option<Vec<u8>>,
    trace: &ApiTrace,
) -> (r: SessionMeta)
    ensures
        r.user is None,
        hmac_key is None ==> r.authentication_provided is None && r.authentication_successful is None
            && r.auth_type is None && r.unique_session_key is None,
        hmac_key is Some && authentication is Some ==> {
            let k = hmac_key->0;
            let a = authentication->0;
            let found = last_material(*a, trace.request.headers@, trace.request.headers@.len());
            &&& r.authentication_provided == Some(found is Some)
            &&& opt_text(r.auth_type) == Some(a.auth_type@)
            &&& r.authentication_successful == Some(
                match trace.response {
                    Some(resp) => resp.status != 401 && resp.status != 403,
                    None => false,
                },
            )
            &&& opt_text(r.unique_session_key) == match found {
                Some(m) => Some(session_key_of(k@, m)),
                None => None,
            }
        },
        hmac_key is Some && authentication is None ==> {
            &&& r.authentication_provided is None
            &&& r.authentication_successful is None
            &&& r.auth_type is None
            &&& opt_text(r.unique_session_key) == match trace.meta {
                Some(m) => if m.source@.len() > 0 {
                    Some(session_key_of(hmac_key->0@, m.source@))
                } else {
                    None
                },
                None => None,
            }
        },
{
    let mut meta = SessionMeta {
        authentication_provided: None,
        authentication_successful: None,
        auth_type: None,
        unique_session_key: None,
        user: None,
    };
    let key = match hmac_key {
        Some(k) => k,
        None => return meta,
    };
    match authentication {
        Some(auth) => {
            meta.authentication_provided = Some(false);
            meta.auth_type = Some(auth.auth_type.clone());
            meta.authentication_successful = match &trace.response {
                Some(resp) => Some(resp.status != 401 && resp.status != 403),
                None => Some(false),
            };
            let headers = &trace.request.headers;
            let mut i: usize = 0;
            while i < headers.len()
                invariant
                    i <= headers@.len(),
                    meta.user is None,
                    opt_text(meta.auth_type) == Some(auth.auth_type@),
                    meta.authentication_successful == Some(
                        match trace.response {
                            Some(resp) => resp.status != 401 && resp.status != 403,
                            None => false,
                        },
                    ),
                    meta.authentication_provided == Some(last_material(*auth, headers@, i as nat) is Some),
                    opt_text(meta.unique_session_key) == match last_material(*auth, headers@, i as nat) {
                        Some(m) => Some(session_key_of(key@, m)),
                        None => None,
                    },
                decreases headers@.len() - i,
            {
                match credential_of(auth, &headers[i]) {
                    Some(material) => {
                        meta.authentication_provided = Some(true);
                        meta.unique_session_key = Some(session_key(key, material.as_str()));
                    },
                    None => {},
                }
                i = i + 1;
            }
            meta
        },
        None => {
            match &trace.meta {
                Some(m) => {
                    if m.source.as_str().unicode_len() > 0 {
                        meta.unique_session_key = Some(session_key(key, m.source.as_str()));
                    }
                },
                None => {},
            }
            meta
        },
    }
}

/// The authentication descriptor configured for `host`: the first with that host.
pub fn find_authentication(configs: &Vec<Authentication>, host: &String) -> (r: Option<usize>)
    ensures
        r matches Some(i) ==> i < configs@.len() && configs@[i as int].host@ == host@
            && forall|j: int| 0 <= j < i ==> configs@[j].host@ != host@,
        r is None ==> forall|j: int| 0 <= j < configs@.len() ==> configs@[j].host@ != host@,
{
    let mut i: usize = 0;
    while i < configs.len()
        invariant
            i <= configs@.len(),
            forall|j: int| 0 <= j < i ==> configs@[j].host@ != host@,
        decreases configs@.len() - i,
    {
        if configs[i].host == *host {
            return Some(i);
        }
        i = i + 1;
    }
    None
}

} // verus!
