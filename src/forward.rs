use vstd::prelude::*;
use vstd::string::*;
use aes_gcm::aead::{Aead, AeadCore, KeyInit};
use rsa::pkcs8::DecodePublicKey;
use rsa::PublicKey;
use crate::analysis::ProcessTraceRes;
use crate::findings::PathMap;
use crate::session::{SessionMeta, base64_of, to_base64};
use crate::trace::{ApiRequest, ApiResponse, ApiTrace, ApiUrl, KeyVal, TraceMeta};

verus! {

/// rsa's public key, carried opaque from loading to wrapping the content key.
#[verifier::external_type_specification]
#[verifier::external_body]
pub struct ExRsaPublicKey(rsa::RsaPublicKey);

/// The AES-256-GCM ciphertext (with its tag) of the UTF-8 bytes of `plaintext`.
pub uninterp spec fn aes_gcm_of(key: Seq<u8>, nonce: Seq<u8>, plaintext: Seq<char>) -> Option<Seq<u8>>;

/// Relies on aes_gcm's `Aes256Gcm::generate_key` with `OsRng`: 32 random bytes.
#[verifier::external_body]
fn fresh_aes_key() -> (r: Vec<u8>)
    ensures
        r@.len() == 32,
{
    aes_gcm::Aes256Gcm::generate_key(&mut aes_gcm::aead::OsRng).to_vec()
}

/// Relies on aes_gcm's `Aes256Gcm::generate_nonce` with `OsRng`: 12 random bytes.
#[verifier::external_body]
fn fresh_nonce() -> (r: Vec<u8>)
    ensures
        r@.len() == 12,
{
    aes_gcm::Aes256Gcm::generate_nonce(&mut aes_gcm::aead::OsRng).to_vec()
}

/// Most characters of a field that AES-GCM is sure to take: four bytes each stay
/// within its limit of 2^36 bytes of plaintext.
pub open spec fn fits_cipher(plaintext: Seq<char>) -> bool {
    plaintext.len() <= 0x4_0000_0000
}

/// Relies on aes_gcm's `Aes256Gcm::new_from_slice`, which takes any 32-byte key, and
/// `Aead::encrypt`, which fails only on a plaintext over 2^36 bytes.
#[verifier::external_body]
fn aes_gcm_encrypt(key: &Vec<u8>, nonce: &Vec<u8>, plaintext: &str) -> (r: Option<Vec<u8>>)
    requires
        nonce@.len() == 12,
    ensures
        key@.len() == 32 && fits_cipher(plaintext@) ==> r is Some,
        match r {
            Some(c) => aes_gcm_of(key@, nonce@, plaintext@) == Some(c@),
            None => aes_gcm_of(key@, nonce@, plaintext@) is None,
        },
{
    let cipher = aes_gcm::Aes256Gcm::new_from_slice(key.as_slice()).ok()?;
    cipher.encrypt(aes_gcm::Nonce::from_slice(nonce.as_slice()), plaintext.as_bytes()).ok()
}

/// Whether rsa reads `pem` as a PEM-encoded public key.
pub uninterp spec fn pem_key_valid(pem: Seq<char>) -> bool;

/// Relies on rsa's `RsaPublicKey::from_public_key_pem`.
#[verifier::external_body]
fn load_public_key(pem: &str) -> (r: Option<rsa::RsaPublicKey>)
    ensures
        r is Some == pem_key_valid(pem@),
{
    rsa::RsaPublicKey::from_public_key_pem(pem).ok()
}

/// Relies on rsa's `PublicKey::encrypt` with OAEP over SHA-256 and `OsRng`.
#[verifier::external_body]
fn rsa_oaep_encrypt(public_key: &rsa::RsaPublicKey, msg: &Vec<u8>) -> (r: Option<Vec<u8>>) {
    let padding = rsa::Oaep::new::<sha2::Sha256>();
    public_key.encrypt(&mut aes_gcm::aead::OsRng, padding, msg.as_slice()).ok()
}

/// The answer of the collector to one submission.
pub struct LogTraceResp {
    pub ok: bool,
    pub msg: Option<String>,
}

/// The wrapped content key and the nonce of each encrypted field.
pub struct Encryption {
    pub key: String,
    pub generated_ivs: PathMap<Vec<u8>>,
}

/// The record sent to the collector.
pub struct ProcessedApiTrace {
    pub request: ApiRequest,
    pub response: Option<ApiResponse>,
    pub meta: Option<TraceMeta>,
    pub redacted: bool,
    pub processed_trace_data: ProcessTraceRes,
    pub encryption: Option<Encryption>,
    pub session_meta: Option<SessionMeta>,
}

/// Why a record could not be encrypted.
#[derive(Clone, Copy, Debug, PartialEq, Eq, Structural)]
pub enum EncodeError {
    InvalidPublicKey,
    KeyWrapFailed,
    EncryptFailed,
}

/// The endpoint that records are posted to.
pub open spec fn log_url_of(collector: Option<Seq<char>>) -> Seq<char> {
    let base = match collector {
        Some(c) => c,
        None => Seq::empty(),
    };
    base + "/api/v2/log-request/single"@
}

pub fn collector_log_url(collector: &Option<String>) -> (r: String)
    ensures
        r@ == log_url_of(match collector { Some(c) => Some(c@), None => None }),
{
    let mut url = match collector {
        Some(c) => c.clone(),
        None => String::new(),
    };
    url.append("/api/v2/log-request/single");
    url
}

/// The outcome of a submission that got an answer: ok on status 200, else the
/// answer's body as the message.
pub fn classify_response(status: u16, body: String) -> (r: LogTraceResp)
    ensures
        r.ok == (status == 200),
        status == 200 ==> r.msg is None,
        status != 200 ==> (r.msg matches Some(m) && m@ == body@),
{
    if status == 200 {
        LogTraceResp { ok: true, msg: None }
    } else {
        LogTraceResp { ok: false, msg: Some(body) }
    }
}

/// Every captured content of `orig` is gone from `t`, and only that.
pub open spec fn is_redaction_of(orig: ApiTrace, t: ProcessedApiTrace) -> bool {
    &&& t.redacted
    &&& t.encryption is None
    &&& t.request.method@ == orig.request.method@
    &&& t.request.url.host@ == orig.request.url.host@
    &&& t.request.url.path@ == orig.request.url.path@
    &&& t.request.url.parameters@.len() == 0
    &&& t.request.headers@.len() == 0
    &&& t.request.body@.len() == 0
    &&& (t.response is Some == orig.response is Some)
    &&& (t.response matches Some(resp) ==> resp.status == orig.response->0.status && resp.headers@.len() == 0
        && resp.body@.len() == 0)
    &&& t.meta == orig.meta
}

/// The record with every captured content removed: method, host, path and status
/// stay; headers, parameters and bodies are empty.
pub fn redacted_trace(trace: ApiTrace, processed: ProcessTraceRes, session_meta: SessionMeta) -> (r: ProcessedApiTrace)
    ensures
        is_redaction_of(trace, r),
        r.processed_trace_data == processed,
        r.session_meta == Some(session_meta),
{
    let response = match trace.response {
        Some(resp) => Some(ApiResponse { status: resp.status, headers: Vec::new(), body: String::new() }),
        None => None,
    };
    ProcessedApiTrace {
        request: ApiRequest {
            method: trace.request.method,
            url: ApiUrl { host: trace.request.url.host, path: trace.request.url.path, parameters: Vec::new() },
            headers: Vec::new(),
            body: String::new(),
        },
        response,
        meta: trace.meta,
        redacted: true,
        processed_trace_data: processed,
        encryption: None,
        session_meta: Some(session_meta),
    }
}

/// Whether the record keeps its captured content: when capture is on for all
/// endpoints or for the trace's endpoint.
pub fn full_capture(global: bool, endpoint: bool) -> (r: bool)
    ensures
        r == (global || endpoint),
{
    global || endpoint
}

/// `text` is the base64 of the AES-256-GCM ciphertext of `plaintext` under `key`
/// and the 12-byte `nonce`.
pub open spec fn sealed_with(key: Seq<u8>, nonce: Seq<u8>, plaintext: Seq<char>, text: Seq<char>) -> bool {
    &&& nonce.len() == 12
    &&& aes_gcm_of(key, nonce, plaintext) is Some
    &&& text == base64_of(aes_gcm_of(key, nonce, plaintext)->0)
}

/// Encrypts `body` under `key` with a fresh nonce, records the nonce under `name`,
/// and returns the ciphertext in base64.
pub fn encode_body(key: &Vec<u8>, body: &str, name: &str, generated_ivs: &mut PathMap<Vec<u8>>) -> (r: Option<String>)
    ensures
        key@.len() == 32 && fits_cipher(body@) ==> r is Some,
        r is None ==> final(generated_ivs)@ == old(generated_ivs)@ && exists|n: Seq<u8>|
            n.len() == 12 && #[trigger] aes_gcm_of(key@, n, body@) is None,
        r is Some ==> exists|n: Seq<u8>|
            #[trigger] sealed_with(key@, n, body@, r->0@) && final(generated_ivs)@ == old(generated_ivs)@.insert(name@, n),
{
    let nonce = fresh_nonce();
    match aes_gcm_encrypt(key, &nonce, body) {
        Some(ct) => {
            let ghost n = nonce@;
            generated_ivs.insert(String::from_str(name), nonce);
            let text = to_base64(&ct);
            let r = Some(text);
            assert(sealed_with(key@, n, body@, r->0@) && generated_ivs@ == old(generated_ivs)@.insert(name@, n));
            assert(exists|m: Seq<u8>| #[trigger] sealed_with(key@, m, body@, r->0@) && generated_ivs@ == old(generated_ivs)@.insert(name@, m));
            r
        },
        None => {
            assert(aes_gcm_of(key@, nonce@, body@) is None);
            None
        },
    }
}

/// The identifier of an encrypted name or value: `{section}.{ciphertext}`.
pub open spec fn iv_id(section: Seq<char>, text: Seq<char>) -> Seq<char> {
    section + "."@ + text
}

/// The nonce entries recorded for the first `n` encrypted pairs `encs`, in order:
/// the name's nonce `nonces[2i]`, then the value's `nonces[2i + 1]`.
pub open spec fn pair_ivs(section: Seq<char>, encs: Seq<KeyVal>, nonces: Seq<Seq<u8>>, n: nat) -> Map<Seq<char>, Seq<u8>>
    decreases n,
{
    if n == 0 {
        Map::empty()
    } else {
        let i = n - 1;
        pair_ivs(section, encs, nonces, i as nat).insert(iv_id(section, encs[i].name@), nonces[2 * i]).insert(
            iv_id(section, encs[i].value@),
            nonces[2 * i + 1],
        )
    }
}

proof fn lemma_pair_ivs_prefix(section: Seq<char>, e1: Seq<KeyVal>, n1: Seq<Seq<u8>>, e2: Seq<KeyVal>, n2: Seq<Seq<u8>>, n: nat)
    requires
        n <= e1.len(),
        n <= e2.len(),
        2 * n <= n1.len(),
        2 * n <= n2.len(),
        forall|i: int| 0 <= i < n ==> e1[i] == e2[i],
        forall|i: int| 0 <= i < 2 * n ==> n1[i] == n2[i],
    ensures
        pair_ivs(section, e1, n1, n) == pair_ivs(section, e2, n2, n),
    decreases n,
{
    if n > 0 {
        lemma_pair_ivs_prefix(section, e1, n1, e2, n2, (n - 1) as nat);
        assert(e1[n - 1] == e2[n - 1]);
        assert(n1[2 * (n - 1)] == n2[2 * (n - 1)]);
        assert(n1[2 * (n - 1) + 1] == n2[2 * (n - 1) + 1]);
    }
}

/// The pairs `encs` are the pairs `items` encrypted under `key`, name `i` with
/// `nonces[2i]` and value `i` with `nonces[2i + 1]`.
pub open spec fn pairs_sealed_with(key: Seq<u8>, items: Seq<KeyVal>, encs: Seq<KeyVal>, nonces: Seq<Seq<u8>>) -> bool {
    &&& encs.len() == items.len()
    &&& nonces.len() == 2 * items.len()
    &&& forall|i: int|
        0 <= i < items.len() ==> sealed_with(key, nonces[2 * i], #[trigger] items[i].name@, encs[i].name@)
            && sealed_with(key, nonces[2 * i + 1], items[i].value@, encs[i].value@)
}

/// Every name and value fits AES-GCM.
pub open spec fn pairs_fit(items: Seq<KeyVal>) -> bool {
    forall|i: int| 0 <= i < items.len() ==> fits_cipher(#[trigger] items[i].name@) && fits_cipher(items[i].value@)
}

/// Encrypts the name and the value of each entry, each under its own fresh nonce,
/// recorded under `{section}.{ciphertext in base64}`.
pub fn encode_key_val(key: &Vec<u8>, items: &Vec<KeyVal>, section: &str, generated_ivs: &mut PathMap<Vec<u8>>) -> (r: Option<Vec<KeyVal>>)
    ensures
        key@.len() == 32 && pairs_fit(items@) ==> r is Some,
        r is None ==> exists|i: int, n: Seq<u8>|
            0 <= i < items@.len() && n.len() == 12 && (#[trigger] aes_gcm_of(key@, n, items@[i].name@) is None
                || aes_gcm_of(key@, n, items@[i].value@) is None),
        r is Some ==> exists|nonces: Seq<Seq<u8>>|
            #[trigger] pairs_sealed_with(key@, items@, r->0@, nonces) && final(generated_ivs)@ == old(
                generated_ivs,
            )@.union_prefer_right(pair_ivs(section@, r->0@, nonces, items@.len())),
{
    let mut out: Vec<KeyVal> = Vec::new();
    let ghost mut nonces: Seq<Seq<u8>> = Seq::empty();
    let mut i: usize = 0;
    while i < items.len()
        invariant
            i <= items@.len(),
            out@.len() == i,
            nonces.len() == 2 * i,
            forall|j: int|
                0 <= j < i ==> sealed_with(key@, nonces[2 * j], #[trigger] items@[j].name@, out@[j].name@)
                    && sealed_with(key@, nonces[2 * j + 1], items@[j].value@, out@[j].value@),
            generated_ivs@ == old(generated_ivs)@.union_prefer_right(pair_ivs(section@, out@, nonces, i as nat)),
        decreases items@.len() - i,
    {
        let nonce_key = fresh_nonce();
        let nonce_val = fresh_nonce();
        let ck = aes_gcm_encrypt(key, &nonce_key, items[i].name.as_str());
        let cv = aes_gcm_encrypt(key, &nonce_val, items[i].value.as_str());
        match (ck, cv) {
            (Some(k), Some(v)) => {
                let ghost (n1, n2) = (nonce_key@, nonce_val@);
                let encrypted_key = to_base64(&k);
                let encrypted_val = to_base64(&v);
                let mut id_key = String::from_str(section);
                id_key.append(".");
                id_key.append(encrypted_key.as_str());
                let mut id_val = String::from_str(section);
                id_val.append(".");
                id_val.append(encrypted_val.as_str());
                let ghost ivs0 = generated_ivs@;
                generated_ivs.insert(id_key, nonce_key);
                generated_ivs.insert(id_val, nonce_val);
                let ghost before = out@;
                let ghost nonces0 = nonces;
                let e = KeyVal { name: encrypted_key, value: encrypted_val };
                assert(sealed_with(key@, n1, items@[i as int].name@, e.name@));
                assert(sealed_with(key@, n2, items@[i as int].value@, e.value@));
                out.push(e);
                proof {
                    nonces = nonces.push(n1).push(n2);
                    lemma_pair_ivs_prefix(section@, before, nonces0, out@, nonces, i as nat);
                    assert(pair_ivs(section@, out@, nonces, (i + 1) as nat) == pair_ivs(section@, before, nonces0, i as nat).insert(
                        iv_id(section@, e.name@), n1).insert(iv_id(section@, e.value@), n2));
                    assert(generated_ivs@ =~= old(generated_ivs)@.union_prefer_right(pair_ivs(section@, out@, nonces, (i + 1) as nat)));
                    assert forall|j: int| 0 <= j < i + 1 implies sealed_with(key@, nonces[2 * j], #[trigger] items@[j].name@, out@[j].name@)
                        && sealed_with(key@, nonces[2 * j + 1], items@[j].value@, out@[j].value@) by {
                        if j == i {
                            assert(out@[j] == e);
                            assert(nonces[2 * j] == n1);
                            assert(nonces[2 * j + 1] == n2);
                        } else {
                            assert(out@[j] == before[j]);
                            assert(nonces[2 * j] == nonces0[2 * j]);
                            assert(nonces[2 * j + 1] == nonces0[2 * j + 1]);
                        }
                    }
                }
            },
            (None, _) => {
                assert(aes_gcm_of(key@, nonce_key@, items@[i as int].name@) is None);
                assert(!(key@.len() == 32 && fits_cipher(items@[i as int].name@)));
                return None;
            },
            (_, None) => {
                assert(aes_gcm_of(key@, nonce_val@, items@[i as int].name@) is None || aes_gcm_of(key@, nonce_val@, items@[i as int].value@) is None);
                assert(!(key@.len() == 32 && fits_cipher(items@[i as int].value@)));
                return None;
            },
        }
        i = i + 1;
    }
    let r = Some(out);
    assert(pairs_sealed_with(key@, items@, r->0@, nonces) && generated_ivs@ == old(generated_ivs)@.union_prefer_right(
        pair_ivs(section@, r->0@, nonces, items@.len())));
    r
}

/// Every captured content of `t` fits AES-GCM.
pub open spec fn trace_fits(t: ApiTrace) -> bool {
    &&& pairs_fit(t.request.url.parameters@)
    &&& pairs_fit(t.request.headers@)
    &&& fits_cipher(t.request.body@)
    &&& (t.response matches Some(r) ==> pairs_fit(r.headers@) && fits_cipher(r.body@))
}

/// The nonces recorded for a sealed trace, keyed by identifier: query pairs, request
/// headers, `reqBody`, then response headers and `resBody` where there is a response.
pub open spec fn sealed_ivs(
    orig: ApiTrace,
    t: ProcessedApiTrace,
    nq: Seq<Seq<u8>>,
    nh: Seq<Seq<u8>>,
    nb: Seq<u8>,
    nrh: Seq<Seq<u8>>,
    nr: Seq<u8>,
) -> Map<Seq<char>, Seq<u8>> {
    let req = Map::<Seq<char>, Seq<u8>>::empty().union_prefer_right(
        pair_ivs("reqQuery"@, t.request.url.parameters@, nq, orig.request.url.parameters@.len()),
    ).union_prefer_right(pair_ivs("reqHeaders"@, t.request.headers@, nh, orig.request.headers@.len())).insert(
        "reqBody"@,
        nb,
    );
    match (orig.response, t.response) {
        (Some(a), Some(b)) => req.union_prefer_right(pair_ivs("resHeaders"@, b.headers@, nrh, a.headers@.len())).insert(
            "resBody"@,
            nr,
        ),
        _ => req,
    }
}

/// `t` is `orig` with every captured content encrypted under `key` with the given
/// nonces, and `ivs` records exactly those nonces.
pub open spec fn sealed_record_with(
    key: Seq<u8>,
    orig: ApiTrace,
    t: ProcessedApiTrace,
    ivs: Map<Seq<char>, Seq<u8>>,
    nq: Seq<Seq<u8>>,
    nh: Seq<Seq<u8>>,
    nb: Seq<u8>,
    nrh: Seq<Seq<u8>>,
    nr: Seq<u8>,
) -> bool {
    &&& t.request.method == orig.request.method
    &&& t.request.url.host == orig.request.url.host
    &&& t.request.url.path == orig.request.url.path
    &&& pairs_sealed_with(key, orig.request.url.parameters@, t.request.url.parameters@, nq)
    &&& pairs_sealed_with(key, orig.request.headers@, t.request.headers@, nh)
    &&& sealed_with(key, nb, orig.request.body@, t.request.body@)
    &&& match (orig.response, t.response) {
        (Some(a), Some(b)) => b.status == a.status && pairs_sealed_with(key, a.headers@, b.headers@, nrh)
            && sealed_with(key, nr, a.body@, b.body@),
        (None, None) => true,
        _ => false,
    }
    &&& ivs == sealed_ivs(orig, t, nq, nh, nb, nrh, nr)
}

pub open spec fn sealed_record(key: Seq<u8>, orig: ApiTrace, t: ProcessedApiTrace, ivs: Map<Seq<char>, Seq<u8>>) -> bool {
    exists|nq: Seq<Seq<u8>>, nh: Seq<Seq<u8>>, nb: Seq<u8>, nrh: Seq<Seq<u8>>, nr: Seq<u8>|
        #[trigger] sealed_record_with(key, orig, t, ivs, nq, nh, nb, nrh, nr)
}

/// The encrypted record, given the content key `key` and that key as wrapped for
/// the collector: every captured content sealed under `key`, each nonce recorded,
/// and `base64(wrapped)` as the record's key.
pub fn seal_record(
    key: &Vec<u8>,
    wrapped: &Vec<u8>,
    trace: ApiTrace,
    processed: ProcessTraceRes,
    trace_capture_enabled: bool,
    session_meta: SessionMeta,
) -> (r: Result<ProcessedApiTrace, EncodeError>)
    ensures
        key@.len() == 32 && trace_fits(trace) ==> r is Ok,
        r is Err ==> r->Err_0 == EncodeError::EncryptFailed && !(key@.len() == 32 && trace_fits(trace)),
        r matches Ok(t) ==> {
            &&& t.redacted == !trace_capture_enabled
            &&& t.meta == trace.meta
            &&& t.processed_trace_data == processed
            &&& t.session_meta == Some(session_meta)
            &&& t.encryption is Some
            &&& t.encryption->0.key@ == base64_of(wrapped@)
            &&& sealed_record(key@, trace, t, t.encryption->0.generated_ivs@)
        },
{
    let mut ivs: PathMap<Vec<u8>> = PathMap::new();
    let params = match encode_key_val(key, &trace.request.url.parameters, "reqQuery", &mut ivs) {
        Some(p) => p,
        None => return Err(EncodeError::EncryptFailed),
    };
    let ghost nq = choose|nonces: Seq<Seq<u8>>| #[trigger] pairs_sealed_with(key@, trace.request.url.parameters@, params@, nonces)
        && ivs@ == Map::<Seq<char>, Seq<u8>>::empty().union_prefer_right(pair_ivs("reqQuery"@, params@, nonces, trace.request.url.parameters@.len()));
    let headers = match encode_key_val(key, &trace.request.headers, "reqHeaders", &mut ivs) {
        Some(h) => h,
        None => return Err(EncodeError::EncryptFailed),
    };
    let ghost ivs1 = Map::<Seq<char>, Seq<u8>>::empty().union_prefer_right(pair_ivs("reqQuery"@, params@, nq, trace.request.url.parameters@.len()));
    let ghost nh = choose|nonces: Seq<Seq<u8>>| #[trigger] pairs_sealed_with(key@, trace.request.headers@, headers@, nonces)
        && ivs@ == ivs1.union_prefer_right(pair_ivs("reqHeaders"@, headers@, nonces, trace.request.headers@.len()));
    let ghost ivs2 = ivs@;
    let body = match encode_body(key, trace.request.body.as_str(), "reqBody", &mut ivs) {
        Some(b) => b,
        None => return Err(EncodeError::EncryptFailed),
    };
    let ghost nb = choose|n: Seq<u8>| #[trigger] sealed_with(key@, n, trace.request.body@, body@) && ivs@ == ivs2.insert("reqBody"@, n);
    let ghost ivs3 = ivs@;
    let ghost mut nrh: Seq<Seq<u8>> = Seq::empty();
    let ghost mut nr: Seq<u8> = Seq::empty();
    let response = match trace.response {
        Some(resp) => {
            let rh = match encode_key_val(key, &resp.headers, "resHeaders", &mut ivs) {
                Some(h) => h,
                None => return Err(EncodeError::EncryptFailed),
            };
            proof {
                nrh = choose|nonces: Seq<Seq<u8>>| #[trigger] pairs_sealed_with(key@, resp.headers@, rh@, nonces)
                    && ivs@ == ivs3.union_prefer_right(pair_ivs("resHeaders"@, rh@, nonces, resp.headers@.len()));
            }
            let ghost ivs4 = ivs@;
            let rb = match encode_body(key, resp.body.as_str(), "resBody", &mut ivs) {
                Some(b) => b,
                None => return Err(EncodeError::EncryptFailed),
            };
            proof {
                nr = choose|n: Seq<u8>| #[trigger] sealed_with(key@, n, resp.body@, rb@) && ivs@ == ivs4.insert("resBody"@, n);
            }
            Some(ApiResponse { status: resp.status, headers: rh, body: rb })
        },
        None => None,
    };
    let request = ApiRequest {
        method: trace.request.method,
        url: ApiUrl { host: trace.request.url.host, path: trace.request.url.path, parameters: params },
        headers,
        body,
    };
    let out = ProcessedApiTrace {
        request,
        response,
        meta: trace.meta,
        redacted: !trace_capture_enabled,
        processed_trace_data: processed,
        encryption: Some(Encryption { key: to_base64(wrapped), generated_ivs: ivs }),
        session_meta: Some(session_meta),
    };
    assert(sealed_record_with(key@, trace, out, out.encryption->0.generated_ivs@, nq, nh, nb, nrh, nr));
    Ok(out)
}

/// The record with its captured content encrypted under a fresh AES-256-GCM key,
/// wrapped with RSA-OAEP for `public_key`; with no public key, the record as captured.
/// Method, host, path and status stay readable.
pub fn encoded_trace(
    trace: ApiTrace,
    processed: ProcessTraceRes,
    trace_capture_enabled: bool,
    public_key: Option<String>,
    session_meta: SessionMeta,
) -> (r: Result<ProcessedApiTrace, EncodeError>)
    ensures
        public_key is None ==> (r matches Ok(t) && t.request == trace.request && t.response == trace.response
            && t.encryption is None),
        public_key matches Some(pem) ==> (r == Err::<ProcessedApiTrace, EncodeError>(EncodeError::InvalidPublicKey)
            <==> !pem_key_valid(pem@)),
        public_key matches Some(pem) ==> (pem_key_valid(pem@) && trace_fits(trace) ==> (r is Ok || r
            == Err::<ProcessedApiTrace, EncodeError>(EncodeError::KeyWrapFailed))),
        r == Err::<ProcessedApiTrace, EncodeError>(EncodeError::EncryptFailed) ==> public_key is Some && !trace_fits(trace),
        r matches Ok(t) ==> {
            &&& t.redacted == !trace_capture_enabled
            &&& t.meta == trace.meta
            &&& t.processed_trace_data == processed
            &&& t.session_meta == Some(session_meta)
        },
        r is Ok && public_key is Some ==> ({
            let t = r->Ok_0;
            t.encryption is Some && exists|k: Seq<u8>|
                k.len() == 32 && #[trigger] sealed_record(k, trace, t, t.encryption->0.generated_ivs@)
        }),
{
    let pem = match public_key {
        Some(p) => p,
        None => {
            return Ok(ProcessedApiTrace {
                request: trace.request,
                response: trace.response,
                meta: trace.meta,
                redacted: !trace_capture_enabled,
                processed_trace_data: processed,
                encryption: None,
                session_meta: Some(session_meta),
            });
        },
    };
    let rsa_key = match load_public_key(pem.as_str()) {
        Some(k) => k,
        None => return Err(EncodeError::InvalidPublicKey),
    };
    let key = fresh_aes_key();
    let wrapped = match rsa_oaep_encrypt(&rsa_key, &key) {
        Some(w) => w,
        None => return Err(EncodeError::KeyWrapFailed),
    };
    seal_record(&key, &wrapped, trace, processed, trace_capture_enabled, session_meta)
}

/// The record to send for a processed trace: encrypted (or plain, with no public
/// key) when capture is on, else redacted.
pub fn build_forward_record(
    trace: ApiTrace,
    processed: ProcessTraceRes,
    trace_capture_enabled: bool,
    public_key: Option<String>,
    session_meta: SessionMeta,
) -> (r: Result<ProcessedApiTrace, EncodeError>)
    ensures
        !trace_capture_enabled ==> (r is Ok && is_redaction_of(trace, r->Ok_0)),
        trace_capture_enabled && public_key is None ==> (r is Ok && !r->Ok_0.redacted && r->Ok_0.request
            == trace.request && r->Ok_0.response == trace.response && r->Ok_0.encryption is None),
        trace_capture_enabled && public_key is Some ==> (r == Err::<ProcessedApiTrace, EncodeError>(
            EncodeError::InvalidPublicKey) <==> !pem_key_valid(public_key->0@)),
        trace_capture_enabled && public_key is Some && pem_key_valid(public_key->0@) && trace_fits(trace) ==> (r is Ok
            || r == Err::<ProcessedApiTrace, EncodeError>(EncodeError::KeyWrapFailed)),
        r == Err::<ProcessedApiTrace, EncodeError>(EncodeError::EncryptFailed) ==> public_key is Some && !trace_fits(trace),
        r matches Ok(t) ==> {
            &&& t.redacted == !trace_capture_enabled
            &&& t.meta == trace.meta
            &&& t.processed_trace_data == processed
            &&& t.session_meta == Some(session_meta)
        },
        r is Ok && trace_capture_enabled && public_key is Some ==> ({
            let t = r->Ok_0;
            t.encryption is Some && exists|k: Seq<u8>|
                k.len() == 32 && #[trigger] sealed_record(k, trace, t, t.encryption->0.generated_ivs@)
        }),
{
    if trace_capture_enabled {
        encoded_trace(trace, processed, trace_capture_enabled, public_key, session_meta)
    } else {
        Ok(redacted_trace(trace, processed, session_meta))
    }
}

} // verus!
