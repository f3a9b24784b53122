use aes_gcm::aead::{Aead, KeyInit, OsRng};
use aes_gcm::{Aes256Gcm, Nonce};
use base64::Engine;
use metlo_core::analysis::ProcessTraceRes;
use metlo_core::forward::{build_forward_record, encode_body, ProcessedApiTrace};
use metlo_core::findings::PathMap;
use metlo_core::session::SessionMeta;
use metlo_core::trace::{ApiRequest, ApiResponse, ApiTrace, ApiUrl, KeyVal};
use rsa::pkcs8::{EncodePublicKey, LineEnding};
use rsa::{Oaep, RsaPrivateKey, RsaPublicKey};

fn kv(name: &str, value: &str) -> KeyVal {
    KeyVal { name: name.to_string(), value: value.to_string() }
}

fn sample() -> ApiTrace {
    ApiTrace {
        request: ApiRequest {
            method: "POST".to_string(),
            url: ApiUrl { host: "h".to_string(), path: "/p".to_string(), parameters: vec![kv("q", "v1")] },
            headers: vec![kv("X-H", "hv")],
            body: "{\"a\":1}".to_string(),
        },
        response: Some(ApiResponse { status: 200, headers: vec![kv("R", "rv")], body: "ok".to_string() }),
        meta: None,
    }
}

fn empty_res() -> ProcessTraceRes {
    ProcessTraceRes {
        block: false,
        xss_detected: None,
        sqli_detected: None,
        sensitive_data_detected: None,
        data_types: None,
        validation_errors: None,
        request_content_type: String::new(),
        response_content_type: String::new(),
        graph_ql_data: None,
    }
}

fn meta() -> SessionMeta {
    SessionMeta { authentication_provided: None, authentication_successful: None, auth_type: None, unique_session_key: None, user: None }
}

fn b64(s: &str) -> Vec<u8> {
    base64::engine::general_purpose::STANDARD.decode(s).unwrap()
}

fn iv<'a>(ivs: &'a PathMap<Vec<u8>>, key: &str) -> &'a Vec<u8> {
    &ivs.entries.iter().rev().find(|e| e.0 == key).unwrap().1
}

fn open(cipher: &Aes256Gcm, ivs: &PathMap<Vec<u8>>, id: &str, text: &str) -> String {
    let pt = cipher.decrypt(Nonce::from_slice(iv(ivs, id)), b64(text).as_slice()).unwrap();
    String::from_utf8(pt).unwrap()
}

fn encrypt(pem: &str) -> ProcessedApiTrace {
    build_forward_record(sample(), empty_res(), true, Some(pem.to_string()), meta()).ok().unwrap()
}

#[test]
fn encrypted_fields_decrypt_to_the_plaintext() {
    let private = RsaPrivateKey::new(&mut OsRng, 1024).unwrap();
    let pem = RsaPublicKey::from(&private).to_public_key_pem(LineEnding::LF).unwrap();
    let r = encrypt(&pem);
    assert!(!r.redacted);
    assert_eq!(r.request.method, "POST");
    assert_eq!(r.request.url.path, "/p");
    let enc = r.encryption.unwrap();
    let key = private.decrypt(Oaep::new::<sha2::Sha256>(), &b64(&enc.key)).unwrap();
    assert_eq!(key.len(), 32);
    let cipher = Aes256Gcm::new_from_slice(&key).unwrap();
    let ivs = &enc.generated_ivs;
    assert_eq!(open(&cipher, ivs, "reqBody", &r.request.body), "{\"a\":1}");
    let q = &r.request.url.parameters[0];
    assert_eq!(open(&cipher, ivs, &format!("reqQuery.{}", q.name), &q.name), "q");
    assert_eq!(open(&cipher, ivs, &format!("reqQuery.{}", q.value), &q.value), "v1");
    let h = &r.request.headers[0];
    assert_eq!(open(&cipher, ivs, &format!("reqHeaders.{}", h.name), &h.name), "X-H");
    assert_eq!(open(&cipher, ivs, &format!("reqHeaders.{}", h.value), &h.value), "hv");
    let resp = r.response.unwrap();
    assert_eq!(resp.status, 200);
    assert_eq!(open(&cipher, ivs, "resBody", &resp.body), "ok");
    let rh = &resp.headers[0];
    assert_eq!(open(&cipher, ivs, &format!("resHeaders.{}", rh.value), &rh.value), "rv");
}

#[test]
fn encryption_is_fresh_each_time() {
    let private = RsaPrivateKey::new(&mut OsRng, 1024).unwrap();
    let pem = RsaPublicKey::from(&private).to_public_key_pem(LineEnding::LF).unwrap();
    let a = encrypt(&pem);
    let b = encrypt(&pem);
    let ea = a.encryption.unwrap();
    let eb = b.encryption.unwrap();
    let ka = private.decrypt(Oaep::new::<sha2::Sha256>(), &b64(&ea.key)).unwrap();
    let kb = private.decrypt(Oaep::new::<sha2::Sha256>(), &b64(&eb.key)).unwrap();
    assert_ne!(ka, kb);
    assert_ne!(iv(&ea.generated_ivs, "reqBody"), iv(&eb.generated_ivs, "reqBody"));
    assert_ne!(a.request.body, b.request.body);
}

#[test]
fn body_encryption_records_its_nonce() {
    let key = vec![9u8; 32];
    let mut ivs: PathMap<Vec<u8>> = PathMap::new();
    let text = encode_body(&key, "hello", "reqBody", &mut ivs).unwrap();
    assert_ne!(text, "hello");
    assert_eq!(iv(&ivs, "reqBody").len(), 12);
    let cipher = Aes256Gcm::new_from_slice(&key).unwrap();
    assert_eq!(open(&cipher, &ivs, "reqBody", &text), "hello");
}
