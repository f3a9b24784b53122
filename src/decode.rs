use vstd::prelude::*;
use vstd::string::*;
use crate::analysis::{key_val_observations, observe_json, observe_key_vals, observe_text};
use crate::trace::{KeyVal, opt_text, same_text};
use crate::walker::{MAX_VISITS, JsonValue, NodeKind, Observation, ObsView, first_n, obs_views, visits};

verus! {

/// serde_json's document value, carried opaque from its parser to the conversion.
#[verifier::external_type_specification]
#[verifier::external_body]
pub struct ExJsonValue(serde_json::Value);

/// The tree that serde_json decodes from `body`, where `body` is valid JSON.
pub uninterp spec fn json_of(body: Seq<char>) -> Option<JsonValue>;

/// The tree that serde_urlencoded decodes from a form-encoded `body`.
pub uninterp spec fn urlencoded_of(body: Seq<char>) -> Option<JsonValue>;

/// The essence (`type/subtype`) of a media type, where mime parses it.
pub uninterp spec fn essence_of(content_type: Seq<char>) -> Option<Seq<char>>;

/// The `boundary` parameter of a media type, where mime parses it and it has one.
pub uninterp spec fn boundary_of(content_type: Seq<char>) -> Option<Seq<char>>;

/// The fields (name and start of data) that multipart reads from `body`.
pub uninterp spec fn form_fields_of(body: Seq<char>, boundary: Seq<char>) -> Option<Seq<(Seq<char>, Seq<char>)>>;

pub open spec fn key_val_pairs(v: Seq<KeyVal>) -> Seq<(Seq<char>, Seq<char>)> {
    v.map_values(|kv: KeyVal| (kv.name@, kv.value@))
}

/// Relies on the variants of serde_json's `Value`: converts node for node, keeping
/// strings, booleans and the fields of objects in their order, dropping the values of
/// numbers.
#[verifier::external_body]
fn from_serde(v: serde_json::Value) -> JsonValue {
    match v {
        serde_json::Value::Null => JsonValue::Null,
        serde_json::Value::Bool(b) => JsonValue::Bool(b),
        serde_json::Value::Number(_) => JsonValue::Number,
        serde_json::Value::String(s) => JsonValue::String(s),
        serde_json::Value::Array(xs) => JsonValue::Array(xs.into_iter().map(from_serde).collect()),
        serde_json::Value::Object(m) => JsonValue::Object(
            m.into_iter().map(|(k, x)| (k, from_serde(x))).collect(),
        ),
    }
}

/// Relies on serde_json::from_str: the decoded tree, or none for text that is not JSON.
#[verifier::external_body]
fn parse_json(body: &str) -> (r: Option<JsonValue>)
    ensures
        r == json_of(body@),
{
    serde_json::from_str::<serde_json::Value>(body).ok().map(from_serde)
}

/// Relies on serde_urlencoded::from_str: the decoded form, or none where it fails.
#[verifier::external_body]
fn parse_urlencoded(body: &str) -> (r: Option<JsonValue>)
    ensures
        r == urlencoded_of(body@),
{
    serde_urlencoded::from_str::<serde_json::Value>(body).ok().map(from_serde)
}

/// Relies on mime's `Mime::from_str` and `Mime::essence_str`.
#[verifier::external_body]
fn media_essence(content_type: &str) -> (r: Option<String>)
    ensures
        opt_text(r) == essence_of(content_type@),
{
    content_type.parse::<mime::Mime>().ok().map(|m| m.essence_str().to_string())
}

/// Relies on mime's `Mime::from_str` and `Mime::get_param` for `boundary`.
#[verifier::external_body]
fn media_boundary(content_type: &str) -> (r: Option<String>)
    ensures
        opt_text(r) == boundary_of(content_type@),
{
    let m = content_type.parse::<mime::Mime>().ok()?;
    m.get_param(mime::BOUNDARY).map(|b| b.as_str().to_string())
}

/// Relies on multipart's `Multipart::with_body` and `Multipart::read_entry`: each
/// field's name and the first buffer of its data, read as lossy UTF-8; none where
/// reading fails.
#[verifier::external_body]
fn read_form_fields(body: &str, boundary: &str) -> (r: Option<Vec<KeyVal>>)
    ensures
        r matches Some(v) ==> form_fields_of(body@, boundary@) == Some(key_val_pairs(v@)),
        r is None ==> form_fields_of(body@, boundary@) is None,
{
    let mut mp = multipart::server::Multipart::with_body(body.as_bytes(), boundary);
    let mut fields = Vec::new();
    loop {
        match mp.read_entry() {
            Ok(Some(mut field)) => {
                let data = std::io::BufRead::fill_buf(&mut field.data).unwrap_or(b"");
                let value = String::from_utf8_lossy(data).to_string();
                fields.push(KeyVal { name: field.headers.name.to_string(), value });
            },
            Ok(None) => return Some(fields),
            Err(_) => return None,
        }
    }
}

/// How a body is decoded, by the essence of its media type.
#[derive(Clone, Copy, Debug, PartialEq, Eq, Structural)]
pub enum BodyKind {
    Json,
    Text,
    FormData,
    UrlEncoded,
}

pub open spec fn kind_of_essence(e: Seq<char>) -> BodyKind {
    if e == "application/json"@ {
        BodyKind::Json
    } else if e == "multipart/form-data"@ {
        BodyKind::FormData
    } else if e == "application/x-www-form-urlencoded"@ {
        BodyKind::UrlEncoded
    } else {
        BodyKind::Text
    }
}

/// The decoding for a content-type header; plain text where it is absent or unparsable.
pub open spec fn body_kind(content_type: Option<Seq<char>>) -> BodyKind {
    match content_type {
        Some(c) => match essence_of(c) {
            Some(e) => kind_of_essence(e),
            None => BodyKind::Text,
        },
        None => BodyKind::Text,
    }
}

pub fn get_body_kind(content_type: Option<&String>) -> (r: BodyKind)
    ensures
        r == body_kind(match content_type { Some(c) => Some(c@), None => None }),
{
    match content_type {
        None => BodyKind::Text,
        Some(c) => match media_essence(c.as_str()) {
            None => BodyKind::Text,
            Some(e) => {
                if same_text(&e, "application/json") {
                    BodyKind::Json
                } else if same_text(&e, "multipart/form-data") {
                    BodyKind::FormData
                } else if same_text(&e, "application/x-www-form-urlencoded") {
                    BodyKind::UrlEncoded
                } else {
                    BodyKind::Text
                }
            },
        },
    }
}

/// No later field of `f` has the name of field `i`.
pub open spec fn is_last_name(f: Seq<(Seq<char>, Seq<char>)>, i: int) -> bool {
    forall|j: int| i < j < f.len() ==> #[trigger] f[j].0 != f[i].0
}

/// The fields among the first `n` of `f` whose name does not come again later in
/// `f`: for a repeated name, the last value wins.
pub open spec fn kept_fields(f: Seq<(Seq<char>, Seq<char>)>, n: nat) -> Seq<(Seq<char>, Seq<char>)>
    decreases n,
{
    if n == 0 || n > f.len() {
        Seq::empty()
    } else {
        let k = kept_fields(f, (n - 1) as nat);
        if is_last_name(f, n - 1) {
            k.push(f[n - 1])
        } else {
            k
        }
    }
}

/// The visits of a form decoded as a flat object of string fields.
pub open spec fn form_visits(prefix: Seq<char>, f: Seq<(Seq<char>, Seq<char>)>) -> Seq<ObsView> {
    let k = kept_fields(f, f.len());
    seq![(prefix, NodeKind::Container, Seq::<char>::empty())] + Seq::new(
        k.len(),
        |i: int| (prefix + "."@ + k[i].0, NodeKind::Str, k[i].1),
    )
}

fn keep_last(fields: &Vec<KeyVal>) -> (r: Vec<KeyVal>)
    ensures
        key_val_pairs(r@) == kept_fields(key_val_pairs(fields@), fields@.len()),
{
    let ghost f = key_val_pairs(fields@);
    let mut out: Vec<KeyVal> = Vec::new();
    let mut i: usize = 0;
    while i < fields.len()
        invariant
            f == key_val_pairs(fields@),
            i <= fields@.len(),
            key_val_pairs(out@) == kept_fields(f, i as nat),
        decreases fields@.len() - i,
    {
        let mut last = true;
        let mut j: usize = i + 1;
        while j < fields.len()
            invariant
                f == key_val_pairs(fields@),
                i < j <= fields@.len(),
                last == (forall|m: int| i < m < j ==> #[trigger] f[m].0 != f[i as int].0),
            decreases fields@.len() - j,
        {
            assert(f[j as int].0 == fields@[j as int].name@);
            assert(f[i as int].0 == fields@[i as int].name@);
            if fields[j].name == fields[i].name {
                last = false;
            }
            assert(last == (forall|m: int| i < m < j + 1 ==> #[trigger] f[m].0 != f[i as int].0));
            j = j + 1;
        }
        if last {
            let ghost before = out@;
            out.push(KeyVal { name: fields[i].name.clone(), value: fields[i].value.clone() });
            assert(key_val_pairs(out@) =~= key_val_pairs(before).push(f[i as int]));
        }
        i = i + 1;
    }
    out
}

/// The observations of a body, decoded by its content type; none where decoding fails.
pub open spec fn decoded(prefix: Seq<char>, body: Seq<char>, content_type: Option<Seq<char>>) -> Option<
    Seq<ObsView>,
> {
    match body_kind(content_type) {
        BodyKind::Json => match json_of(body) {
            Some(v) => Some(first_n(visits(v, prefix), MAX_VISITS as nat)),
            None => None,
        },
        BodyKind::UrlEncoded => match urlencoded_of(body) {
            Some(v) => Some(first_n(visits(v, prefix), MAX_VISITS as nat)),
            None => None,
        },
        BodyKind::Text => Some(seq![(prefix, NodeKind::Str, body)]),
        BodyKind::FormData => match content_type {
            Some(c) => match boundary_of(c) {
                Some(b) => match form_fields_of(body, b) {
                    Some(f) => Some(first_n(form_visits(prefix, f), MAX_VISITS as nat)),
                    None => None,
                },
                None => None,
            },
            None => None,
        },
    }
}

pub open spec fn opt_obs(r: Option<Vec<Observation>>) -> Option<Seq<ObsView>> {
    match r {
        Some(v) => Some(obs_views(v@)),
        None => None,
    }
}

fn observe_form(prefix: &String, body: &str, content_type: &String) -> (r: Option<Vec<Observation>>)
    ensures
        opt_obs(r) == match boundary_of(content_type@) {
            Some(b) => match form_fields_of(body@, b) {
                Some(f) => Some(first_n(form_visits(prefix@, f), MAX_VISITS as nat)),
                None => None,
            },
            None => None,
        },
{
    let boundary = match media_boundary(content_type.as_str()) {
        Some(b) => b,
        None => return None,
    };
    let fields = match read_form_fields(body, boundary.as_str()) {
        Some(f) => f,
        None => return None,
    };
    let kept = keep_last(&fields);
    let mut out: Vec<Observation> = Vec::new();
    out.push(Observation { path: prefix.clone(), kind: NodeKind::Container, text: String::new() });
    let mut rest = observe_key_vals(prefix, &kept);
    let ghost head = out@;
    let ghost tail = rest@;
    out.append(&mut rest);
    let ghost k = kept_fields(key_val_pairs(fields@), fields@.len());
    assert(key_val_observations(prefix@, kept@) =~= Seq::new(
        k.len(),
        |i: int| (prefix@ + "."@ + k[i].0, NodeKind::Str, k[i].1),
    ));
    assert(obs_views(out@) =~= obs_views(head) + obs_views(tail));
    assert(obs_views(out@) =~= form_visits(prefix@, key_val_pairs(fields@)));
    out.truncate(MAX_VISITS);
    assert(obs_views(out@) =~= first_n(form_visits(prefix@, key_val_pairs(fields@)), MAX_VISITS as nat));
    Some(out)
}

/// Decodes a body by its content type and lists what a walk of it observes.
pub fn decode_body(prefix: &String, body: &str, content_type: Option<&String>) -> (r: Option<
    Vec<Observation>,
>)
    ensures
        opt_obs(r) == decoded(prefix@, body@, match content_type { Some(c) => Some(c@), None => None }),
{
    match get_body_kind(content_type) {
        BodyKind::Json => match parse_json(body) {
            Some(v) => Some(observe_json(prefix, &v)),
            None => None,
        },
        BodyKind::UrlEncoded => match parse_urlencoded(body) {
            Some(v) => Some(observe_json(prefix, &v)),
            None => None,
        },
        BodyKind::Text => Some(observe_text(prefix, body)),
        BodyKind::FormData => match content_type {
            Some(c) => observe_form(prefix, body, c),
            None => None,
        },
    }
}

} // verus!
