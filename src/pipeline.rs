use vstd::prelude::*;
use vstd::string::*;
use crate::analysis::{
    Detection, DetView, ProcessTraceRes, assemble_fragment, combine_process_trace_res, det_views,
    Messages, key_val_observations, merged, never_empty, observe_key_vals, opt_view, sel_errors,
    sel_sensitive, sel_sqli, sel_types, sel_xss,
    sensitive_upto, sqli_upto, text_or_empty, types_upto, xss_upto,
};
use crate::decode::{decode_body, decoded, opt_obs};
use crate::findings::PathMap;
use crate::path_match::{endpoint_matches, get_split_path, is_endpoint_match, path_tokens, string_views};
use crate::trace::{ApiTrace, KeyVal, opt_text};
use crate::walker::{Observation, ObsView, obs_views};

verus! {

/// The characters of `s` in lower case, as std's `str::to_lowercase` gives them.
pub uninterp spec fn lower_of(s: Seq<char>) -> Seq<char>;

/// Relies on std's `str::to_lowercase`: the result depends on the characters alone.
#[verifier::external_body]
pub(crate) fn to_lower(s: &str) -> (r: String)
    ensures
        r@ == lower_of(s@),
{
    s.to_lowercase()
}

/// One configured endpoint.
pub struct EndpointConfig {
    pub path: String,
    pub openapi_spec_name: Option<String>,
    pub is_graph_ql: bool,
    pub full_trace_capture_enabled: bool,
}

/// The endpoints configured under one `{host}-{method}` key, in order.
pub struct EndpointGroup {
    pub key: String,
    pub endpoints: Vec<EndpointConfig>,
}

/// How a host authenticates its callers.
pub struct Authentication {
    pub host: String,
    pub auth_type: String,
    pub header_key: Option<String>,
    pub jwt_user_path: Option<String>,
    pub cookie_name: Option<String>,
}

/// The configuration that one trace is processed and sent with.
pub struct ConfigSnapshot {
    pub endpoints: Vec<EndpointGroup>,
    pub authentication_config: Vec<Authentication>,
    pub collector_url: Option<String>,
    pub api_key: String,
    pub global_full_trace_capture: bool,
    pub encryption_public_key: Option<String>,
    pub hmac_key: Option<Vec<u8>>,
}

/// The first header from position `i` on whose lower-cased name is `content-type`.
pub open spec fn content_type_from(h: Seq<KeyVal>, i: int) -> Option<Seq<char>>
    decreases h.len() - i,
{
    if i < 0 || i >= h.len() {
        None
    } else if lower_of(h[i].name@) == "content-type"@ {
        Some(h[i].value@)
    } else {
        content_type_from(h, i + 1)
    }
}

pub open spec fn content_type_of(h: Seq<KeyVal>) -> Option<Seq<char>> {
    content_type_from(h, 0)
}

/// The value of the first header named `content-type`, in any case.
pub fn get_content_type(headers: &Vec<KeyVal>) -> (r: Option<String>)
    ensures
        opt_text(r) == content_type_of(headers@),
{
    let mut i: usize = 0;
    while i < headers.len()
        invariant
            i <= headers@.len(),
            content_type_of(headers@) == content_type_from(headers@, i as int),
        decreases headers@.len() - i,
    {
        let name = to_lower(headers[i].name.as_str());
        if name == String::from_str("content-type") {
            return Some(headers[i].value.clone());
        }
        i = i + 1;
    }
    None
}

/// The first group under `key`.
pub open spec fn group_from(groups: Seq<EndpointGroup>, key: Seq<char>, i: int) -> Option<int>
    decreases groups.len() - i,
{
    if i < 0 || i >= groups.len() {
        None
    } else if groups[i].key@ == key {
        Some(i)
    } else {
        group_from(groups, key, i + 1)
    }
}

/// The first endpoint of `eps` from position `i` on whose template fits `tokens`.
pub open spec fn endpoint_from(eps: Seq<EndpointConfig>, tokens: Seq<Seq<char>>, i: int) -> Option<int>
    decreases eps.len() - i,
{
    if i < 0 || i >= eps.len() {
        None
    } else if endpoint_matches(tokens, eps[i].path@) {
        Some(i)
    } else {
        endpoint_from(eps, tokens, i + 1)
    }
}

/// The lookup key of a request: `{host}-{lower(method)}`.
pub open spec fn endpoint_key(host: Seq<char>, method: Seq<char>) -> Seq<char> {
    host + "-"@ + lower_of(method)
}

/// The endpoint that a request matches: in the group under its key, the first whose
/// template fits its path.
pub open spec fn matched_endpoint(groups: Seq<EndpointGroup>, host: Seq<char>, method: Seq<char>, path: Seq<char>) -> Option<EndpointConfig> {
    match group_from(groups, endpoint_key(host, method), 0) {
        Some(g) => match endpoint_from(groups[g].endpoints@, path_tokens(path), 0) {
            Some(e) => Some(groups[g].endpoints@[e]),
            None => None,
        },
        None => None,
    }
}

/// Looks up the endpoint of a request; returns the group and the endpoint position.
pub fn find_endpoint(groups: &Vec<EndpointGroup>, host: &String, method: &String, path: &String) -> (r: Option<(usize, usize)>)
    ensures
        r matches Some((g, e)) ==> g < groups@.len() && e < groups@[g as int].endpoints@.len()
            && matched_endpoint(groups@, host@, method@, path@) == Some(groups@[g as int].endpoints@[e as int]),
        r is None ==> matched_endpoint(groups@, host@, method@, path@) is None,
{
    let mut key = host.clone();
    key.append("-");
    let lower = to_lower(method.as_str());
    key.append(lower.as_str());
    let tokens = get_split_path(path.as_str());
    let mut g: usize = 0;
    while g < groups.len()
        invariant
            g <= groups@.len(),
            key@ == endpoint_key(host@, method@),
            group_from(groups@, key@, 0) == group_from(groups@, key@, g as int),
            string_views(tokens@) == path_tokens(path@),
        decreases groups@.len() - g,
    {
        if groups[g].key == key {
            let eps = &groups[g].endpoints;
            let mut e: usize = 0;
            while e < eps.len()
                invariant
                    e <= eps@.len(),
                    g < groups@.len(),
                    *eps == groups@[g as int].endpoints,
                    key@ == endpoint_key(host@, method@),
                    group_from(groups@, key@, 0) == Some(g as int),
                    string_views(tokens@) == path_tokens(path@),
                    endpoint_from(eps@, path_tokens(path@), 0) == endpoint_from(eps@, path_tokens(path@), e as int),
                decreases eps@.len() - e,
            {
                if is_endpoint_match(&tokens, eps[e].path.as_str()) {
                    return Some((g, e));
                }
                e = e + 1;
            }
            return None;
        }
        g = g + 1;
    }
    None
}

/// What a trace's analysis needs besides the detectors' verdicts: the observations of
/// each part (request body, query, request headers, response body, response
/// headers, in this order), the raw content types, and the endpoint's context.
pub struct TracePlan {
    pub parts: Vec<Option<Vec<Observation>>>,
    pub request_content_type: Option<String>,
    pub response_content_type: Option<String>,
    pub full_trace_capture_enabled: bool,
    pub endpoint_path: String,
    pub openapi_spec_name: Option<String>,
    pub is_graph_ql: bool,
    pub graph_ql_source: GraphQlSource,
}

/// Where the GraphQL processor reads a trace: its body for a POST, its query for a
/// GET, nowhere otherwise or off a GraphQL endpoint.
#[derive(Clone, Copy, Debug, PartialEq, Eq, Structural)]
pub enum GraphQlSource {
    Skip,
    Body,
    Query,
}

pub open spec fn graph_ql_source_of(gql: bool, method: Seq<char>) -> GraphQlSource {
    if gql && lower_of(method) == "post"@ {
        GraphQlSource::Body
    } else if gql && lower_of(method) == "get"@ {
        GraphQlSource::Query
    } else {
        GraphQlSource::Skip
    }
}

pub open spec fn config_groups(config: Option<&ConfigSnapshot>) -> Seq<EndpointGroup> {
    match config {
        Some(c) => c.endpoints@,
        None => Seq::empty(),
    }
}

pub open spec fn trace_endpoint(t: ApiTrace, config: Option<&ConfigSnapshot>) -> Option<EndpointConfig> {
    matched_endpoint(config_groups(config), t.request.url.host@, t.request.method@, t.request.url.path@)
}

/// Whether the trace has a response with a status below 400.
pub open spec fn non_error(t: ApiTrace) -> bool {
    t.response matches Some(r) && r.status < 400
}

pub open spec fn graph_ql_of(m: Option<EndpointConfig>) -> bool {
    m matches Some(e) && e.is_graph_ql
}

pub open spec fn capture_of(m: Option<EndpointConfig>) -> bool {
    m matches Some(e) && e.full_trace_capture_enabled
}

/// The observations planned for each part of a trace.
pub open spec fn planned_parts(t: ApiTrace, m: Option<EndpointConfig>) -> Seq<Option<Seq<ObsView>>> {
    let gql = graph_ql_of(m);
    let ok = non_error(t);
    seq![
        if ok && t.request.body@.len() > 0 && !gql {
            decoded("reqBody"@, t.request.body@, content_type_of(t.request.headers@))
        } else {
            None
        },
        if ok && !gql {
            Some(key_val_observations("reqQuery"@, t.request.url.parameters@))
        } else {
            None
        },
        if ok {
            Some(key_val_observations("reqHeaders"@, t.request.headers@))
        } else {
            None
        },
        match t.response {
            Some(r) => decoded("resBody"@, r.body@, content_type_of(r.headers@)),
            None => decoded("resBody"@, Seq::empty(), None),
        },
        match t.response {
            Some(r) => Some(key_val_observations("resHeaders"@, r.headers@)),
            None => None,
        },
    ]
}

pub open spec fn parts_view(parts: Seq<Option<Vec<Observation>>>) -> Seq<Option<Seq<ObsView>>> {
    parts.map_values(|p: Option<Vec<Observation>>| opt_obs(p))
}

/// Lists what each part of a trace shows, after matching its endpoint; with no
/// configuration no endpoint matches.
pub fn plan_api_trace(trace: &ApiTrace, config: Option<&ConfigSnapshot>) -> (r: TracePlan)
    ensures
        parts_view(r.parts@) == planned_parts(*trace, trace_endpoint(*trace, config)),
        opt_text(r.request_content_type) == content_type_of(trace.request.headers@),
        opt_text(r.response_content_type) == match trace.response {
            Some(resp) => content_type_of(resp.headers@),
            None => None,
        },
        r.full_trace_capture_enabled == capture_of(trace_endpoint(*trace, config)),
        r.is_graph_ql == graph_ql_of(trace_endpoint(*trace, config)),
        r.graph_ql_source == graph_ql_source_of(graph_ql_of(trace_endpoint(*trace, config)), trace.request.method@),
        opt_text(r.openapi_spec_name) == match trace_endpoint(*trace, config) {
            Some(e) => opt_text(e.openapi_spec_name),
            None => None,
        },
        r.endpoint_path@ == match trace_endpoint(*trace, config) {
            Some(e) => e.path@,
            None => trace.request.url.path@,
        },
{
    let req = &trace.request;
    let req_content_type = get_content_type(&req.headers);
    let mut openapi_spec_name: Option<String> = None;
    let mut full_trace_capture_enabled = false;
    let mut is_graph_ql = false;
    let mut endpoint_path = req.url.path.clone();
    let found = match config {
        Some(c) => find_endpoint(&c.endpoints, &req.url.host, &req.method, &req.url.path),
        None => None,
    };
    match (config, found) {
        (Some(c), Some((g, e))) => {
            let ep = &c.endpoints[g].endpoints[e];
            openapi_spec_name = match &ep.openapi_spec_name {
                Some(n) => Some(n.clone()),
                None => None,
            };
            full_trace_capture_enabled = ep.full_trace_capture_enabled;
            is_graph_ql = ep.is_graph_ql;
            endpoint_path = ep.path.clone();
        },
        _ => {},
    }
    let non_error_status = match &trace.response {
        Some(r) => r.status < 400,
        None => false,
    };
    let ghost m = trace_endpoint(*trace, config);
    let proc_req_body = if non_error_status && req.body.as_str().unicode_len() > 0 && !is_graph_ql {
        decode_body(&String::from_str("reqBody"), req.body.as_str(), match &req_content_type {
            Some(c) => Some(c),
            None => None,
        })
    } else {
        None
    };
    let proc_req_params = if non_error_status && !is_graph_ql {
        Some(observe_key_vals(&String::from_str("reqQuery"), &req.url.parameters))
    } else {
        None
    };
    let proc_req_headers = if non_error_status {
        Some(observe_key_vals(&String::from_str("reqHeaders"), &req.headers))
    } else {
        None
    };
    let mut resp_content_type: Option<String> = None;
    let mut proc_resp_headers: Option<Vec<Observation>> = None;
    let proc_resp_body = match &trace.response {
        Some(resp) => {
            proc_resp_headers = Some(observe_key_vals(&String::from_str("resHeaders"), &resp.headers));
            resp_content_type = get_content_type(&resp.headers);
            decode_body(&String::from_str("resBody"), resp.body.as_str(), match &resp_content_type {
                Some(c) => Some(c),
                None => None,
            })
        },
        None => decode_body(&String::from_str("resBody"), "", None),
    };
    let method = to_lower(req.method.as_str());
    let graph_ql_source = if is_graph_ql && method == String::from_str("post") {
        GraphQlSource::Body
    } else if is_graph_ql && method == String::from_str("get") {
        GraphQlSource::Query
    } else {
        GraphQlSource::Skip
    };
    let mut parts: Vec<Option<Vec<Observation>>> = Vec::new();
    parts.push(proc_req_body);
    parts.push(proc_req_params);
    parts.push(proc_req_headers);
    parts.push(proc_resp_body);
    parts.push(proc_resp_headers);
    proof {
        reveal_strlit("");
        assert(""@ =~= Seq::<char>::empty());
    }
    assert(parts_view(parts@) =~= planned_parts(*trace, m));
    TracePlan {
        parts,
        request_content_type: req_content_type,
        response_content_type: resp_content_type,
        full_trace_capture_enabled,
        endpoint_path,
        openapi_spec_name,
        is_graph_ql,
        graph_ql_source,
    }
}

pub open spec fn opt_dets(d: Option<Vec<Detection>>) -> Option<Seq<DetView>> {
    match d {
        Some(v) => Some(det_views(v@)),
        None => None,
    }
}

pub open spec fn dets_view(dets: Seq<Option<Vec<Detection>>>) -> Seq<Option<Seq<DetView>>> {
    dets.map_values(|d: Option<Vec<Detection>>| opt_dets(d))
}

/// `dets[i]` holds one verdict for each observation of `parts[i]`, and is absent
/// exactly where that part is.
pub open spec fn aligned(parts: Seq<Option<Vec<Observation>>>, dets: Seq<Option<Vec<Detection>>>) -> bool {
    &&& parts.len() == dets.len()
    &&& forall|i: int|
        0 <= i < parts.len() ==> ((#[trigger] parts[i] is Some) == (dets[i] is Some) && (parts[i] is Some
            ==> parts[i]->0@.len() == dets[i]->0@.len()))
}

/// The findings that `f` selects from each present part, later parts winning.
pub open spec fn merged_parts<V>(
    ps: Seq<Option<Seq<ObsView>>>,
    ds: Seq<Option<Seq<DetView>>>,
    n: nat,
    f: spec_fn(Seq<ObsView>, Seq<DetView>) -> Map<Seq<char>, V>,
) -> Map<Seq<char>, V>
    decreases n,
{
    if n == 0 || n > ps.len() {
        Map::empty()
    } else {
        let m = merged_parts(ps, ds, (n - 1) as nat, f);
        match (ps[n - 1], ds[n - 1]) {
            (Some(o), Some(d)) => m.union_prefer_right(f(o, d)),
            _ => m,
        }
    }
}

proof fn lemma_merged_parts<V>(
    rs: Seq<Option<ProcessTraceRes>>,
    ps: Seq<Option<Seq<ObsView>>>,
    ds: Seq<Option<Seq<DetView>>>,
    n: nat,
    sel: spec_fn(ProcessTraceRes) -> Map<Seq<char>, V>,
    f: spec_fn(Seq<ObsView>, Seq<DetView>) -> Map<Seq<char>, V>,
)
    requires
        n <= rs.len(),
        rs.len() == ps.len(),
        rs.len() == ds.len(),
        forall|i: int|
            0 <= i < rs.len() ==> ((#[trigger] rs[i] is Some) == (ps[i] is Some && ds[i] is Some)),
        forall|i: int|
            0 <= i < rs.len() && (#[trigger] rs[i] is Some) ==> sel(rs[i]->0) == f(ps[i]->0, ds[i]->0),
    ensures
        merged(rs, n, sel) == merged_parts(ps, ds, n, f),
    decreases n,
{
    if n > 0 {
        lemma_merged_parts(rs, ps, ds, (n - 1) as nat, sel, f);
        assert(rs[n - 1] is Some == (ps[n - 1] is Some && ds[n - 1] is Some));
    }
}

/// The analysis of a planned trace, given for each part the injection detectors'
/// verdict on each of its observations, the schema check's errors for the response
/// body, and the GraphQL processor's result: the merged findings, and whether the
/// endpoint asks for full capture.
pub fn process_api_trace(
    plan: TracePlan,
    detections: Vec<Option<Vec<Detection>>>,
    validation_errors: Option<PathMap<Messages>>,
    graph_ql_data: Option<String>,
) -> (r: (
    ProcessTraceRes,
    bool,
))
    requires
        aligned(plan.parts@, detections@),
    ensures
        r.0.well_formed(),
        r.1 == plan.full_trace_capture_enabled,
        r.0.types_map() == merged_parts(
            parts_view(plan.parts@),
            dets_view(detections@),
            plan.parts@.len(),
            |o: Seq<ObsView>, d: Seq<DetView>| types_upto(o, o.len()),
        ),
        r.0.xss_map() == merged_parts(
            parts_view(plan.parts@),
            dets_view(detections@),
            plan.parts@.len(),
            |o: Seq<ObsView>, d: Seq<DetView>| xss_upto(o, d, o.len()),
        ),
        r.0.sqli_map() == merged_parts(
            parts_view(plan.parts@),
            dets_view(detections@),
            plan.parts@.len(),
            |o: Seq<ObsView>, d: Seq<DetView>| sqli_upto(o, d, o.len()),
        ),
        r.0.sensitive_map() == merged_parts(
            parts_view(plan.parts@),
            dets_view(detections@),
            plan.parts@.len(),
            |o: Seq<ObsView>, d: Seq<DetView>| sensitive_upto(o, d, o.len()),
        ),
        r.0.errors_map() == if plan.parts@.len() > 3 && plan.parts@[3] is Some {
            opt_view(validation_errors)
        } else {
            Map::<Seq<char>, Seq<String>>::empty()
        },
        r.0.graph_ql_data == graph_ql_data,
        r.0.request_content_type@ == text_or_empty(plan.request_content_type),
        r.0.response_content_type@ == text_or_empty(plan.response_content_type),
{
    let ghost ps = parts_view(plan.parts@);
    let ghost ds = dets_view(detections@);
    let ghost parts0 = plan.parts@;
    let ghost dets0 = detections@;
    let mut parts = plan.parts;
    let mut dets = detections;
    let n = parts.len();
    let mut results: Vec<Option<ProcessTraceRes>> = Vec::new();
    let mut validation = validation_errors;
    let mut i: usize = 0;
    while i < n
        invariant
            n == parts0.len(),
            aligned(parts0, dets0),
            ps == parts_view(parts0),
            ds == dets_view(dets0),
            i <= n,
            parts@ == parts0.skip(i as int),
            dets@ == dets0.skip(i as int),
            results@.len() == i,
            i <= 3 ==> validation == validation_errors,
            forall|j: int| 0 <= j < i ==> ((#[trigger] results@[j] is Some) == (ps[j] is Some && ds[j] is Some)),
            forall|j: int| 0 <= j < i && (#[trigger] results@[j] is Some) ==> {
                let fr = results@[j]->0;
                &&& fr.well_formed()
                &&& fr.types_map() == types_upto(ps[j]->0, ps[j]->0.len())
                &&& fr.xss_map() == xss_upto(ps[j]->0, ds[j]->0, ps[j]->0.len())
                &&& fr.sqli_map() == sqli_upto(ps[j]->0, ds[j]->0, ps[j]->0.len())
                &&& fr.sensitive_map() == sensitive_upto(ps[j]->0, ds[j]->0, ps[j]->0.len())
                &&& fr.errors_map() == if j == 3 {
                    opt_view(validation_errors)
                } else {
                    Map::<Seq<char>, Seq<String>>::empty()
                }
            },
        decreases n - i,
    {
        let p = parts.remove(0);
        let d = dets.remove(0);
        assert(p == parts0[i as int]);
        assert(d == dets0[i as int]);
        assert(parts0[i as int] is Some == dets0[i as int] is Some);
        let ghost before = results@;
        match (p, d) {
            (Some(o), Some(dv)) => {
                let mut fr = assemble_fragment(&o, &dv);
                if i == 3 {
                    fr.validation_errors = none_if_empty(validation.take());
                }
                assert(ps[i as int] == Some(obs_views(o@)));
                assert(ds[i as int] == Some(det_views(dv@)));
                results.push(Some(fr));
            },
            _ => {
                results.push(None);
            },
        }
        assert(forall|j: int| 0 <= j < i ==> results@[j] == before[j]);
        assert(parts@ =~= parts0.skip(i + 1));
        assert(dets@ =~= dets0.skip(i + 1));
        i = i + 1;
    }
    let ghost rs = results@;
    let res = combine_process_trace_res(results, plan.request_content_type, plan.response_content_type, graph_ql_data);
    proof {
        lemma_merged_parts(rs, ps, ds, n as nat, |x: ProcessTraceRes| sel_types(x),
            |o: Seq<ObsView>, d: Seq<DetView>| types_upto(o, o.len()));
        lemma_merged_parts(rs, ps, ds, n as nat, |x: ProcessTraceRes| sel_xss(x),
            |o: Seq<ObsView>, d: Seq<DetView>| xss_upto(o, d, o.len()));
        lemma_merged_parts(rs, ps, ds, n as nat, |x: ProcessTraceRes| sel_sqli(x),
            |o: Seq<ObsView>, d: Seq<DetView>| sqli_upto(o, d, o.len()));
        lemma_merged_parts(rs, ps, ds, n as nat, |x: ProcessTraceRes| sel_sensitive(x),
            |o: Seq<ObsView>, d: Seq<DetView>| sensitive_upto(o, d, o.len()));
        lemma_merged_errors(rs, n as nat, opt_view(validation_errors));
    }
    (res, plan.full_trace_capture_enabled)
}

proof fn lemma_merged_errors(rs: Seq<Option<ProcessTraceRes>>, n: nat, e: Map<Seq<char>, Seq<String>>)
    requires
        n <= rs.len(),
        forall|j: int|
            0 <= j < rs.len() && (#[trigger] rs[j] is Some) ==> rs[j]->0.errors_map() == if j == 3 {
                e
            } else {
                Map::<Seq<char>, Seq<String>>::empty()
            },
    ensures
        merged(rs, n, |x: ProcessTraceRes| sel_errors(x)) == if n > 3 && rs[3] is Some {
            e
        } else {
            Map::<Seq<char>, Seq<String>>::empty()
        },
    decreases n,
{
    if n > 0 {
        lemma_merged_errors(rs, (n - 1) as nat, e);
        let m = merged(rs, (n - 1) as nat, |x: ProcessTraceRes| sel_errors(x));
        if rs[n - 1] is Some {
            assert(m.union_prefer_right(rs[n - 1]->0.errors_map()) =~= (if n > 3 && rs[3] is Some { e } else { Map::<Seq<char>, Seq<String>>::empty() }));
        }
    } else {
        assert(merged(rs, 0, |x: ProcessTraceRes| sel_errors(x)) =~= Map::<Seq<char>, Seq<String>>::empty());
    }
}

/// `m`, or none where it holds no entry.
fn none_if_empty<V: View>(m: Option<PathMap<V>>) -> (r: Option<PathMap<V>>)
    ensures
        opt_view(r) == opt_view(m),
        never_empty(r),
{
    match m {
        Some(x) => {
            if x.is_empty() {
                assert(x@ =~= Map::<Seq<char>, V::V>::empty());
                None
            } else {
                Some(x)
            }
        },
        None => None,
    }
}

} // verus!
