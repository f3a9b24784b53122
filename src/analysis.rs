use vstd::prelude::*;
use vstd::string::*;
use crate::findings::{PathMap, TagSet, TypeSet, insert_data_type, no_types, with_kind};
use crate::sensitive::{detect_sensitive_data, sensitive_tags};
use crate::trace::KeyVal;
use crate::walker::{
    MAX_VISITS, JsonValue, NodeKind, Observation, ObsView, first_n, key_path, obs_views, visits,
    walk,
};

verus! {

/// What the injection detectors found in one string: XSS, and SQL injection with
/// the fingerprint of the rule that fired.
pub struct Detection {
    pub xss: bool,
    pub sqli: bool,
    pub fingerprint: String,
}

pub type DetView = (bool, bool, Seq<char>);

impl View for Detection {
    type V = DetView;

    open spec fn view(&self) -> DetView {
        (self.xss, self.sqli, self.fingerprint@)
    }
}

pub open spec fn det_views(v: Seq<Detection>) -> Seq<DetView> {
    v.map_values(|d: Detection| d@)
}

/// A string flagged as SQL injection, with the fingerprint of the rule that fired.
pub struct SqliFinding {
    pub value: String,
    pub fingerprint: String,
}

impl View for SqliFinding {
    type V = (Seq<char>, Seq<char>);

    open spec fn view(&self) -> (Seq<char>, Seq<char>) {
        (self.value@, self.fingerprint@)
    }
}

/// Validation messages for one path.
pub struct Messages {
    pub items: Vec<String>,
}

impl View for Messages {
    type V = Seq<String>;

    open spec fn view(&self) -> Seq<String> {
        self.items@
    }
}

/// The findings of one trace, or of one part of it.
pub struct ProcessTraceRes {
    pub block: bool,
    pub xss_detected: Option<PathMap<String>>,
    pub sqli_detected: Option<PathMap<SqliFinding>>,
    pub sensitive_data_detected: Option<PathMap<TagSet>>,
    pub data_types: Option<PathMap<TypeSet>>,
    pub validation_errors: Option<PathMap<Messages>>,
    pub request_content_type: String,
    pub response_content_type: String,
    /// What the GraphQL processor made of the trace, as JSON text.
    pub graph_ql_data: Option<String>,
}

pub open spec fn opt_view<V: View>(m: Option<PathMap<V>>) -> Map<Seq<char>, V::V> {
    match m {
        Some(x) => x@,
        None => Map::empty(),
    }
}

/// A present map is never empty.
pub open spec fn never_empty<V: View>(m: Option<PathMap<V>>) -> bool {
    m matches Some(x) ==> x@ != Map::<Seq<char>, V::V>::empty()
}

impl ProcessTraceRes {
    pub open spec fn xss_map(&self) -> Map<Seq<char>, Seq<char>> {
        opt_view(self.xss_detected)
    }

    pub open spec fn sqli_map(&self) -> Map<Seq<char>, (Seq<char>, Seq<char>)> {
        opt_view(self.sqli_detected)
    }

    pub open spec fn sensitive_map(&self) -> Map<Seq<char>, Set<Seq<char>>> {
        opt_view(self.sensitive_data_detected)
    }

    pub open spec fn types_map(&self) -> Map<Seq<char>, TypeSet> {
        opt_view(self.data_types)
    }

    pub open spec fn errors_map(&self) -> Map<Seq<char>, Seq<String>> {
        opt_view(self.validation_errors)
    }

    /// Every finding's path has a data type; `block` exactly when there is an XSS
    /// or SQL injection finding; no map is present and empty.
    pub open spec fn well_formed(&self) -> bool {
        &&& forall|p: Seq<char>| #[trigger] self.xss_map().contains_key(p) ==> self.types_map().contains_key(p)
        &&& forall|p: Seq<char>| #[trigger] self.sqli_map().contains_key(p) ==> self.types_map().contains_key(p)
        &&& forall|p: Seq<char>|
            #[trigger] self.sensitive_map().contains_key(p) ==> self.types_map().contains_key(p)
        &&& self.block == (self.xss_map() != Map::<Seq<char>, Seq<char>>::empty()
            || self.sqli_map() != Map::<Seq<char>, (Seq<char>, Seq<char>)>::empty())
        &&& never_empty(self.xss_detected)
        &&& never_empty(self.sqli_detected)
        &&& never_empty(self.sensitive_data_detected)
        &&& never_empty(self.data_types)
        &&& never_empty(self.validation_errors)
    }
}

/// The data types seen at each path in the first `n` observations.
pub open spec fn types_upto(o: Seq<ObsView>, n: nat) -> Map<Seq<char>, TypeSet>
    decreases n,
{
    if n == 0 || n > o.len() {
        Map::empty()
    } else {
        let m = types_upto(o, (n - 1) as nat);
        let (p, k, _t) = o[n - 1];
        if k == NodeKind::Container {
            m
        } else {
            m.insert(p, with_kind(if m.contains_key(p) { m[p] } else { no_types() }, k))
        }
    }
}

/// Whether the `i`-th observation is a string leaf.
pub open spec fn is_string(o: Seq<ObsView>, i: int) -> bool {
    o[i].1 == NodeKind::Str
}

/// The XSS findings in the first `n` observations: the last flagged text at each path.
pub open spec fn xss_upto(o: Seq<ObsView>, d: Seq<DetView>, n: nat) -> Map<Seq<char>, Seq<char>>
    decreases n,
{
    if n == 0 || n > o.len() || n > d.len() {
        Map::empty()
    } else {
        let m = xss_upto(o, d, (n - 1) as nat);
        if is_string(o, n - 1) && d[n - 1].0 {
            m.insert(o[n - 1].0, o[n - 1].2)
        } else {
            m
        }
    }
}

/// The SQL injection findings in the first `n` observations: the last flagged text
/// at each path, with its fingerprint.
pub open spec fn sqli_upto(o: Seq<ObsView>, d: Seq<DetView>, n: nat) -> Map<
    Seq<char>,
    (Seq<char>, Seq<char>),
>
    decreases n,
{
    if n == 0 || n > o.len() || n > d.len() {
        Map::empty()
    } else {
        let m = sqli_upto(o, d, (n - 1) as nat);
        if is_string(o, n - 1) && d[n - 1].1 {
            m.insert(o[n - 1].0, (o[n - 1].2, d[n - 1].2))
        } else {
            m
        }
    }
}

/// The sensitive-data classes of the strings in the first `n` observations, united
/// per path.
pub open spec fn sensitive_upto(o: Seq<ObsView>, d: Seq<DetView>, n: nat) -> Map<
    Seq<char>,
    Set<Seq<char>>,
>
    decreases n,
{
    if n == 0 || n > o.len() || n > d.len() {
        Map::empty()
    } else {
        let m = sensitive_upto(o, d, (n - 1) as nat);
        let p = o[n - 1].0;
        let tags = sensitive_tags(o[n - 1].2);
        if is_string(o, n - 1) && tags != Set::<Seq<char>>::empty() {
            m.insert(p, (if m.contains_key(p) { m[p] } else { Set::empty() }).union(tags))
        } else {
            m
        }
    }
}

proof fn lemma_findings_have_types(o: Seq<ObsView>, d: Seq<DetView>, n: nat)
    ensures
        forall|p: Seq<char>| #[trigger] xss_upto(o, d, n).contains_key(p) ==> types_upto(o, n).contains_key(p),
        forall|p: Seq<char>| #[trigger] sqli_upto(o, d, n).contains_key(p) ==> types_upto(o, n).contains_key(p),
        forall|p: Seq<char>|
            #[trigger] sensitive_upto(o, d, n).contains_key(p) ==> types_upto(o, n).contains_key(p),
    decreases n,
{
    if n > 0 && n <= o.len() && n <= d.len() {
        let m = (n - 1) as nat;
        lemma_findings_have_types(o, d, m);
        assert forall|p: Seq<char>| types_upto(o, m).contains_key(p) implies #[trigger] types_upto(
            o,
            n,
        ).contains_key(p) by {}
        assert forall|p: Seq<char>| #[trigger] xss_upto(o, d, n).contains_key(p) implies types_upto(
            o,
            n,
        ).contains_key(p) by {
            if xss_upto(o, d, m).contains_key(p) {
                assert(types_upto(o, m).contains_key(p));
            }
        }
        assert forall|p: Seq<char>| #[trigger] sqli_upto(o, d, n).contains_key(p) implies types_upto(
            o,
            n,
        ).contains_key(p) by {
            if sqli_upto(o, d, m).contains_key(p) {
                assert(types_upto(o, m).contains_key(p));
            }
        }
        assert forall|p: Seq<char>| #[trigger] sensitive_upto(o, d, n).contains_key(p) implies types_upto(
            o,
            n,
        ).contains_key(p) by {
            if sensitive_upto(o, d, m).contains_key(p) {
                assert(types_upto(o, m).contains_key(p));
            }
        }
    }
}

fn opt_map<V: View>(m: PathMap<V>) -> (r: Option<PathMap<V>>)
    ensures
        opt_view(r) == m@,
        never_empty(r),
{
    if m.is_empty() {
        assert(m@ =~= Map::<Seq<char>, V::V>::empty());
        None
    } else {
        Some(m)
    }
}

/// Gathers the findings of a list of observations, where `dets[i]` is what the
/// detectors found in the text of `obs[i]`.
pub fn assemble_fragment(obs: &Vec<Observation>, dets: &Vec<Detection>) -> (r: ProcessTraceRes)
    requires
        dets@.len() == obs@.len(),
    ensures
        r.types_map() == types_upto(obs_views(obs@), obs@.len()),
        r.xss_map() == xss_upto(obs_views(obs@), det_views(dets@), obs@.len()),
        r.sqli_map() == sqli_upto(obs_views(obs@), det_views(dets@), obs@.len()),
        r.sensitive_map() == sensitive_upto(obs_views(obs@), det_views(dets@), obs@.len()),
        r.validation_errors is None,
        r.request_content_type@ == Seq::<char>::empty(),
        r.response_content_type@ == Seq::<char>::empty(),
        r.graph_ql_data is None,
        r.well_formed(),
{
    let ghost ov = obs_views(obs@);
    let ghost dv = det_views(dets@);
    let mut types: PathMap<TypeSet> = PathMap::new();
    let mut xss: PathMap<String> = PathMap::new();
    let mut sqli: PathMap<SqliFinding> = PathMap::new();
    let mut sensitive: PathMap<TagSet> = PathMap::new();
    let mut i: usize = 0;
    while i < obs.len()
        invariant
            dets@.len() == obs@.len(),
            ov == obs_views(obs@),
            dv == det_views(dets@),
            i <= obs@.len(),
            types@ == types_upto(ov, i as nat),
            xss@ == xss_upto(ov, dv, i as nat),
            sqli@ == sqli_upto(ov, dv, i as nat),
            sensitive@ == sensitive_upto(ov, dv, i as nat),
        decreases obs@.len() - i,
    {
        let o = &obs[i];
        let d = &dets[i];
        assert(ov[i as int] == o@);
        assert(dv[i as int] == d@);
        if o.kind != NodeKind::Container {
            insert_data_type(&mut types, &o.path, o.kind);
        }
        if o.kind == NodeKind::Str {
            if d.xss {
                xss.insert(o.path.clone(), o.text.clone());
            }
            if d.sqli {
                sqli.insert(
                    o.path.clone(),
                    SqliFinding { value: o.text.clone(), fingerprint: d.fingerprint.clone() },
                );
            }
            let tags = detect_sensitive_data(o.text.as_str());
            if !tags.is_empty() {
                let merged = match sensitive.find(&o.path) {
                    Some(j) => sensitive.entries[j].1.union(&tags),
                    None => TagSet::new().union(&tags),
                };
                sensitive.insert(o.path.clone(), merged);
            }
        }
        i = i + 1;
    }
    proof {
        lemma_findings_have_types(ov, dv, obs@.len());
    }
    let block = !(xss.is_empty() && sqli.is_empty());
    ProcessTraceRes {
        block,
        xss_detected: opt_map(xss),
        sqli_detected: opt_map(sqli),
        sensitive_data_detected: opt_map(sensitive),
        data_types: opt_map(types),
        validation_errors: None,
        request_content_type: String::new(),
        response_content_type: String::new(),
        graph_ql_data: None,
    }
}

/// The observations of a decoded body: its first `MAX_VISITS` nodes in pre-order.
pub fn observe_json(prefix: &String, value: &JsonValue) -> (r: Vec<Observation>)
    ensures
        obs_views(r@) == first_n(visits(*value, prefix@), MAX_VISITS as nat),
        r@.len() <= MAX_VISITS,
{
    let mut budget: usize = MAX_VISITS;
    let mut out: Vec<Observation> = Vec::new();
    walk(value, prefix, &mut budget, &mut out);
    assert(obs_views(out@) =~= Seq::<ObsView>::empty() + first_n(visits(*value, prefix@), MAX_VISITS as nat));
    assert(obs_views(out@).len() == out@.len());
    out
}

/// The observation of a body that is inspected whole, as one string.
pub fn observe_text(prefix: &String, body: &str) -> (r: Vec<Observation>)
    ensures
        obs_views(r@) == seq![(prefix@, NodeKind::Str, body@)],
{
    let mut out: Vec<Observation> = Vec::new();
    out.push(Observation { path: prefix.clone(), kind: NodeKind::Str, text: String::from_str(body) });
    assert(obs_views(out@) =~= seq![(prefix@, NodeKind::Str, body@)]);
    out
}

/// One string observation per entry, at `{prefix}.{name}`.
pub open spec fn key_val_observations(prefix: Seq<char>, vals: Seq<KeyVal>) -> Seq<ObsView> {
    Seq::new(vals.len(), |i: int| (key_path(prefix, vals[i].name@), NodeKind::Str, vals[i].value@))
}

/// The observations of headers or query parameters: each value as a string at
/// `{prefix}.{name}`.
pub fn observe_key_vals(prefix: &String, vals: &Vec<KeyVal>) -> (r: Vec<Observation>)
    ensures
        obs_views(r@) == key_val_observations(prefix@, vals@),
{
    let mut out: Vec<Observation> = Vec::new();
    let mut i: usize = 0;
    while i < vals.len()
        invariant
            i <= vals@.len(),
            obs_views(out@) == key_val_observations(prefix@, vals@).take(i as int),
        decreases vals@.len() - i,
    {
        let mut path = prefix.clone();
        path.append(".");
        path.append(vals[i].name.as_str());
        let ghost before = out@;
        let text = vals[i].value.clone();
        let ob = Observation { path, kind: NodeKind::Str, text };
        assert(ob@ == key_val_observations(prefix@, vals@)[i as int]);
        out.push(ob);
        assert(obs_views(out@) =~= obs_views(before).push(ob@));
        assert(obs_views(out@) =~= key_val_observations(prefix@, vals@).take(i + 1));
        i = i + 1;
    }
    assert(key_val_observations(prefix@, vals@).take(i as int) =~= key_val_observations(prefix@, vals@));
    out
}

/// The entries of the first `n` results that `f` selects, later results winning.
pub open spec fn merged<V>(
    rs: Seq<Option<ProcessTraceRes>>,
    n: nat,
    f: spec_fn(ProcessTraceRes) -> Map<Seq<char>, V>,
) -> Map<Seq<char>, V>
    decreases n,
{
    if n == 0 || n > rs.len() {
        Map::empty()
    } else {
        let m = merged(rs, (n - 1) as nat, f);
        match rs[n - 1] {
            Some(r) => m.union_prefer_right(f(r)),
            None => m,
        }
    }
}

/// Whether one of the results blocks.
pub open spec fn any_block(rs: Seq<Option<ProcessTraceRes>>) -> bool {
    exists|i: int| 0 <= i < rs.len() && (#[trigger] rs[i] matches Some(r) && r.block)
}

pub open spec fn text_or_empty(s: Option<String>) -> Seq<char> {
    match s {
        Some(t) => t@,
        None => Seq::empty(),
    }
}

proof fn lemma_merged_keys<V>(
    rs: Seq<Option<ProcessTraceRes>>,
    n: nat,
    f: spec_fn(ProcessTraceRes) -> Map<Seq<char>, V>,
    p: Seq<char>,
)
    requires
        n <= rs.len(),
    ensures
        merged(rs, n, f).contains_key(p) <==> exists|i: int|
            0 <= i < n && (#[trigger] rs[i] matches Some(r) && f(r).contains_key(p)),
    decreases n,
{
    if n > 0 {
        lemma_merged_keys(rs, (n - 1) as nat, f, p);
        if merged(rs, n, f).contains_key(p) {
            if !merged(rs, (n - 1) as nat, f).contains_key(p) {
                assert(rs[n - 1] matches Some(r) && f(r).contains_key(p));
            }
        }
        if exists|i: int| 0 <= i < n && (#[trigger] rs[i] matches Some(r) && f(r).contains_key(p)) {
            let i = choose|i: int| 0 <= i < n && (#[trigger] rs[i] matches Some(r) && f(r).contains_key(p));
            if i < n - 1 {
                assert(merged(rs, (n - 1) as nat, f).contains_key(p));
            }
        }
    }
}

proof fn lemma_nonempty_has_key<K, V>(m: Map<K, V>)
    ensures
        m != Map::<K, V>::empty() <==> exists|k: K| m.contains_key(k),
{
    if m != Map::<K, V>::empty() {
        if !(exists|k: K| m.contains_key(k)) {
            assert(m =~= Map::<K, V>::empty());
        }
    }
}

proof fn lemma_merged_nonempty<V>(
    rs: Seq<Option<ProcessTraceRes>>,
    f: spec_fn(ProcessTraceRes) -> Map<Seq<char>, V>,
)
    ensures
        merged(rs, rs.len(), f) != Map::<Seq<char>, V>::empty() <==> exists|i: int|
            0 <= i < rs.len() && (#[trigger] rs[i] matches Some(r) && f(r) != Map::<Seq<char>, V>::empty()),
{
    lemma_nonempty_has_key(merged(rs, rs.len(), f));
    if merged(rs, rs.len(), f) != Map::<Seq<char>, V>::empty() {
        let p = choose|p: Seq<char>| merged(rs, rs.len(), f).contains_key(p);
        lemma_merged_keys(rs, rs.len(), f, p);
        let i = choose|i: int| 0 <= i < rs.len() && (#[trigger] rs[i] matches Some(r) && f(r).contains_key(p));
        lemma_nonempty_has_key(f(rs[i]->0));
    }
    if exists|i: int| 0 <= i < rs.len() && (#[trigger] rs[i] matches Some(r) && f(r) != Map::<Seq<char>, V>::empty()) {
        let i = choose|i: int| 0 <= i < rs.len() && (#[trigger] rs[i] matches Some(r) && f(r) != Map::<Seq<char>, V>::empty());
        lemma_nonempty_has_key(f(rs[i]->0));
        let fi = f(rs[i]->0);
        let p = choose|p: Seq<char>| #[trigger] fi.contains_key(p);
        lemma_merged_keys(rs, rs.len(), f, p);
    }
}

pub open spec fn sel_xss(r: ProcessTraceRes) -> Map<Seq<char>, Seq<char>> {
    r.xss_map()
}

pub open spec fn sel_sqli(r: ProcessTraceRes) -> Map<Seq<char>, (Seq<char>, Seq<char>)> {
    r.sqli_map()
}

pub open spec fn sel_sensitive(r: ProcessTraceRes) -> Map<Seq<char>, Set<Seq<char>>> {
    r.sensitive_map()
}

pub open spec fn sel_types(r: ProcessTraceRes) -> Map<Seq<char>, TypeSet> {
    r.types_map()
}

pub open spec fn sel_errors(r: ProcessTraceRes) -> Map<Seq<char>, Seq<String>> {
    r.errors_map()
}

pub open spec fn all_well_formed(rs: Seq<Option<ProcessTraceRes>>) -> bool {
    forall|i: int| 0 <= i < rs.len() ==> (#[trigger] rs[i] matches Some(r) ==> r.well_formed())
}

fn merge_into<V: View>(acc: &mut PathMap<V>, part: Option<PathMap<V>>)
    ensures
        final(acc)@ == old(acc)@.union_prefer_right(opt_view(part)),
{
    match part {
        Some(m) => acc.extend(m),
        None => {
            assert(acc@.union_prefer_right(Map::<Seq<char>, V::V>::empty()) =~= acc@);
        },
    }
}

/// Merges the findings of the parts of a trace: `block` when any part blocks, each
/// map with the later part winning on a shared path and left out where empty, the
/// raw content types, and the GraphQL processor's result as given.
pub fn combine_process_trace_res(
    results: Vec<Option<ProcessTraceRes>>,
    request_content_type: Option<String>,
    response_content_type: Option<String>,
    proc_graph_ql: Option<String>,
) -> (r: ProcessTraceRes)
    ensures
        r.block == any_block(results@),
        r.xss_map() == merged(results@, results@.len(), |x: ProcessTraceRes| sel_xss(x)),
        r.sqli_map() == merged(results@, results@.len(), |x: ProcessTraceRes| sel_sqli(x)),
        r.sensitive_map() == merged(results@, results@.len(), |x: ProcessTraceRes| sel_sensitive(x)),
        r.types_map() == merged(results@, results@.len(), |x: ProcessTraceRes| sel_types(x)),
        r.errors_map() == merged(results@, results@.len(), |x: ProcessTraceRes| sel_errors(x)),
        r.request_content_type@ == text_or_empty(request_content_type),
        r.response_content_type@ == text_or_empty(response_content_type),
        r.graph_ql_data == proc_graph_ql,
        never_empty(r.xss_detected),
        never_empty(r.sqli_detected),
        never_empty(r.sensitive_data_detected),
        never_empty(r.data_types),
        never_empty(r.validation_errors),
        all_well_formed(results@) ==> r.well_formed(),
{
    let ghost rs = results@;
    let ghost fx = |x: ProcessTraceRes| sel_xss(x);
    let ghost fq = |x: ProcessTraceRes| sel_sqli(x);
    let ghost fs = |x: ProcessTraceRes| sel_sensitive(x);
    let ghost ft = |x: ProcessTraceRes| sel_types(x);
    let ghost fe = |x: ProcessTraceRes| sel_errors(x);
    let mut rest = results;
    let mut block = false;
    let mut xss: PathMap<String> = PathMap::new();
    let mut sqli: PathMap<SqliFinding> = PathMap::new();
    let mut sensitive: PathMap<TagSet> = PathMap::new();
    let mut types: PathMap<TypeSet> = PathMap::new();
    let mut errors: PathMap<Messages> = PathMap::new();
    let n = rest.len();
    let mut i: usize = 0;
    while i < n
        invariant
            n == rs.len(),
            i <= n,
            rest@ == rs.skip(i as int),
            block == any_block(rs.take(i as int)),
            xss@ == merged(rs, i as nat, fx),
            sqli@ == merged(rs, i as nat, fq),
            sensitive@ == merged(rs, i as nat, fs),
            types@ == merged(rs, i as nat, ft),
            errors@ == merged(rs, i as nat, fe),
            forall|x: ProcessTraceRes| #[trigger] fx(x) == sel_xss(x),
            forall|x: ProcessTraceRes| #[trigger] fq(x) == sel_sqli(x),
            forall|x: ProcessTraceRes| #[trigger] fs(x) == sel_sensitive(x),
            forall|x: ProcessTraceRes| #[trigger] ft(x) == sel_types(x),
            forall|x: ProcessTraceRes| #[trigger] fe(x) == sel_errors(x),
        decreases n - i,
    {
        let item = rest.remove(0);
        assert(item == rs[i as int]);
        proof {
            let t = rs.take(i + 1);
            assert(t.take(i as int) =~= rs.take(i as int));
            if any_block(t) {
                let j = choose|j: int| 0 <= j < t.len() && (#[trigger] t[j] matches Some(r) && r.block);
                if j < i {
                    assert(rs.take(i as int)[j] == t[j]);
                }
            }
            if any_block(rs.take(i as int)) {
                let j = choose|j: int| 0 <= j < i && (#[trigger] rs.take(i as int)[j] matches Some(r) && r.block);
                assert(t[j] == rs.take(i as int)[j]);
            }
            assert(t[i as int] == item);
        }
        match item {
            Some(res) => {
                let ghost g = res;
                assert(rs[i as int] == Some(g));
                assert(merged(rs, (i + 1) as nat, fx) == merged(rs, i as nat, fx).union_prefer_right(g.xss_map()));
                assert(merged(rs, (i + 1) as nat, fq) == merged(rs, i as nat, fq).union_prefer_right(g.sqli_map()));
                assert(merged(rs, (i + 1) as nat, fs) == merged(rs, i as nat, fs).union_prefer_right(g.sensitive_map()));
                assert(merged(rs, (i + 1) as nat, ft) == merged(rs, i as nat, ft).union_prefer_right(g.types_map()));
                assert(merged(rs, (i + 1) as nat, fe) == merged(rs, i as nat, fe).union_prefer_right(g.errors_map()));
                block = block || res.block;
                merge_into(&mut xss, res.xss_detected);
                merge_into(&mut sqli, res.sqli_detected);
                merge_into(&mut sensitive, res.sensitive_data_detected);
                merge_into(&mut types, res.data_types);
                merge_into(&mut errors, res.validation_errors);
            },
            None => {},
        }
        proof {
            assert(rest@ =~= rs.skip(i + 1));
        }
        i = i + 1;
    }
    assert(rs.take(n as int) =~= rs);
    assert(fx =~= |x: ProcessTraceRes| sel_xss(x));
    assert(fq =~= |x: ProcessTraceRes| sel_sqli(x));
    assert(fs =~= |x: ProcessTraceRes| sel_sensitive(x));
    assert(ft =~= |x: ProcessTraceRes| sel_types(x));
    assert(fe =~= |x: ProcessTraceRes| sel_errors(x));
    proof {
        if all_well_formed(rs) {
            assert forall|p: Seq<char>| #[trigger] merged(rs, n as nat, fx).contains_key(p) implies merged(
                rs,
                n as nat,
                ft,
            ).contains_key(p) by {
                lemma_merged_keys(rs, n as nat, fx, p);
                lemma_merged_keys(rs, n as nat, ft, p);
                let j = choose|j: int| 0 <= j < n && (#[trigger] rs[j] matches Some(r) && fx(r).contains_key(p));
                assert(rs[j]->0.well_formed());
            }
            assert forall|p: Seq<char>| #[trigger] merged(rs, n as nat, fq).contains_key(p) implies merged(
                rs,
                n as nat,
                ft,
            ).contains_key(p) by {
                lemma_merged_keys(rs, n as nat, fq, p);
                lemma_merged_keys(rs, n as nat, ft, p);
                let j = choose|j: int| 0 <= j < n && (#[trigger] rs[j] matches Some(r) && fq(r).contains_key(p));
                assert(rs[j]->0.well_formed());
            }
            assert forall|p: Seq<char>| #[trigger] merged(rs, n as nat, fs).contains_key(p) implies merged(
                rs,
                n as nat,
                ft,
            ).contains_key(p) by {
                lemma_merged_keys(rs, n as nat, fs, p);
                lemma_merged_keys(rs, n as nat, ft, p);
                let j = choose|j: int| 0 <= j < n && (#[trigger] rs[j] matches Some(r) && fs(r).contains_key(p));
                assert(rs[j]->0.well_formed());
            }
            lemma_merged_nonempty(rs, fx);
            lemma_merged_nonempty(rs, fq);
            if any_block(rs) {
                let j = choose|j: int| 0 <= j < rs.len() && (#[trigger] rs[j] matches Some(r) && r.block);
                assert(rs[j]->0.well_formed());
            }
            if merged(rs, n as nat, fx) != Map::<Seq<char>, Seq<char>>::empty() {
                let j = choose|j: int| 0 <= j < rs.len() && (#[trigger] rs[j] matches Some(r) && fx(r) != Map::<Seq<char>, Seq<char>>::empty());
                assert(rs[j]->0.well_formed());
            }
            if merged(rs, n as nat, fq) != Map::<Seq<char>, (Seq<char>, Seq<char>)>::empty() {
                let j = choose|j: int| 0 <= j < rs.len() && (#[trigger] rs[j] matches Some(r) && fq(r) != Map::<Seq<char>, (Seq<char>, Seq<char>)>::empty());
                assert(rs[j]->0.well_formed());
            }
        }
    }
    let request_content_type = match request_content_type {
        Some(t) => t,
        None => String::new(),
    };
    let response_content_type = match response_content_type {
        Some(t) => t,
        None => String::new(),
    };
    ProcessTraceRes {
        block,
        xss_detected: opt_map(xss),
        sqli_detected: opt_map(sqli),
        sensitive_data_detected: opt_map(sensitive),
        data_types: opt_map(types),
        validation_errors: opt_map(errors),
        request_content_type,
        response_content_type,
        graph_ql_data: proc_graph_ql,
    }
}

} // verus!
