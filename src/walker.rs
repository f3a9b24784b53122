use vstd::prelude::*;
use vstd::string::*;

verus! {

broadcast use vstd::std_specs::vec::group_vec_axioms;

/// Most nodes of one body that a walk inspects.
pub const MAX_VISITS: usize = 500;

/// A decoded body: the shape of a JSON document, with string leaves kept.
pub enum JsonValue {
    Null,
    Bool(bool),
    Number,
    String(String),
    Array(Vec<JsonValue>),
    Object(Vec<(String, JsonValue)>),
}

/// What a visited node is: a leaf of one of four kinds, or an array or object.
#[derive(Clone, Copy, Debug, PartialEq, Eq, Structural)]
pub enum NodeKind {
    Null,
    Boolean,
    Number,
    Str,
    Container,
}

/// One visited node: its dotted path, its kind and, for a string leaf, its text.
pub struct Observation {
    pub path: String,
    pub kind: NodeKind,
    pub text: String,
}

pub type ObsView = (Seq<char>, NodeKind, Seq<char>);

impl View for Observation {
    type V = ObsView;

    open spec fn view(&self) -> ObsView {
        (self.path@, self.kind, self.text@)
    }
}

pub open spec fn obs_views(v: Seq<Observation>) -> Seq<ObsView> {
    v.map_values(|o: Observation| o@)
}

pub open spec fn array_path(path: Seq<char>) -> Seq<char> {
    path + ".[]"@
}

pub open spec fn key_path(path: Seq<char>, key: Seq<char>) -> Seq<char> {
    path + "."@ + key
}

/// Every node of `v` in pre-order, each with its path below `path`.
pub open spec fn visits(v: JsonValue, path: Seq<char>) -> Seq<ObsView>
    decreases v, 0nat,
{
    match v {
        JsonValue::Null => seq![(path, NodeKind::Null, Seq::empty())],
        JsonValue::Bool(_) => seq![(path, NodeKind::Boolean, Seq::empty())],
        JsonValue::Number => seq![(path, NodeKind::Number, Seq::empty())],
        JsonValue::String(s) => seq![(path, NodeKind::Str, s@)],
        JsonValue::Array(xs) => seq![(path, NodeKind::Container, Seq::empty())] + array_visits(
            xs@,
            array_path(path),
            xs@.len(),
        ),
        JsonValue::Object(kvs) => seq![(path, NodeKind::Container, Seq::empty())]
            + object_visits(kvs@, path, kvs@.len()),
    }
}

/// The visits of the first `n` elements of an array, all under `path`.
pub open spec fn array_visits(xs: Seq<JsonValue>, path: Seq<char>, n: nat) -> Seq<ObsView>
    decreases xs, n,
{
    if n == 0 || n > xs.len() {
        Seq::empty()
    } else {
        array_visits(xs, path, (n - 1) as nat) + visits(xs[n - 1], path)
    }
}

/// The visits of the first `n` fields of an object whose path is `path`.
pub open spec fn object_visits(kvs: Seq<(String, JsonValue)>, path: Seq<char>, n: nat) -> Seq<
    ObsView,
>
    decreases kvs, n,
{
    if n == 0 || n > kvs.len() {
        Seq::empty()
    } else {
        object_visits(kvs, path, (n - 1) as nat) + visits(
            kvs[n - 1].1,
            key_path(path, kvs[n - 1].0@),
        )
    }
}

pub open spec fn min_nat(a: nat, b: nat) -> nat {
    if a <= b {
        a
    } else {
        b
    }
}

/// The first `n` items of `s`, or all of `s` where it is shorter.
pub open spec fn first_n<A>(s: Seq<A>, n: nat) -> Seq<A> {
    s.take(min_nat(n, s.len()) as int)
}

proof fn lemma_first_n_append<A>(a: Seq<A>, b: Seq<A>, n: nat)
    ensures
        first_n(a + b, n) == first_n(a, n) + first_n(b, (n - min_nat(n, a.len())) as nat),
{
    assert(first_n(a + b, n) =~= first_n(a, n) + first_n(b, (n - min_nat(n, a.len())) as nat));
}

proof fn lemma_visits_nonempty(v: JsonValue, path: Seq<char>)
    ensures
        visits(v, path).len() >= 1,
        visits(v, path)[0].0 == path,
{
    reveal_with_fuel(visits, 1);
}

/// Walks `v` in pre-order, recording each node while `budget` lasts and spending
/// one unit per node.
pub fn walk(v: &JsonValue, path: &String, budget: &mut usize, out: &mut Vec<Observation>)
    ensures
        obs_views(final(out)@) == obs_views(old(out)@) + first_n(visits(*v, path@), *old(budget) as nat),
        *final(budget) == *old(budget) - min_nat(*old(budget) as nat, visits(*v, path@).len()),
    decreases v,
{
    proof {
        lemma_visits_nonempty(*v, path@);
    }
    let ghost out0 = out@;
    if *budget == 0 {
        assert(obs_views(out@) =~= obs_views(out0) + first_n(visits(*v, path@), 0));
        return;
    }
    *budget = *budget - 1;
    let kind = match v {
        JsonValue::Null => NodeKind::Null,
        JsonValue::Bool(_) => NodeKind::Boolean,
        JsonValue::Number => NodeKind::Number,
        JsonValue::String(_) => NodeKind::Str,
        _ => NodeKind::Container,
    };
    let text = match v {
        JsonValue::String(s) => s.clone(),
        _ => String::new(),
    };
    out.push(Observation { path: path.clone(), kind, text });
    let ghost head = seq![(path@, kind, text@)];
    let ghost b1: nat = *budget as nat;
    assert(obs_views(out@) =~= obs_views(out0) + head);
    match v {
        JsonValue::Array(xs) => {
            let mut child = path.clone();
            child.append(".[]");
            let ghost cp = child@;
            let mut i: usize = 0;
            assert(array_visits(xs@, cp, 0) =~= Seq::<ObsView>::empty());
            while i < xs.len()
                invariant
                    *v == JsonValue::Array(*xs),
                    cp == child@,
                    cp == array_path(path@),
                    i <= xs@.len(),
                    obs_views(out@) == obs_views(out0) + head + first_n(array_visits(xs@, cp, i as nat), b1),
                    *budget == b1 - min_nat(b1, array_visits(xs@, cp, i as nat).len()),
                decreases xs@.len() - i,
            {
                let ghost before = out@;
                let ghost a = array_visits(xs@, cp, i as nat);
                proof {
                    assert(decreases_to!(*v => v->Array_0));
                    assert(decreases_to!(*xs => xs[i as int]));
                    assert(decreases_to!(*v => xs[i as int]));
                }
                walk(&xs[i], &child, budget, out);
                proof {
                    lemma_first_n_append(a, visits(xs@[i as int], cp), b1);
                    assert(array_visits(xs@, cp, (i + 1) as nat) == a + visits(xs@[i as int], cp));
                }
                i = i + 1;
            }
            proof {
                assert(visits(*v, path@) == head + array_visits(xs@, cp, xs@.len()));
                lemma_first_n_append(head, array_visits(xs@, cp, xs@.len()), *old(budget) as nat);
                assert(first_n(head, *old(budget) as nat) =~= head);
            }
        },
        JsonValue::Object(kvs) => {
            let mut i: usize = 0;
            assert(object_visits(kvs@, path@, 0) =~= Seq::<ObsView>::empty());
            while i < kvs.len()
                invariant
                    *v == JsonValue::Object(*kvs),
                    i <= kvs@.len(),
                    obs_views(out@) == obs_views(out0) + head + first_n(object_visits(kvs@, path@, i as nat), b1),
                    *budget == b1 - min_nat(b1, object_visits(kvs@, path@, i as nat).len()),
                decreases kvs@.len() - i,
            {
                let ghost a = object_visits(kvs@, path@, i as nat);
                let mut child = path.clone();
                child.append(".");
                child.append(kvs[i].0.as_str());
                proof {
                    assert(decreases_to!(*v => v->Object_0));
                    assert(decreases_to!(*kvs => kvs[i as int]));
                    assert(decreases_to!(kvs[i as int] => kvs[i as int].1));
                    assert(decreases_to!(*v => kvs[i as int].1));
                }
                walk(&kvs[i].1, &child, budget, out);
                proof {
                    lemma_first_n_append(a, visits(kvs@[i as int].1, child@), b1);
                    assert(object_visits(kvs@, path@, (i + 1) as nat) == a + visits(kvs@[i as int].1, child@));
                }
                i = i + 1;
            }
            proof {
                assert(visits(*v, path@) == head + object_visits(kvs@, path@, kvs@.len()));
                lemma_first_n_append(head, object_visits(kvs@, path@, kvs@.len()), *old(budget) as nat);
                assert(first_n(head, *old(budget) as nat) =~= head);
            }
        },
        _ => {
            assert(visits(*v, path@) =~= head);
        },
    }
}

} // verus!
