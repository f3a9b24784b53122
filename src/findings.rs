use vstd::prelude::*;
use crate::walker::NodeKind;

verus! {

/// A map from dotted paths to values, kept as entries in insertion order; a later
/// entry for a path overrides an earlier one.
pub struct PathMap<V> {
    pub entries: Vec<(String, V)>,
}

/// The map that the entries `s` describe, later entries winning.
pub open spec fn map_of<V: View>(s: Seq<(String, V)>) -> Map<Seq<char>, V::V>
    decreases s.len(),
{
    if s.len() == 0 {
        Map::empty()
    } else {
        map_of(s.drop_last()).insert(s.last().0@, s.last().1@)
    }
}

impl<V: View> View for PathMap<V> {
    type V = Map<Seq<char>, V::V>;

    open spec fn view(&self) -> Map<Seq<char>, V::V> {
        map_of(self.entries@)
    }
}

pub proof fn lemma_map_of_empty<V: View>(s: Seq<(String, V)>)
    ensures
        map_of(s).dom().len() == 0 <==> s.len() == 0,
        map_of(s).dom().finite(),
    decreases s.len(),
{
    if s.len() > 0 {
        lemma_map_of_empty(s.drop_last());
        assert(map_of(s).dom().contains(s.last().0@));
        vstd::set_lib::lemma_set_empty_equivalency_len(map_of(s).dom());
    }
}

pub proof fn lemma_map_of_append<V: View>(a: Seq<(String, V)>, b: Seq<(String, V)>)
    ensures
        map_of(a + b) == map_of(a).union_prefer_right(map_of(b)),
    decreases b.len(),
{
    if b.len() == 0 {
        assert(a + b =~= a);
        assert(map_of(a).union_prefer_right(map_of(b)) =~= map_of(a));
    } else {
        lemma_map_of_append(a, b.drop_last());
        assert((a + b).drop_last() =~= a + b.drop_last());
        assert(map_of(a + b) =~= map_of(a).union_prefer_right(map_of(b)));
    }
}

impl<V: View> PathMap<V> {
    pub fn new() -> (r: Self)
        ensures
            r@ == Map::<Seq<char>, V::V>::empty(),
            r.entries@.len() == 0,
    {
        PathMap { entries: Vec::new() }
    }

    pub fn is_empty(&self) -> (r: bool)
        ensures
            r == (self@.dom().len() == 0),
            r == (self.entries@.len() == 0),
    {
        proof {
            lemma_map_of_empty(self.entries@);
        }
        self.entries.len() == 0
    }

    /// Sets the value at `key`, replacing any earlier one.
    pub fn insert(&mut self, key: String, value: V)
        ensures
            final(self)@ == old(self)@.insert(key@, value@),
            final(self).entries@.len() == old(self).entries@.len() + 1,
    {
        let ghost before = self.entries@;
        self.entries.push((key, value));
        assert(self.entries@.drop_last() =~= before);
    }

    /// The position of the entry that gives the value at `key`, if any.
    pub fn find(&self, key: &String) -> (r: Option<usize>)
        ensures
            r is None ==> !self@.contains_key(key@),
            r matches Some(i) ==> i < self.entries@.len() && self@.contains_key(key@)
                && self@[key@] == self.entries@[i as int].1@,
    {
        let ghost e = self.entries@;
        let mut j: usize = self.entries.len();
        assert(e.take(j as int) =~= e);
        while j > 0
            invariant
                e == self.entries@,
                j <= e.len(),
                map_of(e).contains_key(key@) == map_of(e.take(j as int)).contains_key(key@),
                map_of(e).contains_key(key@) ==> map_of(e)[key@] == map_of(e.take(j as int))[key@],
            decreases j,
        {
            let ghost t = e.take(j as int);
            assert(t.drop_last() =~= e.take(j - 1));
            assert(t.last() == e[j - 1]);
            if self.entries[j - 1].0 == *key {
                return Some(j - 1);
            }
            j = j - 1;
        }
        assert(e.take(0) =~= Seq::<(String, V)>::empty());
        None
    }

    /// Moves every entry of `other` in, in order, so that its values win.
    pub fn extend(&mut self, other: PathMap<V>)
        ensures
            final(self)@ == old(self)@.union_prefer_right(other@),
    {
        let mut o = other;
        proof {
            lemma_map_of_append(self.entries@, o.entries@);
        }
        self.entries.append(&mut o.entries);
    }
}

/// The kinds of leaf seen at one path.
#[derive(Clone, Copy, Debug, PartialEq, Eq, Structural)]
pub struct TypeSet {
    pub null: bool,
    pub boolean: bool,
    pub number: bool,
    pub string: bool,
}

impl View for TypeSet {
    type V = TypeSet;

    open spec fn view(&self) -> TypeSet {
        *self
    }
}

pub open spec fn no_types() -> TypeSet {
    TypeSet { null: false, boolean: false, number: false, string: false }
}

/// `t` with the kind `k` added; a container adds nothing.
pub open spec fn with_kind(t: TypeSet, k: NodeKind) -> TypeSet {
    match k {
        NodeKind::Null => TypeSet { null: true, ..t },
        NodeKind::Boolean => TypeSet { boolean: true, ..t },
        NodeKind::Number => TypeSet { number: true, ..t },
        NodeKind::Str => TypeSet { string: true, ..t },
        NodeKind::Container => t,
    }
}

impl TypeSet {
    pub fn empty() -> (r: TypeSet)
        ensures
            r == no_types(),
    {
        TypeSet { null: false, boolean: false, number: false, string: false }
    }

    pub fn with(self, k: NodeKind) -> (r: TypeSet)
        ensures
            r == with_kind(self, k),
    {
        match k {
            NodeKind::Null => TypeSet { null: true, ..self },
            NodeKind::Boolean => TypeSet { boolean: true, ..self },
            NodeKind::Number => TypeSet { number: true, ..self },
            NodeKind::Str => TypeSet { string: true, ..self },
            NodeKind::Container => self,
        }
    }
}

/// Adds the kind `kind` to the set of kinds seen at `path`.
pub fn insert_data_type(data_types: &mut PathMap<TypeSet>, path: &String, kind: NodeKind)
    ensures
        final(data_types)@ == old(data_types)@.insert(
            path@,
            with_kind(
                if old(data_types)@.contains_key(path@) {
                    old(data_types)@[path@]
                } else {
                    no_types()
                },
                kind,
            ),
        ),
{
    let old_types = match data_types.find(path) {
        Some(j) => data_types.entries[j].1,
        None => TypeSet::empty(),
    };
    data_types.insert(path.clone(), old_types.with(kind));
}

/// A set of tag strings, such as the classes of sensitive data found at a path.
pub struct TagSet {
    pub tags: Vec<String>,
}

pub open spec fn tags_view(s: Seq<String>) -> Set<Seq<char>> {
    Set::new(|t: Seq<char>| exists|i: int| 0 <= i < s.len() && #[trigger] s[i]@ == t)
}

proof fn lemma_tags_view_push(s: Seq<String>, x: String)
    ensures
        tags_view(s.push(x)) == tags_view(s).insert(x@),
{
    let s2 = s.push(x);
    assert forall|t: Seq<char>| #[trigger] tags_view(s2).contains(t) == tags_view(s).insert(x@).contains(t) by {
        if tags_view(s2).contains(t) {
            let i = choose|i: int| 0 <= i < s2.len() && s2[i]@ == t;
            if i < s.len() {
                assert(s[i]@ == t);
            }
        }
        if tags_view(s).contains(t) {
            let i = choose|i: int| 0 <= i < s.len() && s[i]@ == t;
            assert(s2[i]@ == t);
        }
        if t == x@ {
            assert(s2[s.len() as int]@ == t);
        }
    }
    assert(tags_view(s2) =~= tags_view(s).insert(x@));
}

impl View for TagSet {
    type V = Set<Seq<char>>;

    open spec fn view(&self) -> Set<Seq<char>> {
        tags_view(self.tags@)
    }
}

impl TagSet {
    pub fn new() -> (r: TagSet)
        ensures
            r@ == Set::<Seq<char>>::empty(),
    {
        let r = TagSet { tags: Vec::new() };
        assert(r@ =~= Set::<Seq<char>>::empty());
        r
    }

    pub fn is_empty(&self) -> (r: bool)
        ensures
            r == (self@ == Set::<Seq<char>>::empty()),
    {
        if self.tags.len() == 0 {
            assert(self@ =~= Set::<Seq<char>>::empty());
            true
        } else {
            assert(self@.contains(self.tags@[0]@));
            false
        }
    }

    pub fn add(&mut self, tag: String)
        ensures
            final(self)@ == old(self)@.insert(tag@),
    {
        proof {
            lemma_tags_view_push(self.tags@, tag);
        }
        self.tags.push(tag);
    }

    /// Adds every tag of `other`.
    pub fn add_all(&mut self, other: &TagSet)
        ensures
            final(self)@ == old(self)@.union(other@),
    {
        let mut i: usize = 0;
        let ghost start = self@;
        while i < other.tags.len()
            invariant
                i <= other.tags@.len(),
                self@ == start.union(tags_view(other.tags@.take(i as int))),
            decreases other.tags@.len() - i,
        {
            proof {
                lemma_tags_view_push(other.tags@.take(i as int), other.tags@[i as int]);
                assert(other.tags@.take(i + 1) =~= other.tags@.take(i as int).push(other.tags@[i as int]));
            }
            self.add(other.tags[i].clone());
            assert(self@ =~= start.union(tags_view(other.tags@.take(i + 1))));
            i = i + 1;
        }
        assert(other.tags@.take(i as int) =~= other.tags@);
    }

    /// The tags of `self` and of `other` together.
    pub fn union(&self, other: &TagSet) -> (r: TagSet)
        ensures
            r@ == self@.union(other@),
    {
        let mut r = TagSet::new();
        r.add_all(self);
        r.add_all(other);
        assert(r@ =~= self@.union(other@));
        r
    }
}

} // verus!
