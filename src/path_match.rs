use vstd::prelude::*;
use vstd::string::*;

verus! {

/// `s` with every leading `/` removed.
pub open spec fn strip_leading(s: Seq<char>) -> Seq<char>
    decreases s.len(),
{
    if s.len() > 0 && s[0] == '/' {
        strip_leading(s.skip(1))
    } else {
        s
    }
}

/// `s` with every trailing `/` removed.
pub open spec fn strip_trailing(s: Seq<char>) -> Seq<char>
    decreases s.len(),
{
    if s.len() > 0 && s.last() == '/' {
        strip_trailing(s.drop_last())
    } else {
        s
    }
}

/// Splitting the first `n` characters of `s` at `/`: the finished tokens and the open one.
pub open spec fn split_state(s: Seq<char>, n: nat) -> (Seq<Seq<char>>, Seq<char>)
    decreases n,
{
    if n == 0 {
        (Seq::empty(), Seq::empty())
    } else {
        let (done, cur) = split_state(s, (n - 1) as nat);
        if s[n - 1] == '/' {
            (done.push(cur), Seq::empty())
        } else {
            (done, cur.push(s[n - 1]))
        }
    }
}

/// The tokens of `s` between `/` separators; an empty `s` gives one empty token.
pub open spec fn split_slash(s: Seq<char>) -> Seq<Seq<char>> {
    let (done, cur) = split_state(s, s.len());
    done.push(cur)
}

/// The tokens of a URL path, after trimming its leading and trailing slashes.
pub open spec fn path_tokens(p: Seq<char>) -> Seq<Seq<char>> {
    split_slash(strip_trailing(strip_leading(p)))
}

/// A template segment of the form `{name}` matches any observed token.
pub open spec fn is_wildcard(seg: Seq<char>) -> bool {
    seg.len() > 0 && seg[0] == '{' && seg.last() == '}'
}

pub open spec fn tokens_match(observed: Seq<Seq<char>>, template: Seq<Seq<char>>) -> bool {
    &&& observed.len() == template.len()
    &&& forall|i: int|
        0 <= i < template.len() ==> observed[i] == template[i] || is_wildcard(#[trigger] template[i])
}

/// Whether the observed tokens fit the templated endpoint path.
pub open spec fn endpoint_matches(observed: Seq<Seq<char>>, template: Seq<char>) -> bool {
    tokens_match(observed, path_tokens(template))
}

pub open spec fn string_views(v: Seq<String>) -> Seq<Seq<char>> {
    v.map_values(|s: String| s@)
}

fn first_non_slash(s: &str) -> (r: usize)
    ensures
        r <= s@.len(),
        strip_leading(s@) == s@.skip(r as int),
{
    let n = s.unicode_len();
    let mut i: usize = 0;
    assert(s@.skip(0) =~= s@);
    while i < n && s.get_char(i) == '/'
        invariant
            n == s@.len(),
            i <= n,
            strip_leading(s@) == strip_leading(s@.skip(i as int)),
        decreases n - i,
    {
        assert(s@.skip(i as int).skip(1) =~= s@.skip(i + 1));
        i = i + 1;
    }
    if i < n {
        assert(s@.skip(i as int)[0] == s@[i as int]);
    }
    i
}

fn last_non_slash(s: &str) -> (r: usize)
    ensures
        r <= s@.len(),
        strip_trailing(s@) == s@.take(r as int),
{
    let mut j: usize = s.unicode_len();
    assert(s@.take(j as int) =~= s@);
    while j > 0 && s.get_char(j - 1) == '/'
        invariant
            j <= s@.len(),
            strip_trailing(s@) == strip_trailing(s@.take(j as int)),
        decreases j,
    {
        assert(s@.take(j as int).drop_last() =~= s@.take(j - 1));
        j = j - 1;
    }
    j
}

/// The trimmed tokens of a URL path, split at `/`.
pub fn get_split_path(path: &str) -> (r: Vec<String>)
    ensures
        string_views(r@) == path_tokens(path@),
{
    let start = first_non_slash(path);
    let rest = path.substring_char(start, path.unicode_len());
    let end = last_non_slash(rest);
    let t = rest.substring_char(0, end);
    assert(t@ =~= strip_trailing(strip_leading(path@))) by {
        assert(rest@ =~= path@.skip(start as int));
    }
    let n = t.unicode_len();
    let mut out: Vec<String> = Vec::new();
    let mut tok_start: usize = 0;
    let mut i: usize = 0;
    while i < n
        invariant
            n == t@.len(),
            tok_start <= i <= n,
            string_views(out@) == split_state(t@, i as nat).0,
            t@.subrange(tok_start as int, i as int) == split_state(t@, i as nat).1,
        decreases n - i,
    {
        let c = t.get_char(i);
        if c == '/' {
            let tok = String::from_str(t.substring_char(tok_start, i));
            let ghost before = out@;
            out.push(tok);
            assert(string_views(out@) =~= string_views(before).push(tok@));
            tok_start = i + 1;
        }
        assert(t@.subrange(tok_start as int, i + 1) =~= split_state(t@, (i + 1) as nat).1);
        i = i + 1;
    }
    let last = String::from_str(t.substring_char(tok_start, n));
    let ghost before = out@;
    out.push(last);
    assert(string_views(out@) =~= string_views(before).push(last@));
    out
}

fn is_wildcard_segment(seg: &String) -> (r: bool)
    ensures
        r == is_wildcard(seg@),
{
    let n = seg.as_str().unicode_len();
    n > 0 && seg.as_str().get_char(0) == '{' && seg.as_str().get_char(n - 1) == '}'
}

/// Whether the observed path tokens fit the templated endpoint path: equal token
/// counts, and at each position equal tokens or a `{param}` template segment.
pub fn is_endpoint_match(trace_tokens: &Vec<String>, endpoint_path: &str) -> (r: bool)
    ensures
        r == endpoint_matches(string_views(trace_tokens@), endpoint_path@),
{
    let endpoint_tokens = get_split_path(endpoint_path);
    proof {
        assert(string_views(endpoint_tokens@).len() == endpoint_tokens@.len());
    }
    if trace_tokens.len() != endpoint_tokens.len() {
        return false;
    }
    let mut i: usize = 0;
    while i < endpoint_tokens.len()
        invariant
            trace_tokens@.len() == endpoint_tokens@.len(),
            string_views(endpoint_tokens@) == path_tokens(endpoint_path@),
            i <= endpoint_tokens@.len(),
            forall|j: int|
                0 <= j < i ==> string_views(trace_tokens@)[j] == path_tokens(endpoint_path@)[j]
                    || is_wildcard(#[trigger] path_tokens(endpoint_path@)[j]),
        decreases endpoint_tokens@.len() - i,
    {
        let e = &endpoint_tokens[i];
        assert(string_views(endpoint_tokens@)[i as int] == e@);
        assert(string_views(trace_tokens@)[i as int] == trace_tokens@[i as int]@);
        if trace_tokens[i] != *e && !is_wildcard_segment(e) {
            return false;
        }
        i = i + 1;
    }
    true
}

/// `n` slashes.
pub open spec fn slashes(n: nat) -> Seq<char> {
    Seq::new(n, |i: int| '/')
}

proof fn lemma_strip_leading_slashes(n: nat, p: Seq<char>)
    ensures
        strip_leading(slashes(n) + p) == strip_leading(p),
    decreases n,
{
    if n > 0 {
        assert((slashes(n) + p).skip(1) =~= slashes((n - 1) as nat) + p);
        lemma_strip_leading_slashes((n - 1) as nat, p);
    } else {
        assert(slashes(0) + p =~= p);
    }
}

/// Leading slashes on the observed path or on the template, however many, never
/// change whether they match.
pub proof fn endpoint_match_ignores_leading_slashes(m: nat, p: Seq<char>, n: nat, template: Seq<char>)
    ensures
        endpoint_matches(path_tokens(slashes(m) + p), slashes(n) + template) == endpoint_matches(
            path_tokens(p),
            template,
        ),
{
    lemma_strip_leading_slashes(m, p);
    lemma_strip_leading_slashes(n, template);
}

} // verus!
