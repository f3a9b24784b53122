use vstd::prelude::*;
use vstd::string::*;
use vstd::std_specs::iter::IteratorSpec;
use crate::findings::TagSet;

verus! {

broadcast use {vstd::string::axiom_spec_iter, vstd::string::next_postcondition};

/// The characters of `s`, in order.
pub fn chars_of(s: &str) -> (r: Vec<char>)
    ensures
        r@ == s@,
{
    let mut it = s.chars();
    let mut out: Vec<char> = Vec::new();
    loop
        invariant
            out@ + it.remaining() == s@,
            it.decrease() is Some,
        decreases it.decrease()->0,
    {
        let ghost before = it.remaining();
        match it.next() {
            Some(c) => {
                out.push(c);
                assert(out@ + it.remaining() =~= s@);
            },
            None => {
                assert(it.remaining().len() == 0);
                assert(out@ =~= s@);
                return out;
            },
        }
    }
}

pub open spec fn is_digit(c: char) -> bool {
    '0' <= c <= '9'
}

/// A letter or digit of ASCII.
pub open spec fn is_word(c: char) -> bool {
    is_digit(c) || ('a' <= c <= 'z') || ('A' <= c <= 'Z')
}

/// A social security number `ddd-dd-dddd` starts at `k`.
pub open spec fn ssn_at(s: Seq<char>, k: int) -> bool {
    &&& 0 <= k
    &&& k + 11 <= s.len()
    &&& forall|q: int| 0 <= q < 11 ==> if q == 3 || q == 6 {
        #[trigger] s[k + q] == '-'
    } else {
        is_digit(s[k + q])
    }
}

/// Sixteen digits in a row, as on a payment card, start at `k`.
pub open spec fn card_at(s: Seq<char>, k: int) -> bool {
    &&& 0 <= k
    &&& k + 16 <= s.len()
    &&& forall|q: int| 0 <= q < 16 ==> is_digit(#[trigger] s[k + q])
}

/// An `@` at `i` between two word characters.
pub open spec fn at_sign_at(s: Seq<char>, i: int) -> bool {
    0 < i && i + 1 < s.len() && s[i] == '@' && is_word(s[i - 1]) && is_word(s[i + 1])
}

/// A `.` at `j` followed by a word character.
pub open spec fn dot_at(s: Seq<char>, j: int) -> bool {
    0 <= j && j + 1 < s.len() && s[j] == '.' && is_word(s[j + 1])
}

/// An address `x@y.z`: an `@` at `i` and, past the character after it, a `.` at `j`.
pub open spec fn email_at(s: Seq<char>, i: int, j: int) -> bool {
    at_sign_at(s, i) && i + 1 < j && dot_at(s, j)
}

pub open spec fn has_email(s: Seq<char>) -> bool {
    exists|i: int, j: int| email_at(s, i, j)
}

pub open spec fn has_ssn(s: Seq<char>) -> bool {
    exists|k: int| ssn_at(s, k)
}

pub open spec fn has_card(s: Seq<char>) -> bool {
    exists|k: int| card_at(s, k)
}

/// The classes of sensitive data found in `s`.
pub open spec fn sensitive_tags(s: Seq<char>) -> Set<Seq<char>> {
    Set::new(
        |t: Seq<char>|
            (t == "EMAIL"@ && has_email(s)) || (t == "SSN"@ && has_ssn(s)) || (t == "CREDIT_CARD"@
                && has_card(s)),
    )
}

fn is_digit_char(c: char) -> (r: bool)
    ensures
        r == is_digit(c),
{
    '0' <= c && c <= '9'
}

fn is_word_char(c: char) -> (r: bool)
    ensures
        r == is_word(c),
{
    is_digit_char(c) || ('a' <= c && c <= 'z') || ('A' <= c && c <= 'Z')
}

fn find_ssn(s: &Vec<char>) -> (r: bool)
    ensures
        r == has_ssn(s@),
{
    let n = s.len();
    if n < 11 {
        return false;
    }
    let mut k: usize = 0;
    while k <= n - 11
        invariant
            n == s@.len(),
            n >= 11,
            forall|m: int| 0 <= m < k ==> !ssn_at(s@, m),
        decreases n - k,
    {
        let mut q: usize = 0;
        let mut ok = true;
        while q < 11 && ok
            invariant
                n == s@.len(),
                k + 11 <= n,
                q <= 11,
                ok ==> forall|p: int| 0 <= p < q ==> if p == 3 || p == 6 {
                    #[trigger] s@[k + p] == '-'
                } else {
                    is_digit(s@[k + p])
                },
                !ok ==> !ssn_at(s@, k as int),
            decreases 11 - q + if ok { 1int } else { 0int },
        {
            let c = s[k + q];
            let good = if q == 3 || q == 6 { c == '-' } else { is_digit_char(c) };
            if !good {
                ok = false;
            } else {
                q = q + 1;
            }
        }
        if ok {
            assert(ssn_at(s@, k as int));
            return true;
        }
        k = k + 1;
    }
    false
}

fn find_card(s: &Vec<char>) -> (r: bool)
    ensures
        r == has_card(s@),
{
    let n = s.len();
    if n < 16 {
        return false;
    }
    let mut k: usize = 0;
    while k <= n - 16
        invariant
            n == s@.len(),
            n >= 16,
            forall|m: int| 0 <= m < k ==> !card_at(s@, m),
        decreases n - k,
    {
        let mut q: usize = 0;
        while q < 16 && is_digit_char(s[k + q])
            invariant
                n == s@.len(),
                k + 16 <= n,
                q <= 16,
                forall|p: int| 0 <= p < q ==> is_digit(#[trigger] s@[k + p]),
            decreases 16 - q,
        {
            q = q + 1;
        }
        if q == 16 {
            assert(card_at(s@, k as int));
            return true;
        }
        assert(!is_digit(s@[k + q]));
        k = k + 1;
    }
    false
}

fn find_email(s: &Vec<char>) -> (r: bool)
    ensures
        r == has_email(s@),
{
    let n = s.len();
    if n < 4 {
        assert forall|x: int, y: int| !email_at(s@, x, y) by {}
        return false;
    }
    let mut i: usize = 1;
    let mut first: Option<usize> = None;
    while i < n - 1 && first.is_none()
        invariant
            n == s@.len(),
            n >= 4,
            1 <= i < n,
            first is None ==> forall|m: int| 0 <= m < i ==> !at_sign_at(s@, m),
            first matches Some(a) ==> at_sign_at(s@, a as int) && a < n && forall|m: int|
                0 <= m < a ==> !at_sign_at(s@, m),
        decreases n - i + if first is None { 1int } else { 0int },
    {
        if s[i] == '@' && is_word_char(s[i - 1]) && is_word_char(s[i + 1]) {
            first = Some(i);
        } else {
            i = i + 1;
        }
    }
    let a = match first {
        Some(a) => a,
        None => {
            assert forall|x: int, y: int| !email_at(s@, x, y) by {
                if email_at(s@, x, y) {
                    assert(x < i || x + 1 >= n);
                }
            }
            return false;
        },
    };
    let mut j: usize = a + 2;
    while j < n - 1
        invariant
            n == s@.len(),
            at_sign_at(s@, a as int),
            a + 1 < n,
            n >= 4,
            a + 2 <= j <= n,
            forall|m: int| 0 <= m < a ==> !at_sign_at(s@, m),
            forall|m: int| a + 2 <= m < j ==> !dot_at(s@, m),
        decreases n - j,
    {
        if s[j] == '.' && is_word_char(s[j + 1]) {
            assert(email_at(s@, a as int, j as int));
            return true;
        }
        j = j + 1;
    }
    assert forall|x: int, y: int| !email_at(s@, x, y) by {
        if email_at(s@, x, y) {
            assert(x >= a);
            assert(!dot_at(s@, y));
        }
    }
    false
}

/// The classes of sensitive data in `s`: `EMAIL` for an address, `SSN` for a
/// social security number, `CREDIT_CARD` for sixteen digits in a row.
pub fn detect_sensitive_data(s: &str) -> (r: TagSet)
    ensures
        r@ == sensitive_tags(s@),
{
    let cs = chars_of(s);
    let mut r = TagSet::new();
    if find_email(&cs) {
        r.add(String::from_str("EMAIL"));
    }
    if find_ssn(&cs) {
        r.add(String::from_str("SSN"));
    }
    if find_card(&cs) {
        r.add(String::from_str("CREDIT_CARD"));
    }
    assert(r@ =~= sensitive_tags(s@));
    r
}

} // verus!
