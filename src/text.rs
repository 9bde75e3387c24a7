//! Character-level helpers shared by usage rendering and the command-tree
//! walker: path segment substitution, script-safe identifiers, and the
//! lexicographic order on strings.
use vstd::prelude::*;

verus! {

/// The views of a sequence of strings.
pub open spec fn texts(v: Seq<String>) -> Seq<Seq<char>> {
    v.map_values(|x: String| x@)
}

/// The path up to and including its last space; empty when it has none.
pub open spec fn through_last_space(p: Seq<char>) -> Seq<char>
    decreases p.len(),
{
    if p.len() == 0 {
        p
    } else if p.last() == ' ' {
        p
    } else {
        through_last_space(p.drop_last())
    }
}

/// `p` with its last space-delimited segment replaced by `alias`.
pub open spec fn replace_last(p: Seq<char>, alias: Seq<char>) -> Seq<char> {
    through_last_space(p) + alias
}

pub open spec fn underscore_char(c: char) -> char {
    if c == ' ' {
        '_'
    } else {
        c
    }
}

/// `p` with every space replaced by an underscore.
pub open spec fn underscored(p: Seq<char>) -> Seq<char> {
    p.map_values(|c: char| underscore_char(c))
}

/// Lexicographic order on character sequences, comparing code points.
pub open spec fn lex_lt(a: Seq<char>, b: Seq<char>) -> bool
    decreases a.len(),
{
    if b.len() == 0 {
        false
    } else if a.len() == 0 {
        true
    } else if a[0] != b[0] {
        (a[0] as int) < (b[0] as int)
    } else {
        lex_lt(a.drop_first(), b.drop_first())
    }
}

/// Each element is strictly below every later one.
pub open spec fn strictly_sorted(q: Seq<Seq<char>>) -> bool {
    forall|i: int, j: int| 0 <= i < j < q.len() ==> lex_lt(#[trigger] q[i], #[trigger] q[j])
}

proof fn lemma_through_last_space(p: Seq<char>, k: int)
    requires
        0 <= k <= p.len(),
        k == 0 || p[k - 1] == ' ',
        forall|j: int| k <= j < p.len() ==> p[j] != ' ',
    ensures
        through_last_space(p) == p.subrange(0, k),
    decreases p.len(),
{
    if p.len() == k {
        assert(p.subrange(0, k) =~= p);
    } else {
        lemma_through_last_space(p.drop_last(), k);
        assert(p.drop_last().subrange(0, k) =~= p.subrange(0, k));
    }
}

pub proof fn lemma_lex_irreflexive(a: Seq<char>)
    ensures
        !lex_lt(a, a),
    decreases a.len(),
{
    if a.len() > 0 {
        lemma_lex_irreflexive(a.drop_first());
    }
}

pub proof fn lemma_lex_total(a: Seq<char>, b: Seq<char>)
    requires
        a != b,
    ensures
        lex_lt(a, b) || lex_lt(b, a),
    decreases a.len(),
{
    if a.len() > 0 && b.len() > 0 && a[0] == b[0] {
        if a.drop_first() == b.drop_first() {
            assert(a =~= seq![a[0]] + a.drop_first());
            assert(b =~= seq![b[0]] + b.drop_first());
        }
        lemma_lex_total(a.drop_first(), b.drop_first());
    } else if a.len() == 0 && b.len() == 0 {
        assert(a =~= b);
    } else if a.len() > 0 && b.len() > 0 {
        assert((a[0] as int) != (b[0] as int));
    }
}

pub proof fn lemma_lex_transitive(a: Seq<char>, b: Seq<char>, c: Seq<char>)
    requires
        lex_lt(a, b),
        lex_lt(b, c),
    ensures
        lex_lt(a, c),
    decreases a.len(),
{
    if a.len() > 0 && a[0] == b[0] && b[0] == c[0] {
        lemma_lex_transitive(a.drop_first(), b.drop_first(), c.drop_first());
    }
}

/// Relies on String::push: appends one character at the end.
#[verifier::external_body]
pub(crate) fn push_char(s: &mut String, c: char)
    ensures
        final(s)@ == old(s)@.push(c),
{
    s.push(c)
}

/// The path with its last space-delimited segment replaced by `alias`.
pub fn with_last_segment(path: &String, alias: &String) -> (r: String)
    ensures
        r@ == replace_last(path@, alias@),
{
    let p = path.as_str();
    let n = p.unicode_len();
    let mut k: usize = n;
    while k > 0 && p.get_char(k - 1) != ' '
        invariant
            k <= n,
            n == p@.len(),
            forall|j: int| k <= j < n ==> p@[j] != ' ',
        decreases k,
    {
        k = k - 1;
    }
    proof {
        lemma_through_last_space(p@, k as int);
    }
    let head = p.substring_char(0, k);
    let mut r = String::from_str(head);
    r.append(alias.as_str());
    r
}

/// The text with every space replaced by an underscore.
pub fn underscored_path(s: &String) -> (r: String)
    ensures
        r@ == underscored(s@),
{
    let p = s.as_str();
    let n = p.unicode_len();
    let mut r = String::new();
    let mut i: usize = 0;
    while i < n
        invariant
            i <= n,
            n == p@.len(),
            p@ == s@,
            r@.len() == i,
            forall|j: int| 0 <= j < i ==> r@[j] == underscore_char(p@[j]),
        decreases n - i,
    {
        let c = p.get_char(i);
        if c == ' ' {
            push_char(&mut r, '_');
        } else {
            push_char(&mut r, c);
        }
        i = i + 1;
    }
    assert(r@ =~= underscored(s@));
    r
}

/// Whether `a` comes strictly before `b` in lexicographic order.
pub fn text_less(a: &String, b: &String) -> (r: bool)
    ensures
        r == lex_lt(a@, b@),
{
    let p = a.as_str();
    let q = b.as_str();
    let n = p.unicode_len();
    let m = q.unicode_len();
    let mut i: usize = 0;
    assert(a@.skip(0) =~= a@);
    assert(b@.skip(0) =~= b@);
    while i < n && i < m && p.get_char(i) == q.get_char(i)
        invariant
            i <= n,
            i <= m,
            n == p@.len(),
            m == q@.len(),
            p@ == a@,
            q@ == b@,
            lex_lt(a@, b@) == lex_lt(a@.skip(i as int), b@.skip(i as int)),
        decreases n - i,
    {
        proof {
            assert(a@.skip(i as int).drop_first() =~= a@.skip(i + 1));
            assert(b@.skip(i as int).drop_first() =~= b@.skip(i + 1));
        }
        i = i + 1;
    }
    if i == m {
        false
    } else if i == n {
        true
    } else {
        (p.get_char(i) as u32) < (q.get_char(i) as u32)
    }
}

} // verus!
