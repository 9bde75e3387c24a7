//! Discovery of a command's subcommand hierarchy, aliases included, for the
//! generation of shell completion scripts.
use vstd::prelude::*;
use crate::aliases::{visible_of, visible_names};
use crate::text::{
    lex_lt, replace_last, strictly_sorted, texts, underscored, underscored_path, with_last_segment,
    text_less, lemma_lex_irreflexive, lemma_lex_total, lemma_lex_transitive,
};

verus! {

broadcast use vstd::std_specs::vec::group_vec_axioms;

/// One node of a command tree: a command and its subcommands.
///
/// `bin_name` is the space-joined invocation path from the root command; the
/// path of a child is its parent's path, a space, and the child's name.
pub struct CommandNode {
    pub name: String,
    pub bin_name: String,
    pub aliases: Option<Vec<(String, bool)>>,
    pub subcommands: Vec<CommandNode>,
}

/// A `(name, path)` entry as plain text.
pub open spec fn entry_texts(v: Seq<(String, String)>) -> Seq<(Seq<char>, Seq<char>)> {
    v.map_values(|e: (String, String)| (e.0@, e.1@))
}

/// The names of a sequence of entries.
pub open spec fn names_of(e: Seq<(Seq<char>, Seq<char>)>) -> Seq<Seq<char>> {
    e.map_values(|x: (Seq<char>, Seq<char>)| x.0)
}

/// One entry per alias, its path being `path` with the last segment replaced.
pub open spec fn alias_entries(path: Seq<char>, al: Seq<Seq<char>>) -> Seq<(Seq<char>, Seq<char>)> {
    al.map_values(|a: Seq<char>| (a, replace_last(path, a)))
}

/// A command's own entry followed by one entry per visible alias.
pub open spec fn own_entries(c: CommandNode) -> Seq<(Seq<char>, Seq<char>)> {
    seq![(c.name@, c.bin_name@)] + alias_entries(c.bin_name@, visible_of(c.aliases))
}

/// The own entries of each command of `cs`, in order.
pub open spec fn child_entries(cs: Seq<CommandNode>) -> Seq<(Seq<char>, Seq<char>)>
    decreases cs.len(),
{
    if cs.len() == 0 {
        seq![]
    } else {
        child_entries(cs.drop_last()) + own_entries(cs.last())
    }
}

/// The entries of a command's immediate level: its own when it is a leaf,
/// else those of its children.
pub open spec fn immediate_entries(n: CommandNode) -> Seq<(Seq<char>, Seq<char>)> {
    if n.subcommands@.len() == 0 {
        own_entries(n)
    } else {
        child_entries(n.subcommands@)
    }
}

/// The immediate entries of `n` followed, depth first, by those of every
/// command below it.
pub open spec fn all_entries(n: CommandNode) -> Seq<(Seq<char>, Seq<char>)>
    decreases n, n.subcommands@.len() + 1,
{
    immediate_entries(n) + all_below(n, n.subcommands@.len() as int)
}

/// The entries of the first `k` children of `n` and of everything below them.
pub open spec fn all_below(n: CommandNode, k: int) -> Seq<(Seq<char>, Seq<char>)>
    decreases n, k,
{
    if k <= 0 || k > n.subcommands@.len() {
        seq![]
    } else {
        all_below(n, k - 1) + all_entries(n.subcommands[k - 1])
    }
}

fn push_own_entries(c: &CommandNode, out: &mut Vec<(String, String)>)
    ensures
        entry_texts(final(out)@) == entry_texts(old(out)@) + own_entries(*c),
{
    let ghost start = entry_texts(out@);
    out.push((c.name.clone(), c.bin_name.clone()));
    let al = visible_names(&c.aliases);
    let mut j: usize = 0;
    assert(entry_texts(out@) =~= start + seq![(c.name@, c.bin_name@)] + alias_entries(
        c.bin_name@,
        texts(al@).subrange(0, 0),
    ));
    while j < al.len()
        invariant
            j <= al.len(),
            texts(al@) == visible_of(c.aliases),
            entry_texts(out@) == start + seq![(c.name@, c.bin_name@)] + alias_entries(
                c.bin_name@,
                texts(al@).subrange(0, j as int),
            ),
        decreases al.len() - j,
    {
        let ghost prev = entry_texts(out@);
        let path = with_last_segment(&c.bin_name, &al[j]);
        out.push((al[j].clone(), path));
        assert(entry_texts(out@) =~= prev.push((al@[j as int]@, replace_last(c.bin_name@, al@[j as int]@))));
        assert(texts(al@).subrange(0, j + 1) =~= texts(al@).subrange(0, j as int).push(al@[j as int]@));
        assert(alias_entries(c.bin_name@, texts(al@).subrange(0, j + 1)) =~= alias_entries(
            c.bin_name@,
            texts(al@).subrange(0, j as int),
        ).push((al@[j as int]@, replace_last(c.bin_name@, al@[j as int]@))));
        j = j + 1;
    }
    assert(texts(al@).subrange(0, al@.len() as int) =~= texts(al@));
}

/// The `(name, path)` entries of the immediate level of `p`: `p` itself and its
/// visible aliases when it has no subcommands, else each subcommand followed by
/// its visible aliases. An alias's path is the command's path with the last
/// segment replaced by the alias.
pub fn subcommands_of(p: &CommandNode) -> (r: Vec<(String, String)>)
    ensures
        entry_texts(r@) == immediate_entries(*p),
{
    let mut out: Vec<(String, String)> = Vec::new();
    if p.subcommands.len() == 0 {
        push_own_entries(p, &mut out);
        assert(entry_texts(out@) =~= own_entries(*p));
        return out;
    }
    let mut i: usize = 0;
    assert(entry_texts(out@) =~= child_entries(p.subcommands@.subrange(0, 0)));
    while i < p.subcommands.len()
        invariant
            i <= p.subcommands@.len(),
            entry_texts(out@) == child_entries(p.subcommands@.subrange(0, i as int)),
        decreases p.subcommands@.len() - i,
    {
        push_own_entries(&p.subcommands[i], &mut out);
        assert(p.subcommands@.subrange(0, i + 1).drop_last() =~= p.subcommands@.subrange(0, i as int));
        i = i + 1;
    }
    assert(p.subcommands@.subrange(0, p.subcommands@.len() as int) =~= p.subcommands@);
    out
}

/// Every `(name, path)` entry of the tree below `p`: the immediate entries of
/// `p` followed, depth first, by those of each subcommand. Duplicates stay.
pub fn all_subcommands(p: &CommandNode) -> (r: Vec<(String, String)>)
    ensures
        entry_texts(r@) == all_entries(*p),
    decreases p,
{
    let mut out = subcommands_of(p);
    let mut i: usize = 0;
    assert(entry_texts(out@) =~= immediate_entries(*p) + all_below(*p, 0));
    while i < p.subcommands.len()
        invariant
            i <= p.subcommands@.len(),
            entry_texts(out@) == immediate_entries(*p) + all_below(*p, i as int),
        decreases p.subcommands@.len() - i,
    {
        let ghost prev = out@;
        let mut below = all_subcommands(&p.subcommands[i]);
        let ghost more = below@;
        out.append(&mut below);
        assert(entry_texts(out@) =~= entry_texts(prev) + entry_texts(more));
        i = i + 1;
    }
    out
}

/// A leaf's script-safe path followed by that of each visible alias.
pub open spec fn leaf_run(c: CommandNode) -> Seq<Seq<char>> {
    seq![underscored(c.bin_name@)] + visible_of(c.aliases).map_values(
        |a: Seq<char>| underscored(replace_last(c.bin_name@, a)),
    )
}

/// The script-safe paths of the leaves below `n` and of their visible aliases;
/// a childless root contributes nothing.
pub open spec fn leaf_paths(n: CommandNode, is_root: bool) -> Seq<Seq<char>>
    decreases n, n.subcommands@.len() + 1,
{
    if n.subcommands@.len() == 0 {
        if is_root {
            seq![]
        } else {
            leaf_run(n)
        }
    } else {
        leaf_paths_below(n, n.subcommands@.len() as int)
    }
}

/// The leaf paths below the first `k` children of `n`.
pub open spec fn leaf_paths_below(n: CommandNode, k: int) -> Seq<Seq<char>>
    decreases n, k,
{
    if k <= 0 || k > n.subcommands@.len() {
        seq![]
    } else {
        leaf_paths_below(n, k - 1) + leaf_paths(n.subcommands[k - 1], false)
    }
}

/// The path of every leaf below `p`, spaces turned to underscores, each
/// followed by the path of each of its visible aliases. With `first` set, a
/// childless `p` is a root and yields nothing.
pub fn get_all_subcommand_paths(p: &CommandNode, first: bool) -> (r: Vec<String>)
    ensures
        texts(r@) == leaf_paths(*p, first),
    decreases p,
{
    let mut out: Vec<String> = Vec::new();
    if p.subcommands.len() == 0 {
        if first {
            assert(texts(out@) =~= seq![]);
            return out;
        }
        let path = underscored_path(&p.bin_name);
        out.push(path);
        let al = visible_names(&p.aliases);
        let mut j: usize = 0;
        while j < al.len()
            invariant
                j <= al.len(),
                texts(al@) == visible_of(p.aliases),
                texts(out@) == seq![underscored(p.bin_name@)] + texts(al@).subrange(0, j as int).map_values(
                    |a: Seq<char>| underscored(replace_last(p.bin_name@, a)),
                ),
            decreases al.len() - j,
        {
            let ghost prev = texts(out@);
            let als = with_last_segment(&p.bin_name, &al[j]);
            let ap = underscored_path(&als);
            out.push(ap);
            assert(texts(out@) =~= prev.push(underscored(replace_last(p.bin_name@, al@[j as int]@))));
            assert(texts(al@).subrange(0, j + 1) =~= texts(al@).subrange(0, j as int).push(al@[j as int]@));
            j = j + 1;
        }
        assert(texts(al@).subrange(0, al@.len() as int) =~= texts(al@));
        return out;
    }
    let mut i: usize = 0;
    assert(texts(out@) =~= leaf_paths_below(*p, 0));
    while i < p.subcommands.len()
        invariant
            i <= p.subcommands@.len(),
            texts(out@) == leaf_paths_below(*p, i as int),
        decreases p.subcommands@.len() - i,
    {
        let ghost prev = out@;
        let mut below = get_all_subcommand_paths(&p.subcommands[i], false);
        let ghost more = below@;
        out.append(&mut below);
        assert(texts(out@) =~= texts(prev) + texts(more));
        i = i + 1;
    }
    out
}

/// Adds `s` to a strictly sorted list unless it is there already.
fn insert_sorted(v: &mut Vec<String>, s: String)
    requires
        strictly_sorted(texts(old(v)@)),
    ensures
        strictly_sorted(texts(final(v)@)),
        forall|x: Seq<char>| #[trigger] texts(final(v)@).contains(x) <==> (texts(old(v)@).contains(x) || x == s@),
{
    let ghost old_t = texts(v@);
    let mut i: usize = 0;
    while i < v.len() && text_less(&v[i], &s)
        invariant
            i <= v@.len(),
            v@ == old(v)@,
            forall|j: int| 0 <= j < i ==> lex_lt(#[trigger] texts(v@)[j], s@),
        decreases v@.len() - i,
    {
        i = i + 1;
    }
    if i < v.len() && v[i] == s {
        assert(texts(v@)[i as int] == s@);
        return;
    }
    proof {
        if i < v@.len() {
            lemma_lex_total(texts(v@)[i as int], s@);
        }
    }
    v.insert(i, s);
    let ghost t = texts(v@);
    assert(t =~= old_t.insert(i as int, s@));
    assert(i < old_t.len() ==> lex_lt(s@, old_t[i as int]));
    assert forall|b: int| i < b < t.len() implies lex_lt(s@, #[trigger] t[b]) by {
        if b > i + 1 {
            lemma_lex_transitive(s@, old_t[i as int], old_t[b - 1]);
        }
    }
    assert forall|a: int, b: int| 0 <= a < b < t.len() implies lex_lt(#[trigger] t[a], #[trigger] t[b]) by {
        if b <= i {
        } else if a < i {
            lemma_lex_transitive(t[a], s@, t[b]);
        } else if a == i {
        } else {
            assert(lex_lt(old_t[a - 1], old_t[b - 1]));
        }
    }
    assert forall|x: Seq<char>| #[trigger] t.contains(x) <==> (old_t.contains(x) || x == s@) by {
        if t.contains(x) {
            let k = choose|k: int| 0 <= k < t.len() && t[k] == x;
            if k < i {
                assert(old_t[k] == x);
            } else if k > i {
                assert(old_t[k - 1] == x);
            }
        }
        if old_t.contains(x) {
            let k = choose|k: int| 0 <= k < old_t.len() && old_t[k] == x;
            if k < i {
                assert(t[k] == x);
            } else {
                assert(t[k + 1] == x);
            }
        }
        if x == s@ {
            assert(t[i as int] == x);
        }
    }
}

/// Every name of the tree below `p`, subcommands and aliases alike, once
/// each and in ascending order.
pub fn all_subcommand_names(p: &CommandNode) -> (r: Vec<String>)
    ensures
        strictly_sorted(texts(r@)),
        texts(r@).no_duplicates(),
        texts(r@).to_set() == names_of(all_entries(*p)).to_set(),
{
    let entries = all_subcommands(p);
    let ghost names = names_of(entry_texts(entries@));
    let mut out: Vec<String> = Vec::new();
    let mut i: usize = 0;
    while i < entries.len()
        invariant
            i <= entries@.len(),
            names == names_of(entry_texts(entries@)),
            strictly_sorted(texts(out@)),
            forall|x: Seq<char>| #[trigger] texts(out@).contains(x) <==> names.subrange(0, i as int).contains(x),
        decreases entries@.len() - i,
    {
        let n = entries[i].0.clone();
        insert_sorted(&mut out, n);
        let ghost pre = names.subrange(0, i as int);
        let ghost post = names.subrange(0, i + 1);
        assert forall|x: Seq<char>| #[trigger] post.contains(x) <==> (pre.contains(x) || x == names[i as int]) by {
            if post.contains(x) {
                let k = choose|k: int| 0 <= k < post.len() && post[k] == x;
                if k < i {
                    assert(pre[k] == x);
                }
            }
            if pre.contains(x) {
                let k = choose|k: int| 0 <= k < pre.len() && pre[k] == x;
                assert(post[k] == x);
            }
            if x == names[i as int] {
                assert(post[i as int] == x);
            }
        }
        i = i + 1;
    }
    assert(names.subrange(0, names.len() as int) =~= names);
    assert(texts(out@).to_set() =~= names.to_set());
    proof {
        sorted_names_are_distinct(texts(out@));
    }
    out
}

/// A strictly sorted list of names holds each name once.
pub proof fn sorted_names_are_distinct(q: Seq<Seq<char>>)
    requires
        strictly_sorted(q),
    ensures
        q.no_duplicates(),
{
    assert forall|i: int, j: int| 0 <= i < q.len() && 0 <= j < q.len() && i != j implies q[i] != q[j] by {
        lemma_lex_irreflexive(q[i]);
        if i < j {
            assert(lex_lt(q[i], q[j]));
        } else {
            assert(lex_lt(q[j], q[i]));
        }
    }
}

/// A childless command yields no path when it is the root, and its own path
/// followed by those of its visible aliases otherwise.
pub proof fn childless_leaf_paths(n: CommandNode)
    requires
        n.subcommands@.len() == 0,
    ensures
        leaf_paths(n, true) == Seq::<Seq<char>>::empty(),
        leaf_paths(n, false) == leaf_run(n),
        leaf_paths(n, false).len() == 1 + visible_of(n.aliases).len(),
{
}

} // verus!
