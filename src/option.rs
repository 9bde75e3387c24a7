//! The descriptor of an option argument (one that takes values after a
//! switch) and its one-line usage text.
use vstd::prelude::*;
use vec_map::VecMap;
use crate::aliases::{visible_of, visible_names};
use crate::settings::{ArgFlags, ArgSettings};
use crate::text::{push_char, texts};

verus! {

#[verifier::external_type_specification]
#[verifier::external_body]
#[verifier::reject_recursive_types(V)]
pub struct ExVecMap<V>(VecMap<V>);

/// The values of a map of value names, in ascending order of their keys.
pub uninterp spec fn labels_of(m: VecMap<String>) -> Seq<Seq<char>>;

/// Relies on VecMap::values: every value once, in ascending order of the keys.
#[verifier::external_body]
fn labels_in_order(m: &VecMap<String>) -> (r: Vec<String>)
    ensures
        texts(r@) == labels_of(*m),
{
    m.values().cloned().collect()
}

/// `x` between angle brackets.
pub open spec fn angled(x: Seq<char>) -> Seq<char> {
    seq!['<'] + x + seq!['>']
}

/// Each item between angle brackets, separated by single spaces.
pub open spec fn join_angled(s: Seq<Seq<char>>) -> Seq<char>
    decreases s.len(),
{
    if s.len() == 0 {
        seq![]
    } else if s.len() == 1 {
        angled(s[0])
    } else {
        join_angled(s.drop_last()) + seq![' '] + angled(s.last())
    }
}

pub open spec fn ellipsis() -> Seq<char> {
    seq!['.', '.', '.']
}

/// `n` copies of `x`.
pub open spec fn copies(x: Seq<char>, n: nat) -> Seq<Seq<char>> {
    Seq::new(n, |i: int| x)
}

/// Appends `<x>` to `out`.
fn push_angled(out: &mut String, x: &String)
    ensures
        final(out)@ == old(out)@ + angled(x@),
{
    push_char(out, '<');
    out.append(x.as_str());
    push_char(out, '>');
    assert(final(out)@ =~= old(out)@ + angled(x@));
}

/// Appends the items, each between angle brackets, separated by spaces.
fn push_angled_list(out: &mut String, items: &Vec<String>)
    ensures
        final(out)@ == old(out)@ + join_angled(texts(items@)),
{
    let ghost start = out@;
    let mut i: usize = 0;
    assert(texts(items@).subrange(0, 0) =~= seq![]);
    assert(out@ =~= start + join_angled(texts(items@).subrange(0, 0)));
    while i < items.len()
        invariant
            i <= items@.len(),
            out@ == start + join_angled(texts(items@).subrange(0, i as int)),
        decreases items@.len() - i,
    {
        let ghost sub = texts(items@).subrange(0, i + 1);
        assert(sub.drop_last() =~= texts(items@).subrange(0, i as int));
        if i > 0 {
            push_char(out, ' ');
        }
        push_angled(out, &items[i]);
        assert(out@ =~= start + join_angled(sub));
        i = i + 1;
    }
    assert(texts(items@).subrange(0, items@.len() as int) =~= texts(items@));
}

/// Appends `n` copies of `<x>`, separated by spaces.
fn push_angled_copies(out: &mut String, x: &String, n: u64)
    ensures
        final(out)@ == old(out)@ + join_angled(copies(x@, n as nat)),
{
    let ghost start = out@;
    let mut i: u64 = 0;
    assert(copies(x@, 0) =~= seq![]);
    while i < n
        invariant
            i <= n,
            out@ == start + join_angled(copies(x@, i as nat)),
        decreases n - i,
    {
        assert(copies(x@, (i + 1) as nat).drop_last() =~= copies(x@, i as nat));
        if i > 0 {
            push_char(out, ' ');
        }
        push_angled(out, x);
        assert(out@ =~= start + join_angled(copies(x@, (i + 1) as nat)));
        i = i + 1;
    }
}

/// Relies on VecMap's Clone: the copy holds the same values under the same keys.
#[verifier::external_body]
fn copy_labels(m: &VecMap<String>) -> (r: VecMap<String>)
    ensures
        labels_of(r) == labels_of(*m),
{
    m.clone()
}

/// The contents of an optional list.
pub open spec fn seq_of<T>(o: Option<Vec<T>>) -> Option<Seq<T>> {
    match o {
        Some(v) => Some(v@),
        None => None,
    }
}

/// The value names of an optional map, in ascending order of their keys.
pub open spec fn labels_opt(o: Option<VecMap<String>>) -> Option<Seq<Seq<char>>> {
    match o {
        Some(m) => Some(labels_of(m)),
        None => None,
    }
}

fn copy_list<T: Clone>(o: &Option<Vec<T>>) -> (r: Option<Vec<T>>)
    ensures
        r is Some <==> o is Some,
        o is Some ==> r->0@.len() == o->0@.len(),
        o is Some ==> forall|i: int| 0 <= i < o->0@.len() ==> cloned(o->0@[i], #[trigger] r->0@[i]),
{
    match o {
        Some(v) => Some(v.clone()),
        None => None,
    }
}

fn copy_names(o: &Option<Vec<String>>) -> (r: Option<Vec<String>>)
    ensures
        seq_of(r) == seq_of(*o),
{
    let r = copy_list(o);
    if o.is_some() {
        assert(r->0@ =~= o->0@);
    }
    r
}

fn copy_aliases(o: &Option<Vec<(String, bool)>>) -> (r: Option<Vec<(String, bool)>>)
    ensures
        seq_of(r) == seq_of(*o),
{
    match o {
        None => None,
        Some(v) => {
            let mut out: Vec<(String, bool)> = Vec::new();
            let mut i: usize = 0;
            while i < v.len()
                invariant
                    i <= v@.len(),
                    out@ == v@.subrange(0, i as int),
                decreases v@.len() - i,
            {
                out.push((v[i].0.clone(), v[i].1));
                assert(out@ =~= v@.subrange(0, i + 1));
                i = i + 1;
            }
            assert(v@.subrange(0, v@.len() as int) =~= v@);
            Some(out)
        },
    }
}

fn copy_text(o: &Option<String>) -> (r: Option<String>)
    ensures
        r == *o,
{
    match o {
        Some(s) => Some(s.clone()),
        None => None,
    }
}

/// What kind of argument a descriptor describes.
#[derive(Clone, Copy, Debug, PartialEq, Eq)]
pub enum ArgKind {
    Flag,
    Opt,
    Pos,
}

/// An argument definition as the builder layer hands it over.
pub struct Arg {
    pub name: String,
    pub help: Option<String>,
    pub settings: ArgFlags,
    pub requires: Option<Vec<String>>,
    pub overrides: Option<Vec<String>>,
    pub blacklist: Option<Vec<String>>,
    pub r_unless: Option<Vec<String>>,
    pub short: Option<char>,
    pub long: Option<String>,
    pub aliases: Option<Vec<(String, bool)>>,
    pub disp_ord: usize,
    pub val_names: Option<VecMap<String>>,
    pub num_vals: Option<u64>,
    pub max_vals: Option<u64>,
    pub min_vals: Option<u64>,
    pub possible_vals: Option<Vec<String>>,
    pub val_delim: Option<char>,
    pub default_val: Option<String>,
}

/// The descriptor of an option: an argument selected by a switch and
/// followed by one or more values.
pub struct OptBuilder {
    pub name: String,
    pub help: Option<String>,
    pub settings: ArgFlags,
    pub requires: Option<Vec<String>>,
    pub overrides: Option<Vec<String>>,
    pub blacklist: Option<Vec<String>>,
    pub r_unless: Option<Vec<String>>,
    pub short: Option<char>,
    pub long: Option<String>,
    pub aliases: Option<Vec<(String, bool)>>,
    pub disp_ord: usize,
    pub val_names: Option<VecMap<String>>,
    pub num_vals: Option<u64>,
    pub max_vals: Option<u64>,
    pub min_vals: Option<u64>,
    pub possible_vals: Option<Vec<String>>,
    pub val_delim: Option<char>,
    pub default_val: Option<String>,
}

/// The descriptor states what the argument definition states.
pub open spec fn copied_from(o: OptBuilder, a: Arg) -> bool {
    &&& o.name == a.name
    &&& o.help == a.help
    &&& o.settings@ == a.settings@
    &&& seq_of(o.requires) == seq_of(a.requires)
    &&& seq_of(o.overrides) == seq_of(a.overrides)
    &&& seq_of(o.blacklist) == seq_of(a.blacklist)
    &&& seq_of(o.r_unless) == seq_of(a.r_unless)
    &&& o.short == a.short
    &&& o.long == a.long
    &&& seq_of(o.aliases) == seq_of(a.aliases)
    &&& o.disp_ord == a.disp_ord
    &&& labels_opt(o.val_names) == labels_opt(a.val_names)
    &&& o.num_vals == a.num_vals
    &&& o.max_vals == a.max_vals
    &&& o.min_vals == a.min_vals
    &&& seq_of(o.possible_vals) == seq_of(a.possible_vals)
    &&& o.val_delim == a.val_delim
    &&& o.default_val == a.default_val
}

impl OptBuilder {
    /// The switch: `--long ` when a long form is set, else `-s `.
    pub open spec fn switch_text(self) -> Seq<char> {
        match self.long {
            Some(l) => seq!['-', '-'] + l@ + seq![' '],
            None => seq!['-', self.short.unwrap(), ' '],
        }
    }

    /// The value names, in ascending order of their keys; empty when unset.
    pub open spec fn label_seq(self) -> Seq<Seq<char>> {
        match self.val_names {
            Some(m) => labels_of(m),
            None => seq![],
        }
    }

    pub open spec fn multiple(self) -> bool {
        self.settings@.contains(ArgSettings::Multiple)
    }

    /// The value part for the value names `labels`: the names, else
    /// `num_vals` copies of the option's name, else its name once; an ellipsis
    /// marks a single repeatable slot.
    pub open spec fn values_text(self, labels: Seq<Seq<char>>) -> Seq<char> {
        if labels.len() > 0 {
            join_angled(labels) + if self.multiple() && labels.len() == 1 {
                ellipsis()
            } else {
                seq![]
            }
        } else if self.num_vals is Some {
            join_angled(copies(self.name@, self.num_vals->0 as nat))
        } else {
            angled(self.name@) + if self.multiple() {
                ellipsis()
            } else {
                seq![]
            }
        }
    }

    /// The usage text for the value names `labels`.
    pub open spec fn usage_with(self, labels: Seq<Seq<char>>) -> Seq<char> {
        self.switch_text() + self.values_text(labels)
    }

    /// The one-line usage text of the option.
    pub open spec fn usage(self) -> Seq<char> {
        self.usage_with(self.label_seq())
    }

    /// A descriptor that holds a name and nothing else.
    pub fn new(name: &str) -> (r: OptBuilder)
        ensures
            r.name@ == name@,
            r.help is None,
            r.settings@ == Set::<ArgSettings>::empty(),
            r.requires is None,
            r.overrides is None,
            r.blacklist is None,
            r.r_unless is None,
            r.short is None,
            r.long is None,
            r.aliases is None,
            r.disp_ord == 0,
            r.val_names is None,
            r.num_vals is None,
            r.max_vals is None,
            r.min_vals is None,
            r.possible_vals is None,
            r.val_delim is None,
            r.default_val is None,
    {
        OptBuilder {
            name: String::from_str(name),
            help: None,
            settings: ArgFlags::new(),
            requires: None,
            overrides: None,
            blacklist: None,
            r_unless: None,
            short: None,
            long: None,
            aliases: None,
            disp_ord: 0,
            val_names: None,
            num_vals: None,
            max_vals: None,
            min_vals: None,
            possible_vals: None,
            val_delim: None,
            default_val: None,
        }
    }

    /// A descriptor copied from an argument definition. When the argument is
    /// required, its own requirements are appended to `reqs`.
    pub fn from_arg(a: &Arg, reqs: &mut Vec<String>) -> (r: OptBuilder)
        ensures
            copied_from(r, *a),
            (a.settings@.contains(ArgSettings::Required) && a.requires is Some)
                ==> final(reqs)@ == old(reqs)@ + a.requires->0@,
            !(a.settings@.contains(ArgSettings::Required) && a.requires is Some)
                ==> final(reqs)@ == old(reqs)@,
    {
        let val_names = match &a.val_names {
            Some(m) => Some(copy_labels(m)),
            None => None,
        };
        let ob = OptBuilder {
            name: a.name.clone(),
            help: copy_text(&a.help),
            settings: a.settings,
            requires: copy_names(&a.requires),
            overrides: copy_names(&a.overrides),
            blacklist: copy_names(&a.blacklist),
            r_unless: copy_names(&a.r_unless),
            short: a.short,
            long: copy_text(&a.long),
            aliases: copy_aliases(&a.aliases),
            disp_ord: a.disp_ord,
            val_names,
            num_vals: a.num_vals,
            max_vals: a.max_vals,
            min_vals: a.min_vals,
            possible_vals: copy_names(&a.possible_vals),
            val_delim: a.val_delim,
            default_val: copy_text(&a.default_val),
        };
        if a.settings.is_set(ArgSettings::Required) {
            if let Some(areqs) = &a.requires {
                let mut more = areqs.clone();
                assert(more@ =~= areqs@);
                reqs.append(&mut more);
            }
        }
        ob
    }

    /// The usage text: the switch, then the values.
    pub fn render(&self) -> (r: String)
        requires
            self.long is Some || self.short is Some,
        ensures
            r@ == self.usage(),
    {
        let labels: Vec<String> = match &self.val_names {
            Some(m) => labels_in_order(m),
            None => Vec::new(),
        };
        assert(texts(labels@) =~= self.label_seq());
        self.render_with_labels(&labels)
    }

    /// The usage text when the value names, in order, are `labels`.
    pub fn render_with_labels(&self, labels: &Vec<String>) -> (r: String)
        requires
            self.long is Some || self.short is Some,
        ensures
            r@ == self.usage_with(texts(labels@)),
    {
        let mut out = String::new();
        match &self.long {
            Some(l) => {
                push_char(&mut out, '-');
                push_char(&mut out, '-');
                out.append(l.as_str());
                push_char(&mut out, ' ');
            },
            None => {
                push_char(&mut out, '-');
                push_char(&mut out, self.short.unwrap());
                push_char(&mut out, ' ');
            },
        }
        assert(out@ =~= self.switch_text());
        let multiple = self.settings.is_set(ArgSettings::Multiple);
        if labels.len() > 0 {
            push_angled_list(&mut out, labels);
            if multiple && labels.len() == 1 {
                push_char(&mut out, '.');
                push_char(&mut out, '.');
                push_char(&mut out, '.');
            }
        } else if let Some(n) = self.num_vals {
            push_angled_copies(&mut out, &self.name, n);
        } else {
            push_angled(&mut out, &self.name);
            if multiple {
                push_char(&mut out, '.');
                push_char(&mut out, '.');
                push_char(&mut out, '.');
            }
        }
        assert(out@ =~= self.usage_with(texts(labels@)));
        out
    }

    pub fn name(&self) -> (r: &String)
        ensures
            r == self.name,
    {
        &self.name
    }

    pub fn kind(&self) -> (r: ArgKind)
        ensures
            r == ArgKind::Opt,
    {
        ArgKind::Opt
    }

    pub fn overrides(&self) -> (r: Option<&Vec<String>>)
        ensures
            r is Some <==> self.overrides is Some,
            r is Some ==> *r->0 == self.overrides->0,
    {
        self.overrides.as_ref()
    }

    pub fn requirements(&self) -> (r: Option<&Vec<String>>)
        ensures
            r is Some <==> self.requires is Some,
            r is Some ==> *r->0 == self.requires->0,
    {
        self.requires.as_ref()
    }

    pub fn blacklist(&self) -> (r: Option<&Vec<String>>)
        ensures
            r is Some <==> self.blacklist is Some,
            r is Some ==> *r->0 == self.blacklist->0,
    {
        self.blacklist.as_ref()
    }

    pub fn required_unless(&self) -> (r: Option<&Vec<String>>)
        ensures
            r is Some <==> self.r_unless is Some,
            r is Some ==> *r->0 == self.r_unless->0,
    {
        self.r_unless.as_ref()
    }

    pub fn val_names(&self) -> (r: Option<&VecMap<String>>)
        ensures
            r is Some <==> self.val_names is Some,
            r is Some ==> *r->0 == self.val_names->0,
    {
        self.val_names.as_ref()
    }

    pub fn is_set(&self, s: ArgSettings) -> (r: bool)
        ensures
            r == self.settings@.contains(s),
    {
        self.settings.is_set(s)
    }

    pub fn has_switch(&self) -> (r: bool)
        ensures
            r,
    {
        true
    }

    pub fn set(&mut self, s: ArgSettings)
        ensures
            final(self).settings@ == old(self).settings@.insert(s),
            (OptBuilder { settings: old(self).settings, ..*final(self) }) == *old(self),
    {
        self.settings.set(s)
    }

    pub fn max_vals(&self) -> (r: Option<u64>)
        ensures
            r == self.max_vals,
    {
        self.max_vals
    }

    pub fn num_vals(&self) -> (r: Option<u64>)
        ensures
            r == self.num_vals,
    {
        self.num_vals
    }

    pub fn possible_vals(&self) -> (r: Option<&Vec<String>>)
        ensures
            r is Some <==> self.possible_vals is Some,
            r is Some ==> *r->0 == self.possible_vals->0,
    {
        self.possible_vals.as_ref()
    }

    pub fn min_vals(&self) -> (r: Option<u64>)
        ensures
            r == self.min_vals,
    {
        self.min_vals
    }

    pub fn short(&self) -> (r: Option<char>)
        ensures
            r == self.short,
    {
        self.short
    }

    pub fn long(&self) -> (r: Option<&String>)
        ensures
            r is Some <==> self.long is Some,
            r is Some ==> *r->0 == self.long->0,
    {
        self.long.as_ref()
    }

    pub fn val_delim(&self) -> (r: Option<char>)
        ensures
            r == self.val_delim,
    {
        self.val_delim
    }

    pub fn takes_value(&self) -> (r: bool)
        ensures
            r,
    {
        true
    }

    pub fn help(&self) -> (r: Option<&String>)
        ensures
            r is Some <==> self.help is Some,
            r is Some ==> *r->0 == self.help->0,
    {
        self.help.as_ref()
    }

    pub fn default_val(&self) -> (r: Option<&String>)
        ensures
            r is Some <==> self.default_val is Some,
            r is Some ==> *r->0 == self.default_val->0,
    {
        self.default_val.as_ref()
    }

    pub fn longest_filter(&self) -> (r: bool)
        ensures
            r,
    {
        true
    }

    pub fn disp_ord(&self) -> (r: usize)
        ensures
            r == self.disp_ord,
    {
        self.disp_ord
    }

    /// The names of the visible aliases, in order; none when there is no
    /// visible alias.
    pub fn aliases(&self) -> (r: Option<Vec<String>>)
        ensures
            r is None <==> visible_of(self.aliases).len() == 0,
            r is Some ==> texts(r->0@) == visible_of(self.aliases),
    {
        let vis = visible_names(&self.aliases);
        if vis.len() == 0 {
            None
        } else {
            Some(vis)
        }
    }
}

/// The usage text of an option does not depend on its aliases.
pub proof fn usage_ignores_aliases(o: OptBuilder, al: Option<Vec<(String, bool)>>)
    ensures
        (OptBuilder { aliases: al, ..o }).usage() == o.usage(),
{
}

/// With two or more value names, whether the option accepts repeated values
/// leaves its usage text unchanged.
pub proof fn named_slots_ignore_multiple(o: OptBuilder, f: ArgFlags)
    requires
        o.label_seq().len() >= 2,
        f@.remove(ArgSettings::Multiple) == o.settings@.remove(ArgSettings::Multiple),
    ensures
        (OptBuilder { settings: f, ..o }).usage() == o.usage(),
{
}

} // verus!
