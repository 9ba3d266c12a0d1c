use vstd::prelude::*;

verus! {

/// Cumulative weights are thresholds on a 53-bit uniform draw: a weight `t`
/// stands for the probability `t / SCALE`, so `SCALE` stands for 1.
pub const SCALE: u64 = 9007199254740992;

/// An expression on the right-hand side of a rule.
#[derive(Debug)]
pub enum Elem {
    /// The neutral object: no size.
    One,
    /// An atom: one unit of size.
    Z,
    /// A reference to the symbol of that name.
    Ref(String),
}

impl Clone for Elem {
    fn clone(&self) -> (r: Elem)
        ensures
            r == *self,
    {
        match self {
            Elem::One => Elem::One,
            Elem::Z => Elem::Z,
            Elem::Ref(name) => Elem::Ref(name.clone()),
        }
    }
}

/// The right-hand side of a rule.
#[derive(Debug, Clone)]
pub enum RHS {
    /// A single expression.
    Elem(Elem),
    /// A disjoint union; each alternative carries its cumulative weight.
    Sum(Vec<(Elem, u64)>),
    /// A tuple of expressions, expanded in the order written.
    Prod(Vec<Elem>),
}

/// A rule: its right-hand side, and whether the symbol is an explicit node
/// of a built object.
#[derive(Debug, Clone)]
pub struct Rule {
    pub build: bool,
    pub rhs: RHS,
}

/// A grammar: each symbol's name with its rule. Where a name occurs twice,
/// the later entry is the one that counts.
pub type Spec = Vec<(String, Rule)>;

/// The rule bound to `name`: the last entry of that name.
pub open spec fn rule_of(g: Seq<(String, Rule)>, name: Seq<char>) -> Option<Rule>
    decreases g.len(),
{
    if g.len() == 0 {
        None
    } else if g.last().0@ == name {
        Some(g.last().1)
    } else {
        rule_of(g.drop_last(), name)
    }
}

/// An expression whose reference, if any, names a symbol of the grammar.
pub open spec fn elem_resolves(g: Seq<(String, Rule)>, e: Elem) -> bool {
    match e {
        Elem::Ref(name) => rule_of(g, name@) is Some,
        _ => true,
    }
}

/// Every alternative's reference names a symbol of the grammar.
pub open spec fn alts_resolve(g: Seq<(String, Rule)>, alts: Seq<(Elem, u64)>) -> bool {
    forall|i: int| 0 <= i < alts.len() ==> elem_resolves(g, #[trigger] alts[i].0)
}

/// Every factor's reference names a symbol of the grammar.
pub open spec fn elems_resolve(g: Seq<(String, Rule)>, elems: Seq<Elem>) -> bool {
    forall|i: int| 0 <= i < elems.len() ==> elem_resolves(g, #[trigger] elems[i])
}

/// Every reference of the right-hand side names a symbol of the grammar.
pub open spec fn rhs_resolves(g: Seq<(String, Rule)>, rhs: RHS) -> bool {
    match rhs {
        RHS::Elem(e) => elem_resolves(g, e),
        RHS::Sum(alts) => alts_resolve(g, alts@),
        RHS::Prod(elems) => elems_resolve(g, elems@),
    }
}

/// Every name that a rule of the grammar refers to is bound.
pub open spec fn spec_closed(g: Seq<(String, Rule)>) -> bool {
    forall|i: int| 0 <= i < g.len() ==> rhs_resolves(g, #[trigger] g[i].1.rhs)
}

/// Cumulative weights ready for a weighted choice: at least one alternative,
/// never decreasing, the last one `SCALE`.
pub open spec fn alts_weighted(alts: Seq<(Elem, u64)>) -> bool {
    &&& alts.len() > 0
    &&& alts.last().1 == SCALE
    &&& forall|i: int, j: int| 0 <= i <= j < alts.len() ==> alts[i].1 <= alts[j].1
}

/// A union's cumulative weights are ready for a weighted choice.
pub open spec fn rhs_weighted(rhs: RHS) -> bool {
    match rhs {
        RHS::Sum(alts) => alts_weighted(alts@),
        _ => true,
    }
}

/// A grammar ready for sampling: closed, and each union weighted.
pub open spec fn spec_weighted(g: Seq<(String, Rule)>) -> bool {
    &&& spec_closed(g)
    &&& forall|i: int| 0 <= i < g.len() ==> rhs_weighted(#[trigger] g[i].1.rhs)
}

/// Position of the entry that binds `name`: the last one of that name.
pub fn find_rule(g: &Spec, name: &String) -> (r: Option<usize>)
    ensures
        r is None <==> rule_of(g@, name@) is None,
        r matches Some(i) ==> i < g@.len() && rule_of(g@, name@) == Some(g@[i as int].1),
{
    let mut k: usize = g.len();
    assert(g@.take(k as int) =~= g@);
    while k > 0
        invariant
            k <= g@.len(),
            rule_of(g@, name@) == rule_of(g@.take(k as int), name@),
        decreases k,
    {
        let k1: usize = k - 1;
        assert(g@.take(k as int).drop_last() =~= g@.take(k1 as int));
        if g[k1].0 == *name {
            return Some(k1);
        }
        k = k1;
    }
    None
}

fn elem_bound(g: &Spec, e: &Elem) -> (r: bool)
    ensures
        r == elem_resolves(g@, *e),
{
    match e {
        Elem::Ref(name) => find_rule(g, name).is_some(),
        _ => true,
    }
}

fn rhs_bound(g: &Spec, rhs: &RHS) -> (r: bool)
    ensures
        r == rhs_resolves(g@, *rhs),
{
    match rhs {
        RHS::Elem(e) => elem_bound(g, e),
        RHS::Sum(alts) => {
            let mut k: usize = 0;
            while k < alts.len()
                invariant
                    *rhs == RHS::Sum(*alts),
                    k <= alts@.len(),
                    forall|i: int| 0 <= i < k ==> elem_resolves(g@, #[trigger] alts@[i].0),
                decreases alts@.len() - k,
            {
                if !elem_bound(g, &alts[k].0) {
                    assert(!elem_resolves(g@, alts@[k as int].0));
                    return false;
                }
                k = k + 1;
            }
            true
        },
        RHS::Prod(elems) => {
            let mut k: usize = 0;
            while k < elems.len()
                invariant
                    *rhs == RHS::Prod(*elems),
                    k <= elems@.len(),
                    forall|i: int| 0 <= i < k ==> elem_resolves(g@, #[trigger] elems@[i]),
                decreases elems@.len() - k,
            {
                if !elem_bound(g, &elems[k]) {
                    assert(!elem_resolves(g@, elems@[k as int]));
                    return false;
                }
                k = k + 1;
            }
            true
        },
    }
}

/// Whether the cumulative weights are ready for a weighted choice.
pub fn alts_are_weighted(alts: &Vec<(Elem, u64)>) -> (r: bool)
    ensures
        r == alts_weighted(alts@),
{
    let n: usize = alts.len();
    if n == 0 || alts[n - 1].1 != SCALE {
        return false;
    }
    let mut k: usize = 1;
    while k < n
        invariant
            n == alts@.len(),
            1 <= k <= n,
            forall|i: int, j: int| 0 <= i <= j < k ==> alts@[i].1 <= alts@[j].1,
        decreases n - k,
    {
        if alts[k - 1].1 > alts[k].1 {
            assert(!(alts@[k - 1].1 <= alts@[k as int].1));
            return false;
        }
        k = k + 1;
    }
    true
}

/// Whether the grammar is ready for sampling: every reference bound, every
/// union weighted.
pub fn is_weighted(g: &Spec) -> (r: bool)
    ensures
        r == spec_weighted(g@),
{
    let mut k: usize = 0;
    while k < g.len()
        invariant
            k <= g@.len(),
            forall|i: int| 0 <= i < k ==> rhs_resolves(g@, #[trigger] g@[i].1.rhs) && rhs_weighted(g@[i].1.rhs),
        decreases g@.len() - k,
    {
        if !rhs_bound(g, &g[k].1.rhs) {
            return false;
        }
        let ok: bool = match &g[k].1.rhs {
            RHS::Sum(alts) => alts_are_weighted(alts),
            _ => true,
        };
        if !ok {
            return false;
        }
        k = k + 1;
    }
    true
}

/// `e` is a reference to the symbol `name`.
pub open spec fn is_ref(e: Elem, name: Seq<char>) -> bool {
    e matches Elem::Ref(n) && n@ == name
}

/// The binary trees: `btree = tip | node`, `node = Z x btree x btree`,
/// `tip = 1`, with `tip` and `node` built as nodes. The union is not yet
/// weighted.
pub fn btree_spec() -> (g: Spec)
    ensures
        g@.len() == 3,
        g@[0].0@ == "btree"@,
        g@[1].0@ == "node"@,
        g@[2].0@ == "tip"@,
        !g@[0].1.build && g@[1].1.build && g@[2].1.build,
        g@[0].1.rhs matches RHS::Sum(alts) && alts@.len() == 2 && is_ref(alts@[0].0, "tip"@)
            && is_ref(alts@[1].0, "node"@) && alts@[0].1 == 0 && alts@[1].1 == 0,
        g@[1].1.rhs matches RHS::Prod(elems) && elems@.len() == 3 && elems@[0] == Elem::Z
            && is_ref(elems@[1], "btree"@) && is_ref(elems@[2], "btree"@),
        g@[2].1.rhs == RHS::Elem(Elem::One),
        spec_closed(g@),
{
    let v1: Vec<(Elem, u64)> = vec![(Elem::Ref("tip".to_owned()), 0), (Elem::Ref("node".to_owned()), 0)];
    let v2: Vec<Elem> = vec![Elem::Z, Elem::Ref("btree".to_owned()), Elem::Ref("btree".to_owned())];
    let mut g: Spec = Vec::new();
    g.push(("btree".to_owned(), Rule { build: false, rhs: RHS::Sum(v1) }));
    g.push(("node".to_owned(), Rule { build: true, rhs: RHS::Prod(v2) }));
    g.push(("tip".to_owned(), Rule { build: true, rhs: RHS::Elem(Elem::One) }));
    proof {
        reveal_strlit("btree");
        reveal_strlit("node");
        reveal_strlit("tip");
        let s = g@;
        reveal_with_fuel(rule_of, 4);
        assert("tip"@.len() == 3 && "node"@.len() == 4 && "btree"@.len() == 5);
        assert(s.drop_last().drop_last().drop_last() =~= Seq::<(String, Rule)>::empty());
        assert(s.drop_last().last() == s[1]);
        assert(s.drop_last().drop_last().last() == s[0]);
        assert(rule_of(s, "tip"@) == Some(s[2].1));
        assert(rule_of(s, "node"@) == Some(s[1].1));
        assert(rule_of(s, "btree"@) == Some(s[0].1));
    }
    g
}

} // verus!
