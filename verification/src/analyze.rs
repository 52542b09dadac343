//! Grouping of import statements by kind, ordering of the groups, and the
//! sorted, rendered form of the whole import block.
use vstd::prelude::*;

use crate::import_kind::ImportKind;
use crate::model::{stmt_views, ImportStatement, ImportStatementV};
use crate::sorting::{
    lemma_sort_seq_multiset, lemma_sort_seq_of_sorted, lemma_sort_seq_sorted, lemma_sort_seq_views,
    leq_total, leq_transitive, sort_seq_by, sort_vec, sorted_by_leq, SortKey,
};
use crate::text::{
    join, lemma_join_push, lemma_lex_le_antisymmetric, lemma_lex_le_total, lemma_lex_le_transitive,
    lex_le,
};
use crate::transform::{render_statement, Remake};

verus! {

/// View of a group: a kind and the statements classified into it.
pub struct ImportGroupV {
    pub kind: ImportKind,
    pub items: Seq<ImportStatementV>,
}

/// A kind together with the import statements that fall into it.
pub struct ImportGroup {
    pub kind: ImportKind,
    pub items: Vec<ImportStatement>,
}

impl View for ImportGroup {
    type V = ImportGroupV;

    open spec fn view(&self) -> ImportGroupV {
        ImportGroupV {
            kind: self.kind,
            items: self.items@.map_values(|s: ImportStatement| s@),
        }
    }
}

/// Order of statements inside a group: by their literal source text.
pub open spec fn stmt_leq(a: ImportStatementV, b: ImportStatementV) -> bool {
    lex_le(a.source, b.source)
}

/// Order of groups: by the fixed rank of their kind.
pub open spec fn group_leq(a: ImportGroupV, b: ImportGroupV) -> bool {
    a.kind.rank() <= b.kind.rank()
}

/// The statement order, as a relation value.
pub open spec fn stmt_leq_fn() -> spec_fn(ImportStatementV, ImportStatementV) -> bool {
    |a: ImportStatementV, b: ImportStatementV| stmt_leq(a, b)
}

/// The group order, as a relation value.
pub open spec fn group_leq_fn() -> spec_fn(ImportGroupV, ImportGroupV) -> bool {
    |a: ImportGroupV, b: ImportGroupV| group_leq(a, b)
}

/// The statement order is total and transitive.
pub proof fn lemma_stmt_leq_laws()
    ensures
        leq_total(stmt_leq_fn()),
        leq_transitive(stmt_leq_fn()),
{
    assert forall|a: ImportStatementV, b: ImportStatementV| #[trigger] stmt_leq_fn()(a, b)
        || #[trigger] stmt_leq_fn()(b, a) by {
        lemma_lex_le_total(a.source, b.source);
    }
    assert forall|a: ImportStatementV, b: ImportStatementV, c: ImportStatementV|
        #[trigger] stmt_leq_fn()(a, b) && #[trigger] stmt_leq_fn()(b, c) implies stmt_leq_fn()(
        a,
        c,
    ) by {
        lemma_lex_le_transitive(a.source, b.source, c.source);
    }
}

/// The group order is total and transitive.
pub proof fn lemma_group_leq_laws()
    ensures
        leq_total(group_leq_fn()),
        leq_transitive(group_leq_fn()),
{
    assert forall|a: ImportGroupV, b: ImportGroupV| #[trigger] group_leq_fn()(a, b)
        || #[trigger] group_leq_fn()(b, a) by {
        assert(group_leq(a, b) || group_leq(b, a));
    }
    assert forall|a: ImportGroupV, b: ImportGroupV, c: ImportGroupV|
        #[trigger] group_leq_fn()(a, b) && #[trigger] group_leq_fn()(b, c) implies group_leq_fn()(
        a,
        c,
    ) by {
        assert(group_leq(a, b) && group_leq(b, c) ==> group_leq(a, c));
    }
}

/// The statements of `stmts` whose source classifies as `k`, in order.
pub open spec fn of_kind(stmts: Seq<ImportStatementV>, k: ImportKind) -> Seq<ImportStatementV> {
    stmts.filter(|s: ImportStatementV| s.kind() == k)
}

/// The six kinds in their fixed output order.
pub open spec fn all_kinds() -> Seq<ImportKind> {
    seq![
        ImportKind::Builtin,
        ImportKind::External,
        ImportKind::Internal,
        ImportKind::Parent,
        ImportKind::Sibling,
        ImportKind::Index,
    ]
}

/// One group per kind of `kinds`, in that order, empty groups absent.
pub open spec fn groups_for(stmts: Seq<ImportStatementV>, kinds: Seq<ImportKind>) -> Seq<
    ImportGroupV,
>
    decreases kinds.len(),
{
    if kinds.len() == 0 {
        Seq::empty()
    } else {
        let g = ImportGroupV { kind: kinds[0], items: of_kind(stmts, kinds[0]) };
        let rest = groups_for(stmts, kinds.drop_first());
        if g.items.len() > 0 {
            seq![g] + rest
        } else {
            rest
        }
    }
}

/// The partition of the statements into kind groups, in fixed kind order,
/// empty groups absent; within a group the statements keep input order.
pub open spec fn groups_of(stmts: Seq<ImportStatementV>) -> Seq<ImportGroupV> {
    groups_for(stmts, all_kinds())
}

/// A group with its statements stably sorted by source text.
pub open spec fn sort_group(g: ImportGroupV) -> ImportGroupV {
    ImportGroupV { kind: g.kind, items: sort_seq_by(g.items, stmt_leq_fn()) }
}

/// The sorting of one group, as a function value.
pub open spec fn sort_group_fn() -> spec_fn(ImportGroupV) -> ImportGroupV {
    |g: ImportGroupV| sort_group(g)
}

/// The groups ordered by kind rank, each group's statements stably sorted
/// by source text.
pub open spec fn organized_groups(stmts: Seq<ImportStatementV>) -> Seq<ImportGroupV> {
    sort_seq_by(groups_of(stmts), group_leq_fn()).map_values(sort_group_fn())
}

/// Canonical text of one group: its statements' canonical forms, one per
/// line.
pub open spec fn render_group(g: ImportGroupV) -> Seq<char> {
    join(g.items.map_values(|s: ImportStatementV| render_statement(s)), "\n"@)
}

/// Canonical text of the whole import block: the groups separated by one
/// blank line.
pub open spec fn render_groups(gs: Seq<ImportGroupV>) -> Seq<char> {
    join(gs.map_values(|g: ImportGroupV| render_group(g)), "\n\n"@)
}

/// The whole organized module text: the import block, a blank line, then
/// the rest of the module.
pub open spec fn organized_output(stmts: Seq<ImportStatementV>, rest: Seq<char>) -> Seq<char> {
    render_groups(organized_groups(stmts)) + "\n\n"@ + rest
}

impl SortKey for ImportGroup {
    /// Groups order by the rank of their kind.
    open spec fn le_spec(&self, other: &Self) -> bool {
        self.kind.rank() <= other.kind.rank()
    }

    proof fn lemma_total(a: &Self, b: &Self) {
    }

    proof fn lemma_transitive(a: &Self, b: &Self, c: &Self) {
    }

    fn le(&self, other: &Self) -> (r: bool) {
        kind_rank(self.kind) <= kind_rank(other.kind)
    }
}

/// The position of a kind in the fixed output order (executable form).
pub fn kind_rank(k: ImportKind) -> (r: u8)
    ensures
        r as int == k.rank(),
{
    match k {
        ImportKind::Builtin => 0,
        ImportKind::External => 1,
        ImportKind::Internal => 2,
        ImportKind::Parent => 3,
        ImportKind::Sibling => 4,
        ImportKind::Index => 5,
    }
}

/// A singleton's filtrate is itself or nothing.
proof fn lemma_filter_one<A>(x: A, pred: spec_fn(A) -> bool)
    ensures
        seq![x].filter(pred) == if pred(x) {
            seq![x]
        } else {
            Seq::<A>::empty()
        },
{
    reveal_with_fuel(Seq::filter, 2);
    assert(seq![x].drop_last() =~= Seq::<A>::empty());
    assert(seq![x].last() == x);
}

/// Extending the statements by one extends exactly its own kind's group.
proof fn lemma_of_kind_push(p: Seq<ImportStatementV>, v: ImportStatementV, k: ImportKind)
    ensures
        of_kind(p.push(v), k) == if v.kind() == k {
            of_kind(p, k).push(v)
        } else {
            of_kind(p, k)
        },
{
    broadcast use vstd::seq_lib::group_filter_ensures;

    let pred = |s: ImportStatementV| s.kind() == k;
    assert(p.push(v) =~= p + seq![v]);
    Seq::filter_distributes_over_add(p, seq![v], pred);
    assert((p + seq![v]).filter(pred) == p.filter(pred) + seq![v].filter(pred));
    lemma_filter_one(v, pred);
    if v.kind() == k {
        assert(p.filter(pred) + seq![v] =~= p.filter(pred).push(v));
    } else {
        assert(p.filter(pred) + Seq::<ImportStatementV>::empty() =~= p.filter(pred));
    }
}

impl ImportGroup {
    /// The statements of this group, in their current order.
    pub fn items(&self) -> (r: &Vec<ImportStatement>)
        ensures
            r@.map_values(|s: ImportStatement| s@) == self@.items,
    {
        &self.items
    }

    /// Sort this group's statements by their literal source text, stably.
    pub fn reorder_in_place(&mut self)
        ensures
            final(self).kind == old(self).kind,
            final(self)@.items == sort_seq_by(old(self)@.items, stmt_leq_fn()),
    {
        let mut items: Vec<ImportStatement> = Vec::new();
        core::mem::swap(&mut self.items, &mut items);
        let ghost before = items@;
        let sorted = sort_vec(items);
        proof {
            lemma_sort_seq_views::<ImportStatement, ImportStatementV>(
                before,
                |s: ImportStatement| s@,
                stmt_leq_fn(),
            );
        }
        self.items = sorted;
    }
}

/// Partition the statements into groups by the kind of their source, the
/// groups in fixed kind order, empty groups absent, each group keeping the
/// input order of its statements.
pub fn group_imports(stmts: Vec<ImportStatement>) -> (r: Vec<ImportGroup>)
    ensures
        r@.map_values(|g: ImportGroup| g@) == groups_of(
            stmts@.map_values(|s: ImportStatement| s@),
        ),
{
    let ghost orig = stmts@.map_values(|s: ImportStatement| s@);
    let mut rest = stmts;
    let mut b0: Vec<ImportStatement> = Vec::new();
    let mut b1: Vec<ImportStatement> = Vec::new();
    let mut b2: Vec<ImportStatement> = Vec::new();
    let mut b3: Vec<ImportStatement> = Vec::new();
    let mut b4: Vec<ImportStatement> = Vec::new();
    let mut b5: Vec<ImportStatement> = Vec::new();
    while rest.len() > 0
        invariant
            rest@.len() <= orig.len(),
            rest@.map_values(|s: ImportStatement| s@) == orig.subrange(
                orig.len() - rest@.len(),
                orig.len() as int,
            ),
            b0@.map_values(|s: ImportStatement| s@) == of_kind(
                orig.subrange(0, orig.len() - rest@.len()),
                ImportKind::Builtin,
            ),
            b1@.map_values(|s: ImportStatement| s@) == of_kind(
                orig.subrange(0, orig.len() - rest@.len()),
                ImportKind::External,
            ),
            b2@.map_values(|s: ImportStatement| s@) == of_kind(
                orig.subrange(0, orig.len() - rest@.len()),
                ImportKind::Internal,
            ),
            b3@.map_values(|s: ImportStatement| s@) == of_kind(
                orig.subrange(0, orig.len() - rest@.len()),
                ImportKind::Parent,
            ),
            b4@.map_values(|s: ImportStatement| s@) == of_kind(
                orig.subrange(0, orig.len() - rest@.len()),
                ImportKind::Sibling,
            ),
            b5@.map_values(|s: ImportStatement| s@) == of_kind(
                orig.subrange(0, orig.len() - rest@.len()),
                ImportKind::Index,
            ),
        decreases rest@.len(),
    {
        let ghost done = orig.len() - rest@.len();
        let ghost pre = rest@;
        let s = rest.remove(0);
        proof {
            assert(s@ == pre.map_values(|s: ImportStatement| s@)[0]);
            assert(s@ == orig[done]);
        }
        let inner = s.inner_source_text();
        let k = ImportKind::guess(inner.as_str());
        proof {
            assert(k == s@.kind());
            let p = orig.subrange(0, done);
            let p1 = orig.subrange(0, done + 1);
            assert(p1 =~= p.push(orig[done]));
            lemma_of_kind_push(p, orig[done], ImportKind::Builtin);
            lemma_of_kind_push(p, orig[done], ImportKind::External);
            lemma_of_kind_push(p, orig[done], ImportKind::Internal);
            lemma_of_kind_push(p, orig[done], ImportKind::Parent);
            lemma_of_kind_push(p, orig[done], ImportKind::Sibling);
            lemma_of_kind_push(p, orig[done], ImportKind::Index);
        }
        match k {
            ImportKind::Builtin => b0.push(s),
            ImportKind::External => b1.push(s),
            ImportKind::Internal => b2.push(s),
            ImportKind::Parent => b3.push(s),
            ImportKind::Sibling => b4.push(s),
            ImportKind::Index => b5.push(s),
        }
        proof {
            assert(rest@ =~= pre.subrange(1, pre.len() as int));
            let rm = rest@.map_values(|s: ImportStatement| s@);
            let tail = orig.subrange(orig.len() - rest@.len(), orig.len() as int);
            assert forall|i: int| 0 <= i < rm.len() implies #[trigger] rm[i] == tail[i] by {
                assert(rest@[i] == pre[i + 1]);
                assert(pre.map_values(|s: ImportStatement| s@)[i + 1] == pre[i + 1]@);
            }
            assert(rm =~= tail);
            assert(b0@.map_values(|s: ImportStatement| s@) =~= if k == ImportKind::Builtin {
                of_kind(orig.subrange(0, done), ImportKind::Builtin).push(orig[done])
            } else {
                of_kind(orig.subrange(0, done), ImportKind::Builtin)
            });
            assert(b1@.map_values(|s: ImportStatement| s@) =~= if k == ImportKind::External {
                of_kind(orig.subrange(0, done), ImportKind::External).push(orig[done])
            } else {
                of_kind(orig.subrange(0, done), ImportKind::External)
            });
            assert(b2@.map_values(|s: ImportStatement| s@) =~= if k == ImportKind::Internal {
                of_kind(orig.subrange(0, done), ImportKind::Internal).push(orig[done])
            } else {
                of_kind(orig.subrange(0, done), ImportKind::Internal)
            });
            assert(b3@.map_values(|s: ImportStatement| s@) =~= if k == ImportKind::Parent {
                of_kind(orig.subrange(0, done), ImportKind::Parent).push(orig[done])
            } else {
                of_kind(orig.subrange(0, done), ImportKind::Parent)
            });
            assert(b4@.map_values(|s: ImportStatement| s@) =~= if k == ImportKind::Sibling {
                of_kind(orig.subrange(0, done), ImportKind::Sibling).push(orig[done])
            } else {
                of_kind(orig.subrange(0, done), ImportKind::Sibling)
            });
            assert(b5@.map_values(|s: ImportStatement| s@) =~= if k == ImportKind::Index {
                of_kind(orig.subrange(0, done), ImportKind::Index).push(orig[done])
            } else {
                of_kind(orig.subrange(0, done), ImportKind::Index)
            });
        }
    }
    proof {
        assert(orig.subrange(0, orig.len() as int) =~= orig);
    }
    let mut r: Vec<ImportGroup> = Vec::new();
    if b0.len() > 0 {
        r.push(ImportGroup { kind: ImportKind::Builtin, items: b0 });
    }
    if b1.len() > 0 {
        r.push(ImportGroup { kind: ImportKind::External, items: b1 });
    }
    if b2.len() > 0 {
        r.push(ImportGroup { kind: ImportKind::Internal, items: b2 });
    }
    if b3.len() > 0 {
        r.push(ImportGroup { kind: ImportKind::Parent, items: b3 });
    }
    if b4.len() > 0 {
        r.push(ImportGroup { kind: ImportKind::Sibling, items: b4 });
    }
    if b5.len() > 0 {
        r.push(ImportGroup { kind: ImportKind::Index, items: b5 });
    }
    proof {
        reveal_with_fuel(groups_for, 7);
        let ks = all_kinds();
        assert(ks[0] == ImportKind::Builtin);
        let ks1 = ks.drop_first();
        let ks2 = ks1.drop_first();
        let ks3 = ks2.drop_first();
        let ks4 = ks3.drop_first();
        let ks5 = ks4.drop_first();
        assert(ks1 =~= seq![
            ImportKind::External,
            ImportKind::Internal,
            ImportKind::Parent,
            ImportKind::Sibling,
            ImportKind::Index,
        ]);
        assert(ks2 =~= seq![
            ImportKind::Internal,
            ImportKind::Parent,
            ImportKind::Sibling,
            ImportKind::Index,
        ]);
        assert(ks3 =~= seq![ImportKind::Parent, ImportKind::Sibling, ImportKind::Index]);
        assert(ks4 =~= seq![ImportKind::Sibling, ImportKind::Index]);
        assert(ks5 =~= seq![ImportKind::Index]);
        assert(ks5.drop_first() =~= Seq::<ImportKind>::empty());
        assert(r@.map_values(|g: ImportGroup| g@) =~= groups_of(orig));
    }
    r
}

/// The canonical text of one group: its statements rebuilt, one per line.
pub fn group_text(g: &ImportGroup) -> (r: String)
    ensures
        r@ == render_group(g@),
{
    let ghost parts = g.items@.map_values(|s: ImportStatement| s@).map_values(
        |s: ImportStatementV| render_statement(s),
    );
    let mut out = String::new();
    let mut i: usize = 0;
    while i < g.items.len()
        invariant
            i <= g.items@.len(),
            parts == g.items@.map_values(|s: ImportStatement| s@).map_values(
                |s: ImportStatementV| render_statement(s),
            ),
            parts.len() == g.items@.len(),
            out@ == join(parts.subrange(0, i as int), "\n"@),
        decreases g.items@.len() - i,
    {
        if i > 0 {
            out.append("\n");
        }
        let t = g.items[i].remake();
        out.append(t.as_str());
        proof {
            lemma_join_push(parts.subrange(0, i as int), "\n"@, parts[i as int]);
            assert(parts.subrange(0, i as int).push(parts[i as int]) =~= parts.subrange(0, i + 1));
            assert(out@ =~= join(parts.subrange(0, i + 1), "\n"@));
        }
        i += 1;
    }
    proof {
        assert(parts.subrange(0, parts.len() as int) =~= parts);
        assert(g@.items.map_values(|s: ImportStatementV| render_statement(s)) == parts);
    }
    out
}

/// Sort groups by the fixed rank of their kind, stably.
pub fn order_groups(groups: Vec<ImportGroup>) -> (r: Vec<ImportGroup>)
    ensures
        r@.map_values(|g: ImportGroup| g@) == sort_seq_by(
            groups@.map_values(|g: ImportGroup| g@),
            group_leq_fn(),
        ),
{
    let ghost before = groups@;
    let r = sort_vec(groups);
    proof {
        lemma_sort_seq_views::<ImportGroup, ImportGroupV>(
            before,
            |g: ImportGroup| g@,
            group_leq_fn(),
        );
    }
    r
}


/// The statements of the given groups, one group after the other.
pub open spec fn flat_items(gs: Seq<ImportGroupV>) -> Seq<ImportStatementV>
    decreases gs.len(),
{
    if gs.len() == 0 {
        Seq::empty()
    } else {
        gs[0].items + flat_items(gs.drop_first())
    }
}

/// The kind filtrates of the statements, concatenated over the given kinds.
spec fn kinds_flat(stmts: Seq<ImportStatementV>, kinds: Seq<ImportKind>) -> Seq<ImportStatementV>
    decreases kinds.len(),
{
    if kinds.len() == 0 {
        Seq::empty()
    } else {
        of_kind(stmts, kinds[0]) + kinds_flat(stmts, kinds.drop_first())
    }
}

/// Dropping empty groups changes nothing: the groups flatten to the
/// concatenated filtrates.
proof fn lemma_flat_groups_for(stmts: Seq<ImportStatementV>, kinds: Seq<ImportKind>)
    ensures
        flat_items(groups_for(stmts, kinds)) == kinds_flat(stmts, kinds),
    decreases kinds.len(),
{
    if kinds.len() == 0 {
        assert(flat_items(groups_for(stmts, kinds)) =~= kinds_flat(stmts, kinds));
    } else {
        lemma_flat_groups_for(stmts, kinds.drop_first());
        let g = ImportGroupV { kind: kinds[0], items: of_kind(stmts, kinds[0]) };
        let rest = groups_for(stmts, kinds.drop_first());
        if g.items.len() > 0 {
            assert((seq![g] + rest)[0] == g);
            assert((seq![g] + rest).drop_first() =~= rest);
            assert(flat_items(seq![g] + rest) == g.items + flat_items(rest));
        } else {
            assert(g.items =~= Seq::<ImportStatementV>::empty());
            assert(kinds_flat(stmts, kinds) =~= kinds_flat(stmts, kinds.drop_first()));
        }
    }
}

/// With no statements, every filtrate is empty.
proof fn lemma_kinds_flat_empty(stmts: Seq<ImportStatementV>, kinds: Seq<ImportKind>)
    requires
        stmts.len() == 0,
    ensures
        kinds_flat(stmts, kinds).len() == 0,
    decreases kinds.len(),
{
    broadcast use vstd::seq_lib::group_filter_ensures;

    if kinds.len() != 0 {
        lemma_kinds_flat_empty(stmts, kinds.drop_first());
        assert(of_kind(stmts, kinds[0]).len() <= stmts.len());
    }
}

/// Appending one statement to the input adds it to exactly one filtrate,
/// when the kinds are distinct.
proof fn lemma_kinds_flat_push(
    p: Seq<ImportStatementV>,
    v: ImportStatementV,
    kinds: Seq<ImportKind>,
)
    requires
        forall|a: int, b: int| 0 <= a < b < kinds.len() ==> kinds[a] != kinds[b],
    ensures
        kinds_flat(p.push(v), kinds).to_multiset() =~= if kinds.contains(v.kind()) {
            kinds_flat(p, kinds).to_multiset().insert(v)
        } else {
            kinds_flat(p, kinds).to_multiset()
        },
    decreases kinds.len(),
{
    broadcast use vstd::seq_lib::group_to_multiset_ensures;
    broadcast use vstd::seq_lib::lemma_multiset_commutative;
    broadcast use vstd::multiset::group_multiset_axioms;

    if kinds.len() == 0 {
        assert(!kinds.contains(v.kind()));
    } else {
        let k0 = kinds[0];
        let ks = kinds.drop_first();
        lemma_kinds_flat_push(p, v, ks);
        lemma_of_kind_push(p, v, k0);
        assert(kinds.contains(v.kind()) == (v.kind() == k0 || ks.contains(v.kind()))) by {
            if kinds.contains(v.kind()) {
                let a = choose|a: int| 0 <= a < kinds.len() && kinds[a] == v.kind();
                if a > 0 {
                    assert(ks[a - 1] == v.kind());
                }
            }
            if ks.contains(v.kind()) {
                let a = choose|a: int| 0 <= a < ks.len() && ks[a] == v.kind();
                assert(kinds[a + 1] == v.kind());
            }
        }
        if v.kind() == k0 {
            assert(!ks.contains(v.kind())) by {
                if ks.contains(v.kind()) {
                    let a = choose|a: int| 0 <= a < ks.len() && ks[a] == v.kind();
                    assert(kinds[a + 1] == kinds[0]);
                }
            }
            assert(of_kind(p.push(v), k0) == of_kind(p, k0).push(v));
            assert(of_kind(p, k0).push(v).to_multiset() =~= of_kind(p, k0).to_multiset().insert(
                v,
            ));
            assert(kinds_flat(p.push(v), kinds).to_multiset() =~= kinds_flat(
                p,
                kinds,
            ).to_multiset().insert(v));
        } else {
            assert(of_kind(p.push(v), k0) == of_kind(p, k0));
            if ks.contains(v.kind()) {
                assert(kinds_flat(p.push(v), kinds).to_multiset() =~= kinds_flat(
                    p,
                    kinds,
                ).to_multiset().insert(v));
            } else {
                assert(kinds_flat(p.push(v), kinds).to_multiset() =~= kinds_flat(
                    p,
                    kinds,
                ).to_multiset());
            }
        }
    }
}

/// The six kinds are pairwise distinct, and every statement's kind is among
/// them.
proof fn lemma_all_kinds_facts(v: ImportStatementV)
    ensures
        forall|a: int, b: int| 0 <= a < b < all_kinds().len() ==> all_kinds()[a] != all_kinds()[b],
        all_kinds().contains(v.kind()),
{
    let ks = all_kinds();
    assert(ks[0] == ImportKind::Builtin);
    assert(ks[1] == ImportKind::External);
    assert(ks[2] == ImportKind::Internal);
    assert(ks[3] == ImportKind::Parent);
    assert(ks[4] == ImportKind::Sibling);
    assert(ks[5] == ImportKind::Index);
    match v.kind() {
        ImportKind::Builtin => assert(ks[0] == v.kind()),
        ImportKind::External => assert(ks[1] == v.kind()),
        ImportKind::Internal => assert(ks[2] == v.kind()),
        ImportKind::Parent => assert(ks[3] == v.kind()),
        ImportKind::Sibling => assert(ks[4] == v.kind()),
        ImportKind::Index => assert(ks[5] == v.kind()),
    }
}

/// Together, the six filtrates hold exactly the input statements.
proof fn lemma_kinds_flat_multiset(stmts: Seq<ImportStatementV>)
    ensures
        kinds_flat(stmts, all_kinds()).to_multiset() =~= stmts.to_multiset(),
    decreases stmts.len(),
{
    broadcast use vstd::seq_lib::group_to_multiset_ensures;

    if stmts.len() == 0 {
        lemma_kinds_flat_empty(stmts, all_kinds());
        assert(kinds_flat(stmts, all_kinds()) =~= Seq::<ImportStatementV>::empty());
    } else {
        let p = stmts.drop_last();
        let v = stmts.last();
        lemma_kinds_flat_multiset(p);
        lemma_all_kinds_facts(v);
        lemma_kinds_flat_push(p, v, all_kinds());
        assert(p.push(v) =~= stmts);
    }
}

/// When the kinds come in strictly ascending rank, so do the groups; and
/// each group's kind is one of the kinds.
proof fn lemma_groups_for_ranks(stmts: Seq<ImportStatementV>, kinds: Seq<ImportKind>)
    requires
        forall|a: int, b: int|
            0 <= a < b < kinds.len() ==> kinds[a].rank() < kinds[b].rank(),
    ensures
        forall|i: int, j: int|
            0 <= i < j < groups_for(stmts, kinds).len() ==> (#[trigger] groups_for(
                stmts,
                kinds,
            )[i]).kind.rank() < (#[trigger] groups_for(stmts, kinds)[j]).kind.rank(),
        forall|i: int|
            0 <= i < groups_for(stmts, kinds).len() ==> kinds.contains(
                (#[trigger] groups_for(stmts, kinds)[i]).kind,
            ),
    decreases kinds.len(),
{
    if kinds.len() != 0 {
        let ks = kinds.drop_first();
        lemma_groups_for_ranks(stmts, ks);
        let g = ImportGroupV { kind: kinds[0], items: of_kind(stmts, kinds[0]) };
        let rest = groups_for(stmts, ks);
        assert forall|i: int| 0 <= i < rest.len() implies kinds.contains(
            (#[trigger] rest[i]).kind,
        ) by {
            assert(ks.contains(rest[i].kind));
            let a = choose|a: int| 0 <= a < ks.len() && ks[a] == rest[i].kind;
            assert(kinds[a + 1] == rest[i].kind);
        }
        assert forall|i: int| 0 <= i < rest.len() implies kinds[0].rank() < (
        #[trigger] rest[i]).kind.rank() by {
            assert(ks.contains(rest[i].kind));
            let a = choose|a: int| 0 <= a < ks.len() && ks[a] == rest[i].kind;
            assert(kinds[a + 1] == rest[i].kind);
        }
        if g.items.len() > 0 {
            let whole = seq![g] + rest;
            assert(whole[0] == g);
            assert(whole.drop_first() =~= rest);
            assert forall|i: int, j: int|
                0 <= i < j < whole.len() implies (#[trigger] whole[i]).kind.rank() < (
            #[trigger] whole[j]).kind.rank() by {
                if i > 0 {
                    assert(whole[i] == rest[i - 1]);
                    assert(whole[j] == rest[j - 1]);
                } else {
                    assert(whole[j] == rest[j - 1]);
                }
            }
            assert forall|i: int| 0 <= i < whole.len() implies kinds.contains(
                (#[trigger] whole[i]).kind,
            ) by {
                if i > 0 {
                    assert(whole[i] == rest[i - 1]);
                } else {
                    assert(kinds[0] == whole[0].kind);
                }
            }
        }
    }
}

/// The ranks of `all_kinds` ascend.
proof fn lemma_all_kinds_ascending()
    ensures
        forall|a: int, b: int|
            0 <= a < b < all_kinds().len() ==> all_kinds()[a].rank() < all_kinds()[b].rank(),
{
    let ks = all_kinds();
    assert(ks[0] == ImportKind::Builtin);
    assert(ks[1] == ImportKind::External);
    assert(ks[2] == ImportKind::Internal);
    assert(ks[3] == ImportKind::Parent);
    assert(ks[4] == ImportKind::Sibling);
    assert(ks[5] == ImportKind::Index);
}

/// The grouped statements are already in rank order, so ordering the groups
/// leaves them unchanged.
proof fn lemma_groups_of_sorted(stmts: Seq<ImportStatementV>)
    ensures
        sort_seq_by(groups_of(stmts), group_leq_fn()) == groups_of(stmts),
        forall|i: int, j: int|
            0 <= i < j < groups_of(stmts).len() ==> (#[trigger] groups_of(stmts)[i]).kind.rank()
                < (#[trigger] groups_of(stmts)[j]).kind.rank(),
{
    lemma_all_kinds_ascending();
    lemma_groups_for_ranks(stmts, all_kinds());
    assert(sorted_by_leq(groups_of(stmts), group_leq_fn())) by {
        assert forall|i: int, j: int|
            0 <= i < j < groups_of(stmts).len() implies #[trigger] group_leq_fn()(
            groups_of(stmts)[i],
            groups_of(stmts)[j],
        ) by {
            assert(groups_of(stmts)[i].kind.rank() < groups_of(stmts)[j].kind.rank());
        }
    }
    lemma_sort_seq_of_sorted(groups_of(stmts), group_leq_fn());
}

/// Group order law: the rendered groups come in strictly ascending kind
/// rank; in particular, where both a Builtin and an External import exist,
/// the Builtin group stands strictly before the External group.
pub proof fn lemma_group_order(stmts: Seq<ImportStatementV>)
    ensures
        forall|i: int, j: int|
            0 <= i < j < organized_groups(stmts).len() ==> (#[trigger] organized_groups(
                stmts,
            )[i]).kind.rank() < (#[trigger] organized_groups(stmts)[j]).kind.rank(),
        ((exists|a: int| 0 <= a < stmts.len() && (#[trigger] stmts[a]).kind()
            == ImportKind::Builtin) && (exists|b: int|
            0 <= b < stmts.len() && (#[trigger] stmts[b]).kind() == ImportKind::External))
            ==> exists|i: int, j: int|
            0 <= i < j < organized_groups(stmts).len() && (#[trigger] organized_groups(
                stmts,
            )[i]).kind == ImportKind::Builtin && (#[trigger] organized_groups(stmts)[j]).kind
                == ImportKind::External,
{
    broadcast use vstd::seq_lib::group_filter_ensures;

    lemma_groups_of_sorted(stmts);
    let gof = groups_of(stmts);
    assert(organized_groups(stmts) == gof.map_values(sort_group_fn()));
    assert forall|i: int, j: int|
        0 <= i < j < organized_groups(stmts).len() implies (#[trigger] organized_groups(
        stmts,
    )[i]).kind.rank() < (#[trigger] organized_groups(stmts)[j]).kind.rank() by {
        assert(organized_groups(stmts)[i] == sort_group(gof[i]));
        assert(organized_groups(stmts)[j] == sort_group(gof[j]));
    }
    if (exists|a: int| 0 <= a < stmts.len() && (#[trigger] stmts[a]).kind()
        == ImportKind::Builtin) && (exists|b: int|
        0 <= b < stmts.len() && (#[trigger] stmts[b]).kind() == ImportKind::External) {
        let a = choose|a: int|
            0 <= a < stmts.len() && (#[trigger] stmts[a]).kind() == ImportKind::Builtin;
        let b = choose|b: int|
            0 <= b < stmts.len() && (#[trigger] stmts[b]).kind() == ImportKind::External;
        assert(of_kind(stmts, ImportKind::Builtin).contains(stmts[a]));
        assert(of_kind(stmts, ImportKind::External).contains(stmts[b]));
        lemma_groups_for_presence(stmts, all_kinds(), ImportKind::Builtin, 0);
        lemma_groups_for_presence(stmts, all_kinds(), ImportKind::External, 1);
        let i = choose|i: int| 0 <= i < gof.len() && gof[i].kind == ImportKind::Builtin;
        let j = choose|j: int| 0 <= j < gof.len() && gof[j].kind == ImportKind::External;
        assert(i != j);
        assert(i < j) by {
            if j < i {
                assert(gof[j].kind.rank() < gof[i].kind.rank());
            }
        }
        assert(organized_groups(stmts)[i] == sort_group(gof[i]));
        assert(organized_groups(stmts)[j] == sort_group(gof[j]));
        assert(organized_groups(stmts)[i].kind == ImportKind::Builtin);
        assert(organized_groups(stmts)[j].kind == ImportKind::External);
    }
}

/// A kind with a non-empty filtrate appears among the groups.
proof fn lemma_groups_for_presence(
    stmts: Seq<ImportStatementV>,
    kinds: Seq<ImportKind>,
    k: ImportKind,
    at: int,
)
    requires
        0 <= at < kinds.len(),
        kinds[at] == k,
        of_kind(stmts, k).len() > 0,
    ensures
        exists|i: int|
            0 <= i < groups_for(stmts, kinds).len() && (#[trigger] groups_for(stmts, kinds)[i]).kind
                == k,
    decreases kinds.len(),
{
    let g = ImportGroupV { kind: kinds[0], items: of_kind(stmts, kinds[0]) };
    let rest = groups_for(stmts, kinds.drop_first());
    if at == 0 {
        let whole = seq![g] + rest;
        assert(whole[0] == g);
        assert(groups_for(stmts, kinds)[0].kind == k);
    } else {
        lemma_groups_for_presence(stmts, kinds.drop_first(), k, at - 1);
        let i = choose|i: int| 0 <= i < rest.len() && (#[trigger] rest[i]).kind == k;
        if g.items.len() > 0 {
            let whole = seq![g] + rest;
            assert(whole[i + 1] == rest[i]);
            assert(groups_for(stmts, kinds)[i + 1].kind == k);
        } else {
            assert(groups_for(stmts, kinds)[i].kind == k);
        }
    }
}

/// Intra-group sort law: inside any rendered group, statements come in
/// code-point lexicographic order of their literal source text, and two
/// with distinct source text come in strictly that order.
pub proof fn lemma_intra_group_sorted(stmts: Seq<ImportStatementV>, g: int, i: int, j: int)
    requires
        0 <= g < organized_groups(stmts).len(),
        0 <= i < j < organized_groups(stmts)[g].items.len(),
    ensures
        lex_le(
            organized_groups(stmts)[g].items[i].source,
            organized_groups(stmts)[g].items[j].source,
        ),
        organized_groups(stmts)[g].items[i].source != organized_groups(
            stmts,
        )[g].items[j].source ==> !lex_le(
            organized_groups(stmts)[g].items[j].source,
            organized_groups(stmts)[g].items[i].source,
        ),
{
    lemma_groups_of_sorted(stmts);
    let gof = groups_of(stmts);
    assert(organized_groups(stmts) == gof.map_values(sort_group_fn()));
    assert(organized_groups(stmts)[g] == sort_group(gof[g]));
    let items = sort_seq_by(gof[g].items, stmt_leq_fn());
    lemma_stmt_leq_laws();
    lemma_sort_seq_sorted(gof[g].items, stmt_leq_fn());
    assert(stmt_leq_fn()(items[i], items[j]));
    if items[i].source != items[j].source {
        if lex_le(items[j].source, items[i].source) {
            lemma_lex_le_antisymmetric(items[i].source, items[j].source);
        }
    }
}

/// Conservation law: the statements of the organized groups are exactly the
/// input statements, no import invented, dropped or duplicated.
pub proof fn lemma_conservation(stmts: Seq<ImportStatementV>)
    ensures
        flat_items(organized_groups(stmts)).to_multiset() =~= stmts.to_multiset(),
{
    lemma_groups_of_sorted(stmts);
    let gof = groups_of(stmts);
    assert(organized_groups(stmts) == gof.map_values(sort_group_fn()));
    lemma_flat_map_multiset(gof);
    lemma_flat_groups_for(stmts, all_kinds());
    lemma_kinds_flat_multiset(stmts);
}

/// Sorting inside each group does not change which statements the groups
/// hold.
proof fn lemma_flat_map_multiset(gs: Seq<ImportGroupV>)
    ensures
        flat_items(gs.map_values(sort_group_fn())).to_multiset() =~= flat_items(gs).to_multiset(),
    decreases gs.len(),
{
    broadcast use vstd::seq_lib::lemma_multiset_commutative;
    broadcast use vstd::multiset::group_multiset_axioms;

    let m = gs.map_values(sort_group_fn());
    if gs.len() == 0 {
        assert(flat_items(m) =~= flat_items(gs));
    } else {
        lemma_flat_map_multiset(gs.drop_first());
        lemma_stmt_leq_laws();
        lemma_sort_seq_multiset(gs[0].items, stmt_leq_fn());
        assert(m[0] == sort_group(gs[0]));
        assert(m.drop_first() =~= gs.drop_first().map_values(sort_group_fn()));
        assert(flat_items(m) == m[0].items + flat_items(m.drop_first()));
        assert(flat_items(gs) == gs[0].items + flat_items(gs.drop_first()));
    }
}


/// Every group holds the filtrate of its own kind, and is non-empty.
proof fn lemma_groups_for_wf(stmts: Seq<ImportStatementV>, kinds: Seq<ImportKind>)
    ensures
        forall|i: int|
            0 <= i < groups_for(stmts, kinds).len() ==> (#[trigger] groups_for(stmts, kinds)[i]).items
                == of_kind(stmts, groups_for(stmts, kinds)[i].kind) && groups_for(
                stmts,
                kinds,
            )[i].items.len() > 0,
    decreases kinds.len(),
{
    if kinds.len() != 0 {
        lemma_groups_for_wf(stmts, kinds.drop_first());
        let g = ImportGroupV { kind: kinds[0], items: of_kind(stmts, kinds[0]) };
        let rest = groups_for(stmts, kinds.drop_first());
        if g.items.len() > 0 {
            let whole = seq![g] + rest;
            assert forall|i: int| 0 <= i < whole.len() implies (#[trigger] whole[i]).items
                == of_kind(stmts, whole[i].kind) && whole[i].items.len() > 0 by {
                if i == 0 {
                    assert(whole[0] == g);
                } else {
                    assert(whole[i] == rest[i - 1]);
                }
            }
        }
    }
}

/// A filtrate of statements that all share one kind keeps them all, or
/// none.
proof fn lemma_filter_homogeneous(items: Seq<ImportStatementV>, own: ImportKind, k: ImportKind)
    requires
        forall|i: int| 0 <= i < items.len() ==> (#[trigger] items[i]).kind() == own,
    ensures
        of_kind(items, k) == if own == k && items.len() > 0 {
            items
        } else {
            Seq::<ImportStatementV>::empty()
        },
    decreases items.len(),
{
    reveal_with_fuel(Seq::filter, 2);
    if items.len() == 0 {
        assert(of_kind(items, k) =~= Seq::<ImportStatementV>::empty());
    } else {
        assert(forall|i: int|
            0 <= i < items.drop_last().len() ==> (#[trigger] items.drop_last()[i]).kind() == own);
        lemma_filter_homogeneous(items.drop_last(), own, k);
        assert(items.last().kind() == own);
        if own == k {
            if items.len() == 1 {
                assert(of_kind(items, k) =~= items);
            } else {
                assert(of_kind(items, k) =~= items.drop_last().push(items.last()));
                assert(items.drop_last().push(items.last()) =~= items);
            }
        } else {
            assert(of_kind(items, k) =~= Seq::<ImportStatementV>::empty());
        }
    }
}

/// Sorting a group's statements keeps each of them of the group's kind.
proof fn lemma_sorted_group_homogeneous(stmts: Seq<ImportStatementV>, k: ImportKind)
    ensures
        forall|i: int|
            0 <= i < sort_seq_by(of_kind(stmts, k), stmt_leq_fn()).len() ==> (
            #[trigger] sort_seq_by(of_kind(stmts, k), stmt_leq_fn())[i]).kind() == k,
{
    broadcast use vstd::seq_lib::group_filter_ensures;
    broadcast use vstd::seq_lib::group_to_multiset_ensures;

    let items = of_kind(stmts, k);
    let sorted = sort_seq_by(items, stmt_leq_fn());
    lemma_sort_seq_multiset(items, stmt_leq_fn());
    assert forall|i: int| 0 <= i < sorted.len() implies (#[trigger] sorted[i]).kind() == k by {
        assert(sorted.to_multiset().contains(sorted[i]));
        assert(items.to_multiset().contains(sorted[i]));
        assert(items.contains(sorted[i]));
        let a = choose|a: int| 0 <= a < items.len() && items[a] == sorted[i];
        assert(items[a].kind() == k);
    }
}

/// Dropping a first group of another kind does not change whether a kind
/// is present.
proof fn lemma_kind_present_shift(gs: Seq<ImportGroupV>, k: ImportKind)
    requires
        gs.len() > 0,
        gs[0].kind != k,
    ensures
        (exists|i: int| 0 <= i < gs.len() && (#[trigger] gs[i]).kind == k) == (exists|i: int|
            0 <= i < gs.drop_first().len() && (#[trigger] gs.drop_first()[i]).kind == k),
{
    let rest = gs.drop_first();
    if exists|i: int| 0 <= i < gs.len() && (#[trigger] gs[i]).kind == k {
        let i = choose|i: int| 0 <= i < gs.len() && (#[trigger] gs[i]).kind == k;
        assert(i > 0);
        assert(rest[i - 1] == gs[i]);
    }
    if exists|i: int| 0 <= i < rest.len() && (#[trigger] rest[i]).kind == k {
        let i = choose|i: int| 0 <= i < rest.len() && (#[trigger] rest[i]).kind == k;
        assert(gs[i + 1] == rest[i]);
    }
}

/// The filtrate of the flattened organized groups is the sorted filtrate of
/// the original statements.
#[verifier::rlimit(100)]
proof fn lemma_flat_of_kind(stmts: Seq<ImportStatementV>, gs: Seq<ImportGroupV>, k: ImportKind)
    requires
        forall|i: int|
            0 <= i < gs.len() ==> (#[trigger] gs[i]).items == sort_seq_by(
                of_kind(stmts, gs[i].kind),
                stmt_leq_fn(),
            ) && gs[i].items.len() > 0,
        forall|i: int, j: int| 0 <= i < j < gs.len() ==> (#[trigger] gs[i]).kind != (
        #[trigger] gs[j]).kind,
    ensures
        of_kind(flat_items(gs), k) == if exists|i: int|
            0 <= i < gs.len() && (#[trigger] gs[i]).kind == k {
            sort_seq_by(of_kind(stmts, k), stmt_leq_fn())
        } else {
            Seq::<ImportStatementV>::empty()
        },
    decreases gs.len(),
{
    if gs.len() == 0 {
        reveal_with_fuel(Seq::filter, 2);
        assert(of_kind(flat_items(gs), k) =~= Seq::<ImportStatementV>::empty());
    } else {
        let rest = gs.drop_first();
        assert forall|i: int| 0 <= i < rest.len() implies (#[trigger] rest[i]).items
            == sort_seq_by(of_kind(stmts, rest[i].kind), stmt_leq_fn()) && rest[i].items.len()
            > 0 by {
            assert(rest[i] == gs[i + 1]);
        }
        assert forall|i: int, j: int| 0 <= i < j < rest.len() implies (#[trigger] rest[i]).kind
            != (#[trigger] rest[j]).kind by {
            assert(rest[i] == gs[i + 1]);
            assert(rest[j] == gs[j + 1]);
        }
        lemma_flat_of_kind(stmts, rest, k);
        lemma_sorted_group_homogeneous(stmts, gs[0].kind);
        lemma_filter_homogeneous(gs[0].items, gs[0].kind, k);
        Seq::filter_distributes_over_add(
            gs[0].items,
            flat_items(rest),
            |s: ImportStatementV| s.kind() == k,
        );
        assert(of_kind(flat_items(gs), k) == of_kind(gs[0].items, k) + of_kind(
            flat_items(rest),
            k,
        ));

        if gs[0].kind == k {
            assert(forall|i: int| 0 <= i < rest.len() ==> (#[trigger] rest[i]).kind != k);
            assert(!(exists|i: int| 0 <= i < rest.len() && (#[trigger] rest[i]).kind == k));
            assert(of_kind(flat_items(rest), k) =~= Seq::<ImportStatementV>::empty());
            assert(of_kind(flat_items(gs), k) =~= gs[0].items);
            assert(gs[0].kind == k && 0 <= 0 < gs.len());
        } else {
            assert(of_kind(gs[0].items, k) =~= Seq::<ImportStatementV>::empty());
            assert(of_kind(flat_items(gs), k) =~= of_kind(flat_items(rest), k));
            lemma_kind_present_shift(gs, k);
        }
    }
}

/// Regrouping the flattened organized groups rebuilds them, kind for kind.
#[verifier::rlimit(100)]
proof fn lemma_regroup(stmts: Seq<ImportStatementV>, kinds: Seq<ImportKind>)
    ensures
        groups_for(flat_items(organized_groups(stmts)), kinds) == groups_for(
            stmts,
            kinds,
        ).map_values(sort_group_fn()),
    decreases kinds.len(),
{
    lemma_groups_of_sorted(stmts);
    let gof = groups_of(stmts);
    let og = organized_groups(stmts);
    assert(og == gof.map_values(sort_group_fn()));
    lemma_groups_for_wf(stmts, all_kinds());
    assert forall|i: int| 0 <= i < og.len() implies (#[trigger] og[i]).items == sort_seq_by(
        of_kind(stmts, og[i].kind),
        stmt_leq_fn(),
    ) && og[i].items.len() > 0 by {
        assert(og[i] == sort_group(gof[i]));
        lemma_stmt_leq_laws();
        lemma_sort_seq_sorted(gof[i].items, stmt_leq_fn());
    }
    assert forall|i: int, j: int| 0 <= i < j < og.len() implies (#[trigger] og[i]).kind != (
    #[trigger] og[j]).kind by {
        assert(og[i] == sort_group(gof[i]));
        assert(og[j] == sort_group(gof[j]));
        assert(gof[i].kind.rank() < gof[j].kind.rank());
    }
    if kinds.len() != 0 {
        lemma_regroup(stmts, kinds.drop_first());
        let k0 = kinds[0];
        lemma_flat_of_kind(stmts, og, k0);
        let f = flat_items(og);
        let g_new = ImportGroupV { kind: k0, items: of_kind(f, k0) };
        let g_old = ImportGroupV { kind: k0, items: of_kind(stmts, k0) };
        let rest_new = groups_for(f, kinds.drop_first());
        let rest_old = groups_for(stmts, kinds.drop_first());
        lemma_stmt_leq_laws();
        lemma_sort_seq_sorted(of_kind(stmts, k0), stmt_leq_fn());
        if exists|i: int| 0 <= i < og.len() && (#[trigger] og[i]).kind == k0 {
            let i = choose|i: int| 0 <= i < og.len() && (#[trigger] og[i]).kind == k0;
            assert(og[i].items.len() > 0);
            assert(og[i].items == sort_seq_by(of_kind(stmts, k0), stmt_leq_fn()));
            assert(of_kind(stmts, k0).len() > 0);
            assert(g_new.items == sort_seq_by(of_kind(stmts, k0), stmt_leq_fn()));
            assert(g_new.items.len() > 0);
            assert(g_new == sort_group(g_old));
            assert(groups_for(f, kinds) == seq![g_new] + rest_new);
            assert(groups_for(stmts, kinds) == seq![g_old] + rest_old);
            assert((seq![g_old] + rest_old).map_values(sort_group_fn()) =~= seq![g_new]
                + rest_old.map_values(sort_group_fn()));
        } else {
            assert(g_new.items.len() == 0);
            assert(of_kind(stmts, k0).len() == 0) by {
                broadcast use vstd::seq_lib::group_filter_ensures;

                if of_kind(stmts, k0).len() > 0 {
                    lemma_groups_for_presence(stmts, all_kinds(), k0, k0.rank());
                    lemma_all_kinds_index(k0);
                    let i = choose|i: int|
                        0 <= i < gof.len() && (#[trigger] gof[i]).kind == k0;
                    assert(og[i] == sort_group(gof[i]));
                    assert(og[i].kind == k0);
                }
            }
            assert(g_old.items.len() == 0);
            assert(groups_for(f, kinds) == rest_new);
            assert(groups_for(stmts, kinds) == rest_old);
        }
    } else {
        assert(groups_for(flat_items(og), kinds) =~= groups_for(stmts, kinds).map_values(
            sort_group_fn(),
        ));
    }
}

/// Each kind sits in `all_kinds` at the position of its rank.
proof fn lemma_all_kinds_index(k: ImportKind)
    ensures
        0 <= k.rank() < all_kinds().len(),
        all_kinds()[k.rank()] == k,
{
    let ks = all_kinds();
    assert(ks[0] == ImportKind::Builtin);
    assert(ks[1] == ImportKind::External);
    assert(ks[2] == ImportKind::Internal);
    assert(ks[3] == ImportKind::Parent);
    assert(ks[4] == ImportKind::Sibling);
    assert(ks[5] == ImportKind::Index);
}

/// Idempotence law: organizing the statements of an already organized
/// module changes nothing, at the level of grouped and sorted statements.
pub proof fn lemma_idempotent(stmts: Seq<ImportStatementV>)
    ensures
        organized_groups(flat_items(organized_groups(stmts))) == organized_groups(stmts),
{
    lemma_regroup(stmts, all_kinds());
    lemma_groups_of_sorted(stmts);
    let gof = groups_of(stmts);
    let og = organized_groups(stmts);
    let f = flat_items(og);
    assert(groups_of(f) == gof.map_values(sort_group_fn()));
    assert(groups_of(f) == og);
    lemma_groups_of_sorted(f);
    assert(organized_groups(f) == groups_of(f).map_values(sort_group_fn()));
    assert forall|i: int| 0 <= i < og.len() implies #[trigger] og.map_values(sort_group_fn())[i]
        == og[i] by {
        assert(og[i] == sort_group(gof[i]));
        lemma_stmt_leq_laws();
        lemma_sort_seq_sorted(gof[i].items, stmt_leq_fn());
        lemma_sort_seq_of_sorted(og[i].items, stmt_leq_fn());
        assert(og.map_values(sort_group_fn())[i] == sort_group(og[i]));
    }
    assert(og.map_values(sort_group_fn()) =~= og);
}

/// Group, order and sort the given import statements, rebuild each in
/// canonical form, and return the block, a blank line, and then the rest of
/// the module text.
pub fn organize(stmts: Vec<ImportStatement>, rest: String) -> (r: String)
    ensures
        r@ == organized_output(stmt_views(stmts@), rest@),
{
    let ghost sv = stmts@.map_values(|s: ImportStatement| s@);
    let ghost restv = rest@;
    proof {
        assert forall|i: int| 0 <= i < sv.len() implies sv[i] == stmt_views(stmts@)[i] by {}
        assert(sv =~= stmt_views(stmts@));
    }
    let groups = order_groups(group_imports(stmts));
    let ghost ordered = sort_seq_by(groups_of(sv), group_leq_fn());
    proof {
        assert(groups@.map_values(|g: ImportGroup| g@) == ordered);
        lemma_group_leq_laws();
        lemma_sort_seq_sorted(groups_of(sv), group_leq_fn());
    }
    let mut rem = groups;
    let mut done: Vec<ImportGroup> = Vec::new();
    while rem.len() > 0
        invariant
            ordered == sort_seq_by(groups_of(sv), group_leq_fn()),
            rem@.len() + done@.len() == ordered.len(),
            rem@.map_values(|g: ImportGroup| g@) == ordered.subrange(
                done@.len() as int,
                ordered.len() as int,
            ),
            done@.map_values(|g: ImportGroup| g@) == organized_groups(sv).subrange(
                0,
                done@.len() as int,
            ),
            organized_groups(sv).len() == ordered.len(),
        decreases rem@.len(),
    {
        let ghost dn = done@.len() as int;
        let ghost pre = rem@;
        let mut g = rem.remove(0);
        proof {
            assert(g@ == pre.map_values(|g: ImportGroup| g@)[0]);
            assert(g@ == ordered[dn]);
            let rm = rem@.map_values(|g: ImportGroup| g@);
            let tail = ordered.subrange(dn + 1, ordered.len() as int);
            assert forall|i: int| 0 <= i < rm.len() implies #[trigger] rm[i] == tail[i] by {
                assert(rem@[i] == pre[i + 1]);
                assert(pre.map_values(|g: ImportGroup| g@)[i + 1] == pre[i + 1]@);
            }
            assert(rm =~= tail);
        }
        g.reorder_in_place();
        done.push(g);
        proof {
            assert(organized_groups(sv)[dn] == ImportGroupV {
                kind: ordered[dn].kind,
                items: sort_seq_by(ordered[dn].items, stmt_leq_fn()),
            });
            let dm = done@.map_values(|g: ImportGroup| g@);
            assert(dm =~= organized_groups(sv).subrange(0, done@.len() as int));
        }
    }
    proof {
        assert(done@.map_values(|g: ImportGroup| g@) =~= organized_groups(sv));
    }
    let ghost parts = done@.map_values(|g: ImportGroup| g@).map_values(
        |g: ImportGroupV| render_group(g),
    );
    let mut out = String::new();
    let mut i: usize = 0;
    while i < done.len()
        invariant
            i <= done@.len(),
            done@.map_values(|g: ImportGroup| g@) == organized_groups(sv),
            parts == done@.map_values(|g: ImportGroup| g@).map_values(
                |g: ImportGroupV| render_group(g),
            ),
            parts.len() == done@.len(),
            out@ == join(parts.subrange(0, i as int), "\n\n"@),
        decreases done@.len() - i,
    {
        if i > 0 {
            out.append("\n\n");
        }
        let t = group_text(&done[i]);
        out.append(t.as_str());
        proof {
            lemma_join_push(parts.subrange(0, i as int), "\n\n"@, parts[i as int]);
            assert(parts.subrange(0, i as int).push(parts[i as int]) =~= parts.subrange(0, i + 1));
            assert(out@ =~= join(parts.subrange(0, i + 1), "\n\n"@));
        }
        i += 1;
    }
    out.append("\n\n");
    out.append(rest.as_str());
    proof {
        assert(parts.subrange(0, parts.len() as int) =~= parts);
        assert(out@ =~= organized_output(sv, restv));
    }
    out
}


} // verus!
