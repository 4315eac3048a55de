//! The indented, multi-root listing of the department hierarchy.
use vstd::prelude::*;

use crate::context::{Context, ContextView, department_views};
use crate::department::{Department, DepartmentView, one_liner_of};
use crate::text::spaces;

verus! {

/// The line of a department at a depth: two spaces per level, the `L `
/// marker, then its summary.
pub open spec fn tree_line(d: DepartmentView, depth: nat) -> Seq<char> {
    spaces(2 * depth) + "L "@ + one_liner_of(d.name, d.id) + "\n"@
}

/// The lines of `d` and, below it, of its descendants, with `fuel` bounding
/// how many levels are shown. A department's children are all departments
/// whose parent is its identifier, in stored order; each is shown one level
/// deeper, with one less unit of fuel. The listing starts with as much fuel
/// as there are departments, which only a cyclic chain of parents can use
/// up (see `lemma_listing_complete`).
pub open spec fn subtree_text(
    deps: Seq<DepartmentView>,
    d: DepartmentView,
    depth: nat,
    fuel: nat,
) -> Seq<char>
    decreases fuel, 0int,
{
    if fuel > 0 {
        tree_line(d, depth) + children_text(deps, d, 0, depth + 1, (fuel - 1) as nat)
    } else {
        Seq::empty()
    }
}

/// The subtrees of the children of `d` found from position `i` on.
pub open spec fn children_text(
    deps: Seq<DepartmentView>,
    d: DepartmentView,
    i: int,
    depth: nat,
    fuel: nat,
) -> Seq<char>
    decreases fuel, deps.len() - i + 1,
{
    if 0 <= i < deps.len() {
        (if deps[i].parent == Some(d.id) {
            subtree_text(deps, deps[i], depth, fuel)
        } else {
            Seq::empty()
        }) + children_text(deps, d, i + 1, depth, fuel)
    } else {
        Seq::empty()
    }
}

/// The subtrees of the departments without a parent from position `i` on,
/// in stored order.
pub open spec fn roots_text(deps: Seq<DepartmentView>, i: int) -> Seq<char>
    decreases deps.len() - i,
{
    if 0 <= i < deps.len() {
        (if deps[i].parent is None {
            subtree_text(deps, deps[i], 0, deps.len())
        } else {
            Seq::empty()
        }) + roots_text(deps, i + 1)
    } else {
        Seq::empty()
    }
}

/// `s` without its last character, when it has one.
pub open spec fn without_last(s: Seq<char>) -> Seq<char> {
    if s.len() > 0 {
        s.drop_last()
    } else {
        s
    }
}

/// The report: the company name on the first line, then the department
/// forest, without a newline after its last line.
pub open spec fn hierarchy_text(c: ContextView) -> Seq<char> {
    c.company_name + "\n"@ + without_last(roots_text(c.departments, 0))
}

/// The subtree of the department at position `k`, where children are sought
/// only among the departments stored after it. This needs no depth limit.
pub open spec fn subtree_at(deps: Seq<DepartmentView>, k: int, depth: nat) -> Seq<char>
    decreases deps.len() - k, deps.len() + 1,
{
    if 0 <= k < deps.len() {
        tree_line(deps[k], depth) + children_at(deps, k, k + 1, depth + 1)
    } else {
        Seq::empty()
    }
}

/// The subtrees of the children of the department at position `k` found
/// from position `i` on.
pub open spec fn children_at(deps: Seq<DepartmentView>, k: int, i: int, depth: nat) -> Seq<char>
    decreases deps.len() - k, deps.len() - i,
{
    if 0 <= k < i < deps.len() {
        (if deps[i].parent == Some(deps[k].id) {
            subtree_at(deps, i, depth)
        } else {
            Seq::empty()
        }) + children_at(deps, k, i + 1, depth)
    } else {
        Seq::empty()
    }
}

/// In a well-formed directory no department stored at or before position
/// `k` names the department at `k` as its parent.
proof fn lemma_children_come_later(c: ContextView, k: int, i: int)
    requires
        c.wf(),
        0 <= i <= k < c.departments.len(),
    ensures
        c.departments[i].parent != Some(c.departments[k].id),
{
    let deps = c.departments;
    if deps[i].parent == Some(deps[k].id) {
        let j = choose|j: int| 0 <= j < i && (#[trigger] deps[j]).id == deps[i].parent->0;
        assert(deps[j].id.0 < deps[k].id.0);
    }
}

/// Positions up to `k` hold no child of the department at `k`.
proof fn lemma_skip_earlier(c: ContextView, k: int, i: int, depth: nat, fuel: nat)
    requires
        c.wf(),
        0 <= i <= k + 1,
        0 <= k < c.departments.len(),
    ensures
        children_text(c.departments, c.departments[k], i, depth, fuel) == children_text(
            c.departments,
            c.departments[k],
            k + 1,
            depth,
            fuel,
        ),
    decreases k + 1 - i,
{
    if i <= k {
        lemma_children_come_later(c, k, i);
        lemma_skip_earlier(c, k, i + 1, depth, fuel);
        assert(children_text(c.departments, c.departments[k], i, depth, fuel) =~= children_text(
            c.departments,
            c.departments[k],
            i + 1,
            depth,
            fuel,
        ));
    }
}

proof fn lemma_subtree_uncut(c: ContextView, k: int, depth: nat, fuel: nat)
    requires
        c.wf(),
        0 <= k < c.departments.len(),
        fuel >= c.departments.len() - k,
    ensures
        subtree_text(c.departments, c.departments[k], depth, fuel) == subtree_at(
            c.departments,
            k,
            depth,
        ),
    decreases c.departments.len() - k, c.departments.len() + 1,
{
    let f1 = (fuel - 1) as nat;
    lemma_skip_earlier(c, k, 0, depth + 1, f1);
    lemma_children_uncut(c, k, k + 1, depth + 1, f1);
}

proof fn lemma_children_uncut(c: ContextView, k: int, i: int, depth: nat, fuel: nat)
    requires
        c.wf(),
        0 <= k < i,
        k < c.departments.len(),
        fuel + 1 >= c.departments.len() - k,
    ensures
        children_text(c.departments, c.departments[k], i, depth, fuel) == children_at(
            c.departments,
            k,
            i,
            depth,
        ),
    decreases c.departments.len() - k, c.departments.len() - i,
{
    let deps = c.departments;
    if i < deps.len() {
        if deps[i].parent == Some(deps[k].id) {
            lemma_subtree_uncut(c, i, depth, fuel);
        }
        lemma_children_uncut(c, k, i + 1, depth, fuel);
    }
}

/// In a well-formed directory the listing is never cut short: with as much
/// fuel as there are departments, a department's subtree holds all its
/// descendants, each child stored after its parent and found there.
pub proof fn lemma_listing_complete(c: ContextView, k: int, depth: nat)
    requires
        c.wf(),
        0 <= k < c.departments.len(),
    ensures
        subtree_text(c.departments, c.departments[k], depth, c.departments.len()) == subtree_at(
            c.departments,
            k,
            depth,
        ),
{
    lemma_subtree_uncut(c, k, depth, c.departments.len());
}

/// The children's listing from `from` on splits around the child at `i`.
proof fn lemma_split_children(
    deps: Seq<DepartmentView>,
    d: DepartmentView,
    from: int,
    i: int,
    depth: nat,
    fuel: nat,
) -> (x: Seq<char>)
    requires
        0 <= from <= i < deps.len(),
        deps[i].parent == Some(d.id),
    ensures
        children_text(deps, d, from, depth, fuel) == x + subtree_text(deps, deps[i], depth, fuel)
            + children_text(deps, d, i + 1, depth, fuel),
    decreases i - from,
{
    if from == i {
        let x = Seq::<char>::empty();
        assert(children_text(deps, d, from, depth, fuel) =~= x + subtree_text(
            deps,
            deps[i],
            depth,
            fuel,
        ) + children_text(deps, d, i + 1, depth, fuel));
        x
    } else {
        let rest = lemma_split_children(deps, d, from + 1, i, depth, fuel);
        let piece = if deps[from].parent == Some(d.id) {
            subtree_text(deps, deps[from], depth, fuel)
        } else {
            Seq::empty()
        };
        let x = piece + rest;
        assert(children_text(deps, d, from, depth, fuel) =~= x + subtree_text(
            deps,
            deps[i],
            depth,
            fuel,
        ) + children_text(deps, d, i + 1, depth, fuel));
        x
    }
}

/// The roots' listing from `from` on splits around the root at `i`.
proof fn lemma_split_roots(deps: Seq<DepartmentView>, from: int, i: int) -> (x: Seq<char>)
    requires
        0 <= from <= i < deps.len(),
        deps[i].parent is None,
    ensures
        roots_text(deps, from) == x + subtree_text(deps, deps[i], 0, deps.len()) + roots_text(
            deps,
            i + 1,
        ),
    decreases i - from,
{
    if from == i {
        let x = Seq::<char>::empty();
        assert(roots_text(deps, from) =~= x + subtree_text(deps, deps[i], 0, deps.len())
            + roots_text(deps, i + 1));
        x
    } else {
        let rest = lemma_split_roots(deps, from + 1, i);
        let piece = if deps[from].parent is None {
            subtree_text(deps, deps[from], 0, deps.len())
        } else {
            Seq::empty()
        };
        let x = piece + rest;
        assert(roots_text(deps, from) =~= x + subtree_text(deps, deps[i], 0, deps.len())
            + roots_text(deps, i + 1));
        x
    }
}

/// Siblings are listed in stored order: where departments `i < j` are both
/// children of `d`, the subtree of `i` comes before that of `j` in the
/// listing of `d`'s children, whatever their identifiers or names. The
/// result is the text before, between and after the two subtrees.
pub proof fn lemma_siblings_in_stored_order(
    deps: Seq<DepartmentView>,
    d: DepartmentView,
    i: int,
    j: int,
    depth: nat,
    fuel: nat,
) -> (parts: (Seq<char>, Seq<char>, Seq<char>))
    requires
        0 <= i < j < deps.len(),
        deps[i].parent == Some(d.id),
        deps[j].parent == Some(d.id),
    ensures
        children_text(deps, d, 0, depth, fuel) == parts.0 + subtree_text(
            deps,
            deps[i],
            depth,
            fuel,
        ) + parts.1 + subtree_text(deps, deps[j], depth, fuel) + parts.2,
{
    let x = lemma_split_children(deps, d, 0, i, depth, fuel);
    let y = lemma_split_children(deps, d, i + 1, j, depth, fuel);
    let z = children_text(deps, d, j + 1, depth, fuel);
    assert(children_text(deps, d, 0, depth, fuel) =~= x + subtree_text(deps, deps[i], depth, fuel)
        + y + subtree_text(deps, deps[j], depth, fuel) + z);
    (x, y, z)
}

/// Roots are listed in stored order: where departments `i < j` both have no
/// parent, the tree of `i` comes before that of `j`. The result is the text
/// before, between and after the two trees.
pub proof fn lemma_roots_in_stored_order(deps: Seq<DepartmentView>, i: int, j: int) -> (parts: (
    Seq<char>,
    Seq<char>,
    Seq<char>,
))
    requires
        0 <= i < j < deps.len(),
        deps[i].parent is None,
        deps[j].parent is None,
    ensures
        roots_text(deps, 0) == parts.0 + subtree_text(deps, deps[i], 0, deps.len()) + parts.1
            + subtree_text(deps, deps[j], 0, deps.len()) + parts.2,
{
    let x = lemma_split_roots(deps, 0, i);
    let y = lemma_split_roots(deps, i + 1, j);
    let z = roots_text(deps, j + 1);
    assert(roots_text(deps, 0) =~= x + subtree_text(deps, deps[i], 0, deps.len()) + y
        + subtree_text(deps, deps[j], 0, deps.len()) + z);
    (x, y, z)
}

/// Indentation follows depth: within the tree of `d` at some depth, each
/// child's line comes after `d`'s own line, one level deeper: indented two
/// more spaces, then the `L ` marker and its summary.
pub proof fn lemma_child_one_level_deeper(
    deps: Seq<DepartmentView>,
    d: DepartmentView,
    i: int,
    depth: nat,
    fuel: nat,
) -> (parts: (Seq<char>, Seq<char>))
    requires
        0 <= i < deps.len(),
        deps[i].parent == Some(d.id),
        fuel > 1,
    ensures
        subtree_text(deps, d, depth, fuel) == tree_line(d, depth) + parts.0 + tree_line(
            deps[i],
            depth + 1,
        ) + parts.1,
        tree_line(deps[i], depth + 1) == spaces(2 * depth + 2) + "L "@ + one_liner_of(
            deps[i].name,
            deps[i].id,
        ) + "\n"@,
{
    let f1 = (fuel - 1) as nat;
    let x = lemma_split_children(deps, d, 0, i, depth + 1, f1);
    let inner = children_text(deps, deps[i], 0, depth + 2, (f1 - 1) as nat);
    let z = inner + children_text(deps, d, i + 1, depth + 1, f1);
    assert(subtree_text(deps, d, depth, fuel) =~= tree_line(d, depth) + x + tree_line(
        deps[i],
        depth + 1,
    ) + z);
    assert(2 * (depth + 1) == 2 * depth + 2);
    (x, z)
}

/// Appends the lines of `dep` at `level` and of its descendants, showing at
/// most `fuel` levels.
fn department_and_children_one_liners(
    deps: &Vec<Department>,
    dep: &Department,
    level: usize,
    fuel: usize,
    out: &mut String,
)
    requires
        fuel > 0,
        level + fuel <= usize::MAX,
    ensures
        final(out)@ == old(out)@ + subtree_text(
            department_views(deps@),
            dep@,
            level as nat,
            fuel as nat,
        ),
    decreases fuel,
{
    let ghost v = department_views(deps@);
    let mut j: usize = 0;
    while j < level
        invariant
            j <= level,
            out@ == old(out)@ + spaces(2 * j as nat),
        decreases level - j,
    {
        proof { reveal_strlit("  "); }
        out.append("  ");
        proof {
            assert(spaces(2 * j as nat) + "  "@ =~= spaces(2 * (j + 1) as nat));
        }
        j += 1;
    }
    out.append("L ");
    let line = dep.one_liner();
    out.append(line.as_str());
    out.append("\n");
    let ghost start = out@;
    let ghost l1 = (level + 1) as nat;
    let ghost f1 = (fuel - 1) as nat;
    proof {
        assert(start =~= old(out)@ + tree_line(dep@, level as nat));
    }
    let mut i: usize = 0;
    while i < deps.len()
        invariant
            fuel > 0,
            level + fuel <= usize::MAX,
            l1 == level + 1,
            f1 == fuel - 1,
            v == department_views(deps@),
            i <= deps.len(),
            start + children_text(v, dep@, 0, l1, f1) == out@ + children_text(
                v,
                dep@,
                i as int,
                l1,
                f1,
            ),
        decreases deps.len() - i,
    {
        let child = &deps[i];
        let ghost before = out@;
        let is_child = match child.parent() {
            Some(p) => p.0 == dep.id().0,
            None => false,
        };
        if is_child && fuel > 1 {
            department_and_children_one_liners(deps, child, level + 1, fuel - 1, out);
        }
        proof {
            assert(v[i as int] == child@);
            let piece = if v[i as int].parent == Some(dep@.id) {
                subtree_text(v, v[i as int], l1, f1)
            } else {
                Seq::empty()
            };
            assert(children_text(v, dep@, i as int, l1, f1) == piece + children_text(
                v,
                dep@,
                i + 1,
                l1,
                f1,
            ));
            assert(out@ == before + piece);
            assert(before + children_text(v, dep@, i as int, l1, f1) =~= out@ + children_text(
                v,
                dep@,
                i + 1,
                l1,
                f1,
            ));
        }
        i += 1;
    }
    proof {
        assert(children_text(v, dep@, i as int, l1, f1) =~= Seq::<char>::empty());
        assert(out@ =~= old(out)@ + subtree_text(v, dep@, level as nat, fuel as nat));
    }
}

/// Renders the company name and, under it, every department tree, roots
/// and siblings in stored order, each line indented two spaces per level
/// and marked `L `.
pub fn render_hierarchy(ctx: &Context) -> (r: String)
    ensures
        r@ == hierarchy_text(ctx@),
{
    let deps = ctx.departments();
    let ghost v = department_views(deps@);
    let mut body = String::new();
    let mut i: usize = 0;
    while i < deps.len()
        invariant
            v == department_views(deps@),
            i <= deps.len(),
            roots_text(v, 0) == body@ + roots_text(v, i as int),
        decreases deps.len() - i,
    {
        let ghost before = body@;
        if deps[i].parent().is_none() {
            department_and_children_one_liners(deps, &deps[i], 0, deps.len(), &mut body);
        }
        proof {
            assert(v[i as int] == deps@[i as int]@);
            assert(before + roots_text(v, i as int) =~= body@ + roots_text(v, i + 1));
        }
        i += 1;
    }
    proof {
        assert(roots_text(v, i as int) =~= Seq::<char>::empty());
        assert(body@ =~= roots_text(v, 0));
    }
    let mut r = ctx.company_name().clone();
    r.append("\n");
    let n = body.as_str().unicode_len();
    if n > 0 {
        r.append(body.as_str().substring_char(0, n - 1));
        proof {
            assert(body@.subrange(0, n - 1) =~= body@.drop_last());
        }
    }
    r
}

} // verus!
