//! What the launcher reads from and sends to the window manager: marks,
//! searches in the window tree, and the command strings it sends.

use vstd::prelude::*;

use crate::config::{opt_view, Position};
use crate::error::QuicktermError;
use crate::text::{chars_of, compare_str, concat3, copy_str, push_decimal, push_str, Cmp, int_decimal};

verus! {

broadcast use vstd::seq_lib::group_seq_properties;

/// The pattern that the marks of all drop-down terminals match.
pub const MARK_QT_PATTERN: &'static str = "quickterm_.*";

/// The mark of the terminal running `shell`.
pub open spec fn mark_spec(shell: Seq<char>) -> Seq<char> {
    "quickterm_"@ + shell
}

/// The mark given to the terminal running `shell`.
pub fn mark_for_shell(shell: &str) -> (m: String)
    ensures
        m@ == mark_spec(shell@),
{
    proof {
        reveal_strlit("");
    }
    concat3("quickterm_", shell, "")
}

/// Whether `mark` matches `pattern`: a pattern ending in `.*` matches every
/// mark that starts with what comes before the `.*`; any other pattern
/// matches only itself.
pub open spec fn mark_matches_spec(mark: Seq<char>, pattern: Seq<char>) -> bool {
    if pattern.len() >= 2 && pattern[pattern.len() - 2] == '.' && pattern[pattern.len() - 1]
        == '*' {
        let prefix = pattern.take(pattern.len() - 2);
        mark.len() >= prefix.len() && mark.take(prefix.len() as int) == prefix
    } else {
        mark == pattern
    }
}

/// Whether `mark` matches `pattern` (see [`mark_matches_spec`]).
pub fn mark_matches(mark: &str, pattern: &str) -> (b: bool)
    ensures
        b == mark_matches_spec(mark@, pattern@),
{
    let p = chars_of(pattern);
    let n = p.len();
    if n >= 2 && p[n - 2] == '.' && p[n - 1] == '*' {
        let m = chars_of(mark);
        let k = n - 2;
        if m.len() < k {
            return false;
        }
        let mut i: usize = 0;
        while i < k
            invariant
                k == pattern@.len() - 2,
                k <= m@.len(),
                p@ == pattern@,
                m@ == mark@,
                i <= k,
                m@.take(i as int) == p@.take(i as int),
            decreases k - i,
        {
            if m[i] != p[i] {
                assert(m@.take(k as int)[i as int] != p@.take(k as int)[i as int]);
                return false;
            }
            assert(m@.take(i + 1) == m@.take(i as int).push(m@[i as int]));
            assert(p@.take(i + 1) == p@.take(i as int).push(p@[i as int]));
            i = i + 1;
        }
        true
    } else {
        compare_str(mark, pattern) == Cmp::Equal
    }
}

/// Every shell's mark matches the pattern that finds all drop-down
/// terminals, so a visible terminal of any shell is found and hidden.
pub proof fn lemma_mark_matches_pattern(shell: Seq<char>)
    ensures
        mark_matches_spec(mark_spec(shell), MARK_QT_PATTERN@),
{
    reveal_strlit("quickterm_.*");
    reveal_strlit("quickterm_");
    let pattern = MARK_QT_PATTERN@;
    assert(pattern.take(pattern.len() - 2) == "quickterm_"@);
    assert(mark_spec(shell).take(10) == "quickterm_"@);
}

/// Distinct shells get distinct marks, so each terminal is found again by
/// its own shell only.
pub proof fn lemma_marks_distinct(a: Seq<char>, b: Seq<char>)
    requires
        a != b,
    ensures
        mark_spec(a) != mark_spec(b),
{
    reveal_strlit("quickterm_");
    if mark_spec(a) == mark_spec(b) {
        assert(mark_spec(a).skip(10) == a);
        assert(mark_spec(b).skip(10) == b);
    }
}

/// An axis-aligned rectangle in pixels.
#[derive(PartialEq, Eq, Structural, Clone, Copy, Debug)]
pub struct Rect {
    pub x: i32,
    pub y: i32,
    pub width: i32,
    pub height: i32,
}

/// A workspace as the window manager lists it.
#[derive(Debug)]
pub struct Workspace {
    pub name: String,
    pub focused: bool,
    pub rect: Rect,
}

/// The name and geometry of a workspace.
#[derive(Debug)]
pub struct WorkspaceInfo {
    pub name: String,
    pub rect: Rect,
}

/// The focused workspace among `workspaces`, the first one if several say so.
pub fn focused_workspace(workspaces: &Vec<Workspace>) -> (r: Result<WorkspaceInfo, QuicktermError>)
    ensures
        match r {
            Ok(info) => exists|i: int|
                0 <= i < workspaces@.len() && (#[trigger] workspaces@[i]).focused && info.name@
                    == workspaces@[i].name@ && info.rect == workspaces@[i].rect && forall|j: int|
                    0 <= j < i ==> !(#[trigger] workspaces@[j]).focused,
            Err(e) => {
                &&& forall|i: int| 0 <= i < workspaces@.len() ==> !(#[trigger] workspaces@[i]).focused
                &&& e matches QuicktermError::Ipc(m) && m@ == "no current workspace"@
            },
        },
{
    let mut i: usize = 0;
    while i < workspaces.len()
        invariant
            i <= workspaces@.len(),
            forall|j: int| 0 <= j < i ==> !(#[trigger] workspaces@[j]).focused,
        decreases workspaces@.len() - i,
    {
        if workspaces[i].focused {
            return Ok(WorkspaceInfo { name: workspaces[i].name.clone(), rect: workspaces[i].rect });
        }
        i = i + 1;
    }
    Err(QuicktermError::Ipc(copy_str("no current workspace")))
}

/// A node of the window tree: its id, name, whether it is a workspace, its
/// marks, and its children (the tiling ones, then the floating ones).
#[derive(Debug)]
pub struct TreeNode {
    pub id: i64,
    pub name: Option<String>,
    pub is_workspace: bool,
    pub marks: Vec<String>,
    pub children: Vec<TreeNode>,
}

/// The nodes in the order the window tree's iterator yields them: a node,
/// then the nodes under its children taken from the last child to the first
/// (the iterator keeps a stack and pushes the children in order).
pub open spec fn visit(n: TreeNode) -> Seq<TreeNode>
    decreases n,
{
    seq![n] + visit_all(n.children@)
}

/// The nodes under `cs`, last child first.
pub open spec fn visit_all(cs: Seq<TreeNode>) -> Seq<TreeNode>
    decreases cs,
{
    if cs.len() == 0 {
        Seq::empty()
    } else {
        visit(cs.last()) + visit_all(cs.drop_last())
    }
}

/// The ids of a sequence of nodes.
pub open spec fn ids(ns: Seq<TreeNode>) -> Seq<i64> {
    ns.map_values(|n: TreeNode| n.id)
}

/// Whether one of the node's marks matches `pattern`.
pub open spec fn has_mark_matching(pattern: Seq<char>) -> spec_fn(TreeNode) -> bool {
    |n: TreeNode| exists|i: int| 0 <= i < n.marks@.len() && mark_matches_spec(#[trigger] n.marks@[i]@, pattern)
}

/// Whether the node's name is `title`.
pub open spec fn titled(title: Seq<char>) -> spec_fn(TreeNode) -> bool {
    |n: TreeNode| opt_view(n.name) == Some(title)
}

proof fn lemma_filter_add(a: Seq<TreeNode>, b: Seq<TreeNode>, p: spec_fn(TreeNode) -> bool)
    ensures
        (a + b).filter(p) == a.filter(p) + b.filter(p),
        ids(a + b) == ids(a) + ids(b),
{
    Seq::filter_distributes_over_add(a, b, p);
    assert(ids(a + b) =~= ids(a) + ids(b));
}

fn any_mark_matches(n: &TreeNode, pattern: &str) -> (b: bool)
    ensures
        b == has_mark_matching(pattern@)(*n),
{
    let mut i: usize = 0;
    while i < n.marks.len()
        invariant
            i <= n.marks@.len(),
            forall|j: int| 0 <= j < i ==> !mark_matches_spec(#[trigger] n.marks@[j]@, pattern@),
        decreases n.marks@.len() - i,
    {
        if mark_matches(n.marks[i].as_str(), pattern) {
            return true;
        }
        i = i + 1;
    }
    false
}

fn is_titled(n: &TreeNode, title: &str) -> (b: bool)
    ensures
        b == titled(title@)(*n),
{
    match &n.name {
        Some(name) => compare_str(name.as_str(), title) == Cmp::Equal,
        None => false,
    }
}

/// Appends the ids of the nodes under `n` (in iteration order) that have a
/// mark matching `pattern`, or (when `by_title`) whose name is `pattern`.
fn collect_ids(n: &TreeNode, pattern: &str, by_title: bool, out: &mut Vec<i64>)
    ensures
        final(out)@ == old(out)@ + ids(
            visit(*n).filter(
                if by_title {
                    titled(pattern@)
                } else {
                    has_mark_matching(pattern@)
                },
            ),
        ),
    decreases *n,
{
    let ghost p = if by_title {
        titled(pattern@)
    } else {
        has_mark_matching(pattern@)
    };
    let hit = if by_title {
        is_titled(n, pattern)
    } else {
        any_mark_matches(n, pattern)
    };
    let ghost start = out@;
    if hit {
        out.push(n.id);
    }
    proof {
        assert(Seq::<TreeNode>::empty().filter(p) == Seq::<TreeNode>::empty()) by {
            reveal(Seq::filter);
        }
        assert(seq![*n] == Seq::<TreeNode>::empty().push(*n));
        Seq::<TreeNode>::empty().lemma_filter_push(*n, p);
        assert(seq![*n].filter(p) == if p(*n) { seq![*n] } else { Seq::<TreeNode>::empty() });
        assert(out@ == start + ids(seq![*n].filter(p)));
    }
    let ghost head = out@;
    let mut j: usize = n.children.len();
    assert(n.children@.skip(n.children@.len() as int) == Seq::<TreeNode>::empty());
    assert(visit_all(Seq::<TreeNode>::empty()) == Seq::<TreeNode>::empty());
    assert(Seq::<TreeNode>::empty().filter(p) == Seq::<TreeNode>::empty()) by {
        reveal(Seq::filter);
    }
    assert(out@ == head + ids(Seq::<TreeNode>::empty()));
    while j > 0
        invariant
            j <= n.children@.len(),
            p == (if by_title {
                titled(pattern@)
            } else {
                has_mark_matching(pattern@)
            }),
            out@ == head + ids(visit_all(n.children@.skip(j as int)).filter(p)),
        decreases j,
    {
        j = j - 1;
        let ghost before = out@;
        collect_ids(&n.children[j], pattern, by_title, out);
        proof {
            let cs = n.children@;
            let s = cs.skip(j as int);
            lemma_visit_all_split(s, 1);
            assert(s.skip(1) == cs.skip(j + 1));
            assert(s.take(1) == seq![cs[j as int]]);
            assert(seq![cs[j as int]].drop_last() == Seq::<TreeNode>::empty());
            assert(visit_all(seq![cs[j as int]]) == visit(cs[j as int]) + visit_all(
                Seq::<TreeNode>::empty(),
            ));
            assert(visit_all(s.take(1)) == visit(cs[j as int]));
            lemma_filter_add(visit_all(cs.skip(j + 1)), visit(cs[j as int]), p);
            lemma_filter_add(
                visit_all(cs.skip(j + 1)).filter(p),
                visit(cs[j as int]).filter(p),
                p,
            );
            assert(ids(visit_all(cs.skip(j + 1)).filter(p) + visit(cs[j as int]).filter(p))
                == ids(visit_all(cs.skip(j + 1)).filter(p)) + ids(visit(cs[j as int]).filter(p)));
        }
    }
    proof {
        assert(n.children@.skip(0) == n.children@);
        lemma_filter_add(seq![*n], visit_all(n.children@), p);
        assert(ids(seq![*n].filter(p) + visit_all(n.children@).filter(p)) == ids(
            seq![*n].filter(p),
        ) + ids(visit_all(n.children@).filter(p)));
    }
}

/// The nodes under `cs` are those under its last children after `j`, then
/// those under its first `j` children.
pub proof fn lemma_visit_all_split(cs: Seq<TreeNode>, j: int)
    requires
        0 <= j <= cs.len(),
    ensures
        visit_all(cs) == visit_all(cs.skip(j)) + visit_all(cs.take(j)),
    decreases cs.len(),
{
    if j == cs.len() {
        assert(cs.skip(j) == Seq::<TreeNode>::empty());
        assert(cs.take(j) == cs);
    } else {
        let init = cs.drop_last();
        lemma_visit_all_split(init, j);
        assert(init.take(j) == cs.take(j));
        assert(cs.skip(j).drop_last() == init.skip(j));
        assert(cs.skip(j).last() == cs.last());
    }
}

/// Ids, in iteration order, of the nodes under `node` that have a mark
/// matching `pattern`.
pub fn find_marked(node: &TreeNode, pattern: &str) -> (r: Vec<i64>)
    ensures
        r@ == ids(visit(*node).filter(has_mark_matching(pattern@))),
{
    let mut out: Vec<i64> = Vec::new();
    collect_ids(node, pattern, false, &mut out);
    assert(out@ == Seq::<i64>::empty() + ids(visit(*node).filter(has_mark_matching(pattern@))));
    out
}

/// Ids, in iteration order, of the nodes under `node` named `title`.
pub fn find_titled(node: &TreeNode, title: &str) -> (r: Vec<i64>)
    ensures
        r@ == ids(visit(*node).filter(titled(title@))),
{
    let mut out: Vec<i64> = Vec::new();
    collect_ids(node, title, true, &mut out);
    assert(out@ == Seq::<i64>::empty() + ids(visit(*node).filter(titled(title@))));
    out
}

/// The name of the workspace that holds the node `target` among the nodes
/// under `n`, where `inherited` is the name of the workspace around `n`.
/// A workspace node passes its own name down. The search goes through the
/// children in order and stops at the first that yields a name.
pub open spec fn ws_name_for(n: TreeNode, target: i64, inherited: Option<Seq<char>>) -> Option<
    Seq<char>,
>
    decreases n,
{
    let w = if n.is_workspace {
        opt_view(n.name)
    } else {
        inherited
    };
    if n.id == target {
        w
    } else {
        ws_name_in(n.children@, target, w)
    }
}

/// [`ws_name_for`] over the nodes `cs`, the first that yields a name.
pub open spec fn ws_name_in(cs: Seq<TreeNode>, target: i64, w: Option<Seq<char>>) -> Option<
    Seq<char>,
>
    decreases cs,
{
    if cs.len() == 0 {
        None
    } else {
        match ws_name_for(cs[0], target, w) {
            Some(x) => Some(x),
            None => ws_name_in(cs.drop_first(), target, w),
        }
    }
}

/// The name of the workspace that holds the node with id `target_id` under
/// `node`; `workspace_name` is the name of the workspace around `node`.
pub fn find_workspace_name_for_node(
    node: &TreeNode,
    target_id: i64,
    workspace_name: Option<&str>,
) -> (r: Option<String>)
    ensures
        opt_view(r) == ws_name_for(
            *node,
            target_id,
            match workspace_name {
                Some(s) => Some(s@),
                None => None,
            },
        ),
    decreases *node,
{
    let ghost inherited = match workspace_name {
        Some(s) => Some(s@),
        None => None,
    };
    let w: Option<&str> = if node.is_workspace {
        match &node.name {
            Some(name) => Some(name.as_str()),
            None => None,
        }
    } else {
        workspace_name
    };
    let ghost wv = match w {
        Some(s) => Some(s@),
        None => None,
    };
    assert(wv == (if node.is_workspace {
        opt_view(node.name)
    } else {
        inherited
    }));
    if node.id == target_id {
        return match w {
            Some(s) => Some(copy_str(s)),
            None => None,
        };
    }
    let cs = &node.children;
    let mut i: usize = 0;
    assert(cs@.skip(0) == cs@);
    assert(ws_name_for(*node, target_id, inherited) == ws_name_in(cs@, target_id, wv));
    while i < cs.len()
        invariant
            i <= cs@.len(),
            cs@ == node.children@,
            ws_name_for(*node, target_id, inherited) == ws_name_in(cs@, target_id, wv),
            inherited == (match workspace_name {
                Some(s) => Some(s@),
                None => None,
            }),
            wv == (match w {
                Some(s) => Some(s@),
                None => None,
            }),
            ws_name_in(cs@, target_id, wv) == ws_name_in(cs@.skip(i as int), target_id, wv),
        decreases cs@.len() - i,
    {
        let found = find_workspace_name_for_node(&cs[i], target_id, w);
        proof {
            let s = cs@.skip(i as int);
            assert(s[0] == cs@[i as int]);
            assert(s.drop_first() == cs@.skip(i + 1));
        }
        if found.is_some() {
            return found;
        }
        i = i + 1;
    }
    assert(cs@.skip(i as int).len() == 0);
    None
}

/// The first node, in depth-first order (a node, then its children in
/// order), that satisfies `p`.
pub open spec fn first_found(n: TreeNode, p: spec_fn(TreeNode) -> bool) -> Option<TreeNode>
    decreases n,
{
    if p(n) {
        Some(n)
    } else {
        first_found_in(n.children@, p)
    }
}

/// [`first_found`] over the nodes `cs`, in order.
pub open spec fn first_found_in(cs: Seq<TreeNode>, p: spec_fn(TreeNode) -> bool) -> Option<
    TreeNode,
>
    decreases cs,
{
    if cs.len() == 0 {
        None
    } else {
        match first_found(cs[0], p) {
            Some(x) => Some(x),
            None => first_found_in(cs.drop_first(), p),
        }
    }
}

/// Whether a node is the workspace named `name`.
pub open spec fn workspace_named(name: Seq<char>) -> spec_fn(TreeNode) -> bool {
    |n: TreeNode| n.is_workspace && opt_view(n.name) == Some(name)
}

/// The first workspace node named `name` under `node`, in depth-first order.
pub fn find_workspace<'a>(node: &'a TreeNode, name: &str) -> (r: Option<&'a TreeNode>)
    ensures
        match r {
            Some(x) => first_found(*node, workspace_named(name@)) == Some(*x),
            None => first_found(*node, workspace_named(name@)) is None,
        },
    decreases *node,
{
    let ghost p = workspace_named(name@);
    if node.is_workspace && is_titled(node, name) {
        return Some(node);
    }
    let cs = &node.children;
    let mut i: usize = 0;
    assert(cs@.skip(0) == cs@);
    assert(!p(*node));
    assert(first_found(*node, p) == first_found_in(cs@, p));
    while i < cs.len()
        invariant
            i <= cs@.len(),
            cs@ == node.children@,
            p == workspace_named(name@),
            first_found(*node, p) == first_found_in(cs@, p),
            first_found_in(cs@, p) == first_found_in(cs@.skip(i as int), p),
        decreases cs@.len() - i,
    {
        let found = find_workspace(&cs[i], name);
        proof {
            let s = cs@.skip(i as int);
            assert(s[0] == cs@[i as int]);
            assert(s.drop_first() == cs@.skip(i + 1));
        }
        if found.is_some() {
            return found;
        }
        i = i + 1;
    }
    assert(cs@.skip(i as int).len() == 0);
    None
}

/// `v / 2` rounded toward zero, as integer division does.
pub open spec fn half_toward_zero(v: int) -> int {
    if v >= 0 {
        v / 2
    } else {
        -((-v) / 2)
    }
}

/// Whether `v` fits in an `i32`.
pub open spec fn fits_i32(v: int) -> bool {
    i32::MIN <= v <= i32::MAX
}

/// The position of a pop-up of size `width` x `height` on the workspace
/// `rect`: at the top left, at the bottom (six pixels up), or centered.
pub open spec fn placement(rect: Rect, pos: Position, width: int, height: int) -> (int, int) {
    match pos {
        Position::Bottom => (rect.x as int, rect.y + rect.height - height - 6),
        Position::Center => (
            rect.x + half_toward_zero(rect.width - width),
            rect.y + half_toward_zero(rect.height - height),
        ),
        Position::Top => (rect.x as int, rect.y as int),
    }
}

/// Whether every step of [`placement`] stays within `i32`.
pub open spec fn placement_fits(rect: Rect, pos: Position, width: int, height: int) -> bool {
    match pos {
        Position::Bottom => {
            &&& fits_i32(rect.y + rect.height)
            &&& fits_i32(rect.y + rect.height - height)
            &&& fits_i32(rect.y + rect.height - height - 6)
        },
        Position::Center => {
            &&& fits_i32(rect.width - width)
            &&& fits_i32(rect.x + half_toward_zero(rect.width - width))
            &&& fits_i32(rect.height - height)
            &&& fits_i32(rect.y + half_toward_zero(rect.height - height))
        },
        Position::Top => true,
    }
}

/// Where the pop-up of the given size goes on the workspace `rect`.
pub fn popup_placement(rect: Rect, pos: Position, width: i32, height: i32) -> (r: (i32, i32))
    requires
        placement_fits(rect, pos, width as int, height as int),
    ensures
        (r.0 as int, r.1 as int) == placement(rect, pos, width as int, height as int),
{
    match pos {
        Position::Bottom => (rect.x, rect.y + rect.height - height - 6),
        Position::Center => (rect.x + (rect.width - width) / 2, rect.y + (rect.height - height) / 2),
        Position::Top => (rect.x, rect.y),
    }
}

/// The selector of the container with id `id`.
pub open spec fn con_id_selector_spec(id: i64) -> Seq<char> {
    "[con_id="@ + int_decimal(id as int) + "]"@
}

/// The selector of the container with id `id`.
pub fn con_id_selector(id: i64) -> (s: String)
    ensures
        s@ == con_id_selector_spec(id),
{
    let mut s = copy_str("[con_id=");
    push_decimal(&mut s, id);
    push_str(&mut s, "]");
    s
}

/// The selector of the container marked `mark`.
pub open spec fn con_mark_selector_spec(mark: Seq<char>) -> Seq<char> {
    "[con_mark="@ + mark + "]"@
}

/// The selector of the container marked `mark`.
pub fn con_mark_selector(mark: &str) -> (s: String)
    ensures
        s@ == con_mark_selector_spec(mark@),
{
    concat3("[con_mark=", mark, "]")
}

/// The command that marks the focused container with `mark`.
pub open spec fn mark_command_spec(mark: Seq<char>) -> Seq<char> {
    "mark "@ + mark
}

/// The command that marks the focused container with `mark`.
pub fn mark_command(mark: &str) -> (s: String)
    ensures
        s@ == mark_command_spec(mark@),
{
    proof {
        reveal_strlit("");
    }
    concat3("mark ", mark, "")
}

/// The command that floats the selected container and sends it to the
/// scratchpad.
pub open spec fn move_back_command_spec(selector: Seq<char>) -> Seq<char> {
    selector + " floating enable, move scratchpad"@
}

/// The command that floats the selected container and sends it to the
/// scratchpad.
pub fn move_back_command(selector: &str) -> (s: String)
    ensures
        s@ == move_back_command_spec(selector@),
{
    proof {
        reveal_strlit("");
    }
    concat3(selector, " floating enable, move scratchpad", "")
}

/// The command that shows the container marked `mark` from the scratchpad
/// with the given size, at the given position.
pub open spec fn pop_command_spec(mark: Seq<char>, width: int, height: int, x: int, y: int) -> Seq<
    char,
> {
    "[con_mark="@ + mark + "], move scratchpad, scratchpad show, resize set "@ + int_decimal(width)
        + " px "@ + int_decimal(height) + " px, move absolute position "@ + int_decimal(x)
        + "px "@ + int_decimal(y) + "px"@
}

/// The command that shows the container marked `mark` from the scratchpad
/// with the given size, at the given position.
pub fn pop_command(mark: &str, width: i32, height: i32, x: i32, y: i32) -> (s: String)
    ensures
        s@ == pop_command_spec(mark@, width as int, height as int, x as int, y as int),
{
    let mut s = concat3("[con_mark=", mark, "], move scratchpad, scratchpad show, resize set ");
    push_decimal(&mut s, width as i64);
    push_str(&mut s, " px ");
    push_decimal(&mut s, height as i64);
    push_str(&mut s, " px, move absolute position ");
    push_decimal(&mut s, x as i64);
    push_str(&mut s, "px ");
    push_decimal(&mut s, y as i64);
    push_str(&mut s, "px");
    s
}

/// At the top, the pop-up takes the workspace's top left corner.
pub proof fn law_placement_top(rect: Rect, width: int, height: int)
    ensures
        placement(rect, Position::Top, width, height) == (rect.x as int, rect.y as int),
{
}

/// The placement is relative to the workspace: moving the workspace by
/// `(dx, dy)` moves the pop-up by the same amount, whatever the position.
pub proof fn law_placement_follows_workspace(
    rect: Rect,
    pos: Position,
    width: int,
    height: int,
    dx: int,
    dy: int,
)
    requires
        fits_i32(rect.x + dx),
        fits_i32(rect.y + dy),
    ensures
        ({
            let moved = Rect { x: (rect.x + dx) as i32, y: (rect.y + dy) as i32, ..rect };
            &&& placement(moved, pos, width, height).0 == placement(rect, pos, width, height).0 + dx
            &&& placement(moved, pos, width, height).1 == placement(rect, pos, width, height).1 + dy
        }),
{
}

/// At the bottom, the pop-up starts at the workspace's left edge and ends six
/// pixels above the workspace's bottom edge.
pub proof fn law_placement_bottom(rect: Rect, width: int, height: int)
    ensures
        placement(rect, Position::Bottom, width, height).0 == rect.x,
        placement(rect, Position::Bottom, width, height).1 + height + 6 == rect.y + rect.height,
{
}

/// In the center, the margins on the left and right (and above and below)
/// differ by at most one pixel.
pub proof fn law_placement_centered(rect: Rect, width: int, height: int)
    ensures
        ({
            let (px, py) = placement(rect, Position::Center, width, height);
            let left = px - rect.x;
            let right = rect.x + rect.width - (px + width);
            let top = py - rect.y;
            let bottom = rect.y + rect.height - (py + height);
            &&& -1 <= left - right <= 1
            &&& -1 <= top - bottom <= 1
        }),
{
}

/// A container that is not a workspace passes the enclosing workspace's
/// name down unchanged: the answer under it is the answer under its
/// children with the same enclosing name.
pub proof fn law_container_passes_workspace_name(n: TreeNode, target: i64, w: Option<Seq<char>>)
    requires
        !n.is_workspace,
        n.id != target,
    ensures
        ws_name_for(n, target, w) == ws_name_in(n.children@, target, w),
{
}

/// A workspace hands its own name to what it holds, whatever encloses it.
pub proof fn law_workspace_names_its_contents(
    n: TreeNode,
    target: i64,
    w1: Option<Seq<char>>,
    w2: Option<Seq<char>>,
)
    requires
        n.is_workspace,
    ensures
        ws_name_for(n, target, w1) == ws_name_for(n, target, w2),
        n.id != target ==> ws_name_for(n, target, w1) == ws_name_in(
            n.children@,
            target,
            opt_view(n.name),
        ),
        n.id == target ==> ws_name_for(n, target, w1) == opt_view(n.name),
{
}

/// A window inside a split container inside a workspace is reported on that
/// workspace: the nearest enclosing workspace names it, however deep.
pub proof fn law_nested_window_on_workspace(
    ws: TreeNode,
    container: TreeNode,
    window: TreeNode,
    name: Seq<char>,
    w: Option<Seq<char>>,
)
    requires
        ws.is_workspace,
        opt_view(ws.name) == Some(name),
        ws.children@ == seq![container],
        !container.is_workspace,
        container.children@ == seq![window],
        !window.is_workspace,
        ws.id != window.id,
        container.id != window.id,
    ensures
        ws_name_for(ws, window.id, w) == Some(name),
{
    let t = window.id;
    assert(ws_name_for(window, t, Some(name)) == Some(name));
    assert(ws_name_in(container.children@, t, Some(name)) == Some(name)) by {
        assert(container.children@[0] == window);
    }
    assert(ws_name_for(container, t, Some(name)) == Some(name));
    assert(ws.children@[0] == container);
    assert(ws_name_in(ws.children@, t, Some(name)) == Some(name));
}

} // verus!
