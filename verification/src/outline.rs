//! The one-line-per-node outline of an accessibility tree.
//!
//! Each node renders as `{role} "{name}"`, then, in this fixed order and each
//! only when known, ` value="{value}"`, ` states=[..]`, ` actions=[..]`,
//! ` bounds={x},{y},{w},{h}` and ` id={id}`. Children follow their parent,
//! indented by `indent` spaces per level; lines are joined with `\n` and there
//! is no trailing newline. Inside names and values `\`, `"`, newline and tab
//! are escaped.

use vstd::prelude::*;

use crate::chars::chars_of;
use crate::fmt::{decimal, push_decimal, push_signed_decimal, signed_decimal};
use crate::model::{
    accessible_view, accessibles_view, state_name, state_wire_name, AccessibleNode,
    AccessibleNodeView, AccessibleState, AccessibleTree,
};

verus! {

/// Options for rendering an accessibility tree as text.
#[derive(Debug, Clone, Copy, PartialEq, Eq, Structural)]
pub struct TextOptions {
    /// Spaces of indentation added per tree level; the root is at depth `0`.
    pub indent: usize,
    /// Emit ` id={id}` for every node.
    pub include_ids: bool,
    /// Emit ` bounds={x},{y},{w},{h}` for nodes whose geometry is known.
    pub include_bounds: bool,
    /// Emit ` states=[...]` for nodes with set state flags.
    pub include_states: bool,
    /// Emit ` actions=[...]` for nodes that expose actions.
    pub include_actions: bool,
}

impl Default for TextOptions {
    fn default() -> (o: TextOptions)
        ensures
            o.indent == 2,
            o.include_ids,
            o.include_bounds,
            o.include_states,
            o.include_actions,
    {
        TextOptions {
            indent: 2,
            include_ids: true,
            include_bounds: true,
            include_states: true,
            include_actions: true,
        }
    }
}

/// The escaped spelling of one character.
pub open spec fn escape_char(c: char) -> Seq<char> {
    if c == '\\' {
        seq!['\\', '\\']
    } else if c == '"' {
        seq!['\\', '"']
    } else if c == '\n' {
        seq!['\\', 'n']
    } else if c == '\t' {
        seq!['\\', 't']
    } else {
        seq![c]
    }
}

/// `s` with every reserved character escaped.
pub open spec fn escaped(s: Seq<char>) -> Seq<char>
    decreases s.len(),
{
    if s.len() == 0 {
        Seq::empty()
    } else {
        escaped(s.drop_last()) + escape_char(s.last())
    }
}

/// The items joined with `sep` between consecutive items.
pub open spec fn joined(items: Seq<Seq<char>>, sep: Seq<char>) -> Seq<char>
    decreases items.len(),
{
    if items.len() == 0 {
        Seq::empty()
    } else if items.len() == 1 {
        items[0]
    } else {
        joined(items.drop_last(), sep) + sep + items.last()
    }
}

/// Escaping keeps a name or value on one line: the escaped text holds no
/// newline, tab or unescaped quote.
pub proof fn lemma_escaped_single_line(s: Seq<char>)
    ensures
        forall|i: int| 0 <= i < escaped(s).len() ==> escaped(s)[i] != '\n' && escaped(s)[i] != '\t',
    decreases s.len(),
{
    if s.len() > 0 {
        lemma_escaped_single_line(s.drop_last());
        let e = escaped(s);
        let p = escaped(s.drop_last());
        assert forall|i: int| 0 <= i < e.len() implies e[i] != '\n' && e[i] != '\t' by {
            if i < p.len() {
                assert(e[i] == p[i]);
            } else {
                assert(e[i] == escape_char(s.last())[i - p.len()]);
            }
        }
    }
}

/// `n` spaces.
pub open spec fn spaces(n: nat) -> Seq<char> {
    Seq::new(n, |i: int| ' ')
}

/// The indentation width of a line at `depth` (saturated at `usize::MAX`).
pub open spec fn indent_width(depth: nat, indent: nat) -> nat {
    if depth * indent <= usize::MAX {
        depth * indent
    } else {
        usize::MAX as nat
    }
}

/// The depth of a child line (saturated at `usize::MAX`).
pub open spec fn child_depth(depth: nat) -> nat {
    if depth < usize::MAX {
        depth + 1
    } else {
        depth
    }
}

/// The wire names of a list of state flags.
pub open spec fn state_names(states: Seq<AccessibleState>) -> Seq<Seq<char>> {
    states.map_values(|s: AccessibleState| state_wire_name(s))
}

/// The ` value="..."` part of a line.
pub open spec fn value_part(node: AccessibleNodeView) -> Seq<char> {
    match node.value {
        Some(v) => " value=\""@ + escaped(v) + "\""@,
        None => Seq::empty(),
    }
}

/// The ` states=[..]` part of a line.
pub open spec fn states_part(node: AccessibleNodeView, opts: TextOptions) -> Seq<char> {
    if opts.include_states && node.states.len() > 0 {
        " states=["@ + joined(state_names(node.states), ","@) + "]"@
    } else {
        Seq::empty()
    }
}

/// The ` actions=[..]` part of a line.
pub open spec fn actions_part(node: AccessibleNodeView, opts: TextOptions) -> Seq<char> {
    if opts.include_actions && node.actions.len() > 0 {
        " actions=["@ + joined(node.actions, ","@) + "]"@
    } else {
        Seq::empty()
    }
}

/// The ` bounds=x,y,w,h` part of a line.
pub open spec fn bounds_part(node: AccessibleNodeView, opts: TextOptions) -> Seq<char> {
    match node.bounds {
        Some(b) => if opts.include_bounds {
            " bounds="@ + signed_decimal(b.x as int) + ","@ + signed_decimal(b.y as int) + ","@
                + decimal(b.w as nat) + ","@ + decimal(b.h as nat)
        } else {
            Seq::empty()
        },
        None => Seq::empty(),
    }
}

/// The ` id=N` part of a line.
pub open spec fn id_part(node: AccessibleNodeView, opts: TextOptions) -> Seq<char> {
    if opts.include_ids {
        " id="@ + decimal(node.id as nat)
    } else {
        Seq::empty()
    }
}

/// The outline line of one node at `depth`.
pub open spec fn outline_line(node: AccessibleNodeView, depth: nat, opts: TextOptions) -> Seq<
    char,
> {
    spaces(indent_width(depth, opts.indent as nat)) + node.role + " \""@ + escaped(node.name)
        + "\""@ + value_part(node) + states_part(node, opts) + actions_part(node, opts)
        + bounds_part(node, opts) + id_part(node, opts)
}

/// The lines of `node`'s subtree in pre-order, the node at `depth`.
pub open spec fn outline_lines(node: AccessibleNodeView, depth: nat, opts: TextOptions) -> Seq<
    Seq<char>,
>
    decreases node, 1nat,
{
    seq![outline_line(node, depth, opts)] + outline_lines_all(node.children, child_depth(depth), opts)
}

/// The lines of a list of sibling subtrees, in order.
pub open spec fn outline_lines_all(
    nodes: Seq<AccessibleNodeView>,
    depth: nat,
    opts: TextOptions,
) -> Seq<Seq<char>>
    decreases nodes, 0nat,
{
    if nodes.len() == 0 {
        Seq::empty()
    } else {
        outline_lines_all(nodes.drop_last(), depth, opts) + outline_lines(nodes.last(), depth, opts)
    }
}

/// The outline of a tree.
pub open spec fn outline(tree: AccessibleTree, opts: TextOptions) -> Seq<char> {
    joined(outline_lines(tree.root@, 0, opts), "\n"@)
}

/// The views of a list of strings.
pub open spec fn lines_view(v: Seq<String>) -> Seq<Seq<char>> {
    v.map_values(|s: String| s@)
}

/// Append `raw` to `out` with the reserved characters escaped.
pub fn push_escaped(out: &mut String, raw: &str)
    ensures
        final(out)@ == old(out)@ + escaped(raw@),
{
    let cs = chars_of(raw);
    let ghost start = out@;
    let mut i: usize = 0;
    assert(raw@.take(0) =~= Seq::<char>::empty());
    while i < cs.len()
        invariant
            cs@ == raw@,
            i <= cs.len(),
            out@ == start + escaped(raw@.take(i as int)),
        decreases cs.len() - i,
    {
        let ch = cs[i];
        let ghost before = out@;
        if ch == '\\' {
            out.push('\\');
            out.push('\\');
        } else if ch == '"' {
            out.push('\\');
            out.push('"');
        } else if ch == '\n' {
            out.push('\\');
            out.push('n');
        } else if ch == '\t' {
            out.push('\\');
            out.push('t');
        } else {
            out.push(ch);
        }
        proof {
            let t1 = raw@.take(i + 1);
            assert(t1.drop_last() =~= raw@.take(i as int));
            assert(t1.last() == ch);
            assert(out@ =~= before + escape_char(ch));
            assert(out@ =~= start + escaped(t1));
        }
        i += 1;
    }
    assert(raw@.take(cs.len() as int) =~= raw@);
}

/// `raw` with the four reserved characters (`\`, `"`, newline, tab) escaped.
pub fn escape(raw: &str) -> (out: String)
    ensures
        out@ == escaped(raw@),
{
    let mut out = String::new();
    push_escaped(&mut out, raw);
    assert(Seq::<char>::empty() + escaped(raw@) =~= escaped(raw@));
    out
}

/// Append `n` spaces to `out`.
fn push_spaces(out: &mut String, n: usize)
    ensures
        final(out)@ == old(out)@ + spaces(n as nat),
{
    let ghost start = out@;
    let mut i: usize = 0;
    while i < n
        invariant
            i <= n,
            out@ == start + spaces(i as nat),
        decreases n - i,
    {
        out.push(' ');
        assert(spaces((i + 1) as nat) =~= spaces(i as nat).push(' '));
        i += 1;
    }
}

/// Append the wire names of `states`, separated by commas.
fn push_state_names(out: &mut String, states: &Vec<AccessibleState>)
    ensures
        final(out)@ == old(out)@ + joined(state_names(states@), ","@),
{
    let ghost start = out@;
    let ghost names = state_names(states@);
    let mut i: usize = 0;
    assert(names.take(0) =~= Seq::<Seq<char>>::empty());
    while i < states.len()
        invariant
            i <= states.len(),
            names == state_names(states@),
            out@ == start + joined(names.take(i as int), ","@),
        decreases states.len() - i,
    {
        let ghost before = out@;
        if i > 0 {
            out.push(',');
        }
        out.append(state_name(states[i]));
        proof {
            let t1 = names.take(i + 1);
            assert(t1.drop_last() =~= names.take(i as int));
            assert(t1.last() == state_wire_name(states@[i as int]));
            if i == 0 {
                assert(out@ =~= start + joined(t1, ","@));
            } else {
                reveal_strlit(",");
                assert(out@ =~= before + ","@ + t1.last());
                assert(out@ =~= start + joined(t1, ","@));
            }
        }
        i += 1;
    }
    assert(names.take(states.len() as int) =~= names);
}

/// Append `items`, separated by commas.
fn push_joined(out: &mut String, items: &Vec<String>)
    ensures
        final(out)@ == old(out)@ + joined(lines_view(items@), ","@),
{
    let ghost start = out@;
    let ghost names = lines_view(items@);
    let mut i: usize = 0;
    assert(names.take(0) =~= Seq::<Seq<char>>::empty());
    while i < items.len()
        invariant
            i <= items.len(),
            names == lines_view(items@),
            out@ == start + joined(names.take(i as int), ","@),
        decreases items.len() - i,
    {
        let ghost before = out@;
        if i > 0 {
            out.push(',');
        }
        out.append(items[i].as_str());
        proof {
            let t1 = names.take(i + 1);
            assert(t1.drop_last() =~= names.take(i as int));
            assert(t1.last() == items@[i as int]@);
            if i == 0 {
                assert(out@ =~= start + joined(t1, ","@));
            } else {
                reveal_strlit(",");
                assert(out@ =~= before + ","@ + t1.last());
                assert(out@ =~= start + joined(t1, ","@));
            }
        }
        i += 1;
    }
    assert(names.take(items.len() as int) =~= names);
}

fn push_value_part(line: &mut String, node: &AccessibleNode)
    ensures
        final(line)@ == old(line)@ + value_part(node@),
{
    match &node.value {
        Some(value) => {
            line.append(" value=\"");
            push_escaped(line, value.as_str());
            line.append("\"");
        },
        None => {
            assert(old(line)@ + value_part(node@) =~= old(line)@);
        },
    }
}

fn push_states_part(line: &mut String, node: &AccessibleNode, opts: TextOptions)
    ensures
        final(line)@ == old(line)@ + states_part(node@, opts),
{
    if opts.include_states && node.states.len() > 0 {
        line.append(" states=[");
        push_state_names(line, &node.states);
        line.append("]");
    } else {
        assert(old(line)@ + states_part(node@, opts) =~= old(line)@);
    }
}

fn push_actions_part(line: &mut String, node: &AccessibleNode, opts: TextOptions)
    ensures
        final(line)@ == old(line)@ + actions_part(node@, opts),
{
    assert(node@.actions == lines_view(node.actions@));
    if opts.include_actions && node.actions.len() > 0 {
        line.append(" actions=[");
        push_joined(line, &node.actions);
        line.append("]");
    } else {
        assert(old(line)@ + actions_part(node@, opts) =~= old(line)@);
    }
}

fn push_bounds_part(line: &mut String, node: &AccessibleNode, opts: TextOptions)
    ensures
        final(line)@ == old(line)@ + bounds_part(node@, opts),
{
    if opts.include_bounds {
        if let Some(b) = node.bounds {
            line.append(" bounds=");
            push_signed_decimal(line, b.x as i64);
            line.append(",");
            push_signed_decimal(line, b.y as i64);
            line.append(",");
            push_decimal(line, b.w as u64);
            line.append(",");
            push_decimal(line, b.h as u64);
            return;
        }
    }
    assert(old(line)@ + bounds_part(node@, opts) =~= old(line)@);
}

fn push_id_part(line: &mut String, node: &AccessibleNode, opts: TextOptions)
    ensures
        final(line)@ == old(line)@ + id_part(node@, opts),
{
    if opts.include_ids {
        line.append(" id=");
        push_decimal(line, node.id.0);
    } else {
        assert(old(line)@ + id_part(node@, opts) =~= old(line)@);
    }
}

/// The outline line of one node (never containing a newline of its own).
pub fn render_line(node: &AccessibleNode, depth: usize, opts: TextOptions) -> (line: String)
    ensures
        line@ == outline_line(node@, depth as nat, opts),
{
    let mut line = String::new();
    let width: usize = match depth.checked_mul(opts.indent) {
        Some(w) => w,
        None => usize::MAX,
    };
    push_spaces(&mut line, width);
    line.append(node.role.as_str());
    line.append(" \"");
    push_escaped(&mut line, node.name.as_str());
    line.append("\"");
    push_value_part(&mut line, node);
    push_states_part(&mut line, node, opts);
    push_actions_part(&mut line, node, opts);
    push_bounds_part(&mut line, node, opts);
    push_id_part(&mut line, node, opts);
    line
}

/// Append the line of `node` at `depth` and then the lines of its subtree.
fn push_lines(node: &AccessibleNode, depth: usize, opts: TextOptions, lines: &mut Vec<String>)
    ensures
        lines_view(final(lines)@) == lines_view(old(lines)@) + outline_lines(
            node@,
            depth as nat,
            opts,
        ),
    decreases node,
{
    let ghost start = lines_view(lines@);
    let line = render_line(node, depth, opts);
    lines.push(line);
    proof {
        assert(lines_view(lines@) =~= start + seq![outline_line(node@, depth as nat, opts)]);
        lemma_accessibles_view(node.children@);
    }
    let ghost mid = lines_view(lines@);
    let next: usize = if depth < usize::MAX { depth + 1 } else { depth };
    let ghost kids_v = node@.children;
    let mut i: usize = 0;
    assert(outline_lines_all(kids_v.take(0), next as nat, opts) =~= Seq::<Seq<char>>::empty());
    while i < node.children.len()
        invariant
            i <= node.children.len(),
            kids_v == node@.children,
            kids_v.len() == node.children@.len(),
            forall|j: int|
                0 <= j < node.children@.len() ==> kids_v[j] == accessible_view(
                    #[trigger] node.children@[j],
                ),
            lines_view(lines@) == mid + outline_lines_all(kids_v.take(i as int), next as nat, opts),
        decreases node.children.len() - i,
    {
        proof {
            let t1 = kids_v.take(i + 1);
            assert(t1.drop_last() =~= kids_v.take(i as int));
            assert(t1.last() == kids_v[i as int]);
        }
        push_lines(&node.children[i], next, opts, lines);
        i += 1;
    }
    proof {
        assert(kids_v.take(node.children.len() as int) =~= kids_v);
        assert(next as nat == child_depth(depth as nat));
    }
}

/// `accessibles_view` is pointwise.
pub proof fn lemma_accessibles_view(ns: Seq<AccessibleNode>)
    ensures
        accessibles_view(ns).len() == ns.len(),
        forall|i: int|
            0 <= i < ns.len() ==> accessibles_view(ns)[i] == accessible_view(#[trigger] ns[i]),
    decreases ns.len(),
{
    if ns.len() > 0 {
        lemma_accessibles_view(ns.drop_last());
        assert forall|i: int| 0 <= i < ns.len() implies accessibles_view(ns)[i] == accessible_view(
            #[trigger] ns[i],
        ) by {
            if i < ns.len() - 1 {
                assert(ns.drop_last()[i] == ns[i]);
            }
        }
    }
}

/// Render `tree` as its outline: one line per node in pre-order, joined with
/// `\n`, with no trailing newline.
pub fn render_text(tree: &AccessibleTree, opts: TextOptions) -> (text: String)
    ensures
        text@ == outline(*tree, opts),
{
    let mut lines: Vec<String> = Vec::new();
    push_lines(&tree.root, 0, opts, &mut lines);
    assert(lines_view(lines@) =~= outline_lines(tree.root@, 0, opts));
    let ghost all = lines_view(lines@);
    let mut text = String::new();
    let mut i: usize = 0;
    assert(all.take(0) =~= Seq::<Seq<char>>::empty());
    while i < lines.len()
        invariant
            i <= lines.len(),
            all == lines_view(lines@),
            text@ == joined(all.take(i as int), "\n"@),
        decreases lines.len() - i,
    {
        let ghost before = text@;
        if i > 0 {
            text.push('\n');
        }
        text.append(lines[i].as_str());
        proof {
            let t1 = all.take(i + 1);
            assert(t1.drop_last() =~= all.take(i as int));
            assert(t1.last() == lines@[i as int]@);
            if i == 0 {
                assert(text@ =~= joined(t1, "\n"@));
            } else {
                reveal_strlit("\n");
                assert(text@ =~= before + "\n"@ + t1.last());
                assert(text@ =~= joined(t1, "\n"@));
            }
        }
        i += 1;
    }
    assert(all.take(lines.len() as int) =~= all);
    text
}

} // verus!
