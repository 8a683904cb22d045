use vstd::prelude::*;

verus! {

/// Metadata of a window: the application's class and the window's title.
pub struct WindowProps {
    pub class: String,
    pub title: String,
}

/// One node of a window-tree snapshot: a focus flag, optional window
/// metadata and the ordered child nodes.
pub struct WindowNode {
    pub focused: bool,
    pub props: Option<WindowProps>,
    pub nodes: Vec<WindowNode>,
}

impl WindowNode {
    /// A node without focus, metadata or children.
    pub fn empty() -> (r: WindowNode)
        ensures
            !r.focused,
            r.props is None,
            r.nodes@.len() == 0,
    {
        WindowNode { focused: false, props: None, nodes: Vec::new() }
    }
}

/// The first focused node of `n` in pre-order, if any.
pub open spec fn focus_of(n: WindowNode) -> Option<WindowNode>
    decreases n, 1int, 0int,
{
    if n.focused {
        Some(n)
    } else {
        focus_among(n, 0)
    }
}

/// The first focused node in pre-order among the children of `n` from index `i` on.
pub open spec fn focus_among(n: WindowNode, i: int) -> Option<WindowNode>
    decreases n, 0int, n.nodes@.len() - i,
{
    if i < 0 || i >= n.nodes@.len() {
        None
    } else {
        let c = n.nodes@[i];
        match focus_of(c) {
            Some(f) => Some(f),
            None => focus_among(n, i + 1),
        }
    }
}

/// Whether some node of `n` (itself included) is flagged focused.
pub open spec fn has_focus(n: WindowNode) -> bool
    decreases n,
{
    n.focused || exists|i: int| 0 <= i < n.nodes@.len() && has_focus(#[trigger] n.nodes@[i])
}

/// The pre-order search finds nothing exactly when no node of the tree is
/// flagged focused, and what it finds is a focused node.
pub proof fn lemma_focus_found(n: WindowNode)
    ensures
        (focus_of(n) is None) == !has_focus(n),
        focus_of(n) matches Some(f) ==> f.focused,
    decreases n, 1int, 0int,
{
    if !n.focused {
        lemma_focus_among(n, 0);
    }
}

/// The search among the children of `n` from index `i` on finds nothing
/// exactly when none of those subtrees holds a focused node.
pub proof fn lemma_focus_among(n: WindowNode, i: int)
    requires
        0 <= i <= n.nodes@.len(),
    ensures
        (focus_among(n, i) is None) == !(exists|j: int|
            i <= j < n.nodes@.len() && has_focus(#[trigger] n.nodes@[j])),
        focus_among(n, i) matches Some(f) ==> f.focused,
    decreases n, 0int, n.nodes@.len() - i,
{
    if i < n.nodes@.len() {
        let c = n.nodes@[i];
        assert(decreases_to!(n => c)) by {
            assert(decreases_to!(n => n.nodes));
            assert(decreases_to!(n.nodes => n.nodes@));
            assert(decreases_to!(n.nodes@ => n.nodes@[i]));
        }
        lemma_focus_found(c);
        lemma_focus_among(n, i + 1);
        if focus_of(c) is None {
            assert forall|j: int| i <= j < n.nodes@.len() && has_focus(#[trigger] n.nodes@[j])
                implies i + 1 <= j by {
                if j == i {
                    assert(n.nodes@[j] == c);
                }
            }
        }
    }
}

/// Finds the focused window of a snapshot: pre-order depth-first, the first
/// node flagged focused wins; `None` when no node is focused.
pub fn get_focused_window(n: &WindowNode) -> (r: Option<&WindowNode>)
    ensures
        match r {
            Some(f) => focus_of(*n) == Some(*f),
            None => focus_of(*n) is None,
        },
    decreases *n,
{
    if n.focused {
        return Some(n);
    }
    let mut i: usize = 0;
    while i < n.nodes.len()
        invariant
            0 <= i <= n.nodes@.len(),
            !n.focused,
            focus_of(*n) == focus_among(*n, i as int),
        decreases n.nodes@.len() - i,
    {
        let c = &n.nodes[i];
        let res = get_focused_window(c);
        if res.is_some() {
            assert(n.nodes@[i as int] == *c);
            assert(focus_among(*n, i as int) == focus_of(*c));
            return res;
        }
        i = i + 1;
    }
    None
}

} // verus!
