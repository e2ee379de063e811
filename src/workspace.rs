use vstd::prelude::*;
use vstd::string::*;

use crate::error::SwayWsError;

verus! {

/// One workspace of a compositor snapshot, with what the queries read of it.
#[derive(Debug, PartialEq, Eq)]
pub struct Workspace {
    /// The workspace number (-1 where the name starts with no number).
    pub num: i32,
    pub name: String,
    /// Name of the output that shows the workspace.
    pub output: String,
    pub focused: bool,
}

impl Workspace {
    pub fn new(num: i32, name: String, output: String, focused: bool) -> (r: Workspace)
        ensures
            r == (Workspace { num, name, output, focused }),
    {
        Workspace { num, name, output, focused }
    }

    /// A field-for-field copy.
    pub fn duplicate(&self) -> (r: Workspace)
        ensures
            r == *self,
    {
        Workspace {
            num: self.num,
            name: self.name.clone(),
            output: self.output.clone(),
            focused: self.focused,
        }
    }
}

/// Some workspace of the snapshot carries the focused flag.
pub open spec fn has_focus(s: Seq<Workspace>) -> bool {
    exists|i: int| 0 <= i < s.len() && #[trigger] s[i].focused
}

/// `k` is the position of the first focused workspace of `s`.
pub open spec fn first_focused_at(s: Seq<Workspace>, k: int) -> bool {
    &&& 0 <= k < s.len()
    &&& s[k].focused
    &&& forall|j: int| 0 <= j < k ==> !(#[trigger] s[j].focused)
}

/// Position of the first focused workspace of `s` (meaningful under `has_focus`).
pub open spec fn focus_index(s: Seq<Workspace>) -> int {
    choose|k: int| first_focused_at(s, k)
}

/// The focused workspace of a snapshot.
pub open spec fn focused_workspace(s: Seq<Workspace>) -> Workspace {
    s[focus_index(s)]
}

/// The workspaces of `s` shown on `output`, in snapshot order.
pub open spec fn on_output(s: Seq<Workspace>, output: Seq<char>) -> Seq<Workspace> {
    s.filter(|w: Workspace| w.output@ == output)
}

/// The navigation ring: the workspaces on the focused workspace's output.
pub open spec fn ring_of(s: Seq<Workspace>) -> Seq<Workspace> {
    on_output(s, focused_workspace(s).output@)
}

/// The workspace before the focused one on its ring, wrapping from first to last.
pub open spec fn previous_workspace(s: Seq<Workspace>) -> Workspace {
    let r = ring_of(s);
    r[(focus_index(r) - 1 + r.len()) % (r.len() as int)]
}

/// The workspace after the focused one on its ring, wrapping from last to first.
pub open spec fn next_workspace(s: Seq<Workspace>) -> Workspace {
    let r = ring_of(s);
    r[(focus_index(r) + 1) % (r.len() as int)]
}

proof fn lemma_first_focused_unique(s: Seq<Workspace>, k: int)
    requires
        first_focused_at(s, k),
    ensures
        has_focus(s),
        focus_index(s) == k,
{
    let c = focus_index(s);
    assert(first_focused_at(s, c));
    if c < k {
        assert(!s[c].focused);
    } else if k < c {
        assert(!s[k].focused);
    }
}

proof fn lemma_focus_index_exists(s: Seq<Workspace>)
    requires
        has_focus(s),
    ensures
        first_focused_at(s, focus_index(s)),
    decreases s.len(),
{
    let t = s.drop_last();
    if has_focus(t) {
        lemma_focus_index_exists(t);
        let k = focus_index(t);
        assert(t[k] == s[k]);
        assert forall|j: int| 0 <= j < k implies !(#[trigger] s[j].focused) by {
            assert(!t[j].focused);
        }
        lemma_first_focused_unique(s, k);
    } else {
        let i = choose|i: int| 0 <= i < s.len() && #[trigger] s[i].focused;
        if i < s.len() - 1 {
            assert(t[i].focused);
        }
        assert forall|j: int| 0 <= j < s.len() - 1 implies !(#[trigger] s[j].focused) by {
            if s[j].focused {
                assert(t[j].focused);
            }
        }
        lemma_first_focused_unique(s, s.len() - 1);
    }
}

/// Circular neighbours on a ring: when the focused workspace sits at position
/// `k` of its ring `R` of length `n` (the first focused one there), the
/// previous workspace is `R[(k - 1 + n) mod n]` and the next one
/// `R[(k + 1) mod n]`; on a ring of one workspace both are that workspace.
pub proof fn lemma_ring_neighbours(s: Seq<Workspace>, k: int)
    requires
        has_focus(s),
        first_focused_at(ring_of(s), k),
    ensures
        previous_workspace(s) == ring_of(s)[(k - 1 + ring_of(s).len()) % (ring_of(s).len() as int)],
        next_workspace(s) == ring_of(s)[(k + 1) % (ring_of(s).len() as int)],
        ring_of(s).len() == 1 ==> previous_workspace(s) == ring_of(s)[k] && next_workspace(s)
            == ring_of(s)[k],
{
    lemma_first_focused_unique(ring_of(s), k);
    if ring_of(s).len() == 1 {
        assert(k == 0);
        assert((k - 1 + 1) % 1 == 0);
        assert((k + 1) % 1 == 0);
    }
}

/// Returns the focused workspace of the snapshot.
pub fn get_workspace_current(workspaces: &Vec<Workspace>) -> (r: Result<Workspace, SwayWsError>)
    ensures
        has_focus(workspaces@) ==> r == Ok::<Workspace, SwayWsError>(focused_workspace(workspaces@)),
        !has_focus(workspaces@) ==> r == Err::<Workspace, SwayWsError>(
            SwayWsError::NoFocusedWorkspace,
        ),
{
    let mut i: usize = 0;
    while i < workspaces.len()
        invariant
            i <= workspaces.len(),
            forall|j: int| 0 <= j < i ==> !(#[trigger] workspaces@[j].focused),
        decreases workspaces.len() - i,
    {
        if workspaces[i].focused {
            proof {
                lemma_first_focused_unique(workspaces@, i as int);
            }
            return Ok(workspaces[i].duplicate());
        }
        i = i + 1;
    }
    Err(SwayWsError::NoFocusedWorkspace)
}

/// The workspaces of the snapshot shown on `output`, in snapshot order, with
/// the position among them of the first focused one.
fn workspaces_on_output(workspaces: &Vec<Workspace>, output: &String) -> (r: (
    Vec<Workspace>,
    Option<usize>,
))
    ensures
        r.0@ == on_output(workspaces@, output@),
        match r.1 {
            Some(k) => first_focused_at(r.0@, k as int),
            None => !has_focus(r.0@),
        },
{
    let mut ring: Vec<Workspace> = Vec::new();
    let mut found: Option<usize> = None;
    let mut i: usize = 0;
    while i < workspaces.len()
        invariant
            i <= workspaces.len(),
            ring@ == on_output(workspaces@.take(i as int), output@),
            match found {
                Some(k) => first_focused_at(ring@, k as int),
                None => forall|j: int| 0 <= j < ring@.len() ==> !(#[trigger] ring@[j].focused),
            },
        decreases workspaces.len() - i,
    {
        proof {
            let t = workspaces@.take(i as int + 1);
            assert(t.drop_last() =~= workspaces@.take(i as int));
            assert(t.last() == workspaces@[i as int]);
            reveal(Seq::filter);
        }
        if workspaces[i].output == *output {
            if workspaces[i].focused {
                if found.is_none() {
                    found = Some(ring.len());
                }
            }
            ring.push(workspaces[i].duplicate());
        }
        i = i + 1;
    }
    proof {
        assert(workspaces@.take(workspaces@.len() as int) =~= workspaces@);
    }
    (ring, found)
}

/// The ring of the focused workspace, its length and the focused position on it.
fn focused_ring(workspaces: &Vec<Workspace>) -> (r: Result<(Vec<Workspace>, usize), SwayWsError>)
    ensures
        has_focus(workspaces@) ==> r is Ok && ({
            let (ring, k) = r->Ok_0;
            &&& ring@ == ring_of(workspaces@)
            &&& ring@.len() > 0
            &&& focus_index(ring@) == k
            &&& first_focused_at(ring@, k as int)
        }),
        !has_focus(workspaces@) ==> r == Err::<(Vec<Workspace>, usize), SwayWsError>(
            SwayWsError::NoFocusedWorkspace,
        ),
{
    let current = match get_workspace_current(workspaces) {
        Ok(w) => w,
        Err(e) => return Err(e),
    };
    let (ring, found) = workspaces_on_output(workspaces, &current.output);
    proof {
        let s = workspaces@;
        let c = focus_index(s);
        lemma_focus_index_exists(s);
        let pred = |w: Workspace| w.output@ == current.output@;
        s.lemma_filter_contains(pred, c);
        assert(ring@.contains(s[c]));
        let j = choose|j: int| 0 <= j < ring@.len() && ring@[j] == s[c];
        assert(ring@[j].focused);
    }
    if ring.len() == 0 {
        return Err(SwayWsError::EmptyOutput);
    }
    match found {
        None => Err(SwayWsError::NoFocusedWorkspace),
        Some(k) => {
            proof {
                lemma_first_focused_unique(ring@, k as int);
            }
            Ok((ring, k))
        },
    }
}

/// Returns the workspace before the focused one on the focused workspace's
/// output, wrapping around from the first to the last.
pub fn get_workspace_prev(workspaces: &Vec<Workspace>) -> (r: Result<Workspace, SwayWsError>)
    ensures
        has_focus(workspaces@) ==> r == Ok::<Workspace, SwayWsError>(
            previous_workspace(workspaces@),
        ),
        !has_focus(workspaces@) ==> r == Err::<Workspace, SwayWsError>(
            SwayWsError::NoFocusedWorkspace,
        ),
{
    let (ring, k) = match focused_ring(workspaces) {
        Ok(x) => x,
        Err(e) => return Err(e),
    };
    let n = ring.len();
    let p: usize = if k == 0 {
        n - 1
    } else {
        k - 1
    };
    proof {
        let (ki, ni) = (k as int, n as int);
        assert((ki - 1 + ni) % ni == p as int) by (nonlinear_arith)
            requires
                0 <= ki < ni,
                p as int == (if ki == 0 { ni - 1 } else { ki - 1 }),
        ;
    }
    Ok(ring[p].duplicate())
}

/// Returns the workspace after the focused one on the focused workspace's
/// output, wrapping around from the last to the first.
pub fn get_workspace_next(workspaces: &Vec<Workspace>) -> (r: Result<Workspace, SwayWsError>)
    ensures
        has_focus(workspaces@) ==> r == Ok::<Workspace, SwayWsError>(next_workspace(workspaces@)),
        !has_focus(workspaces@) ==> r == Err::<Workspace, SwayWsError>(
            SwayWsError::NoFocusedWorkspace,
        ),
{
    let (ring, k) = match focused_ring(workspaces) {
        Ok(x) => x,
        Err(e) => return Err(e),
    };
    let n = ring.len();
    let p: usize = if k + 1 == n {
        0
    } else {
        k + 1
    };
    proof {
        let (ki, ni) = (k as int, n as int);
        assert((ki + 1) % ni == p as int) by (nonlinear_arith)
            requires
                0 <= ki < ni,
                p as int == (if ki + 1 == ni { 0 } else { ki + 1 }),
        ;
    }
    Ok(ring[p].duplicate())
}

/// The strings that name a workspace relative to the focus.
pub open spec fn is_symbolic_token(t: Seq<char>) -> bool {
    t == "current"@ || t == "prev"@ || t == "next"@
}

/// Resolves a workspace token: "current", "prev" and "next" become the name
/// of the focused, previous or next workspace; any other string is a
/// workspace name and comes back as it is.
pub fn get_workspace_special(name: String, workspaces: &Vec<Workspace>) -> (r: Result<
    String,
    SwayWsError,
>)
    ensures
        name@ == "current"@ && has_focus(workspaces@) ==> r == Ok::<String, SwayWsError>(
            focused_workspace(workspaces@).name,
        ),
        name@ == "prev"@ && has_focus(workspaces@) ==> r == Ok::<String, SwayWsError>(
            previous_workspace(workspaces@).name,
        ),
        name@ == "next"@ && has_focus(workspaces@) ==> r == Ok::<String, SwayWsError>(
            next_workspace(workspaces@).name,
        ),
        is_symbolic_token(name@) && !has_focus(workspaces@) ==> r == Err::<String, SwayWsError>(
            SwayWsError::NoFocusedWorkspace,
        ),
        !is_symbolic_token(name@) ==> r == Ok::<String, SwayWsError>(name),
{
    proof {
        reveal_strlit("current");
        reveal_strlit("prev");
        reveal_strlit("next");
        assert("current"@.len() != "prev"@.len());
        assert("current"@.len() != "next"@.len());
        assert("prev"@[0] != "next"@[0]);
    }
    let found = if name == String::from_str("current") {
        get_workspace_current(workspaces)
    } else if name == String::from_str("prev") {
        get_workspace_prev(workspaces)
    } else if name == String::from_str("next") {
        get_workspace_next(workspaces)
    } else {
        return Ok(name);
    };
    match found {
        Ok(w) => Ok(w.name),
        Err(e) => Err(e),
    }
}

} // verus!
