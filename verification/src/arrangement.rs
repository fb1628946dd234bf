//! Panes in a space: which of a pane's tabs is in front, where the focus
//! steps, what a closed tab leaves in front, and where a drop lands.

use vstd::prelude::*;
use vstd::wrapping::usize_specs::{wrapping_add, wrapping_mul};
use crate::text::same_text;

verus! {

/// What kind of entry a member of a space is.
#[derive(Clone, Copy, PartialEq, Eq, Debug, Structural)]
pub enum Kind {
    Session,
    Board,
    Article,
    Table,
}

/// An entry a space names: which project, which kind, which one.
#[derive(Clone, Debug)]
pub struct Member {
    pub project: String,
    pub kind: Kind,
    pub id: String,
}

impl View for Member {
    type V = (Seq<char>, Kind, Seq<char>);

    open spec fn view(&self) -> (Seq<char>, Kind, Seq<char>) {
        (self.project@, self.kind, self.id@)
    }
}

/// Whether two members name the same entry.
pub fn same_member(a: &Member, b: &Member) -> (same: bool)
    ensures
        same == (a@ == b@),
{
    a.kind == b.kind && same_text(a.project.as_str(), b.project.as_str()) && same_text(
        a.id.as_str(),
        b.id.as_str(),
    )
}

/// Where `m` first stands in `stack`, if it does.
pub open spec fn position_in(stack: Seq<Member>, m: (Seq<char>, Kind, Seq<char>)) -> Option<int>
    decreases stack.len(),
{
    if stack.len() == 0 {
        None
    } else if stack[0]@ == m {
        Some(0)
    } else {
        match position_in(stack.drop_first(), m) {
            Some(i) => Some(i + 1),
            None => None,
        }
    }
}

fn find(stack: &Vec<Member>, m: &Member) -> (at: Option<usize>)
    ensures
        (match at {
            Some(i) => position_in(stack@, m@) == Some(i as int),
            None => position_in(stack@, m@) is None,
        }),
{
    let mut i: usize = 0;
    assert(stack@.skip(0) =~= stack@);
    while i < stack.len()
        invariant
            i <= stack.len(),
            position_in(stack@, m@) == match position_in(stack@.skip(i as int), m@) {
                Some(k) => Some(k + i),
                None => None,
            },
        decreases stack.len() - i,
    {
        assert(stack@.skip(i as int)[0] == stack@[i as int]);
        assert(stack@.skip(i as int).drop_first() =~= stack@.skip(i + 1));
        if same_member(&stack[i], m) {
            return Some(i);
        }
        i += 1;
    }
    None
}

/// Which of a pane's tabs it shows: the one remembered for it, while that is
/// still in its strip; else the first of the strip; else the pane's own name.
pub open spec fn front_spec(
    remembered: Option<Member>,
    stack: Seq<Member>,
    pane: Member,
) -> (Seq<char>, Kind, Seq<char>) {
    match remembered {
        Some(r) if position_in(stack, r@) is Some => r@,
        _ => if stack.len() > 0 {
            stack[0]@
        } else {
            pane@
        },
    }
}

/// Which of a pane's entries it is showing: what was last put in front of
/// it, falling back to the first of its strip once that is gone from it.
pub fn front_of(remembered: Option<&Member>, stack: &Vec<Member>, pane: &Member) -> (front: Member)
    ensures
        front@ == front_spec(
            match remembered {
                Some(r) => Some(*r),
                None => None,
            },
            stack@,
            *pane,
        ),
{
    if let Some(r) = remembered {
        if find(stack, r).is_some() {
            return r.clone_member();
        }
    }
    if stack.len() > 0 {
        stack[0].clone_member()
    } else {
        pane.clone_member()
    }
}

impl Member {
    /// A copy of this member.
    pub fn clone_member(&self) -> (m: Member)
        ensures
            m@ == self@,
    {
        Member { project: self.project.clone(), kind: self.kind, id: self.id.clone() }
    }
}

/// The tab that is in front once `closed` is taken out of its strip: its
/// neighbour to the left, or to the right for the first — nothing where it
/// was the strip's last tab, or not in the strip at all.
pub open spec fn kept_spec(stack: Seq<Member>, closed: (Seq<char>, Kind, Seq<char>)) -> Option<
    (Seq<char>, Kind, Seq<char>),
> {
    match position_in(stack, closed) {
        Some(at) => if stack.len() > 1 {
            if at == 0 {
                Some(stack[1]@)
            } else {
                Some(stack[at - 1]@)
            }
        } else {
            None
        },
        None => None,
    }
}

pub proof fn lemma_position_bound(stack: Seq<Member>, m: (Seq<char>, Kind, Seq<char>))
    ensures
        position_in(stack, m) matches Some(i) ==> 0 <= i < stack.len() && stack[i]@ == m,
    decreases stack.len(),
{
    if stack.len() > 0 && stack[0]@ != m {
        lemma_position_bound(stack.drop_first(), m);
    }
}

/// What is in front of a pane once the tab `closed` is taken out of it: a
/// neighbour in the strip rather than a jump.
pub fn kept_after_close(stack: &Vec<Member>, closed: &Member) -> (kept: Option<Member>)
    ensures
        (match kept {
            Some(k) => kept_spec(stack@, closed@) == Some(k@),
            None => kept_spec(stack@, closed@) is None,
        }),
{
    proof {
        lemma_position_bound(stack@, closed@);
    }
    match find(stack, closed) {
        Some(at) => if stack.len() > 1 {
            if at == 0 {
                Some(stack[1].clone_member())
            } else {
                Some(stack[at - 1].clone_member())
            }
        } else {
            None
        },
        None => None,
    }
}

/// The pane the focus steps to: `step` along from the pane at `at`, wrapping
/// round the arrangement; nothing where there is no other pane to step to.
pub fn step_target(at: usize, step: isize, panes: usize) -> (landing: Option<usize>)
    requires
        at < panes,
    ensures
        panes < 2 ==> landing is None,
        panes >= 2 ==> landing == Some(((at as int + step as int) % (panes as int)) as usize),
{
    if panes < 2 {
        return None;
    }
    let n = panes as u128;
    let r: u128 = if step >= 0 {
        let s = (step as u128) % n;
        (at as u128 + s) % n
    } else {
        let s = ((-(step as i128)) as u128) % n;
        (at as u128 + n - s) % n
    };
    proof {
        let x = at as int;
        let k = step as int;
        let m = panes as int;
        if k >= 0 {
            vstd::arithmetic::div_mod::lemma_add_mod_noop_right(x, k, m);
        } else {
            let y = -k;
            vstd::arithmetic::div_mod::lemma_sub_mod_noop_right(x + m, y, m);
            vstd::arithmetic::div_mod::lemma_mod_multiples_vanish(1, x - y, m);
            assert(m * 1 + (x - y) == x + m - y);
        }
    }
    Some(r as usize)
}

/// A seam's place in the window, folded into one number an element can be
/// named by.
pub open spec fn seam_fold(path: Seq<usize>) -> usize
    decreases path.len(),
{
    if path.len() == 0 {
        1
    } else {
        wrapping_add(wrapping_mul(seam_fold(path.drop_last()), 31), path.last())
    }
}

/// A seam's place in the window — the path to its split, and which child it
/// follows — as something that can be an element id.
pub fn seam_id(path: &Vec<usize>, at: usize) -> (id: usize)
    ensures
        id == wrapping_add(wrapping_mul(seam_fold(path@), 31), at),
{
    let mut id: usize = 1;
    let mut i: usize = 0;
    while i < path.len()
        invariant
            i <= path.len(),
            id == seam_fold(path@.take(i as int)),
        decreases path.len() - i,
    {
        assert(path@.take(i + 1).drop_last() =~= path@.take(i as int));
        id = id.wrapping_mul(31).wrapping_add(path[i]);
        i += 1;
    }
    assert(path@.take(path.len() as int) =~= path@);
    id.wrapping_mul(31).wrapping_add(at)
}

/// The edge of a pane a drop lands on.
#[derive(Clone, Copy, PartialEq, Eq, Debug, Structural)]
pub enum Side {
    Left,
    Right,
    Above,
    Below,
}

/// Where a release on a pane lands the entry being dragged.
#[derive(Clone, Copy, PartialEq, Eq, Debug, Structural)]
pub enum Landing {
    /// On an edge: the pane divides, and the arrival takes that side.
    Edge(Side),
    /// On the bar: the arrival joins the pane's strip as a tab.
    Bar,
}

/// What a seam carries while it is dragged: the split it divides, by its
/// path from the root, and which of that split's children it sits after.
#[derive(Clone, Debug)]
pub struct SeamDrag {
    pub path: Vec<usize>,
    pub at: usize,
}

/// The panes an entry is read in.
#[derive(Clone, Copy, PartialEq, Eq, Debug, Structural)]
pub enum Pane {
    Chat,
    Board,
    Article,
    Table,
}

/// The pane one kind of entry is read in.
pub fn pane_of(kind: Kind) -> (p: Pane)
    ensures
        p == (match kind {
            Kind::Session => Pane::Chat,
            Kind::Board => Pane::Board,
            Kind::Article => Pane::Article,
            Kind::Table => Pane::Table,
        }),
{
    match kind {
        Kind::Session => Pane::Chat,
        Kind::Board => Pane::Board,
        Kind::Article => Pane::Article,
        Kind::Table => Pane::Table,
    }
}

/// A kind's name, as a pane's element key spells it.
pub open spec fn kind_name(kind: Kind) -> Seq<char> {
    match kind {
        Kind::Session => "Session"@,
        Kind::Board => "Board"@,
        Kind::Article => "Article"@,
        Kind::Table => "Table"@,
    }
}

/// The key a pane's element is known by: project, kind and id, joined by
/// `::`.
pub fn key_of(member: &Member) -> (k: String)
    ensures
        k@ == member.project@ + "::"@ + kind_name(member.kind) + "::"@ + member.id@,
{
    let mut out = crate::text::chars_of(member.project.as_str());
    crate::text::push_str(&mut out, "::");
    match member.kind {
        Kind::Session => crate::text::push_str(&mut out, "Session"),
        Kind::Board => crate::text::push_str(&mut out, "Board"),
        Kind::Article => crate::text::push_str(&mut out, "Article"),
        Kind::Table => crate::text::push_str(&mut out, "Table"),
    }
    crate::text::push_str(&mut out, "::");
    crate::text::push_chars(&mut out, &crate::text::chars_of(member.id.as_str()));
    crate::text::string_of(&out)
}

/// The pane the focus steps to from the pane `here` (the one at the head of
/// the focused tab's strip): `step` along the panes from where `here` stands,
/// or from the first where it stands nowhere; nothing with fewer than two
/// panes.
pub fn stepped(panes: &Vec<Member>, here: Option<&Member>, step: isize) -> (to: Option<usize>)
    ensures
        panes.len() < 2 ==> to is None,
        panes.len() >= 2 ==> to == Some(
            ((match here {
                Some(h) => match position_in(panes@, h@) {
                    Some(i) => i,
                    None => 0,
                },
                None => 0,
            } + step as int) % (panes.len() as int)) as usize,
        ),
{
    if panes.len() < 2 {
        return None;
    }
    proof {
        match here {
            Some(h) => lemma_position_bound(panes@, h@),
            None => {},
        }
    }
    let at = match here {
        Some(h) => match find(panes, h) {
            Some(i) => i,
            None => 0,
        },
        None => 0,
    };
    step_target(at, step, panes.len())
}

/// Where `m` first stands in a strip, it is found there.
proof fn lemma_position_at(stack: Seq<Member>, at: int)
    requires
        0 <= at < stack.len(),
        forall|j: int| 0 <= j < at ==> (#[trigger] stack[j])@ != stack[at]@,
    ensures
        position_in(stack, stack[at]@) == Some(at),
    decreases at,
{
    if at > 0 {
        let rest = stack.drop_first();
        assert(rest[at - 1] == stack[at]);
        assert forall|j: int| 0 <= j < at - 1 implies (#[trigger] rest[j])@ != rest[at - 1]@ by {
            assert(rest[j] == stack[j + 1]);
        }
        lemma_position_at(rest, at - 1);
        assert(stack[0]@ != stack[at]@);
    }
}

/// Closing a tab brings its neighbour in the strip to the front, never a
/// jump: the tab to its left, or for the first tab the one after it; a strip
/// of one leaves nothing in front.
pub proof fn lemma_close_keeps_neighbour(stack: Seq<Member>, at: int)
    requires
        0 <= at < stack.len(),
        forall|j: int| 0 <= j < at ==> (#[trigger] stack[j])@ != stack[at]@,
    ensures
        stack.len() >= 2 && at > 0 ==> kept_spec(stack, stack[at]@) == Some(stack[at - 1]@),
        stack.len() >= 2 && at == 0 ==> kept_spec(stack, stack[at]@) == Some(stack[1]@),
        stack.len() == 1 ==> kept_spec(stack, stack[at]@) is None,
{
    lemma_position_at(stack, at);
}

} // verus!
