//! A permission request as the window asks it: an alert with a yes, a no and
//! a checkbox for "always", where the request comes down to that.

use vstd::prelude::*;

verus! {

/// What one option of a permission request does, and for how long.
#[derive(Clone, Copy, PartialEq, Eq, Debug, Structural)]
pub enum PermissionKind {
    AllowOnce,
    AllowAlways,
    RejectOnce,
    RejectAlways,
}

/// One option the agent offers.
#[derive(Clone, Debug)]
pub struct Choice {
    pub id: String,
    pub name: String,
    pub kind: PermissionKind,
}

/// One of the two answers a request comes down to, with its *once* and
/// *always* forms read as one.
#[derive(Clone, Copy, Debug)]
pub struct Verdict<'a> {
    /// What the button says: the once-form's own label.
    pub label: &'a str,
    pub once: &'a str,
    pub always: Option<&'a str>,
}

impl Verdict<'_> {
    /// The option id this answer sends with the checkbox in that state. An
    /// always with no form to send falls back to the once.
    pub fn id(&self, always: bool) -> (s: String)
        ensures
            s@ == (if always && self.always is Some {
                self.always->0@
            } else {
                self.once@
            }),
    {
        if always {
            match self.always {
                Some(ever) => ever.to_owned(),
                None => self.once.to_owned(),
            }
        } else {
            self.once.to_owned()
        }
    }
}

/// The first option of `kind`, by position.
pub open spec fn first_of(options: Seq<Choice>, kind: PermissionKind) -> Option<int>
    decreases options.len(),
{
    if options.len() == 0 {
        None
    } else if options[0].kind == kind {
        Some(0)
    } else {
        match first_of(options.drop_first(), kind) {
            Some(i) => Some(i + 1),
            None => None,
        }
    }
}

proof fn lemma_first_of(options: Seq<Choice>, kind: PermissionKind)
    ensures
        first_of(options, kind) matches Some(i) ==> 0 <= i < options.len() && options[i].kind
            == kind && forall|j: int| 0 <= j < i ==> options[j].kind != kind,
        first_of(options, kind) is None ==> forall|j: int|
            0 <= j < options.len() ==> options[j].kind != kind,
    decreases options.len(),
{
    if options.len() > 0 && options[0].kind != kind {
        lemma_first_of(options.drop_first(), kind);
        let rest = options.drop_first();
        assert forall|j: int| 1 <= j < options.len() implies options[j] == rest[j - 1] by {}
    }
}

fn find_kind(options: &[Choice], kind: PermissionKind) -> (r: Option<usize>)
    ensures
        r matches Some(i) ==> first_of(options@, kind) == Some(i as int),
        r is None ==> first_of(options@, kind) is None,
{
    let mut i: usize = 0;
    while i < options.len()
        invariant
            i <= options.len(),
            forall|j: int| 0 <= j < i ==> options@[j].kind != kind,
        decreases options.len() - i,
    {
        if options[i].kind == kind {
            proof {
                lemma_first_unique(options@, kind, i as int);
            }
            return Some(i);
        }
        i += 1;
    }
    proof {
        lemma_first_none(options@, kind);
    }
    None
}

proof fn lemma_first_unique(options: Seq<Choice>, kind: PermissionKind, i: int)
    requires
        0 <= i < options.len(),
        options[i].kind == kind,
        forall|j: int| 0 <= j < i ==> options[j].kind != kind,
    ensures
        first_of(options, kind) == Some(i),
    decreases i,
{
    if i > 0 {
        let rest = options.drop_first();
        assert forall|j: int| 0 <= j < i - 1 implies rest[j].kind != kind by {
            assert(rest[j] == options[j + 1]);
        }
        lemma_first_unique(rest, kind, i - 1);
    }
}

proof fn lemma_first_none(options: Seq<Choice>, kind: PermissionKind)
    requires
        forall|j: int| 0 <= j < options.len() ==> options[j].kind != kind,
    ensures
        first_of(options, kind) is None,
    decreases options.len(),
{
    if options.len() > 0 {
        let rest = options.drop_first();
        assert forall|j: int| 0 <= j < rest.len() implies rest[j].kind != kind by {
            assert(rest[j] == options[j + 1]);
        }
        lemma_first_none(rest, kind);
    }
}

/// The once-form and always-form kinds of one side of a request.
pub open spec fn kinds_of(allow: bool) -> (PermissionKind, PermissionKind) {
    if allow {
        (PermissionKind::AllowOnce, PermissionKind::AllowAlways)
    } else {
        (PermissionKind::RejectOnce, PermissionKind::RejectAlways)
    }
}

/// What one side of a request is, where the agent offered its once-form.
pub open spec fn verdict_of(options: Seq<Choice>, allow: bool) -> Option<(int, Option<int>)> {
    let (once, ever) = kinds_of(allow);
    match first_of(options, once) {
        Some(i) => Some((i, first_of(options, ever))),
        None => None,
    }
}

/// Whether `v` is the verdict at `(once, always)` among `options`.
pub open spec fn verdict_at(v: Verdict, options: Seq<Choice>, at: (int, Option<int>)) -> bool {
    &&& v.label@ == options[at.0].name@
    &&& v.once@ == options[at.0].id@
    &&& (v.always is Some <==> at.1 is Some)
    &&& at.1 matches Some(j) ==> v.always->0@ == options[j].id@
}

/// One side of the request, if the agent offered its once-form: without one
/// there is no button to put the checkbox under.
pub fn verdict(options: &[Choice], allow: bool) -> (r: Option<Verdict<'_>>)
    ensures
        r is Some <==> verdict_of(options@, allow) is Some,
        r matches Some(v) ==> verdict_at(v, options@, verdict_of(options@, allow)->0),
{
    let (once, ever) = if allow {
        (PermissionKind::AllowOnce, PermissionKind::AllowAlways)
    } else {
        (PermissionKind::RejectOnce, PermissionKind::RejectAlways)
    };
    let i = match find_kind(options, once) {
        Some(i) => i,
        None => return None,
    };
    proof {
        lemma_first_of(options@, once);
        lemma_first_of(options@, ever);
    }
    let always = match find_kind(options, ever) {
        Some(j) => Some(options[j].id.as_str()),
        None => None,
    };
    Some(Verdict { label: options[i].name.as_str(), once: options[i].id.as_str(), always })
}

/// How many options an alert made of these two sides accounts for.
pub open spec fn covered(deny: (int, Option<int>), allow: (int, Option<int>)) -> int {
    2 + (if deny.1 is Some {
        1int
    } else {
        0
    }) + (if allow.1 is Some {
        1int
    } else {
        0
    })
}

/// The request as an alert — a no and a yes, each with its checkbox — or
/// nothing where it is not one: both once-forms have to be offered, and the
/// two sides have to account for every option the agent sent.
pub fn alert(options: &[Choice]) -> (r: Option<(Verdict<'_>, Verdict<'_>)>)
    ensures
        r is Some <==> (verdict_of(options@, false) matches Some(d) && verdict_of(options@, true) matches Some(a)
            && covered(d, a) == options@.len()),
        r matches Some((deny, allow)) ==> verdict_at(deny, options@, verdict_of(options@, false)->0)
            && verdict_at(allow, options@, verdict_of(options@, true)->0),
{
    let deny = match verdict(options, false) {
        Some(v) => v,
        None => return None,
    };
    let allow = match verdict(options, true) {
        Some(v) => v,
        None => return None,
    };
    let covered: usize = 2 + if deny.always.is_some() {
        1
    } else {
        0
    } + if allow.always.is_some() {
        1
    } else {
        0
    };
    if covered == options.len() {
        Some((deny, allow))
    } else {
        None
    }
}

/// How many of `options` are of `kind`.
pub open spec fn count_kind(options: Seq<Choice>, kind: PermissionKind) -> nat
    decreases options.len(),
{
    if options.len() == 0 {
        0
    } else {
        count_kind(options.drop_first(), kind) + if options[0].kind == kind {
            1nat
        } else {
            0nat
        }
    }
}

proof fn lemma_count_total(options: Seq<Choice>)
    ensures
        options.len() == count_kind(options, PermissionKind::AllowOnce) + count_kind(
            options,
            PermissionKind::AllowAlways,
        ) + count_kind(options, PermissionKind::RejectOnce) + count_kind(
            options,
            PermissionKind::RejectAlways,
        ),
    decreases options.len(),
{
    if options.len() > 0 {
        lemma_count_total(options.drop_first());
    }
}

proof fn lemma_count_first(options: Seq<Choice>, kind: PermissionKind)
    ensures
        first_of(options, kind) is Some <==> count_kind(options, kind) > 0,
    decreases options.len(),
{
    if options.len() > 0 {
        lemma_count_first(options.drop_first(), kind);
    }
}

proof fn lemma_count_two(options: Seq<Choice>, kind: PermissionKind, i: int, j: int)
    requires
        0 <= i < j < options.len(),
        options[i].kind == kind,
        options[j].kind == kind,
    ensures
        count_kind(options, kind) >= 2,
    decreases options.len(),
{
    let rest = options.drop_first();
    if i == 0 {
        assert(rest[j - 1] == options[j]);
        lemma_count_at_least_one(rest, kind, j - 1);
    } else {
        assert(rest[i - 1] == options[i]);
        assert(rest[j - 1] == options[j]);
        lemma_count_two(rest, kind, i - 1, j - 1);
    }
}

proof fn lemma_count_at_least_one(options: Seq<Choice>, kind: PermissionKind, i: int)
    requires
        0 <= i < options.len(),
        options[i].kind == kind,
    ensures
        count_kind(options, kind) >= 1,
    decreases options.len(),
{
    if i > 0 {
        let rest = options.drop_first();
        assert(rest[i - 1] == options[i]);
        lemma_count_at_least_one(rest, kind, i - 1);
    }
}

/// What an option answers to in an alert: one of the four forms the alert
/// sends.
pub open spec fn answered_by(
    options: Seq<Choice>,
    d: (int, Option<int>),
    a: (int, Option<int>),
    i: int,
) -> bool {
    i == d.0 || i == a.0 || d.1 == Some(i) || a.1 == Some(i)
}

/// An alert drops nothing the agent asked about: where a request is shown as
/// an alert, every option it carries is one of the alert's four answers.
pub proof fn lemma_alert_covers_every_option(options: Seq<Choice>)
    requires
        verdict_of(options, false) matches Some(d) && verdict_of(options, true) matches Some(a)
            && covered(d, a) == options.len(),
    ensures
        forall|i: int|
            0 <= i < options.len() ==> answered_by(
                options,
                verdict_of(options, false)->0,
                verdict_of(options, true)->0,
                i,
            ),
{
    let d = verdict_of(options, false)->0;
    let a = verdict_of(options, true)->0;
    lemma_count_total(options);
    lemma_count_first(options, PermissionKind::AllowOnce);
    lemma_count_first(options, PermissionKind::AllowAlways);
    lemma_count_first(options, PermissionKind::RejectOnce);
    lemma_count_first(options, PermissionKind::RejectAlways);
    lemma_first_of(options, PermissionKind::AllowOnce);
    lemma_first_of(options, PermissionKind::AllowAlways);
    lemma_first_of(options, PermissionKind::RejectOnce);
    lemma_first_of(options, PermissionKind::RejectAlways);
    assert forall|i: int| 0 <= i < options.len() implies answered_by(options, d, a, i) by {
        let k = options[i].kind;
        lemma_count_first(options, k);
        lemma_first_of(options, k);
        let f = first_of(options, k)->0;
        if f != i {
            if f < i {
                lemma_count_two(options, k, f, i);
            } else {
                lemma_count_two(options, k, i, f);
            }
            // each kind present is counted once in `covered`, so two of one
            // kind would leave an option over
            assert(false);
        }
    }
}

} // verus!
