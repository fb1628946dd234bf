//! Sets of texts kept in a list: which are in, and putting one in or out.

use vstd::prelude::*;
use crate::text::same_text;

verus! {

/// Whether one of `keys` spells `key`.
pub open spec fn holds_key(keys: Seq<String>, key: Seq<char>) -> bool {
    exists|i: int| 0 <= i < keys.len() && #[trigger] keys[i]@ == key
}

/// `key` taken out of `keys` where one of them spells it, put in where none
/// does; whether any other text is among them does not change.
pub fn toggle(collapsed: &mut Vec<String>, key: &str)
    ensures
        turned_over(old(collapsed)@, final(collapsed)@, key@),
{
    let ghost before = collapsed@;
    let mut kept: Vec<String> = Vec::new();
    let mut found = false;
    let mut i: usize = 0;
    while i < collapsed.len()
        invariant
            before == old(collapsed)@,
            collapsed@ == old(collapsed)@,
            i <= collapsed.len(),
            found == holds_key(before.take(i as int), key@),
            !holds_key(kept@, key@),
            forall|other: Seq<char>|
                other != key@ ==> (#[trigger] holds_key(kept@, other) == holds_key(
                    before.take(i as int),
                    other,
                )),
        decreases collapsed.len() - i,
    {
        let ghost prior = kept@;
        let ghost taken = before.take(i as int);
        let ghost next = before.take(i + 1);
        assert(next =~= taken.push(before[i as int]));
        if same_text(collapsed[i].as_str(), key) {
            found = true;
            assert(next[i as int]@ == key@);
            assert forall|other: Seq<char>| other != key@ implies (#[trigger] holds_key(
                kept@,
                other,
            ) == holds_key(next, other)) by {
                if holds_key(next, other) {
                    let j = choose|j: int| 0 <= j < next.len() && #[trigger] next[j]@ == other;
                    assert(j < i);
                    assert(taken[j]@ == other);
                }
                if holds_key(taken, other) {
                    let j = choose|j: int| 0 <= j < taken.len() && #[trigger] taken[j]@ == other;
                    assert(next[j]@ == other);
                }
            }
        } else {
            let s = collapsed[i].as_str().to_owned();
            kept.push(s);
            let ghost now = kept@;
            assert(now[prior.len() as int]@ == before[i as int]@);
            assert(found == holds_key(next, key@)) by {
                if holds_key(next, key@) {
                    let j = choose|j: int| 0 <= j < next.len() && #[trigger] next[j]@ == key@;
                    assert(j < i);
                    assert(taken[j]@ == key@);
                }
                if holds_key(taken, key@) {
                    let j = choose|j: int| 0 <= j < taken.len() && #[trigger] taken[j]@ == key@;
                    assert(next[j]@ == key@);
                }
            }
            assert(!holds_key(now, key@)) by {
                if holds_key(now, key@) {
                    let j = choose|j: int| 0 <= j < now.len() && #[trigger] now[j]@ == key@;
                    if j < prior.len() {
                        assert(prior[j]@ == key@);
                    }
                }
            }
            assert forall|other: Seq<char>| other != key@ implies (#[trigger] holds_key(
                now,
                other,
            ) == holds_key(next, other)) by {
                if holds_key(next, other) {
                    let j = choose|j: int| 0 <= j < next.len() && #[trigger] next[j]@ == other;
                    if j < i {
                        assert(taken[j]@ == other);
                        assert(holds_key(prior, other));
                        let m = choose|m: int| 0 <= m < prior.len() && #[trigger] prior[m]@ == other;
                        assert(now[m]@ == other);
                    } else {
                        assert(now[prior.len() as int]@ == other);
                    }
                }
                if holds_key(now, other) {
                    let m = choose|m: int| 0 <= m < now.len() && #[trigger] now[m]@ == other;
                    if m < prior.len() {
                        assert(prior[m]@ == other);
                        assert(holds_key(prior, other));
                        assert(holds_key(taken, other));
                        let j = choose|j: int| 0 <= j < taken.len() && #[trigger] taken[j]@ == other;
                        assert(next[j]@ == other);
                    } else {
                        assert(next[i as int]@ == other);
                    }
                }
            }
        }
        i += 1;
    }
    assert(before.take(collapsed.len() as int) =~= before);
    if !found {
        let ghost prior = kept@;
        kept.push(key.to_owned());
        let ghost now = kept@;
        assert(now[prior.len() as int]@ == key@);
        assert forall|other: Seq<char>| other != key@ implies (#[trigger] holds_key(now, other)
            == holds_key(prior, other)) by {
            if holds_key(now, other) {
                let m = choose|m: int| 0 <= m < now.len() && #[trigger] now[m]@ == other;
                assert(m < prior.len());
                assert(prior[m]@ == other);
            }
            if holds_key(prior, other) {
                let m = choose|m: int| 0 <= m < prior.len() && #[trigger] prior[m]@ == other;
                assert(now[m]@ == other);
            }
        }
    }
    *collapsed = kept;
}

/// Whether one of `keys` spells `key`.
pub fn holds(keys: &Vec<String>, key: &str) -> (b: bool)
    ensures
        b == holds_key(keys@, key@),
{
    let mut i: usize = 0;
    while i < keys.len()
        invariant
            i <= keys.len(),
            forall|j: int| 0 <= j < i ==> keys@[j]@ != key@,
        decreases keys.len() - i,
    {
        if same_text(keys[i].as_str(), key) {
            assert(keys@[i as int]@ == key@);
            return true;
        }
        i += 1;
    }
    false
}

/// `key` put in `keys`, where none of them spells it yet.
pub fn put(keys: &mut Vec<String>, key: &str)
    ensures
        holds_key(final(keys)@, key@),
        forall|other: Seq<char>|
            other != key@ ==> (#[trigger] holds_key(final(keys)@, other) == holds_key(
                old(keys)@,
                other,
            )),
{
    if holds(keys, key) {
        return;
    }
    let ghost prior = keys@;
    keys.push(key.to_owned());
    let ghost now = keys@;
    assert(now[prior.len() as int]@ == key@);
    assert forall|other: Seq<char>| other != key@ implies (#[trigger] holds_key(now, other)
        == holds_key(prior, other)) by {
        if holds_key(now, other) {
            let m = choose|m: int| 0 <= m < now.len() && #[trigger] now[m]@ == other;
            assert(m < prior.len());
            assert(prior[m]@ == other);
        }
        if holds_key(prior, other) {
            let m = choose|m: int| 0 <= m < prior.len() && #[trigger] prior[m]@ == other;
            assert(now[m]@ == other);
        }
    }
}

/// Whether `after` is `before` with `key` turned over: taken out where it
/// was in, put in where it was not, every other text as it was.
pub open spec fn turned_over(before: Seq<String>, after: Seq<String>, key: Seq<char>) -> bool {
    &&& holds_key(before, key) != holds_key(after, key)
    &&& forall|other: Seq<char>|
        other != key ==> #[trigger] holds_key(after, other) == holds_key(before, other)
}

/// Turning the same text over twice gives back the same set.
pub proof fn lemma_turn_over_twice(a: Seq<String>, b: Seq<String>, c: Seq<String>, key: Seq<char>)
    requires
        turned_over(a, b, key),
        turned_over(b, c, key),
    ensures
        forall|other: Seq<char>| #[trigger] holds_key(c, other) == holds_key(a, other),
{
    assert forall|other: Seq<char>| #[trigger] holds_key(c, other) == holds_key(a, other) by {
        if other != key {
            assert(holds_key(c, other) == holds_key(b, other));
            assert(holds_key(b, other) == holds_key(a, other));
        }
    }
}

} // verus!
