//! The applications a file can be opened with, as the "open with" menu lists
//! them: this app left out, ways of opening after applications, Zed first
//! among those, then by name; each icon decoded; each application once.

use vstd::prelude::*;
use crate::external::Target;
use crate::files::{lemma_lex_total, lemma_lex_trans, lex_le, name_le};
use crate::text::{chars_of, lowercase, same_text, to_lowercase};

verus! {

/// An entry of the menu: its name, its path, `default` or `terminal` for
/// the entries that stand for a way of opening rather than an application
/// (empty for an application), its icon as base64 PNG as the lister sent it,
/// and the icon's bytes once decoded.
pub struct Application {
    pub name: String,
    pub path: String,
    pub kind: String,
    pub icon: String,
    pub image: Option<Vec<u8>>,
}

impl Application {
    /// How choosing the entry opens the file.
    pub fn target(&self) -> (t: Target)
        ensures
            self.kind@ == "default"@ ==> t is Default,
            self.kind@ == "terminal"@ ==> t is Terminal,
            self.kind@ != "default"@ && self.kind@ != "terminal"@ ==> (t matches Target::Application(
                p,
            ) && p@ == self.path@),
    {
        proof {
            reveal_strlit("default");
            reveal_strlit("terminal");
            assert("default"@[0] != "terminal"@[0]);
        }
        if same_text(self.kind.as_str(), "default") {
            Target::Default
        } else if same_text(self.kind.as_str(), "terminal") {
            Target::Terminal
        } else {
            Target::Application(self.path.as_str().to_owned())
        }
    }
}

/// `c` in lower case where it is an ASCII capital.
pub open spec fn ascii_lower(c: char) -> char {
    if 'A' <= c && c <= 'Z' {
        ((c as u32) + 32) as char
    } else {
        c
    }
}

/// Whether `name` is this app's own, whatever the ASCII case.
pub open spec fn is_self(name: Seq<char>) -> bool {
    let own = seq!['c', 'y', 'd', 'o', 'n', 'i', 'a'];
    name.len() == own.len() && forall|i: int| 0 <= i < own.len() ==> ascii_lower(#[trigger] name[i]) == own[i]
}

fn is_own(name: &str) -> (b: bool)
    ensures
        b == is_self(name@),
{
    let own = ['c', 'y', 'd', 'o', 'n', 'i', 'a'];
    let cs = chars_of(name);
    if cs.len() != 7 {
        return false;
    }
    let mut i: usize = 0;
    while i < 7
        invariant
            cs.len() == 7,
            cs@ == name@,
            own@ == seq!['c', 'y', 'd', 'o', 'n', 'i', 'a'],
            i <= 7,
            forall|j: int| 0 <= j < i ==> ascii_lower(#[trigger] cs@[j]) == own@[j],
        decreases 7 - i,
    {
        let c = cs[i];
        let lower = if 'A' <= c && c <= 'Z' {
            ((c as u32) + 32) as u8 as char
        } else {
            c
        };
        assert(lower == ascii_lower(c)) by {
            if 'A' <= c && c <= 'Z' {
                assert(((c as u32) + 32) < 256);
            }
        }
        if lower != own[i] {
            assert(ascii_lower(cs@[i as int]) != seq!['c', 'y', 'd', 'o', 'n', 'i', 'a'][i as int]);
            return false;
        }
        i += 1;
    }
    true
}

/// Where an entry is listed: ways of opening after applications, Zed ahead
/// of the other applications, then by name in lower case.
pub open spec fn app_key(a: Application) -> (bool, bool, Seq<char>) {
    (a.kind@.len() > 0, a.name@ != seq!['Z', 'e', 'd'], lowercase(a.name@))
}

/// Whether an entry keyed `x` is listed no later than one keyed `y`.
pub open spec fn key_le(x: (bool, bool, Seq<char>), y: (bool, bool, Seq<char>)) -> bool {
    if x.0 != y.0 {
        !x.0
    } else if x.1 != y.1 {
        !x.1
    } else {
        lex_le(x.2, y.2)
    }
}

/// Whether the entry at `i` comes before the one at `j`: it is keyed lower,
/// or keyed the same and came first — a stable order.
pub open spec fn precedes(keys: Seq<(bool, bool, Seq<char>)>, i: int, j: int) -> bool {
    key_le(keys[i], keys[j]) && (key_le(keys[j], keys[i]) ==> i < j)
}

/// Whether `order` lists every index of `keys` once, in stable key order.
pub open spec fn stable_order(keys: Seq<(bool, bool, Seq<char>)>, order: Seq<usize>) -> bool {
    &&& order.len() == keys.len()
    &&& forall|a: int| 0 <= a < order.len() ==> #[trigger] order[a] < keys.len()
    &&& forall|a: int, b: int| 0 <= a < b < order.len() ==> order[a] != order[b]
    &&& forall|a: int, b: int|
        0 <= a < b < order.len() ==> precedes(keys, #[trigger] order[a] as int, #[trigger] order[b] as int)
}

proof fn lemma_key_total(x: (bool, bool, Seq<char>), y: (bool, bool, Seq<char>))
    ensures
        key_le(x, y) || key_le(y, x),
{
    lemma_lex_total(x.2, y.2);
}

proof fn lemma_key_trans(
    x: (bool, bool, Seq<char>),
    y: (bool, bool, Seq<char>),
    z: (bool, bool, Seq<char>),
)
    requires
        key_le(x, y),
        key_le(y, z),
    ensures
        key_le(x, z),
{
    if x.0 == y.0 && y.0 == z.0 && x.1 == y.1 && y.1 == z.1 {
        lemma_lex_trans(x.2, y.2, z.2);
    }
}

/// An entry's key, to sort by.
pub struct Key {
    pub way: bool,
    pub not_zed: bool,
    pub name: Vec<char>,
}

pub open spec fn key_view(k: Key) -> (bool, bool, Seq<char>) {
    (k.way, k.not_zed, k.name@)
}

fn key_le_exec(x: &Key, y: &Key) -> (b: bool)
    ensures
        b == key_le(key_view(*x), key_view(*y)),
{
    if x.way != y.way {
        !x.way
    } else if x.not_zed != y.not_zed {
        !x.not_zed
    } else {
        name_le(&x.name, &y.name)
    }
}

/// The order entries keyed `keys` are listed in: every index once, by key,
/// entries keyed alike in the order they came.
pub fn stable_sort_order(keys: &Vec<Key>) -> (order: Vec<usize>)
    ensures
        stable_order(keys@.map_values(|k: Key| key_view(k)), order@),
{
    let ghost ks = keys@.map_values(|k: Key| key_view(k));
    let mut order: Vec<usize> = Vec::new();
    let mut k: usize = 0;
    while k < keys.len()
        invariant
            ks == keys@.map_values(|k: Key| key_view(k)),
            k <= keys.len(),
            order.len() == k,
            forall|a: int| 0 <= a < order.len() ==> #[trigger] order@[a] < k,
            forall|a: int, b: int| 0 <= a < b < order.len() ==> order@[a] != order@[b],
            forall|a: int, b: int|
                0 <= a < b < order.len() ==> precedes(ks, #[trigger] order@[a] as int, #[trigger] order@[b] as int),
        decreases keys.len() - k,
    {
        let mut p: usize = 0;
        while p < order.len() && key_le_exec(&keys[order[p]], &keys[k])
            invariant
                ks == keys@.map_values(|k: Key| key_view(k)),
                k < keys.len(),
                p <= order.len(),
                forall|a: int| 0 <= a < order.len() ==> #[trigger] order@[a] < k,
                forall|a: int| 0 <= a < p ==> key_le(ks[#[trigger] order@[a] as int], ks[k as int]),
            decreases order.len() - p,
        {
            p += 1;
        }
        let ghost before = order@;
        proof {
            if p < order.len() {
                lemma_key_total(ks[before[p as int] as int], ks[k as int]);
                assert forall|b: int| p <= b < before.len() implies precedes(ks, k as int, #[trigger] before[b] as int) by {
                    if b > p {
                        assert(precedes(ks, before[p as int] as int, before[b] as int));
                        lemma_key_trans(ks[k as int], ks[before[p as int] as int], ks[before[b] as int]);
                        if key_le(ks[before[b] as int], ks[k as int]) {
                            lemma_key_trans(ks[before[p as int] as int], ks[before[b] as int], ks[k as int]);
                        }
                    }
                }
            }
        }
        order.insert(p, k);
        proof {
            let now = order@;
            assert(now == before.insert(p as int, k));
            assert forall|a: int| 0 <= a < now.len() implies #[trigger] now[a] < k + 1 by {
                if a > p {
                    assert(now[a] == before[a - 1]);
                }
            }
            assert forall|a: int, b: int| 0 <= a < b < now.len() implies now[a] != now[b] by {
                if a < p && b > p {
                    assert(now[b] == before[b - 1]);
                } else if a > p {
                    assert(now[a] == before[a - 1]);
                    assert(now[b] == before[b - 1]);
                } else if b == p {
                    assert(now[a] == before[a]);
                } else if a == p {
                    assert(now[b] == before[b - 1]);
                }
            }
            assert forall|a: int, b: int| 0 <= a < b < now.len() implies precedes(
                ks,
                #[trigger] now[a] as int,
                #[trigger] now[b] as int,
            ) by {
                if b < p {
                } else if b == p {
                    assert(now[a] == before[a]);
                } else if a < p {
                    assert(now[b] == before[b - 1]);
                    if b - 1 >= p {
                        assert(precedes(ks, k as int, before[b - 1] as int));
                        lemma_key_trans(ks[before[a] as int], ks[k as int], ks[before[b - 1] as int]);
                        if key_le(ks[before[b - 1] as int], ks[before[a] as int]) {
                            lemma_key_trans(ks[k as int], ks[before[b - 1] as int], ks[before[a] as int]);
                        }
                    }
                } else if a == p {
                    assert(now[b] == before[b - 1]);
                } else {
                    assert(now[a] == before[a - 1]);
                    assert(now[b] == before[b - 1]);
                }
            }
        }
        k += 1;
    }
    order
}

#[verifier::external_type_specification]
#[verifier::external_body]
pub struct ExDecodeError(base64::DecodeError);

/// The bytes base64's standard engine decodes a text to, where it is
/// well-formed base64 with padding.
pub uninterp spec fn base64_decoded(text: Seq<char>) -> Option<Seq<u8>>;

/// `text` decoded as standard base64.
///
/// Wraps `base64::Engine::decode` on `base64::engine::general_purpose::STANDARD`.
/// What it accepts and gives is named, not spelled out: a function of the
/// text alone.
#[verifier::external_body]
fn decode_base64(text: &str) -> (r: Result<Vec<u8>, base64::DecodeError>)
    ensures
        match r {
            Ok(bytes) => base64_decoded(text@) == Some(bytes@),
            Err(_) => base64_decoded(text@) is None,
        },
{
    base64::Engine::decode(&base64::engine::general_purpose::STANDARD, text)
}

/// An icon's picture: its decoded bytes, where it decodes to any.
pub open spec fn picture_of(icon: Seq<char>) -> Option<Seq<u8>> {
    match base64_decoded(icon) {
        Some(b) => if b.len() > 0 {
            Some(b)
        } else {
            None
        },
        None => None,
    }
}

/// An icon's picture; see [`picture_of`].
pub fn picture(icon: &str) -> (p: Option<Vec<u8>>)
    ensures
        match picture_of(icon@) {
            Some(b) => p matches Some(v) && v@ == b,
            None => p is None,
        },
{
    match decode_base64(icon) {
        Ok(bytes) => if bytes.len() > 0 {
            Some(bytes)
        } else {
            None
        },
        Err(_) => None,
    }
}

/// An entry as text: its name, path, kind and icon.
pub open spec fn row(a: Application) -> (Seq<char>, Seq<char>, Seq<char>, Seq<char>) {
    (a.name@, a.path@, a.kind@, a.icon@)
}

/// The key an entry of these values sorts by; see [`app_key`].
pub open spec fn row_key(r: (Seq<char>, Seq<char>, Seq<char>, Seq<char>)) -> (bool, bool, Seq<char>) {
    (r.2.len() > 0, r.0 != seq!['Z', 'e', 'd'], lowercase(r.0))
}

/// The entries listed, in order, but this app's own.
pub open spec fn kept_rows(apps: Seq<Application>) -> Seq<(Seq<char>, Seq<char>, Seq<char>, Seq<char>)>
    decreases apps.len(),
{
    if apps.len() == 0 {
        Seq::empty()
    } else {
        let k = kept_rows(apps.drop_last());
        if is_self(apps.last().name@) {
            k
        } else {
            k.push(row(apps.last()))
        }
    }
}

/// `rows` with each run of entries at one path cut to its first.
pub open spec fn deduped(rows: Seq<(Seq<char>, Seq<char>, Seq<char>, Seq<char>)>) -> Seq<
    (Seq<char>, Seq<char>, Seq<char>, Seq<char>),
>
    decreases rows.len(),
{
    if rows.len() == 0 {
        rows
    } else {
        let d = deduped(rows.drop_last());
        if rows.len() >= 2 && rows.last().1 == rows[rows.len() - 2].1 {
            d
        } else {
            d.push(rows.last())
        }
    }
}

/// An entry as the menu holds it: its name, path and kind, and its icon's
/// picture.
pub open spec fn listed(r: (Seq<char>, Seq<char>, Seq<char>, Seq<char>)) -> (Seq<char>, Seq<char>, Seq<char>, Option<Seq<u8>>) {
    (r.0, r.1, r.2, picture_of(r.3))
}

/// An arranged entry as values.
pub open spec fn entry_view(a: Application) -> (Seq<char>, Seq<char>, Seq<char>, Option<Seq<u8>>) {
    (a.name@, a.path@, a.kind@, match a.image {
        Some(b) => Some(b@),
        None => None,
    })
}

/// The keys of `rows`, in order.
pub open spec fn keys_of(rows: Seq<(Seq<char>, Seq<char>, Seq<char>, Seq<char>)>) -> Seq<(bool, bool, Seq<char>)> {
    rows.map_values(|r: (Seq<char>, Seq<char>, Seq<char>, Seq<char>)| row_key(r))
}

/// `rows` taken in `order`.
pub open spec fn in_order(rows: Seq<(Seq<char>, Seq<char>, Seq<char>, Seq<char>)>, order: Seq<usize>) -> Seq<
    (Seq<char>, Seq<char>, Seq<char>, Seq<char>),
> {
    order.map_values(|i: usize| rows[i as int])
}

/// The menu `rows` make.
pub open spec fn menu(rows: Seq<(Seq<char>, Seq<char>, Seq<char>, Seq<char>)>) -> Seq<(Seq<char>, Seq<char>, Seq<char>, Option<Seq<u8>>)> {
    rows.map_values(|r: (Seq<char>, Seq<char>, Seq<char>, Seq<char>)| listed(r))
}

/// Arranged entries as values.
pub open spec fn entries_view(out: Seq<Application>) -> Seq<(Seq<char>, Seq<char>, Seq<char>, Option<Seq<u8>>)> {
    out.map_values(|a: Application| entry_view(a))
}

fn copy_entry(a: &Application) -> (c: Application)
    ensures
        row(c) == row(*a),
{
    Application {
        name: a.name.as_str().to_owned(),
        path: a.path.as_str().to_owned(),
        kind: a.kind.as_str().to_owned(),
        icon: a.icon.as_str().to_owned(),
        image: None,
    }
}

/// The menu's entries from what the lister found: this app left out; ways
/// of opening after applications, Zed first among those, then by name in
/// lower case, entries keyed alike in the order they came; each icon
/// decoded into its picture (and the text dropped); and of entries at one
/// path in a row, the first.
pub fn arrange(apps: &Vec<Application>) -> (out: Vec<Application>)
    ensures
        exists|order: Seq<usize>|
            #[trigger] stable_order(keys_of(kept_rows(apps@)), order) && entries_view(out@) == menu(
                deduped(in_order(kept_rows(apps@), order)),
            ),
        forall|i: int| 0 <= i < out.len() ==> (#[trigger] out@[i]).icon@.len() == 0,
{
    let ghost rows = kept_rows(apps@);
    let mut kept: Vec<Application> = Vec::new();
    let mut i: usize = 0;
    while i < apps.len()
        invariant
            i <= apps.len(),
            kept@.map_values(|a: Application| row(a)) == kept_rows(apps@.take(i as int)),
        decreases apps.len() - i,
    {
        assert(apps@.take(i + 1).drop_last() =~= apps@.take(i as int));
        assert(apps@.take(i + 1).last() == apps@[i as int]);
        if !is_own(apps[i].name.as_str()) {
            let c = copy_entry(&apps[i]);
            let ghost prior = kept@;
            kept.push(c);
            assert(kept@.map_values(|a: Application| row(a)) =~= prior.map_values(
                |a: Application| row(a),
            ).push(row(apps@[i as int])));
        }
        i += 1;
    }
    assert(apps@.take(apps.len() as int) =~= apps@);
    assert(kept@.map_values(|a: Application| row(a)) == rows);
    let ghost keyed = rows.map_values(|r: (Seq<char>, Seq<char>, Seq<char>, Seq<char>)| row_key(r));
    let mut keys: Vec<Key> = Vec::new();
    let mut j: usize = 0;
    while j < kept.len()
        invariant
            j <= kept.len(),
            kept@.map_values(|a: Application| row(a)) == rows,
            keyed == rows.map_values(|r: (Seq<char>, Seq<char>, Seq<char>, Seq<char>)| row_key(r)),
            keys.len() == j,
            forall|m: int| 0 <= m < j ==> key_view(#[trigger] keys@[m]) == keyed[m],
        decreases kept.len() - j,
    {
        let a = &kept[j];
        assert(rows[j as int] == row(kept@[j as int]));
        let lower = to_lowercase(a.name.as_str());
        proof {
            reveal_strlit("Zed");
            assert("Zed"@ =~= seq!['Z', 'e', 'd']);
        }
        keys.push(
            Key {
                way: !a.kind.as_str().is_empty(),
                not_zed: !same_text(a.name.as_str(), "Zed"),
                name: chars_of(lower.as_str()),
            },
        );
        j += 1;
    }
    assert(keys@.map_values(|k: Key| key_view(k)) =~= keyed);
    let order = stable_sort_order(&keys);
    let ghost sorted = order@.map_values(|i: usize| rows[i as int]);
    let mut out: Vec<Application> = Vec::new();
    let mut a: usize = 0;
    while a < order.len()
        invariant
            a <= order.len(),
            order.len() == kept.len(),
            kept@.map_values(|a: Application| row(a)) == rows,
            sorted == order@.map_values(|i: usize| rows[i as int]),
            forall|m: int| 0 <= m < order.len() ==> #[trigger] order@[m] < kept.len(),
            out@.map_values(|a: Application| entry_view(a)) == deduped(sorted.take(a as int)).map_values(
                |r: (Seq<char>, Seq<char>, Seq<char>, Seq<char>)| listed(r),
            ),
            forall|m: int| 0 <= m < out.len() ==> (#[trigger] out@[m]).icon@.len() == 0,
        decreases order.len() - a,
    {
        let e = &kept[order[a]];
        assert(sorted[a as int] == row(kept@[order@[a as int] as int]));
        let repeat = a > 0 && same_text(e.path.as_str(), kept[order[a - 1]].path.as_str());
        proof {
            let t = sorted.take(a + 1);
            assert(t.drop_last() =~= sorted.take(a as int));
            assert(t.last() == sorted[a as int]);
            if a > 0 {
                assert(t[t.len() - 2] == sorted[a - 1]);
                assert(sorted[a - 1] == row(kept@[order@[a - 1] as int]));
            }
        }
        if !repeat {
            let entry = Application {
                name: e.name.as_str().to_owned(),
                path: e.path.as_str().to_owned(),
                kind: e.kind.as_str().to_owned(),
                icon: String::new(),
                image: picture(e.icon.as_str()),
            };
            let ghost prior = out@;
            out.push(entry);
            assert(out@.map_values(|a: Application| entry_view(a)) =~= prior.map_values(
                |a: Application| entry_view(a),
            ).push(listed(sorted[a as int])));
            assert(deduped(sorted.take(a + 1)) == deduped(sorted.take(a as int)).push(sorted[a as int]));
            assert(deduped(sorted.take(a + 1)).map_values(
                |r: (Seq<char>, Seq<char>, Seq<char>, Seq<char>)| listed(r),
            ) =~= deduped(sorted.take(a as int)).map_values(
                |r: (Seq<char>, Seq<char>, Seq<char>, Seq<char>)| listed(r),
            ).push(listed(sorted[a as int])));
        } else {
            assert(deduped(sorted.take(a + 1)) == deduped(sorted.take(a as int)));
        }
        a += 1;
    }
    assert(sorted.take(order.len() as int) =~= sorted);
    assert(stable_order(keyed, order@));
    assert(keyed == keys_of(rows));
    assert(sorted == in_order(rows, order@));
    assert(entries_view(out@) == menu(deduped(in_order(rows, order@))));
    out
}

/// The "open with" button's menu: whether it is up, whether the press that
/// is ending found it up, whether the applications were listed or are being
/// listed, and what was found.
pub struct Menu {
    pub open: bool,
    pub pressed: bool,
    pub loaded: bool,
    pub loading: bool,
    pub apps: Vec<Application>,
}

/// What the button's tooltip says: that it is busy opening, that it saves the
/// edits first, or what it does.
pub fn tooltip(opening: bool, dirty: bool) -> (t: &'static str)
    ensures
        opening ==> t == "Opening…",
        !opening && dirty ==> t == "Open externally (saves edits first)",
        !opening && !dirty ==> t == "Open externally",
{
    if opening {
        "Opening…"
    } else if dirty {
        "Open externally (saves edits first)"
    } else {
        "Open externally"
    }
}

impl Menu {
    /// A menu down, its applications not yet listed.
    pub fn new() -> (m: Self)
        ensures
            !m.open && !m.pressed && !m.loaded && !m.loading,
            m.apps@.len() == 0,
    {
        Menu { open: false, pressed: false, loaded: false, loading: false, apps: Vec::new() }
    }

    /// Start listing the applications, once: whether a listing starts now.
    pub fn start_loading(&mut self) -> (start: bool)
        ensures
            start == (!old(self).loaded && !old(self).loading),
            final(self).loading == (old(self).loading || start),
            final(self).loaded == old(self).loaded,
            final(self).open == old(self).open,
            final(self).pressed == old(self).pressed,
            final(self).apps == old(self).apps,
    {
        if !self.loaded && !self.loading {
            self.loading = true;
            true
        } else {
            false
        }
    }

    /// Take in the listing: its entries, or the line saying it failed.
    pub fn listed(&mut self, result: Result<Vec<Application>, String>) -> (error: Option<String>)
        ensures
            !final(self).loading,
            final(self).loaded,
            final(self).open == old(self).open,
            match result {
                Ok(apps) => error is None && final(self).apps == apps,
                Err(e) => (error matches Some(m) && m@ == "Could not list applications: "@ + e@)
                    && final(self).apps == old(self).apps,
            },
    {
        self.loading = false;
        self.loaded = true;
        match result {
            Ok(apps) => {
                self.apps = apps;
                None
            },
            Err(e) => {
                let mut line = chars_of("Could not list applications: ");
                crate::text::push_chars(&mut line, &chars_of(e.as_str()));
                Some(crate::text::string_of(&line))
            },
        }
    }

    /// A press went down on the button: note whether it found the menu up.
    pub fn press(&mut self)
        ensures
            final(self).pressed == old(self).open,
            final(self).open == old(self).open,
            final(self).loaded == old(self).loaded,
            final(self).loading == old(self).loading,
    {
        self.pressed = self.open;
    }

    /// The press came up on the button: the menu opens, unless it was up when
    /// the press went down (that press closed it already) or is up now.
    pub fn click(&mut self)
        ensures
            final(self).open == !(old(self).pressed || old(self).open),
            !final(self).pressed,
            final(self).loaded == old(self).loaded,
            final(self).loading == old(self).loading,
    {
        let pressed = self.pressed;
        self.pressed = false;
        self.open = !(pressed || self.open);
    }

    /// A press landed outside the menu, or an entry was chosen: it goes down.
    pub fn close(&mut self)
        ensures
            !final(self).open,
            final(self).pressed == old(self).pressed,
            final(self).loaded == old(self).loaded,
            final(self).loading == old(self).loading,
    {
        self.open = false;
    }
}

} // verus!
