//! Text as the window handles it: whitespace, words, lines.

use vstd::prelude::*;

verus! {

/// The characters with Unicode's `White_Space` property.
pub open spec fn is_ws(c: char) -> bool {
    let n = c as u32;
    (0x9 <= n <= 0xd) || n == 0x20 || n == 0x85 || n == 0xa0 || n == 0x1680 || (0x2000 <= n
        <= 0x200a) || n == 0x2028 || n == 0x2029 || n == 0x202f || n == 0x205f || n == 0x3000
}

/// Whether `c` is whitespace in Unicode's sense.
pub fn is_whitespace(c: char) -> (b: bool)
    ensures
        b == is_ws(c),
{
    let n = c as u32;
    (0x9 <= n && n <= 0xd) || n == 0x20 || n == 0x85 || n == 0xa0 || n == 0x1680 || (0x2000 <= n
        && n <= 0x200a) || n == 0x2028 || n == 0x2029 || n == 0x202f || n == 0x205f || n == 0x3000
}

/// The characters of `s`, in order.
pub fn chars_of(s: &str) -> (v: Vec<char>)
    ensures
        v@ == s@,
{
    let mut v: Vec<char> = Vec::new();
    for c in it: s.chars()
        invariant
            v@ == it.seq().take(it.index() as int),
    {
        v.push(c);
    }
    v
}


/// The string spelled by `v`.
///
/// Wraps std's `FromIterator<&char> for String`, which appends each character
/// in turn: the result holds exactly the characters of `v`, in order.
#[verifier::external_body]
pub(crate) fn string_of(v: &Vec<char>) -> (s: String)
    ensures
        s@ == v@,
{
    v.iter().collect()
}

/// The maximal runs of non-whitespace in `s`, in order — read off its last
/// character: whitespace ends nothing new, a character after whitespace (or at
/// the start) opens a word, and any other character extends the last word.
pub open spec fn words(s: Seq<char>) -> Seq<Seq<char>>
    decreases s.len(),
{
    if s.len() == 0 {
        Seq::empty()
    } else {
        let p = s.drop_last();
        let c = s.last();
        let ws = words(p);
        if is_ws(c) {
            ws
        } else if p.len() == 0 || is_ws(p.last()) || ws.len() == 0 {
            ws.push(seq![c])
        } else {
            ws.update(ws.len() - 1, ws.last().push(c))
        }
    }
}

/// `ws` with one space between each two of them.
pub open spec fn join(ws: Seq<Seq<char>>) -> Seq<char>
    decreases ws.len(),
{
    if ws.len() == 0 {
        Seq::empty()
    } else if ws.len() == 1 {
        ws[0]
    } else {
        join(ws.drop_last()) + seq![' '] + ws.last()
    }
}

/// `s` on one line: its words with a single space between each two.
pub open spec fn one_line_of(s: Seq<char>) -> Seq<char> {
    join(words(s))
}

proof fn lemma_join_extend(ws: Seq<Seq<char>>, c: char)
    requires
        ws.len() > 0,
    ensures
        join(ws.update(ws.len() - 1, ws.last().push(c))) == join(ws).push(c),
{
    let u = ws.update(ws.len() - 1, ws.last().push(c));
    if ws.len() == 1 {
        assert(u[0] == ws[0].push(c));
    } else {
        assert(u.drop_last() =~= ws.drop_last());
        assert(u.last() == ws.last().push(c));
        assert((join(ws.drop_last()) + seq![' '] + ws.last().push(c)) =~= (join(ws.drop_last())
            + seq![' '] + ws.last()).push(c));
    }
}

proof fn lemma_join_push(ws: Seq<Seq<char>>, w: Seq<char>)
    ensures
        join(ws.push(w)) == if ws.len() == 0 {
            w
        } else {
            join(ws) + seq![' '] + w
        },
{
    assert(ws.push(w).drop_last() =~= ws);
}

/// `chars` on one line: every run of whitespace, newlines included, as one
/// space, and none at either end.
pub fn one_line_chars(chars: &Vec<char>) -> (out: Vec<char>)
    ensures
        out@ == one_line_of(chars@),
{
    let mut out: Vec<char> = Vec::new();
    let mut i: usize = 0;
    while i < chars.len()
        invariant
            i <= chars.len(),
            out@ == join(words(chars@.take(i as int))),
        decreases chars.len() - i,
    {
        let c = chars[i];
        let ghost p = chars@.take(i as int);
        assert(chars@.take(i + 1).drop_last() =~= p);
        assert(chars@.take(i + 1).last() == c);
        if is_whitespace(c) {
        } else if i == 0 || is_whitespace(chars[i - 1]) || out.len() == 0 {
            proof {
                if i > 0 {
                    assert(p.last() == chars@[i - 1]);
                }
                if words(p).len() == 0 {
                    lemma_words_empty_join(p);
                }
                lemma_join_push(words(p), seq![c]);
                if words(p).len() > 0 && out.len() == 0 {
                    lemma_words_join_nonempty(p);
                }
            }
            if out.len() > 0 {
                out.push(' ');
            }
            out.push(c);
            proof {
                if words(p).len() > 0 {
                    assert(out@ =~= join(words(p)) + seq![' '] + seq![c]);
                } else {
                    assert(out@ =~= seq![c]);
                }
            }
        } else {
            proof {
                assert(p.last() == chars@[i - 1]);
                lemma_words_join_nonempty(p);
                lemma_join_extend(words(p), c);
            }
            out.push(c);
        }
        i += 1;
    }
    assert(chars@.take(chars.len() as int) =~= chars@);
    out
}

proof fn lemma_words_empty_join(p: Seq<char>)
    requires
        words(p).len() == 0,
    ensures
        join(words(p)).len() == 0,
{
}

/// Every word is a run of at least one character.
pub proof fn lemma_words_nonempty(s: Seq<char>)
    ensures
        forall|k: int| 0 <= k < words(s).len() ==> #[trigger] words(s)[k].len() > 0,
    decreases s.len(),
{
    if s.len() > 0 {
        let p = s.drop_last();
        lemma_words_nonempty(p);
        let ws = words(p);
        assert forall|k: int| 0 <= k < words(s).len() implies #[trigger] words(s)[k].len() > 0 by {
            if k < ws.len() {
                assert(ws[k].len() > 0);
            }
        }
    }
}

proof fn lemma_words_join_nonempty(p: Seq<char>)
    ensures
        words(p).len() > 0 <==> join(words(p)).len() > 0,
{
    lemma_words_nonempty(p);
    lemma_join_len(words(p));
}

proof fn lemma_join_len(ws: Seq<Seq<char>>)
    requires
        forall|k: int| 0 <= k < ws.len() ==> #[trigger] ws[k].len() > 0,
    ensures
        ws.len() > 0 <==> join(ws).len() > 0,
    decreases ws.len(),
{
    if ws.len() > 1 {
        lemma_join_len(ws.drop_last());
    }
}

/// `text` with every run of whitespace — newlines included — as one space.
pub fn one_line(text: &str) -> (out: String)
    ensures
        out@ == one_line_of(text@),
{
    let chars = chars_of(text);
    let line = one_line_chars(&chars);
    string_of(&line)
}


/// The character for a decimal digit.
pub open spec fn digit_char(d: nat) -> char {
    if d == 0 {
        '0'
    } else if d == 1 {
        '1'
    } else if d == 2 {
        '2'
    } else if d == 3 {
        '3'
    } else if d == 4 {
        '4'
    } else if d == 5 {
        '5'
    } else if d == 6 {
        '6'
    } else if d == 7 {
        '7'
    } else if d == 8 {
        '8'
    } else {
        '9'
    }
}

/// `n` written in decimal, with no leading zeros.
pub open spec fn decimal(n: nat) -> Seq<char>
    decreases n,
{
    if n < 10 {
        seq![digit_char(n)]
    } else {
        decimal(n / 10).push(digit_char(n % 10))
    }
}

/// `n` in decimal, at least two digits wide: `7` is `07`.
pub open spec fn two_digits(n: nat) -> Seq<char> {
    if n < 10 {
        seq!['0', digit_char(n)]
    } else {
        decimal(n)
    }
}

fn digit(d: u64) -> (c: char)
    requires
        d < 10,
    ensures
        c == digit_char(d as nat),
{
    match d {
        0 => '0',
        1 => '1',
        2 => '2',
        3 => '3',
        4 => '4',
        5 => '5',
        6 => '6',
        7 => '7',
        8 => '8',
        _ => '9',
    }
}

/// Append `n` in decimal to `out`.
pub fn push_decimal(out: &mut Vec<char>, n: u64)
    ensures
        final(out)@ == old(out)@ + decimal(n as nat),
    decreases n,
{
    if n < 10 {
        out.push(digit(n));
        assert(decimal(n as nat) =~= seq![digit_char(n as nat)]);
    } else {
        push_decimal(out, n / 10);
        out.push(digit(n % 10));
    }
}

/// Append the characters of `lit` to `out`.
pub fn push_str(out: &mut Vec<char>, lit: &str)
    ensures
        final(out)@ == old(out)@ + lit@,
{
    let chars = chars_of(lit);
    let mut i: usize = 0;
    while i < chars.len()
        invariant
            i <= chars.len(),
            chars@ == lit@,
            out@ == old(out)@ + chars@.take(i as int),
        decreases chars.len() - i,
    {
        out.push(chars[i]);
        i += 1;
        assert(chars@.take(i as int) =~= chars@.take(i - 1).push(chars@[i - 1]));
    }
    assert(chars@.take(chars.len() as int) =~= chars@);
}

/// Append the characters of `more` to `out`.
pub fn push_chars(out: &mut Vec<char>, more: &Vec<char>)
    ensures
        final(out)@ == old(out)@ + more@,
{
    let mut i: usize = 0;
    while i < more.len()
        invariant
            i <= more.len(),
            out@ == old(out)@ + more@.take(i as int),
        decreases more.len() - i,
    {
        out.push(more[i]);
        i += 1;
        assert(more@.take(i as int) =~= more@.take(i - 1).push(more@[i - 1]));
    }
    assert(more@.take(more.len() as int) =~= more@);
}


/// `s` without the whitespace at its end.
pub open spec fn trim_end_of(s: Seq<char>) -> Seq<char>
    decreases s.len(),
{
    if s.len() > 0 && is_ws(s.last()) {
        trim_end_of(s.drop_last())
    } else {
        s
    }
}

/// `s` without the whitespace at its start.
pub open spec fn trim_start_of(s: Seq<char>) -> Seq<char>
    decreases s.len(),
{
    if s.len() > 0 && is_ws(s[0]) {
        trim_start_of(s.drop_first())
    } else {
        s
    }
}

/// `s` without whitespace at either end.
pub open spec fn trim_of(s: Seq<char>) -> Seq<char> {
    trim_start_of(trim_end_of(s))
}

/// How many characters `s` keeps once its trailing whitespace is dropped.
pub fn trimmed_end_len(s: &Vec<char>) -> (n: usize)
    ensures
        n <= s.len(),
        s@.take(n as int) == trim_end_of(s@),
{
    let mut n = s.len();
    assert(s@.take(n as int) =~= s@);
    while n > 0 && is_whitespace(s[n - 1])
        invariant
            n <= s.len(),
            trim_end_of(s@.take(n as int)) == trim_end_of(s@),
        decreases n,
    {
        assert(s@.take(n as int).drop_last() =~= s@.take(n - 1));
        n -= 1;
    }
    n
}

/// How many leading characters of `s` are whitespace.
pub fn trimmed_start_len(s: &Vec<char>, end: usize) -> (n: usize)
    requires
        end <= s.len(),
    ensures
        n <= end,
        s@.subrange(n as int, end as int) == trim_start_of(s@.take(end as int)),
{
    let mut n: usize = 0;
    assert(s@.subrange(0, end as int) =~= s@.take(end as int));
    while n < end && is_whitespace(s[n])
        invariant
            n <= end <= s.len(),
            trim_start_of(s@.subrange(n as int, end as int)) == trim_start_of(s@.take(end as int)),
        decreases end - n,
    {
        assert(s@.subrange(n as int, end as int).drop_first() =~= s@.subrange(n + 1, end as int));
        n += 1;
    }
    n
}

/// The characters of `s` from `from` up to `to`.
pub fn slice_chars(s: &Vec<char>, from: usize, to: usize) -> (out: Vec<char>)
    requires
        from <= to <= s.len(),
    ensures
        out@ == s@.subrange(from as int, to as int),
{
    let mut out: Vec<char> = Vec::new();
    let mut i = from;
    while i < to
        invariant
            from <= i <= to <= s.len(),
            out@ == s@.subrange(from as int, i as int),
        decreases to - i,
    {
        out.push(s[i]);
        i += 1;
        assert(out@ =~= s@.subrange(from as int, i as int));
    }
    out
}

/// `s` without whitespace at either end.
pub fn trim_chars(s: &Vec<char>) -> (out: Vec<char>)
    ensures
        out@ == trim_of(s@),
{
    let end = trimmed_end_len(s);
    let start = trimmed_start_len(s, end);
    slice_chars(s, start, end)
}

/// `text` without whitespace at either end.
pub fn trim(text: &str) -> (out: String)
    ensures
        out@ == trim_of(text@),
{
    let chars = chars_of(text);
    let t = trim_chars(&chars);
    string_of(&t)
}

/// Whether `text` is nothing but whitespace.
pub open spec fn blank(s: Seq<char>) -> bool {
    forall|i: int| 0 <= i < s.len() ==> is_ws(#[trigger] s[i])
}

pub proof fn lemma_trim_end_blank(s: Seq<char>)
    ensures
        trim_end_of(s).len() == 0 <==> blank(s),
        trim_end_of(s).len() <= s.len(),
        trim_end_of(s) == s.take(trim_end_of(s).len() as int),
    decreases s.len(),
{
    if s.len() > 0 && is_ws(s.last()) {
        lemma_trim_end_blank(s.drop_last());
        if blank(s.drop_last()) {
            assert forall|i: int| 0 <= i < s.len() implies is_ws(#[trigger] s[i]) by {
                if i < s.len() - 1 {
                    assert(s.drop_last()[i] == s[i]);
                }
            }
        }
        if blank(s) {
            assert forall|i: int| 0 <= i < s.drop_last().len() implies is_ws(
                #[trigger] s.drop_last()[i],
            ) by {
                assert(s[i] == s.drop_last()[i]);
            }
        }
        assert(s.drop_last().take(trim_end_of(s).len() as int) =~= s.take(
            trim_end_of(s).len() as int,
        ));
    } else {
        if s.len() > 0 {
            assert(!is_ws(s[s.len() - 1]));
        }
        assert(s.take(s.len() as int) =~= s);
    }
}

pub proof fn lemma_trim_start_empty(s: Seq<char>)
    ensures
        trim_start_of(s).len() == 0 <==> blank(s),
    decreases s.len(),
{
    if s.len() > 0 && is_ws(s[0]) {
        lemma_trim_start_empty(s.drop_first());
        if blank(s.drop_first()) {
            assert forall|i: int| 0 <= i < s.len() implies is_ws(#[trigger] s[i]) by {
                if i > 0 {
                    assert(s.drop_first()[i - 1] == s[i]);
                }
            }
        }
        if blank(s) {
            assert forall|i: int| 0 <= i < s.drop_first().len() implies is_ws(
                #[trigger] s.drop_first()[i],
            ) by {
                assert(s[i + 1] == s.drop_first()[i]);
            }
        }
    } else if s.len() > 0 {
        assert(!is_ws(s[0]));
    }
}

/// A string trims to nothing exactly when it is all whitespace.
pub proof fn lemma_trim_empty(s: Seq<char>)
    ensures
        trim_of(s).len() == 0 <==> blank(s),
{
    lemma_trim_end_blank(s);
    lemma_trim_start_empty(trim_end_of(s));
    let t = trim_end_of(s);
    if blank(t) && !blank(s) {
        // the trailing run that trim_end dropped is whitespace, and so is t
        assert forall|i: int| 0 <= i < s.len() implies is_ws(#[trigger] s[i]) by {
            lemma_trim_end_suffix_ws(s, i);
        }
    }
    if blank(s) {
        assert forall|i: int| 0 <= i < t.len() implies is_ws(#[trigger] t[i]) by {
            assert(t[i] == s.take(t.len() as int)[i]);
        }
    }
}

proof fn lemma_trim_end_suffix_ws(s: Seq<char>, i: int)
    requires
        0 <= i < s.len(),
        blank(trim_end_of(s)),
    ensures
        is_ws(s[i]),
    decreases s.len(),
{
    lemma_trim_end_blank(s);
    if s.len() > 0 && is_ws(s.last()) {
        if i < s.len() - 1 {
            assert(s.drop_last()[i] == s[i]);
            lemma_trim_end_suffix_ws(s.drop_last(), i);
        }
    } else {
        assert(trim_end_of(s) == s);
    }
}

/// Whether `text` is nothing but whitespace.
pub fn is_blank(text: &str) -> (b: bool)
    ensures
        b == blank(text@),
{
    let chars = chars_of(text);
    let mut i: usize = 0;
    while i < chars.len()
        invariant
            i <= chars.len(),
            chars@ == text@,
            forall|j: int| 0 <= j < i ==> is_ws(#[trigger] chars@[j]),
        decreases chars.len() - i,
    {
        if !is_whitespace(chars[i]) {
            return false;
        }
        i += 1;
    }
    true
}


/// `s` cut at every `\n`: one piece more than it has newlines.
pub open spec fn pieces(s: Seq<char>) -> Seq<Seq<char>>
    decreases s.len(),
{
    if s.len() == 0 {
        seq![Seq::empty()]
    } else {
        let p = pieces(s.drop_last());
        if s.last() == '\n' {
            p.push(Seq::empty())
        } else {
            p.update(p.len() - 1, p.last().push(s.last()))
        }
    }
}

pub proof fn lemma_pieces_nonempty(s: Seq<char>)
    ensures
        pieces(s).len() >= 1,
    decreases s.len(),
{
    if s.len() > 0 {
        lemma_pieces_nonempty(s.drop_last());
    }
}

/// A piece as a line: a `\r` ending a piece that a `\n` followed goes with
/// that `\n`.
pub open spec fn line_of(piece: Seq<char>, ended: bool) -> Seq<char> {
    if ended && piece.len() > 0 && piece.last() == '\r' {
        piece.drop_last()
    } else {
        piece
    }
}

/// The lines of `s`, as std's `str::lines` reads them: split at `\n` or
/// `\r\n`, with no empty line after a final line ending, and none at all in
/// an empty string.
pub open spec fn lines_of(s: Seq<char>) -> Seq<Seq<char>> {
    let ps = pieces(s);
    let body = if ps.last().len() == 0 {
        ps.drop_last()
    } else {
        ps
    };
    body.map(|i: int, piece: Seq<char>| line_of(piece, i < ps.len() - 1))
}

/// The lines of `s`, as std's `str::lines` reads them.
pub fn lines(s: &Vec<char>) -> (out: Vec<Vec<char>>)
    ensures
        out@.map_values(|l: Vec<char>| l@) == lines_of(s@),
{
    let mut out: Vec<Vec<char>> = Vec::new();
    let mut cur: Vec<char> = Vec::new();
    let mut i: usize = 0;
    while i < s.len()
        invariant
            i <= s.len(),
            pieces(s@.take(i as int)).len() == out.len() + 1,
            forall|k: int|
                0 <= k < out.len() ==> (#[trigger] out@[k])@ == line_of(
                    pieces(s@.take(i as int))[k],
                    true,
                ),
            cur@ == pieces(s@.take(i as int)).last(),
        decreases s.len() - i,
    {
        proof {
            lemma_pieces_nonempty(s@.take(i as int));
        }
        let ghost before = pieces(s@.take(i as int));
        assert(s@.take(i + 1).drop_last() =~= s@.take(i as int));
        assert(s@.take(i + 1).last() == s@[i as int]);
        if s[i] == '\n' {
            let n = cur.len();
            let line = if n > 0 && cur[n - 1] == '\r' {
                slice_chars(&cur, 0, n - 1)
            } else {
                slice_chars(&cur, 0, n)
            };
            assert(cur@.subrange(0, n as int) =~= cur@);
            assert(n > 0 ==> cur@.subrange(0, n - 1) =~= cur@.drop_last());
            out.push(line);
            cur = Vec::new();
            proof {
                let after = pieces(s@.take(i + 1));
                assert(after == before.push(Seq::empty()));
                assert forall|k: int| 0 <= k < out.len() implies (#[trigger] out@[k])@ == line_of(
                    after[k],
                    true,
                ) by {
                    if k < out.len() - 1 {
                        assert(after[k] == before[k]);
                    }
                }
            }
        } else {
            cur.push(s[i]);
            proof {
                let after = pieces(s@.take(i + 1));
                assert forall|k: int| 0 <= k < out.len() implies (#[trigger] out@[k])@ == line_of(
                    after[k],
                    true,
                ) by {
                    assert(after[k] == before[k]);
                }
            }
        }
        i += 1;
    }
    assert(s@.take(s.len() as int) =~= s@);
    proof {
        lemma_pieces_nonempty(s@);
    }
    let ghost ps = pieces(s@);
    if cur.len() > 0 {
        out.push(cur);
    }
    proof {
        let body = if ps.last().len() == 0 {
            ps.drop_last()
        } else {
            ps
        };
        let want = body.map(|i: int, piece: Seq<char>| line_of(piece, i < ps.len() - 1));
        assert(out@.len() == want.len());
        assert forall|k: int| 0 <= k < want.len() implies out@.map_values(|l: Vec<char>| l@)[k]
            == want[k] by {
            if k < ps.len() - 1 {
            } else {
                assert(line_of(ps[k], false) == ps[k]);
            }
        }
        assert(out@.map_values(|l: Vec<char>| l@) =~= want);
    }
    out
}


/// Whether `a` and `b` are the same text.
pub fn same_text(a: &str, b: &str) -> (same: bool)
    ensures
        same == (a@ == b@),
{
    let x = chars_of(a);
    let y = chars_of(b);
    if x.len() != y.len() {
        assert(x@.len() != y@.len());
        return false;
    }
    let mut i: usize = 0;
    while i < x.len()
        invariant
            i <= x.len() == y.len(),
            x@ == a@,
            y@ == b@,
            forall|j: int| 0 <= j < i ==> x@[j] == y@[j],
        decreases x.len() - i,
    {
        if x[i] != y[i] {
            assert(x@[i as int] != y@[i as int]);
            return false;
        }
        i += 1;
    }
    assert(x@ =~= y@);
    true
}


/// What std's `str::to_lowercase` makes of a text: each character mapped by
/// Unicode's lowercase rules, a function of the text alone.
pub uninterp spec fn lowercase(s: Seq<char>) -> Seq<char>;

/// `s` in lower case.
///
/// Wraps std's `str::to_lowercase`; its result is named, not spelled out:
/// Unicode's case tables take pages.
#[verifier::external_body]
pub(crate) fn to_lowercase(s: &str) -> (out: String)
    ensures
        out@ == lowercase(s@),
{
    s.to_lowercase()
}

/// Whether `needle` stands somewhere in `hay`, character for character.
pub open spec fn contains_text(hay: Seq<char>, needle: Seq<char>) -> bool {
    exists|i: int|
        0 <= i && i + needle.len() <= hay.len() && #[trigger] hay.subrange(i, i + needle.len())
            == needle
}

/// Whether `needle` stands somewhere in `hay`.
pub fn contains(hay: &Vec<char>, needle: &Vec<char>) -> (found: bool)
    ensures
        found == contains_text(hay@, needle@),
{
    if needle.len() > hay.len() {
        return false;
    }
    let mut i: usize = 0;
    while i <= hay.len() - needle.len()
        invariant
            needle.len() <= hay.len(),
            i <= hay.len() - needle.len() + 1,
            forall|k: int|
                0 <= k < i ==> #[trigger] hay@.subrange(k, k + needle.len()) != needle@,
        decreases hay.len() - i,
    {
        let mut j: usize = 0;
        let mut same = true;
        while j < needle.len()
            invariant
                i + needle.len() <= hay.len(),
                j <= needle.len(),
                same == (forall|m: int| 0 <= m < j ==> hay@[i + m] == needle@[m]),
            decreases needle.len() - j,
        {
            if hay[i + j] != needle[j] {
                same = false;
            }
            j += 1;
        }
        if same {
            assert(hay@.subrange(i as int, i + needle.len()) =~= needle@);
            return true;
        }
        assert(hay@.subrange(i as int, i + needle.len()) != needle@) by {
            let m = choose|m: int| 0 <= m < needle.len() && hay@[i + m] != needle@[m];
            assert(hay@.subrange(i as int, i + needle.len())[m] == hay@[i + m]);
        }
        i += 1;
    }
    assert forall|k: int| 0 <= k && k + needle.len() <= hay.len() implies #[trigger] hay@.subrange(
        k,
        k + needle.len(),
    ) != needle@ by {
        assert(k < i);
    }
    false
}

} // verus!
