//! Character-level text handling shared by the rest of the library: the
//! whitespace trimming, splitting and joining that settings and file names
//! need, and decimal numbers in both directions.

use vstd::prelude::*;
use vstd::string::*;

verus! {

/// The Unicode `White_Space` property of a character, as listed in the
/// Unicode Character Database (`PropList.txt`): the ASCII tab, line feed,
/// vertical tab, form feed, carriage return and space, next line, no-break
/// space, ogham space mark, the spaces from en quad to hair space, the line
/// and paragraph separators, the narrow no-break space, the medium
/// mathematical space and the ideographic space.
pub open spec fn white_space(c: char) -> bool {
    ||| ('\u{9}' <= c && c <= '\u{d}')
    ||| c == ' '
    ||| c == '\u{85}'
    ||| c == '\u{a0}'
    ||| c == '\u{1680}'
    ||| ('\u{2000}' <= c && c <= '\u{200a}')
    ||| c == '\u{2028}'
    ||| c == '\u{2029}'
    ||| c == '\u{202f}'
    ||| c == '\u{205f}'
    ||| c == '\u{3000}'
}

/// Whether `c` is whitespace, as `char::is_whitespace` decides it: the
/// Unicode `White_Space` property.
pub fn is_whitespace(c: char) -> (r: bool)
    ensures
        r == white_space(c),
{
    ('\u{9}' <= c && c <= '\u{d}') || c == ' ' || c == '\u{85}' || c == '\u{a0}' || c == '\u{1680}'
        || ('\u{2000}' <= c && c <= '\u{200a}') || c == '\u{2028}' || c == '\u{2029}' || c
        == '\u{202f}' || c == '\u{205f}' || c == '\u{3000}'
}

/// `String::push`: appends one character at the end.
#[verifier::external_body]
pub(crate) fn push_char(s: &mut String, c: char)
    ensures
        final(s)@ == old(s)@.push(c),
{
    s.push(c);
}

/// The characters of a string slice, in order.
pub fn chars_of(s: &str) -> (v: Vec<char>)
    ensures
        v@ == s@,
{
    let n = s.unicode_len();
    let mut v: Vec<char> = Vec::new();
    let mut i: usize = 0;
    while i < n
        invariant
            n == s@.len(),
            i <= n,
            v@ == s@.take(i as int),
        decreases n - i,
    {
        let c = s.get_char(i);
        v.push(c);
        i = i + 1;
        assert(v@ =~= s@.take(i as int));
    }
    assert(v@ =~= s@);
    v
}

/// A string made of the characters `v[from..to]`.
pub fn string_of(v: &Vec<char>, from: usize, to: usize) -> (s: String)
    requires
        from <= to <= v.len(),
    ensures
        s@ == v@.subrange(from as int, to as int),
{
    let mut s = String::new();
    let mut i: usize = from;
    while i < to
        invariant
            from <= i <= to <= v.len(),
            s@ == v@.subrange(from as int, i as int),
        decreases to - i,
    {
        push_char(&mut s, v[i]);
        i = i + 1;
        assert(s@ =~= v@.subrange(from as int, i as int));
    }
    s
}

/// Number of whitespace characters at the start of `s`.
pub open spec fn lead_ws(s: Seq<char>) -> nat
    decreases s.len(),
{
    if s.len() > 0 && white_space(s[0]) {
        1 + lead_ws(s.drop_first())
    } else {
        0
    }
}

/// Number of whitespace characters at the end of `s`.
pub open spec fn trail_ws(s: Seq<char>) -> nat
    decreases s.len(),
{
    if s.len() > 0 && white_space(s.last()) {
        1 + trail_ws(s.drop_last())
    } else {
        0
    }
}

/// Number of copies of `c` at the end of `s`.
pub open spec fn trail_char(s: Seq<char>, c: char) -> nat
    decreases s.len(),
{
    if s.len() > 0 && s.last() == c {
        1 + trail_char(s.drop_last(), c)
    } else {
        0
    }
}

/// `s` without its leading and trailing whitespace (what `str::trim` gives).
pub open spec fn trim(s: Seq<char>) -> Seq<char> {
    let t = s.skip(lead_ws(s) as int);
    t.take(t.len() - trail_ws(t))
}

/// `s` without the copies of `c` at its end (what `str::trim_end_matches` gives
/// for a single character).
pub open spec fn trim_end_char(s: Seq<char>, c: char) -> Seq<char> {
    s.take(s.len() - trail_char(s, c))
}

pub proof fn lemma_lead_ws_bound(s: Seq<char>)
    ensures
        lead_ws(s) <= s.len(),
        lead_ws(s) < s.len() ==> !white_space(s[lead_ws(s) as int]),
    decreases s.len(),
{
    if s.len() > 0 && white_space(s[0]) {
        lemma_lead_ws_bound(s.drop_first());
        if lead_ws(s) < s.len() {
            assert(s.drop_first()[lead_ws(s.drop_first()) as int] == s[lead_ws(s) as int]);
        }
    }
}

/// The position `i` where the whitespace at the start of `v[from..to]` ends.
pub fn lead_ws_end(v: &Vec<char>, from: usize, to: usize) -> (i: usize)
    requires
        from <= to <= v.len(),
    ensures
        from <= i <= to,
        i - from == lead_ws(v@.subrange(from as int, to as int)),
{
    let ghost s = v@.subrange(from as int, to as int);
    let mut i: usize = from;
    while i < to && is_whitespace(v[i])
        invariant
            from <= i <= to <= v.len(),
            s == v@.subrange(from as int, to as int),
            lead_ws(s) == (i - from) + lead_ws(v@.subrange(i as int, to as int)),
        decreases to - i,
    {
        proof {
            let t = v@.subrange(i as int, to as int);
            assert(t.drop_first() =~= v@.subrange(i + 1, to as int));
        }
        i = i + 1;
    }
    proof {
        let t = v@.subrange(i as int, to as int);
        assert(lead_ws(t) == 0);
    }
    i
}

pub proof fn lemma_trail_ws_bound(s: Seq<char>)
    ensures
        trail_ws(s) <= s.len(),
    decreases s.len(),
{
    if s.len() > 0 && white_space(s.last()) {
        lemma_trail_ws_bound(s.drop_last());
    }
}

/// The bounds `(i, j)` of `trim(v[from..to])` inside `v`.
pub fn trim_bounds(v: &Vec<char>, from: usize, to: usize) -> (r: (usize, usize))
    requires
        from <= to <= v.len(),
    ensures
        from <= r.0 <= r.1 <= to,
        v@.subrange(r.0 as int, r.1 as int) == trim(v@.subrange(from as int, to as int)),
{
    let ghost s = v@.subrange(from as int, to as int);
    let i = lead_ws_end(v, from, to);
    proof {
        assert(s.skip(lead_ws(s) as int) =~= v@.subrange(i as int, to as int));
    }
    let mut j: usize = to;
    while j > i && is_whitespace(v[j - 1])
        invariant
            from <= i <= j <= to <= v.len(),
            trail_ws(v@.subrange(i as int, to as int)) == (to - j) + trail_ws(
                v@.subrange(i as int, j as int),
            ),
        decreases j - i,
    {
        proof {
            let t = v@.subrange(i as int, j as int);
            assert(t.drop_last() =~= v@.subrange(i as int, j - 1));
        }
        j = j - 1;
    }
    proof {
        let u = v@.subrange(i as int, j as int);
        assert(trail_ws(u) == 0);
        let t = v@.subrange(i as int, to as int);
        assert(t.take(t.len() - trail_ws(t)) =~= u);
    }
    (i, j)
}

/// The end `k` of `trim_end_char(v[from..to], c)` inside `v`.
pub fn trim_end_char_bound(v: &Vec<char>, from: usize, to: usize, c: char) -> (k: usize)
    requires
        from <= to <= v.len(),
    ensures
        from <= k <= to,
        v@.subrange(from as int, k as int) == trim_end_char(
            v@.subrange(from as int, to as int),
            c,
        ),
{
    let mut k: usize = to;
    while k > from && v[k - 1] == c
        invariant
            from <= k <= to <= v.len(),
            trail_char(v@.subrange(from as int, to as int), c) == (to - k) + trail_char(
                v@.subrange(from as int, k as int),
                c,
            ),
        decreases k - from,
    {
        proof {
            let t = v@.subrange(from as int, k as int);
            assert(t.drop_last() =~= v@.subrange(from as int, k - 1));
        }
        k = k - 1;
    }
    proof {
        let t = v@.subrange(from as int, to as int);
        assert(t.take(t.len() - trail_char(t, c)) =~= v@.subrange(from as int, k as int));
    }
    k
}

/// The character of the decimal digit `d` (for `d < 10`).
pub open spec fn digit_char(d: nat) -> char {
    (d + 48) as char
}

/// The decimal notation of `n`, without sign or leading zeros.
pub open spec fn decimal(n: nat) -> Seq<char>
    decreases n,
{
    if n < 10 {
        seq![digit_char(n)]
    } else {
        decimal(n / 10).push(digit_char(n % 10))
    }
}

/// The decimal notation of a signed number: a minus sign before the digits of
/// its magnitude when it is negative.
pub open spec fn signed_decimal(i: int) -> Seq<char> {
    if i < 0 {
        seq!['-'] + decimal((-i) as nat)
    } else {
        decimal(i as nat)
    }
}

/// `usize::to_string`: its decimal notation.
#[verifier::external_body]
pub fn usize_to_string(n: usize) -> (r: String)
    ensures
        r@ == decimal(n as nat),
{
    n.to_string()
}

/// `i32::to_string`: its decimal notation, with a minus sign when negative.
#[verifier::external_body]
pub fn i32_to_string(n: i32) -> (r: String)
    ensures
        r@ == signed_decimal(n as int),
{
    n.to_string()
}

/// Whether `c` is one of the ASCII digits `0`..`9`.
pub open spec fn is_digit(c: char) -> bool {
    '0' <= c && c <= '9'
}

/// The number that a run of ASCII digits spells in base ten.
pub open spec fn digits_value(s: Seq<char>) -> nat
    decreases s.len(),
{
    if s.len() == 0 {
        0
    } else {
        digits_value(s.drop_last()) * 10 + ((s.last() as int - 48) as nat)
    }
}

/// What `str::parse::<usize>` accepts: an optional `+` followed by at least one
/// ASCII digit and nothing else, whose value fits in `usize`.
pub open spec fn parsed_usize(s: Seq<char>) -> Option<nat> {
    let d = if s.len() > 0 && s[0] == '+' {
        s.drop_first()
    } else {
        s
    };
    if d.len() > 0 && (forall|i: int| 0 <= i < d.len() ==> is_digit(#[trigger] d[i]))
        && digits_value(d) <= usize::MAX {
        Some(digits_value(d))
    } else {
        None
    }
}

/// `str::parse::<usize>`. Its documentation (`usize::from_str_radix` with radix
/// ten) accepts an optional `+` followed by digits only, and fails on anything
/// else, on an empty string and on overflow.
#[verifier::external_body]
pub fn parse_usize(s: &str) -> (r: Option<usize>)
    ensures
        r == (match parsed_usize(s@) {
            Some(n) => Some(n as usize),
            None => None::<usize>,
        }),
{
    s.parse::<usize>().ok()
}

/// The Unicode uppercase mapping of a string (what `str::to_uppercase` gives).
pub uninterp spec fn upper(s: Seq<char>) -> Seq<char>;

/// `str::to_uppercase`. Its result depends on the string alone and is named
/// `upper`; nothing else of the Unicode case mapping is claimed.
#[verifier::external_body]
pub fn to_uppercase(s: &str) -> (r: String)
    ensures
        r@ == upper(s@),
{
    s.to_uppercase()
}

/// The pieces of `s` between the separators `c` (what `str::split` gives for
/// one character): always at least one piece, empty ones included.
pub open spec fn split_on(s: Seq<char>, c: char) -> Seq<Seq<char>>
    decreases s.len(),
{
    if s.len() == 0 {
        seq![Seq::<char>::empty()]
    } else {
        let r = split_on(s.drop_last(), c);
        if s.last() == c {
            r.push(Seq::<char>::empty())
        } else {
            r.update(r.len() - 1, r.last().push(s.last()))
        }
    }
}

/// The pieces of `list` with `sep` between each two of them (what
/// `slice::join` gives).
pub open spec fn join(list: Seq<Seq<char>>, sep: Seq<char>) -> Seq<char>
    decreases list.len(),
{
    if list.len() == 0 {
        Seq::<char>::empty()
    } else if list.len() == 1 {
        list[0]
    } else {
        join(list.drop_last(), sep) + sep + list.last()
    }
}

pub proof fn lemma_split_on_nonempty(s: Seq<char>, c: char)
    ensures
        split_on(s, c).len() >= 1,
    decreases s.len(),
{
    if s.len() > 0 {
        lemma_split_on_nonempty(s.drop_last(), c);
    }
}

/// Appending a run `b` without separators extends the last piece.
pub proof fn lemma_split_on_append(x: Seq<char>, b: Seq<char>, c: char)
    requires
        forall|i: int| 0 <= i < b.len() ==> b[i] != c,
    ensures
        split_on(x + b, c) == split_on(x, c).update(
            split_on(x, c).len() - 1,
            split_on(x, c).last() + b,
        ),
    decreases b.len(),
{
    lemma_split_on_nonempty(x, c);
    if b.len() == 0 {
        assert(x + b =~= x);
        assert(split_on(x, c).last() + b =~= split_on(x, c).last());
        assert(split_on(x, c).update(split_on(x, c).len() - 1, split_on(x, c).last()) =~= split_on(
            x,
            c,
        ));
    } else {
        let bd = b.drop_last();
        lemma_split_on_append(x, bd, c);
        assert((x + b).drop_last() =~= x + bd);
        assert((x + b).last() == b.last());
        lemma_split_on_nonempty(x + bd, c);
        let r = split_on(x, c);
        assert((r.last() + bd).push(b.last()) =~= r.last() + b);
        assert(split_on(x + b, c) =~= r.update(r.len() - 1, r.last() + b));
    }
}

/// Splitting at `c` the pieces of `list` joined with `c` gives the pieces
/// back, when none of them holds `c`.
pub proof fn lemma_split_join(list: Seq<Seq<char>>, c: char)
    requires
        list.len() >= 1,
        forall|k: int, i: int| 0 <= k < list.len() && 0 <= i < list[k].len() ==> #[trigger] list[k][i] != c,
    ensures
        split_on(join(list, seq![c]), c) == list,
    decreases list.len(),
{
    let e = Seq::<char>::empty();
    if list.len() == 1 {
        assert(forall|i: int| 0 <= i < list[0].len() ==> #[trigger] list[0][i] != c);
        lemma_split_on_append(e, list[0], c);
        assert(e + list[0] =~= list[0]);
        assert(split_on(e, c) =~= seq![e]);
        assert(e + list[0] =~= list[0]);
        assert(split_on(list[0], c) =~= list);
    } else {
        let d = list.drop_last();
        assert forall|k: int, i: int| 0 <= k < d.len() && 0 <= i < d[k].len() implies #[trigger] d[k][i] != c by {
            assert(d[k] == list[k]);
        }
        lemma_split_join(d, c);
        let x = join(d, seq![c]) + seq![c];
        assert(x.drop_last() =~= join(d, seq![c]));
        assert(split_on(x, c) == d.push(e));
        let l = list.last();
        assert(forall|i: int| 0 <= i < l.len() ==> #[trigger] l[i] != c) by {
            assert forall|i: int| 0 <= i < l.len() implies #[trigger] l[i] != c by {
                assert(list[list.len() - 1][i] != c);
            }
        }
        lemma_split_on_append(x, l, c);
        assert(e + l =~= l);
        assert(join(list, seq![c]) =~= x + l);
        assert(d.push(e).update(d.len() as int, e + l) =~= list);
    }
}

/// The pieces joined with a separator start with the first piece's first
/// character and end with the last piece's last character, when those
/// pieces are not empty.
pub proof fn lemma_join_ends(list: Seq<Seq<char>>, sep: Seq<char>)
    requires
        list.len() >= 1,
        list[0].len() >= 1,
        list.last().len() >= 1,
    ensures
        join(list, sep).len() >= 1,
        join(list, sep)[0] == list[0][0],
        join(list, sep).last() == list.last().last(),
    decreases list.len(),
{
    lemma_join_ends_first(list, sep);
}

proof fn lemma_join_ends_first(list: Seq<Seq<char>>, sep: Seq<char>)
    requires
        list.len() >= 1,
        list[0].len() >= 1,
    ensures
        join(list, sep).len() >= 1,
        join(list, sep)[0] == list[0][0],
    decreases list.len(),
{
    if list.len() >= 2 {
        lemma_join_ends_first(list.drop_last(), sep);
    }
}

/// The character sequences of a list of strings.
pub open spec fn strings_view(v: Seq<String>) -> Seq<Seq<char>> {
    v.map_values(|s: String| s@)
}

/// `list` joined with `sep` between each two strings.
pub fn join_strings(list: &Vec<String>, sep: &str) -> (r: String)
    ensures
        r@ == join(strings_view(list@), sep@),
{
    let mut r = String::new();
    let mut i: usize = 0;
    while i < list.len()
        invariant
            i <= list.len(),
            r@ == join(strings_view(list@).take(i as int), sep@),
        decreases list.len() - i,
    {
        let ghost before = strings_view(list@).take(i as int);
        if i != 0 {
            r.append(sep);
        }
        r.append(list[i].as_str());
        proof {
            let after = strings_view(list@).take(i + 1);
            assert(after.drop_last() =~= before);
            if i == 0 {
                assert(before =~= Seq::<Seq<char>>::empty());
                assert(r@ =~= after[0]);
            }
        }
        i = i + 1;
    }
    assert(strings_view(list@).take(list.len() as int) =~= strings_view(list@));
    r
}

/// The decimal notation of a number is a non-empty run of ASCII digits that
/// spells the number back.
pub proof fn lemma_decimal_digits(n: nat)
    ensures
        decimal(n).len() >= 1,
        forall|i: int| 0 <= i < decimal(n).len() ==> is_digit(#[trigger] decimal(n)[i]),
        digits_value(decimal(n)) == n,
    decreases n,
{
    if n < 10 {
        assert(digits_value(decimal(n).drop_last()) == 0);
    } else {
        lemma_decimal_digits(n / 10);
        let d = decimal(n / 10);
        assert(decimal(n).drop_last() =~= d);
        assert forall|i: int| 0 <= i < decimal(n).len() implies is_digit(
            #[trigger] decimal(n)[i],
        ) by {
            if i < d.len() {
                assert(decimal(n)[i] == d[i]);
            }
        }
        assert(n == (n / 10) * 10 + n % 10) by (nonlinear_arith);
    }
}

/// Reading the decimal notation of a number that fits in `usize` gives the
/// number back.
pub proof fn law_parse_reads_back_decimal(n: usize)
    ensures
        parsed_usize(decimal(n as nat)) == Some(n as nat),
{
    lemma_decimal_digits(n as nat);
}

/// The decimal notation of a number has no whitespace to trim.
pub proof fn lemma_trim_decimal(n: nat)
    ensures
        trim(decimal(n)) == decimal(n),
{
    lemma_decimal_digits(n);
    let d = decimal(n);
    assert(is_digit(d[0]));
    assert(lead_ws(d) == 0);
    assert(d.skip(0) =~= d);
    assert(is_digit(d.last()));
    assert(trail_ws(d) == 0);
    assert(d.take(d.len() as int) =~= d);
}

} // verus!
