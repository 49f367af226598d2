//! Text primitives shared by the request builders and the signing code:
//! decimal rendering and parsing, substitution of path parameters, joining and
//! ordering of strings. Every contract is stated over `Seq<char>`.

use vstd::prelude::*;

verus! {

/// `String::push` of the standard library: the character is appended at
/// the end and nothing else changes.
pub assume_specification[ String::push ](s: &mut String, c: char)
    ensures
        final(s)@ == old(s)@.push(c),
;

/// The decimal digit that stands for `d`.
pub open spec fn digit_char(d: int) -> char {
    if d == 0 {
        '0'
    } else if d == 1 {
        '1'
    } else if d == 2 {
        '2'
    } else if d == 3 {
        '3'
    } else if d == 4 {
        '4'
    } else if d == 5 {
        '5'
    } else if d == 6 {
        '6'
    } else if d == 7 {
        '7'
    } else if d == 8 {
        '8'
    } else {
        '9'
    }
}

/// Whether `c` is one of `0` to `9`.
pub open spec fn is_digit(c: char) -> bool {
    '0' <= c && c <= '9'
}

/// The number a decimal digit stands for.
pub open spec fn digit_value(c: char) -> int {
    c as int - '0' as int
}

/// Decimal rendering of a natural number, without sign or leading zeros.
pub open spec fn decimal_spec(n: nat) -> Seq<char>
    decreases n,
{
    if n < 10 {
        seq![digit_char(n as int)]
    } else {
        decimal_spec(n / 10).push(digit_char((n % 10) as int))
    }
}

/// The number that a run of decimal digits denotes.
pub open spec fn digits_value(s: Seq<char>) -> nat
    decreases s.len(),
{
    if s.len() == 0 {
        0
    } else {
        (digits_value(s.drop_last()) * 10 + digit_value(s.last())) as nat
    }
}

/// Whether every character of `s` is a decimal digit.
pub open spec fn all_digits(s: Seq<char>) -> bool {
    forall|i: int| 0 <= i < s.len() ==> is_digit(#[trigger] s[i])
}

/// The digits of an unsigned decimal numeral: the text itself, or what
/// follows one leading `+`.
pub open spec fn numeral_digits(s: Seq<char>) -> Seq<char> {
    if s.len() > 0 && s[0] == '+' {
        s.skip(1)
    } else {
        s
    }
}

/// Reading of an unsigned decimal numeral: an optional `+`, then at least
/// one digit and nothing else, with a value that fits 64 bits.
pub open spec fn parse_u64_spec(s: Seq<char>) -> Option<u64> {
    let body = numeral_digits(s);
    if body.len() > 0 && all_digits(body) && digits_value(body) <= u64::MAX {
        Some(digits_value(body) as u64)
    } else {
        None
    }
}

fn digit_of(d: u8) -> (c: char)
    requires
        d < 10,
    ensures
        c == digit_char(d as int),
        is_digit(c),
        digit_value(c) == d,
{
    if d == 0 {
        '0'
    } else if d == 1 {
        '1'
    } else if d == 2 {
        '2'
    } else if d == 3 {
        '3'
    } else if d == 4 {
        '4'
    } else if d == 5 {
        '5'
    } else if d == 6 {
        '6'
    } else if d == 7 {
        '7'
    } else if d == 8 {
        '8'
    } else {
        '9'
    }
}

/// Appends the decimal rendering of `n` to `out`.
pub fn push_decimal(out: &mut String, n: u64)
    ensures
        final(out)@ == old(out)@ + decimal_spec(n as nat),
    decreases n,
{
    if n >= 10 {
        push_decimal(out, n / 10);
    }
    let d: u8 = (n % 10) as u8;
    out.push(digit_of(d));
}

/// Decimal rendering of `n`.
pub fn decimal(n: u64) -> (s: String)
    ensures
        s@ == decimal_spec(n as nat),
{
    let mut s = String::new();
    push_decimal(&mut s, n);
    s
}

/// The characters of `s`, in order.
pub fn chars_of(s: &str) -> (v: Vec<char>)
    ensures
        v@ == s@,
{
    let mut v: Vec<char> = Vec::new();
    for c in it: s.chars()
        invariant
            it.seq() == s@,
            v@ == it.seq().take(it.index()),
    {
        v.push(c);
        assert(it.seq().take(it.index() + 1) == it.seq().take(it.index()).push(c));
    }
    v
}

/// A longer run of digits denotes at least as much as any of its prefixes.
pub proof fn lemma_digits_value_prefix(s: Seq<char>, k: int)
    requires
        all_digits(s),
        0 <= k <= s.len(),
    ensures
        digits_value(s.take(k)) <= digits_value(s),
    decreases s.len(),
{
    if k == s.len() {
        assert(s.take(k) == s);
    } else {
        let init = s.drop_last();
        assert(is_digit(s.last()));
        assert(all_digits(init)) by {
            assert forall|i: int| 0 <= i < init.len() implies is_digit(#[trigger] init[i]) by {
                assert(init[i] == s[i]);
            }
        }
        lemma_digits_value_prefix(init, k);
        assert(init.take(k) == s.take(k));
    }
}

/// The number that a run of characters denotes, where they are digits, at
/// least one, and the number fits 64 bits.
pub open spec fn digits_spec(body: Seq<char>) -> Option<u64> {
    if body.len() > 0 && all_digits(body) && digits_value(body) <= u64::MAX {
        Some(digits_value(body) as u64)
    } else {
        None
    }
}

fn parse_digits(chars: &Vec<char>, start: usize) -> (r: Option<u64>)
    requires
        start <= chars.len(),
    ensures
        r == digits_spec(chars@.skip(start as int)),
{
    let ghost body = chars@.skip(start as int);
    if chars.len() == start {
        return None;
    }
    let mut acc: u64 = 0;
    let mut i: usize = start;
    while i < chars.len()
        invariant
            start <= i <= chars.len(),
            body == chars@.skip(start as int),
            all_digits(body.take(i - start)),
            acc == digits_value(body.take(i - start)),
        decreases chars.len() - i,
    {
        let c = chars[i];
        let ghost k = i - start;
        assert(body[k] == c);
        if !(c >= '0' && c <= '9') {
            assert(!all_digits(body));
            return None;
        }
        let d: u64 = (c as u64) - ('0' as u64);
        let ghost next = body.take(k + 1);
        assert(next.drop_last() == body.take(k));
        assert(next.last() == c);
        assert(all_digits(next)) by {
            assert forall|j: int| 0 <= j < next.len() implies is_digit(#[trigger] next[j]) by {
                if j < k {
                    assert(next[j] == body.take(k)[j]);
                }
            }
        }
        let grown = match acc.checked_mul(10) {
            Some(t) => t.checked_add(d),
            None => None,
        };
        match grown {
            Some(v) => {
                acc = v;
            },
            None => {
                proof {
                    assert(digits_value(next) > u64::MAX);
                    if all_digits(body) {
                        lemma_digits_value_prefix(body, k + 1);
                    }
                }
                return None;
            },
        }
        i += 1;
    }
    assert(body.take(i - start) == body);
    Some(acc)
}

/// Reads an unsigned decimal numeral, as `str::parse::<u64>` does.
pub fn parse_u64(s: &str) -> (r: Option<u64>)
    ensures
        r == parse_u64_spec(s@),
{
    let chars = chars_of(s);
    let start: usize = if chars.len() > 0 && chars[0] == '+' {
        1
    } else {
        0
    };
    assert(numeral_digits(s@) == chars@.skip(start as int));
    parse_digits(&chars, start)
}

/// Decimal rendering of an integer: `-` before the digits of a negative
/// number.
pub open spec fn decimal_i64_spec(n: int) -> Seq<char> {
    if n < 0 {
        seq!['-'] + decimal_spec((-n) as nat)
    } else {
        decimal_spec(n as nat)
    }
}

/// Reading of a signed decimal numeral: an optional `-`, then at least one
/// digit and nothing else, with a value that fits 64 bits with sign.
pub open spec fn parse_i64_spec(s: Seq<char>) -> Option<i64> {
    if s.len() > 0 && s[0] == '-' {
        let body = s.skip(1);
        if body.len() > 0 && all_digits(body) && digits_value(body) <= 0x8000_0000_0000_0000 {
            Some((-(digits_value(body) as int)) as i64)
        } else {
            None
        }
    } else if s.len() > 0 && all_digits(s) && digits_value(s) <= i64::MAX {
        Some(digits_value(s) as i64)
    } else {
        None
    }
}

/// Decimal rendering of `n`.
pub fn decimal_i64(n: i64) -> (s: String)
    ensures
        s@ == decimal_i64_spec(n as int),
{
    let mut s = String::new();
    if n < 0 {
        s.push('-');
        let magnitude: u64 = if n == i64::MIN {
            0x8000_0000_0000_0000
        } else {
            (-n) as u64
        };
        push_decimal(&mut s, magnitude);
    } else {
        push_decimal(&mut s, n as u64);
    }
    s
}

/// Reads a signed decimal numeral.
pub fn parse_i64(s: &str) -> (r: Option<i64>)
    ensures
        r == parse_i64_spec(s@),
{
    let chars = chars_of(s);
    if chars.len() > 0 && chars[0] == '-' {
        match parse_digits(&chars, 1) {
            Some(magnitude) => {
                if magnitude < 0x8000_0000_0000_0000 {
                    Some(-(magnitude as i64))
                } else if magnitude == 0x8000_0000_0000_0000 {
                    Some(i64::MIN)
                } else {
                    None
                }
            },
            None => None,
        }
    } else {
        assert(chars@.skip(0) == chars@);
        match parse_digits(&chars, 0) {
            Some(value) => {
                if value <= 0x7fff_ffff_ffff_ffff {
                    Some(value as i64)
                } else {
                    None
                }
            },
            None => None,
        }
    }
}

/// The decimal rendering of a number is made of digits, at least one, and
/// denotes the number.
pub proof fn lemma_decimal_digits(n: nat)
    ensures
        decimal_spec(n).len() > 0,
        all_digits(decimal_spec(n)),
        digits_value(decimal_spec(n)) == n,
    decreases n,
{
    if n >= 10 {
        lemma_decimal_digits(n / 10);
        let init = decimal_spec(n / 10);
        let whole = decimal_spec(n);
        assert(whole.drop_last() == init);
        assert(whole.last() == digit_char((n % 10) as int));
        assert forall|i: int| 0 <= i < whole.len() implies is_digit(#[trigger] whole[i]) by {
            if i < init.len() {
                assert(whole[i] == init[i]);
            }
        }
    } else {
        let whole = decimal_spec(n);
        assert(whole.drop_last() == Seq::<char>::empty());
        assert(digits_value(whole.drop_last()) == 0);
    }
}

/// Reading what was written gives the integer back.
pub proof fn lemma_parse_i64_decimal(n: i64)
    ensures
        parse_i64_spec(decimal_i64_spec(n as int)) == Some(n),
{
    if n < 0 {
        lemma_decimal_digits((-n) as nat);
        let text = decimal_i64_spec(n as int);
        assert(text.skip(1) == decimal_spec((-n) as nat));
    } else {
        lemma_decimal_digits(n as nat);
    }
}

/// `s` with every occurrence of the non-empty `pattern` replaced by `to`,
/// the occurrences taken from the left and not overlapping.
pub open spec fn replace_spec(s: Seq<char>, pattern: Seq<char>, to: Seq<char>) -> Seq<char>
    decreases s.len(),
{
    if pattern.len() == 0 || s.len() < pattern.len() {
        s
    } else if s.take(pattern.len() as int) == pattern {
        to + replace_spec(s.skip(pattern.len() as int), pattern, to)
    } else {
        seq![s[0]] + replace_spec(s.skip(1), pattern, to)
    }
}

fn matches_at(text: &Vec<char>, at: usize, pattern: &Vec<char>) -> (b: bool)
    requires
        at + pattern.len() <= text.len(),
    ensures
        b == (text@.skip(at as int).take(pattern.len() as int) == pattern@),
{
    let ghost window = text@.skip(at as int).take(pattern.len() as int);
    let mut j: usize = 0;
    while j < pattern.len()
        invariant
            j <= pattern.len(),
            at + pattern.len() <= text.len(),
            window == text@.skip(at as int).take(pattern.len() as int),
            forall|k: int| 0 <= k < j ==> window[k] == pattern@[k],
        decreases pattern.len() - j,
    {
        assert(window[j as int] == text@[at + j]);
        if text[at + j] != pattern[j] {
            return false;
        }
        j += 1;
    }
    assert(window =~= pattern@);
    true
}

/// Appends every character of `piece` to `out`.
pub fn push_chars(out: &mut String, piece: &Vec<char>)
    ensures
        final(out)@ == old(out)@ + piece@,
{
    let mut k: usize = 0;
    while k < piece.len()
        invariant
            k <= piece.len(),
            out@ == old(out)@ + piece@.take(k as int),
        decreases piece.len() - k,
    {
        out.push(piece[k]);
        assert(piece@.take(k + 1) == piece@.take(k as int).push(piece@[k as int]));
        k += 1;
    }
    assert(piece@.take(k as int) == piece@);
}

/// Replaces every occurrence of `pattern` in `template` by `value`, as
/// `str::replace` does with a pattern that is not empty. An empty pattern
/// leaves the template unchanged.
pub fn replace_all(template: &str, pattern: &str, value: &str) -> (out: String)
    ensures
        out@ == replace_spec(template@, pattern@, value@),
{
    let text = chars_of(template);
    let pat = chars_of(pattern);
    let val = chars_of(value);
    let mut out = String::new();
    if pat.len() == 0 {
        push_chars(&mut out, &text);
        return out;
    }
    let mut i: usize = 0;
    assert(text@.skip(0) == text@);
    assert(out@ + replace_spec(text@, pat@, val@) == replace_spec(text@, pat@, val@));
    while i < text.len() && text.len() - i >= pat.len()
        invariant
            i <= text.len(),
            pat.len() > 0,
            text@ == template@,
            pat@ == pattern@,
            val@ == value@,
            out@ + replace_spec(text@.skip(i as int), pat@, val@) == replace_spec(
                text@,
                pat@,
                val@,
            ),
        decreases text.len() - i,
    {
        let ghost rest = text@.skip(i as int);
        let ghost before = out@;
        if matches_at(&text, i, &pat) {
            push_chars(&mut out, &val);
            i += pat.len();
            assert(rest.skip(pat.len() as int) == text@.skip(i as int));
            assert(out@ + replace_spec(text@.skip(i as int), pat@, val@) == before + (val@
                + replace_spec(text@.skip(i as int), pat@, val@)));
        } else {
            out.push(text[i]);
            i += 1;
            assert(rest.skip(1) == text@.skip(i as int));
            assert(out@ + replace_spec(text@.skip(i as int), pat@, val@) == before + (seq![rest[0]]
                + replace_spec(text@.skip(i as int), pat@, val@)));
        }
    }
    let ghost tail = text@.skip(i as int);
    let ghost before = out@;
    assert(replace_spec(tail, pat@, val@) == tail);
    let mut k: usize = i;
    while k < text.len()
        invariant
            i <= k <= text.len(),
            out@ == before + text@.subrange(i as int, k as int),
        decreases text.len() - k,
    {
        out.push(text[k]);
        assert(text@.subrange(i as int, k + 1) == text@.subrange(i as int, k as int).push(
            text@[k as int],
        ));
        k += 1;
    }
    assert(text@.subrange(i as int, k as int) == tail);
    out
}

/// The pieces written one after another with `sep` between neighbours.
pub open spec fn join_spec(parts: Seq<Seq<char>>, sep: Seq<char>) -> Seq<char>
    decreases parts.len(),
{
    if parts.len() == 0 {
        Seq::empty()
    } else if parts.len() == 1 {
        parts[0]
    } else {
        join_spec(parts.drop_last(), sep) + sep + parts.last()
    }
}

/// The text of each piece.
pub open spec fn texts(parts: Seq<&str>) -> Seq<Seq<char>> {
    Seq::new(parts.len(), |i: int| parts[i]@)
}

/// `Itertools::join` of the itertools crate on string slices: an empty
/// string for no pieces, else the first piece followed by the separator
/// and the piece, for each further piece in order.
#[verifier::external_body]
pub(crate) fn join(parts: &Vec<&str>, sep: &str) -> (s: String)
    ensures
        s@ == join_spec(texts(parts@), sep@),
{
    itertools::Itertools::join(&mut parts.iter(), sep)
}

/// Whether `a` comes before `b`, or equals it, when the two are compared
/// character by character and a proper prefix comes first.
pub open spec fn lex_le(a: Seq<char>, b: Seq<char>) -> bool
    decreases a.len(),
{
    if a.len() == 0 {
        true
    } else if b.len() == 0 {
        false
    } else if a[0] != b[0] {
        (a[0] as int) < (b[0] as int)
    } else {
        lex_le(a.skip(1), b.skip(1))
    }
}

/// Three-way result of comparing two texts.
#[derive(Clone, Copy, Debug, PartialEq, Eq, Structural)]
pub enum Rank {
    Before,
    Same,
    After,
}

/// How `a` stands to `b` in the order of [`lex_le`].
pub open spec fn rank_spec(a: Seq<char>, b: Seq<char>) -> Rank {
    if a == b {
        Rank::Same
    } else if lex_le(a, b) {
        Rank::Before
    } else {
        Rank::After
    }
}

/// Equal texts are ordered both ways, and nothing else is.
pub proof fn lemma_lex_le_antisymmetric(a: Seq<char>, b: Seq<char>)
    requires
        lex_le(a, b),
        lex_le(b, a),
    ensures
        a == b,
    decreases a.len(),
{
    if a.len() == 0 {
        assert(b.len() == 0);
        assert(a =~= b);
    } else {
        lemma_lex_le_antisymmetric(a.skip(1), b.skip(1));
        assert(a =~= seq![a[0]] + a.skip(1));
        assert(b =~= seq![b[0]] + b.skip(1));
    }
}

/// Every text is ordered before or equal to itself.
pub proof fn lemma_lex_le_reflexive(a: Seq<char>)
    ensures
        lex_le(a, a),
    decreases a.len(),
{
    if a.len() > 0 {
        lemma_lex_le_reflexive(a.skip(1));
    }
}

/// Of two texts, one is ordered before or equal to the other.
pub proof fn lemma_lex_le_total(a: Seq<char>, b: Seq<char>)
    ensures
        lex_le(a, b) || lex_le(b, a),
    decreases a.len(),
{
    if a.len() > 0 && b.len() > 0 && a[0] == b[0] {
        lemma_lex_le_total(a.skip(1), b.skip(1));
    }
}

/// The order passes along a chain of three texts.
pub proof fn lemma_lex_le_transitive(a: Seq<char>, b: Seq<char>, c: Seq<char>)
    requires
        lex_le(a, b),
        lex_le(b, c),
    ensures
        lex_le(a, c),
    decreases a.len(),
{
    if a.len() > 0 && a[0] == b[0] && b[0] == c[0] {
        lemma_lex_le_transitive(a.skip(1), b.skip(1), c.skip(1));
    }
}

/// Compares two texts character by character.
pub fn rank(a: &str, b: &str) -> (r: Rank)
    ensures
        r == rank_spec(a@, b@),
{
    let x = chars_of(a);
    let y = chars_of(b);
    let mut i: usize = 0;
    assert(x@.skip(0) == x@);
    assert(y@.skip(0) == y@);
    while i < x.len() && i < y.len()
        invariant
            i <= x.len(),
            i <= y.len(),
            x@ == a@,
            y@ == b@,
            x@.take(i as int) == y@.take(i as int),
            lex_le(x@, y@) == lex_le(x@.skip(i as int), y@.skip(i as int)),
            lex_le(y@, x@) == lex_le(y@.skip(i as int), x@.skip(i as int)),
        decreases x.len() - i,
    {
        let ghost xs = x@.skip(i as int);
        let ghost ys = y@.skip(i as int);
        assert(xs[0] == x@[i as int] && ys[0] == y@[i as int]);
        if x[i] != y[i] {
            assert(x@ != y@);
            let (p, q) = (x[i], y[i]);
            assert(lex_le(xs, ys) == ((p as int) < (q as int)));
            assert(lex_le(ys, xs) == ((q as int) < (p as int)));
            if p < q {
                return Rank::Before;
            } else {
                return Rank::After;
            }
        }
        assert(xs.skip(1) == x@.skip(i + 1));
        assert(ys.skip(1) == y@.skip(i + 1));
        assert(x@.take(i + 1) == x@.take(i as int).push(x@[i as int]));
        assert(y@.take(i + 1) == y@.take(i as int).push(y@[i as int]));
        i += 1;
    }
    if x.len() == y.len() {
        assert(x@.take(i as int) == x@);
        assert(y@.take(i as int) == y@);
        Rank::Same
    } else if i == x.len() {
        assert(x@.len() != y@.len());
        Rank::Before
    } else {
        assert(x@.len() != y@.len());
        Rank::After
    }
}

/// Whether the two texts hold the same characters.
pub fn same_text(a: &str, b: &str) -> (r: bool)
    ensures
        r == (a@ == b@),
{
    rank(a, b) == Rank::Same
}

} // verus!
