//! Character-level text utilities: ASCII case folding, substring search,
//! word tokens and decimal integers.
use vstd::prelude::*;

verus! {

/// ASCII lower-casing of one character; other characters are kept.
pub open spec fn fold_char(c: char) -> char {
    if 'A' <= c && c <= 'Z' {
        ((c as u8) + 32u8) as char
    } else {
        c
    }
}

/// ASCII lower-casing of a whole text.
pub open spec fn fold(s: Seq<char>) -> Seq<char> {
    s.map_values(|c: char| fold_char(c))
}

/// `needle` occurs in `hay` at some offset.
pub open spec fn contains(hay: Seq<char>, needle: Seq<char>) -> bool {
    exists|i: int|
        0 <= i && i + needle.len() <= hay.len() && #[trigger] hay.subrange(i, i + needle.len())
            == needle
}

/// Case-insensitive containment.
pub open spec fn contains_folded(hay: Seq<char>, needle: Seq<char>) -> bool {
    contains(fold(hay), fold(needle))
}

pub fn fold_char_exec(c: char) -> (r: char)
    ensures
        r == fold_char(c),
{
    if 'A' <= c && c <= 'Z' {
        ((c as u8) + 32u8) as char
    } else {
        c
    }
}

/// The characters of a text, in order.
pub fn chars_of(s: &str) -> (r: Vec<char>)
    ensures
        r@ == s@,
{
    let mut v: Vec<char> = Vec::new();
    let ghost whole = s@;
    proof {
        broadcast use vstd::string::axiom_spec_iter;
    }
    for c in it: s.chars()
        invariant
            v@ == it.seq().take(it.index() as int),
            it.seq() == whole,
        ensures
            v@ == whole,
    {
        v.push(c);
    }
    v
}

/// The lower-cased characters of a text.
pub fn folded_chars(s: &str) -> (r: Vec<char>)
    ensures
        r@ == fold(s@),
{
    let cs = chars_of(s);
    fold_vec(&cs)
}

/// The lower-cased copy of a character sequence.
pub fn fold_vec(cs: &Vec<char>) -> (r: Vec<char>)
    ensures
        r@ == fold(cs@),
{
    let mut v: Vec<char> = Vec::new();
    let mut i: usize = 0;
    while i < cs.len()
        invariant
            i <= cs.len(),
            v@ == fold(cs@.take(i as int)),
        decreases cs.len() - i,
    {
        v.push(fold_char_exec(cs[i]));
        proof {
            assert(cs@.take(i + 1) == cs@.take(i as int).push(cs@[i as int]));
        }
        i = i + 1;
        assert(v@ =~= fold(cs@.take(i as int)));
    }
    assert(cs@.take(i as int) =~= cs@);
    v
}

/// Two character sequences are equal.
pub fn seq_eq(a: &Vec<char>, b: &Vec<char>) -> (r: bool)
    ensures
        r == (a@ == b@),
{
    if a.len() != b.len() {
        return false;
    }
    let mut i: usize = 0;
    while i < a.len()
        invariant
            i <= a.len(),
            a.len() == b.len(),
            forall|k: int| 0 <= k < i ==> a@[k] == b@[k],
        decreases a.len() - i,
    {
        if a[i] != b[i] {
            return false;
        }
        i = i + 1;
    }
    assert(a@ =~= b@);
    true
}

/// Two texts are equal.
pub fn text_eq(a: &str, b: &str) -> (r: bool)
    ensures
        r == (a@ == b@),
{
    let x = chars_of(a);
    let y = chars_of(b);
    seq_eq(&x, &y)
}

/// `needle` occurs in `hay` at offset `at`.
fn occurs_at(hay: &Vec<char>, needle: &Vec<char>, at: usize) -> (r: bool)
    requires
        at + needle.len() <= hay.len(),
    ensures
        r == (hay@.subrange(at as int, at + needle.len()) == needle@),
{
    let mut k: usize = 0;
    while k < needle.len()
        invariant
            k <= needle.len(),
            at + needle.len() <= hay.len(),
            forall|m: int| 0 <= m < k ==> hay@[at + m] == needle@[m],
        decreases needle.len() - k,
    {
        if hay[at + k] != needle[k] {
            assert(hay@.subrange(at as int, at + needle.len())[k as int] != needle@[k as int]);
            return false;
        }
        k = k + 1;
    }
    assert(hay@.subrange(at as int, at + needle.len()) =~= needle@);
    true
}

/// Substring search.
pub fn contains_exec(hay: &Vec<char>, needle: &Vec<char>) -> (r: bool)
    ensures
        r == contains(hay@, needle@),
{
    if needle.len() > hay.len() {
        return false;
    }
    if needle.len() == 0 {
        assert(hay@.subrange(0, 0 + needle.len()) =~= needle@);
        return true;
    }
    let last: usize = hay.len() - needle.len();
    let mut i: usize = 0;
    while i <= last
        invariant
            last == hay.len() - needle.len(),
            needle.len() > 0,
            i <= last + 1,
            forall|j: int|
                0 <= j < i ==> #[trigger] hay@.subrange(j, j + needle.len()) != needle@,
        decreases last + 1 - i,
    {
        if occurs_at(hay, needle, i) {
            return true;
        }
        i = i + 1;
    }
    false
}

/// Characters that make up a word: ASCII letters and digits, `_` and `-`.
pub open spec fn is_word_char(c: char) -> bool {
    ('a' <= c && c <= 'z') || ('A' <= c && c <= 'Z') || ('0' <= c && c <= '9') || c == '_' || c
        == '-'
}

/// The words of a text: its maximal runs of word characters, in order.
pub open spec fn words(s: Seq<char>) -> Seq<Seq<char>>
    decreases s.len(),
{
    if s.len() == 0 {
        Seq::empty()
    } else {
        let prev = words(s.drop_last());
        let c = s.last();
        if !is_word_char(c) {
            prev
        } else if s.len() >= 2 && is_word_char(s[s.len() - 2]) {
            prev.update(prev.len() - 1, prev.last().push(c))
        } else {
            prev.push(seq![c])
        }
    }
}

/// The views of a sequence of character vectors.
pub open spec fn char_views(v: Seq<Vec<char>>) -> Seq<Seq<char>> {
    v.map_values(|w: Vec<char>| w@)
}

fn is_word_char_exec(c: char) -> (r: bool)
    ensures
        r == is_word_char(c),
{
    ('a' <= c && c <= 'z') || ('A' <= c && c <= 'Z') || ('0' <= c && c <= '9') || c == '_' || c
        == '-'
}

/// Splits a text into its words.
pub fn words_of(s: &str) -> (r: Vec<Vec<char>>)
    ensures
        char_views(r@) == words(s@),
{
    let cs = chars_of(s);
    let mut out: Vec<Vec<char>> = Vec::new();
    let mut cur: Vec<char> = Vec::new();
    let mut i: usize = 0;
    while i < cs.len()
        invariant
            i <= cs.len(),
            cs@ == s@,
            cur@.len() > 0 ==> words(cs@.take(i as int)) == char_views(out@).push(cur@),
            cur@.len() == 0 ==> words(cs@.take(i as int)) == char_views(out@),
            cur@.len() > 0 <==> (i > 0 && is_word_char(cs@[i - 1])),
        decreases cs.len() - i,
    {
        let c = cs[i];
        let ghost pre = cs@.take(i as int);
        let ghost next = cs@.take(i + 1);
        assert(next.drop_last() =~= pre);
        assert(next.last() == c);
        if is_word_char_exec(c) {
            let had = cur.len() > 0;
            let ghost old_cur = cur@;
            cur.push(c);
            if had {
                assert(next[next.len() - 2] == cs@[i - 1]);
                let ghost prev = words(pre);
                assert(prev == char_views(out@).push(old_cur));
                assert(prev.last() == old_cur);
                assert(words(next) == prev.update(prev.len() - 1, prev.last().push(c)));
                assert(words(next) =~= char_views(out@).push(cur@));
            } else {
                if i > 0 {
                    assert(next[next.len() - 2] == cs@[i - 1]);
                }
                assert(cur@ =~= seq![c]);
                assert(words(next) =~= char_views(out@).push(cur@));
            }
        } else {
            if cur.len() > 0 {
                let done = cur;
                out.push(done);
                cur = Vec::new();
                assert(char_views(out@) =~= words(pre));
            }
        }
        i = i + 1;
    }
    assert(cs@.take(i as int) =~= cs@);
    if cur.len() > 0 {
        out.push(cur);
    }
    assert(char_views(out@) =~= words(s@));
    out
}

pub open spec fn is_digit(c: char) -> bool {
    '0' <= c && c <= '9'
}

pub open spec fn digit_value(c: char) -> int {
    (c as u32) - ('0' as u32)
}

/// The value of a run of decimal digits.
pub open spec fn digits_value(d: Seq<char>) -> int
    decreases d.len(),
{
    if d.len() == 0 {
        0
    } else {
        digits_value(d.drop_last()) * 10 + digit_value(d.last())
    }
}

pub open spec fn pow10(n: nat) -> int
    decreases n,
{
    if n == 0 {
        1
    } else {
        10 * pow10((n - 1) as nat)
    }
}

/// The most digits that an integer value may have.
pub const MAX_DIGITS: usize = 18;

/// The digits of a text, after an optional leading minus sign.
pub open spec fn unsigned_part(s: Seq<char>) -> Seq<char> {
    if s.len() > 0 && s[0] == '-' {
        s.drop_first()
    } else {
        s
    }
}

/// The integer that a text spells: an optional `-` followed by one to
/// eighteen decimal digits and nothing else.
pub open spec fn integer_value(s: Seq<char>) -> Option<int> {
    let d = unsigned_part(s);
    if 0 < d.len() && d.len() <= MAX_DIGITS && (forall|k: int| 0 <= k < d.len() ==> is_digit(d[k])) {
        if s[0] == '-' {
            Some(-digits_value(d))
        } else {
            Some(digits_value(d))
        }
    } else {
        None
    }
}

proof fn lemma_pow10_positive(n: nat)
    ensures
        pow10(n) >= 1,
    decreases n,
{
    if n > 0 {
        lemma_pow10_positive((n - 1) as nat);
    }
}

proof fn lemma_pow10_below_18(n: nat)
    requires
        n < 18,
    ensures
        pow10(n) <= 100_000_000_000_000_000,
    decreases 18 - n,
{
    reveal_with_fuel(pow10, 18);
    if n < 17 {
        lemma_pow10_below_18(n + 1);
        lemma_pow10_positive(n);
    }
}

/// Reads a decimal integer.
pub fn integer_of(s: &Vec<char>) -> (r: Option<i64>)
    ensures
        match integer_value(s@) {
            Some(v) => r matches Some(x) && x as int == v,
            None => r is None,
        },
{
    let neg = s.len() > 0 && s[0] == '-';
    let start: usize = if neg { 1 } else { 0 };
    let ghost d = unsigned_part(s@);
    assert(d =~= s@.subrange(start as int, s@.len() as int));
    if s.len() <= start || s.len() - start > MAX_DIGITS {
        return None;
    }
    let mut val: i64 = 0;
    let mut i: usize = start;
    while i < s.len()
        invariant
            start <= i <= s.len(),
            s.len() - start <= MAX_DIGITS,
            d =~= s@.subrange(start as int, s@.len() as int),
            d == unsigned_part(s@),
            neg == (s@.len() > 0 && s@[0] == '-'),
            forall|k: int| 0 <= k < i - start ==> is_digit(d[k]),
            0 <= val,
            val as int == digits_value(d.take(i - start)),
            (val as int) < pow10((i - start) as nat),
        decreases s.len() - i,
    {
        let c = s[i];
        if c < '0' || c > '9' {
            assert(!is_digit(d[i - start]));
            return None;
        }
        proof {
            lemma_pow10_below_18((i - start) as nat);
            assert(d.take(i - start + 1).drop_last() =~= d.take(i - start));
        }
        let dv: i64 = ((c as u32) - ('0' as u32)) as i64;
        assert(val * 10 + dv < pow10((i - start + 1) as nat)) by (nonlinear_arith)
            requires
                val < pow10((i - start) as nat),
                0 <= dv <= 9,
                pow10((i - start + 1) as nat) == 10 * pow10((i - start) as nat),
        ;
        val = val * 10 + dv;
        i = i + 1;
    }
    assert(d.take(d.len() as int) =~= d);
    if neg {
        Some(-val)
    } else {
        Some(val)
    }
}

/// A run of at most eighteen digits has a value below 10^18.
pub proof fn lemma_digits_bound(d: Seq<char>)
    requires
        d.len() <= MAX_DIGITS,
        forall|k: int| 0 <= k < d.len() ==> is_digit(d[k]),
    ensures
        0 <= digits_value(d) < pow10(d.len()),
        digits_value(d) <= 1_000_000_000_000_000_000,
    decreases d.len(),
{
    if d.len() > 0 {
        let p = d.drop_last();
        assert forall|k: int| 0 <= k < p.len() implies is_digit(p[k]) by {
            assert(p[k] == d[k]);
        }
        lemma_digits_bound(p);
        lemma_pow10_below_18(p.len());
        assert(is_digit(d[d.len() - 1]));
        let dv = digit_value(d.last());
        assert(0 <= dv <= 9);
        assert(digits_value(p) * 10 + dv < 10 * pow10(p.len())) by (nonlinear_arith)
            requires
                0 <= digits_value(p) < pow10(p.len()),
                0 <= dv <= 9,
        ;
        assert(0 <= digits_value(p) * 10 + dv) by (nonlinear_arith)
            requires
                0 <= digits_value(p),
                0 <= dv,
        ;
        assert(10 * pow10(p.len()) <= 1_000_000_000_000_000_000);
    }
}

/// An integer value has at most eighteen digits, so it lies within 10^18
/// of zero.
pub proof fn lemma_integer_value_bound(s: Seq<char>)
    ensures
        integer_value(s) matches Some(v) ==> -1_000_000_000_000_000_000 <= v
            <= 1_000_000_000_000_000_000,
{
    if let Some(v) = integer_value(s) {
        lemma_digits_bound(unsigned_part(s));
    }
}

} // verus!
