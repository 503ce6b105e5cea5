//! Character-level text handling: whitespace, trimming, quote normalisation,
//! separators and decimal numbers.
use vstd::prelude::*;

verus! {

/// Characters with the Unicode `White_Space` property, those that `char::is_whitespace`
/// accepts.
pub open spec fn is_ws(c: char) -> bool {
    let u = c as u32;
    (0x09 <= u <= 0x0D) || u == 0x20 || u == 0x85 || u == 0xA0 || u == 0x1680
        || (0x2000 <= u <= 0x200A) || u == 0x2028 || u == 0x2029 || u == 0x202F
        || u == 0x205F || u == 0x3000
}

pub fn is_ws_char(c: char) -> (r: bool)
    ensures
        r == is_ws(c),
{
    let u = c as u32;
    (0x09 <= u && u <= 0x0D) || u == 0x20 || u == 0x85 || u == 0xA0 || u == 0x1680
        || (0x2000 <= u && u <= 0x200A) || u == 0x2028 || u == 0x2029 || u == 0x202F
        || u == 0x205F || u == 0x3000
}

/// Appends the characters of `s` to `out`.
pub fn push_chars(out: &mut Vec<char>, s: &str)
    ensures
        final(out)@ == old(out)@ + s@,
{
    let ghost start = out@;
    for c in it: s.chars()
        invariant
            out@ == start + it.seq().take(it.index() as int),
            it.seq() == s@,
    {
        out.push(c);
        proof {
            assert(it.seq().take(it.index() as int + 1) =~= it.seq().take(it.index() as int).push(c));
        }
    }
    assert(out@ =~= start + s@);
}

/// Relies on `String: FromIterator<char>`: the string holds the characters in order.
#[verifier::external_body]
pub(crate) fn string_of(chars: &Vec<char>) -> (r: String)
    ensures
        r@ == chars@,
{
    chars.iter().collect()
}


/// `s` without its leading whitespace.
pub open spec fn trim_start(s: Seq<char>) -> Seq<char>
    decreases s.len(),
{
    if s.len() > 0 && is_ws(s[0]) { trim_start(s.drop_first()) } else { s }
}

/// `s` without its trailing whitespace.
pub open spec fn trim_end(s: Seq<char>) -> Seq<char>
    decreases s.len(),
{
    if s.len() > 0 && is_ws(s.last()) { trim_end(s.drop_last()) } else { s }
}

/// `s` without leading and trailing whitespace, as `str::trim` gives it.
pub open spec fn trim(s: Seq<char>) -> Seq<char> {
    trim_end(trim_start(s))
}

/// The typographic quotes `“` and `”` become `"`, and `’` becomes `'`.
pub open spec fn plain_quote(c: char) -> char {
    if c == '\u{201C}' || c == '\u{201D}' {
        '"'
    } else if c == '\u{2019}' {
        '\''
    } else {
        c
    }
}

pub open spec fn plain_quotes(s: Seq<char>) -> Seq<char> {
    s.map_values(|c: char| plain_quote(c))
}

/// The visible form of a reconstructed text: trimmed, then with plain quotes.
pub open spec fn normalized(s: Seq<char>) -> Seq<char> {
    plain_quotes(trim(s))
}

proof fn lemma_trim_start_from(s: Seq<char>, i: int)
    requires
        0 <= i < s.len(),
        is_ws(s[i]),
    ensures
        trim_start(s.subrange(i, s.len() as int)) == trim_start(s.subrange(i + 1, s.len() as int)),
{
    assert(s.subrange(i, s.len() as int).drop_first() =~= s.subrange(i + 1, s.len() as int));
}

proof fn lemma_trim_end_to(s: Seq<char>, a: int, j: int)
    requires
        0 <= a < j <= s.len(),
        is_ws(s[j - 1]),
    ensures
        trim_end(s.subrange(a, j)) == trim_end(s.subrange(a, j - 1)),
{
    assert(s.subrange(a, j).drop_last() =~= s.subrange(a, j - 1));
}

/// The characters of `v` without leading and trailing whitespace.
pub fn trim_chars(v: &Vec<char>) -> (r: Vec<char>)
    ensures
        r@ == trim(v@),
{
    let n = v.len();
    let mut a: usize = 0;
    assert(v@.subrange(0, n as int) =~= v@);
    while a < n && is_ws_char(v[a])
        invariant
            n == v.len(),
            a <= n,
            trim_start(v@) == trim_start(v@.subrange(a as int, n as int)),
        decreases n - a,
    {
        proof {
            lemma_trim_start_from(v@, a as int);
        }
        a += 1;
    }
    assert(trim_start(v@) == v@.subrange(a as int, n as int));
    let mut b: usize = n;
    while b > a && is_ws_char(v[b - 1])
        invariant
            n == v.len(),
            a <= b <= n,
            trim(v@) == trim_end(v@.subrange(a as int, b as int)),
        decreases b,
    {
        proof {
            lemma_trim_end_to(v@, a as int, b as int);
        }
        b -= 1;
    }
    let mut r: Vec<char> = Vec::new();
    let mut i: usize = a;
    while i < b
        invariant
            a <= i <= b <= n,
            n == v.len(),
            r@ == v@.subrange(a as int, i as int),
        decreases b - i,
    {
        r.push(v[i]);
        assert(r@ =~= v@.subrange(a as int, i + 1));
        i += 1;
    }
    r
}

/// `v` with typographic quotes made plain (see `plain_quote`).
pub fn plain_quote_chars(v: &Vec<char>) -> (r: Vec<char>)
    ensures
        r@ == plain_quotes(v@),
{
    let mut r: Vec<char> = Vec::new();
    let mut i: usize = 0;
    while i < v.len()
        invariant
            i <= v.len(),
            r@ == plain_quotes(v@.subrange(0, i as int)),
        decreases v.len() - i,
    {
        let c = v[i];
        let d = if c == '\u{201C}' || c == '\u{201D}' {
            '"'
        } else if c == '\u{2019}' {
            '\''
        } else {
            c
        };
        r.push(d);
        assert(r@ =~= plain_quotes(v@.subrange(0, i + 1)));
        i += 1;
    }
    assert(v@.subrange(0, v.len() as int) =~= v@);
    r
}

/// The first position at or after `k` where `sep` stands in `s`.
pub open spec fn find_from(s: Seq<char>, sep: Seq<char>, k: int) -> Option<int>
    decreases s.len() + 1 - k,
{
    if 0 <= k && k + sep.len() <= s.len() {
        if s.subrange(k, k + sep.len()) == sep { Some(k) } else { find_from(s, sep, k + 1) }
    } else {
        None
    }
}

/// `s` split around the first occurrence of `sep`, as `str::split_once` splits it.
pub open spec fn split_once(s: Seq<char>, sep: Seq<char>) -> Option<(Seq<char>, Seq<char>)> {
    match find_from(s, sep, 0) {
        Some(k) => Some((s.subrange(0, k), s.subrange(k + sep.len(), s.len() as int))),
        None => None,
    }
}

/// The position of the first occurrence of `sep` in `s`.
pub fn find_chars(s: &Vec<char>, sep: &Vec<char>) -> (r: Option<usize>)
    ensures
        match r {
            Some(d) => find_from(s@, sep@, 0) == Some(d as int) && d + sep@.len() <= s@.len(),
            None => find_from(s@, sep@, 0) is None,
        },
{
    if sep.len() > s.len() {
        return None;
    }
    let last = s.len() - sep.len();
    let mut k: usize = 0;
    loop
        invariant
            sep.len() <= s.len(),
            last == s.len() - sep.len(),
            k <= last,
            find_from(s@, sep@, 0) == find_from(s@, sep@, k as int),
        decreases last - k,
    {
        let mut same = true;
        let mut j: usize = 0;
        while j < sep.len()
            invariant
                k + sep.len() <= s.len(),
                j <= sep.len(),
                same ==> forall|t: int| 0 <= t < j ==> s@[k + t] == sep@[t],
                !same ==> s@.subrange(k as int, k + sep.len()) != sep@,
            decreases sep.len() - j,
        {
            if s[k + j] != sep[j] {
                assert(s@.subrange(k as int, k + sep.len())[j as int] != sep@[j as int]);
                same = false;
            }
            j += 1;
        }
        if same {
            assert(s@.subrange(k as int, k + sep.len()) =~= sep@);
            return Some(k);
        }
        if k == last {
            assert(find_from(s@, sep@, k + 1) is None);
            return None;
        }
        k += 1;
    }
}

/// The characters `s[from..to]`.
pub fn slice_chars(s: &Vec<char>, from: usize, to: usize) -> (r: Vec<char>)
    requires
        from <= to <= s@.len(),
    ensures
        r@ == s@.subrange(from as int, to as int),
{
    let mut r: Vec<char> = Vec::new();
    let mut i: usize = from;
    while i < to
        invariant
            from <= i <= to <= s@.len(),
            r@ == s@.subrange(from as int, i as int),
        decreases to - i,
    {
        r.push(s[i]);
        assert(r@ =~= s@.subrange(from as int, i + 1));
        i += 1;
    }
    r
}

pub open spec fn is_digit(c: char) -> bool {
    '0' <= c <= '9'
}

pub open spec fn all_digits(s: Seq<char>) -> bool {
    forall|i: int| 0 <= i < s.len() ==> is_digit(#[trigger] s[i])
}

/// The number that a string of decimal digits writes.
pub open spec fn digits_value(s: Seq<char>) -> nat
    decreases s.len(),
{
    if s.len() == 0 {
        0
    } else {
        digits_value(s.drop_last()) * 10 + (s.last() as nat - '0' as nat) as nat
    }
}

/// What `usize::from_str` accepts: an optional `+`, then one or more decimal digits,
/// writing a number that fits in `usize`.
pub open spec fn unsigned_value(s: Seq<char>) -> Option<nat> {
    let d = if s.len() > 0 && s[0] == '+' { s.drop_first() } else { s };
    if d.len() > 0 && all_digits(d) && digits_value(d) <= usize::MAX {
        Some(digits_value(d))
    } else {
        None
    }
}

proof fn lemma_digits_grow(s: Seq<char>, i: int)
    requires
        0 <= i <= s.len(),
        all_digits(s),
    ensures
        digits_value(s.subrange(0, i)) <= digits_value(s),
    decreases s.len() - i,
{
    if i < s.len() {
        lemma_digits_grow(s, i + 1);
        let p = s.subrange(0, i + 1);
        assert(p.drop_last() =~= s.subrange(0, i));
        assert(is_digit(s[i]));
    } else {
        assert(s.subrange(0, i) =~= s);
    }
}

/// Reads `s` as `usize::from_str` does (see `unsigned_value`).
pub fn parse_unsigned(s: &Vec<char>) -> (r: Option<usize>)
    ensures
        match r {
            Some(v) => unsigned_value(s@) == Some(v as nat),
            None => unsigned_value(s@) is None,
        },
{
    let start: usize = if s.len() > 0 && s[0] == '+' { 1 } else { 0 };
    let ghost d = if s@.len() > 0 && s@[0] == '+' { s@.drop_first() } else { s@ };
    assert(d =~= s@.subrange(start as int, s@.len() as int));
    if start == s.len() {
        assert(d.len() == 0);
        return None;
    }
    let mut acc: usize = 0;
    let mut i: usize = start;
    while i < s.len()
        invariant
            start <= i <= s@.len(),
            d == s@.subrange(start as int, s@.len() as int),
            d == (if s@.len() > 0 && s@[0] == '+' { s@.drop_first() } else { s@ }),
            all_digits(d.subrange(0, i - start)),
            acc == digits_value(d.subrange(0, i - start)),
        decreases s.len() - i,
    {
        let c = s[i];
        if !('0' <= c && c <= '9') {
            assert(d[i - start] == c);
            assert(!is_digit(d[i - start]));
            assert(!all_digits(d));
            assert(unsigned_value(s@) is None);
            return None;
        }
        let digit = (c as u32 - '0' as u32) as usize;
        assert(d.subrange(0, i + 1 - start).drop_last() =~= d.subrange(0, i - start));
        if acc > (usize::MAX - digit) / 10 {
            proof {
                assert(all_digits(d.subrange(0, i + 1 - start)));
                assert(digits_value(d.subrange(0, i + 1 - start)) > usize::MAX) by (nonlinear_arith)
                    requires
                        acc > (usize::MAX - digit) / 10,
                        digits_value(d.subrange(0, i + 1 - start)) == acc * 10 + digit,
                        digit <= 9;
                if all_digits(d) {
                    lemma_digits_grow(d, i + 1 - start);
                    assert(d.subrange(0, i + 1 - start).subrange(0, i + 1 - start) =~= d.subrange(0, i + 1 - start));
                }
                assert(unsigned_value(s@) is None);
            }
            return None;
        }
        acc = acc * 10 + digit;
        i += 1;
    }
    assert(d.subrange(0, i - start) =~= d);
    Some(acc)
}


/// `s` in its visible form: trimmed, then with plain quotes (see `normalized`).
pub fn normalize_text(s: &str) -> (r: String)
    ensures
        r@ == normalized(s@),
{
    let mut chars: Vec<char> = Vec::new();
    push_chars(&mut chars, s);
    assert(chars@ =~= s@);
    let trimmed = trim_chars(&chars);
    let plain = plain_quote_chars(&trimmed);
    string_of(&plain)
}

proof fn lemma_trim_keeps_bare(s: Seq<char>)
    requires
        s.len() == 0 || (!is_ws(s[0]) && !is_ws(s.last())),
    ensures
        trim(s) == s,
{
}

proof fn lemma_trim_bare(s: Seq<char>)
    ensures
        trim(s).len() == 0 || (!is_ws(trim(s)[0]) && !is_ws(trim(s).last())),
    decreases s.len(),
{
    lemma_trim_start_bare(s);
    lemma_trim_end_bare(trim_start(s));
}

proof fn lemma_trim_start_bare(s: Seq<char>)
    ensures
        trim_start(s).len() == 0 || !is_ws(trim_start(s)[0]),
    decreases s.len(),
{
    if s.len() > 0 && is_ws(s[0]) {
        lemma_trim_start_bare(s.drop_first());
    }
}

proof fn lemma_trim_end_bare(s: Seq<char>)
    requires
        s.len() == 0 || !is_ws(s[0]),
    ensures
        trim_end(s).len() == 0 || (!is_ws(trim_end(s)[0]) && !is_ws(trim_end(s).last())),
    decreases s.len(),
{
    if s.len() > 0 && is_ws(s.last()) {
        if s.len() > 1 {
            assert(s.drop_last()[0] == s[0]);
        }
        lemma_trim_end_bare(s.drop_last());
    }
}

/// Normalising text that is already normalised changes nothing: trimming finds no
/// more whitespace, and no plain quote is replaced again.
pub proof fn lemma_normalized_idempotent(s: Seq<char>)
    ensures
        normalized(normalized(s)) == normalized(s),
{
    let t = trim(s);
    let n = plain_quotes(t);
    lemma_trim_bare(s);
    if t.len() > 0 {
        assert(n[0] == plain_quote(t[0]));
        assert(n.last() == plain_quote(t.last()));
    }
    lemma_trim_keeps_bare(n);
    assert(plain_quotes(n) =~= n);
}

} // verus!
