//! Character-level helpers shared by the proxy core: ASCII byte views of
//! strings and whitespace trimming for key lists.

use vstd::prelude::*;

verus! {

/// The bytes of a sequence of ASCII characters, one byte per character.
pub open spec fn ascii_bytes(s: Seq<char>) -> Seq<u8> {
    Seq::new(s.len(), |i: int| s[i] as u8)
}

/// The byte encoding of an ASCII string, built character by character.
pub fn ascii_bytes_of(s: &str) -> (r: Vec<u8>)
    requires
        s.is_ascii(),
    ensures
        r@ == ascii_bytes(s@),
{
    let n: usize = s.unicode_len();
    let mut r: Vec<u8> = Vec::new();
    let mut i: usize = 0;
    while i < n
        invariant
            s.is_ascii(),
            n == s@.len(),
            i <= n,
            r@ == ascii_bytes(s@).take(i as int),
        decreases n - i,
    {
        let b = s.get_ascii(i);
        r.push(b);
        proof {
            assert(ascii_bytes(s@).take(i + 1) =~= ascii_bytes(s@).take(i as int).push(b));
        }
        i = i + 1;
    }
    proof {
        assert(ascii_bytes(s@).take(n as int) =~= ascii_bytes(s@));
    }
    r
}

/// Exact, case-sensitive string equality.
pub fn str_eq(a: &str, b: &str) -> (r: bool)
    ensures
        r == (a@ == b@),
{
    let n = a.unicode_len();
    let m = b.unicode_len();
    if n != m {
        return false;
    }
    let mut i: usize = 0;
    while i < n
        invariant
            i <= n,
            n == a@.len(),
            n == b@.len(),
            forall|j: int| 0 <= j < i ==> a@[j] == b@[j],
        decreases n - i,
    {
        if a.get_char(i) != b.get_char(i) {
            return false;
        }
        i = i + 1;
    }
    proof {
        assert(a@ =~= b@);
    }
    true
}

/// A white-space character, as the standard trimming removes it: the
/// characters with the Unicode white-space property.
pub open spec fn is_ws(c: char) -> bool {
    ||| c == ' '
    ||| ('\u{9}' <= c && c <= '\u{d}')
    ||| c == '\u{85}'
    ||| c == '\u{a0}'
    ||| c == '\u{1680}'
    ||| ('\u{2000}' <= c && c <= '\u{200a}')
    ||| c == '\u{2028}'
    ||| c == '\u{2029}'
    ||| c == '\u{202f}'
    ||| c == '\u{205f}'
    ||| c == '\u{3000}'
}

fn is_ws_exec(c: char) -> (r: bool)
    ensures
        r == is_ws(c),
{
    c == ' ' || ('\u{9}' <= c && c <= '\u{d}') || c == '\u{85}' || c == '\u{a0}' || c == '\u{1680}'
        || ('\u{2000}' <= c && c <= '\u{200a}') || c == '\u{2028}' || c == '\u{2029}'
        || c == '\u{202f}' || c == '\u{205f}' || c == '\u{3000}'
}

/// A string with its leading white space removed.
pub open spec fn ltrim(s: Seq<char>) -> Seq<char>
    decreases s.len(),
{
    if s.len() > 0 && is_ws(s[0]) {
        ltrim(s.skip(1))
    } else {
        s
    }
}

/// A string with its trailing white space removed.
pub open spec fn rtrim(s: Seq<char>) -> Seq<char>
    decreases s.len(),
{
    if s.len() > 0 && is_ws(s.last()) {
        rtrim(s.drop_last())
    } else {
        s
    }
}

/// A string with white space removed at both ends.
pub open spec fn trim(s: Seq<char>) -> Seq<char> {
    rtrim(ltrim(s))
}

/// Where the non-blank part of the string starts.
fn trim_start_point(s: &str) -> (a: usize)
    ensures
        a <= s@.len(),
        ltrim(s@) == s@.skip(a as int),
{
    let n = s.unicode_len();
    proof {
        assert(s@.skip(0) =~= s@);
    }
    let mut a: usize = 0;
    while a < n
        invariant
            a <= n,
            n == s@.len(),
            ltrim(s@) == ltrim(s@.skip(a as int)),
        decreases n - a,
    {
        let c = s.get_char(a);
        proof {
            assert(s@.skip(a as int)[0] == s@[a as int]);
        }
        if !is_ws_exec(c) {
            return a;
        }
        proof {
            assert(s@.skip(a as int).skip(1) =~= s@.skip(a + 1));
        }
        a = a + 1;
    }
    proof {
        assert(s@.skip(n as int) =~= Seq::<char>::empty());
    }
    n
}

/// Where the non-blank part that starts at `a` ends.
fn trim_end_point(s: &str, a: usize) -> (b: usize)
    requires
        a <= s@.len(),
    ensures
        a <= b <= s@.len(),
        rtrim(s@.skip(a as int)) == s@.subrange(a as int, b as int),
{
    let n = s.unicode_len();
    proof {
        assert(s@.skip(a as int) =~= s@.subrange(a as int, n as int));
    }
    let mut b: usize = n;
    while b > a
        invariant
            a <= b <= n,
            n == s@.len(),
            rtrim(s@.skip(a as int)) == rtrim(s@.subrange(a as int, b as int)),
        decreases b,
    {
        let c = s.get_char(b - 1);
        proof {
            assert(s@.subrange(a as int, b as int).last() == s@[b - 1]);
        }
        if !is_ws_exec(c) {
            return b;
        }
        proof {
            assert(s@.subrange(a as int, b as int).drop_last() =~= s@.subrange(a as int, b - 1));
        }
        b = b - 1;
    }
    proof {
        assert(s@.subrange(a as int, a as int) =~= Seq::<char>::empty());
    }
    a
}

/// Remove white space at both ends, as a fresh string.
pub fn trim_str(s: &str) -> (r: String)
    ensures
        r@ == trim(s@),
{
    let a = trim_start_point(s);
    let b = trim_end_point(s, a);
    s.substring_char(a, b).to_owned()
}

/// A separator between keys: a comma, and in file contents also a line
/// break or carriage return.
pub open spec fn is_sep(c: char, lines: bool) -> bool {
    c == ',' || (lines && (c == '\n' || c == '\r'))
}

fn is_sep_exec(c: char, lines: bool) -> (r: bool)
    ensures
        r == is_sep(c, lines),
{
    c == ',' || (lines && (c == '\n' || c == '\r'))
}

/// The pieces of a string split at its separators; empty pieces are kept,
/// so the result always holds at least one piece.
pub open spec fn split_tokens(s: Seq<char>, lines: bool) -> Seq<Seq<char>>
    decreases s.len(),
{
    if s.len() == 0 {
        seq![Seq::<char>::empty()]
    } else {
        let rest = split_tokens(s.skip(1), lines);
        if is_sep(s[0], lines) {
            seq![Seq::<char>::empty()] + rest
        } else {
            seq![seq![s[0]] + rest[0]] + rest.skip(1)
        }
    }
}

pub proof fn lemma_split_tokens_len(s: Seq<char>, lines: bool)
    ensures
        split_tokens(s, lines).len() >= 1,
    decreases s.len(),
{
    if s.len() > 0 {
        lemma_split_tokens_len(s.skip(1), lines);
    }
}

/// The pieces trimmed, with blank pieces dropped.
pub open spec fn clean_tokens(ts: Seq<Seq<char>>) -> Seq<Seq<char>>
    decreases ts.len(),
{
    if ts.len() == 0 {
        Seq::empty()
    } else {
        let rest = clean_tokens(ts.drop_last());
        if trim(ts.last()).len() > 0 {
            rest.push(trim(ts.last()))
        } else {
            rest
        }
    }
}

/// The key list a piece of configuration text stands for: split, trimmed,
/// blanks dropped.
pub open spec fn spec_keys(s: Seq<char>, lines: bool) -> Seq<Seq<char>> {
    clean_tokens(split_tokens(s, lines))
}

/// The views of a list of strings.
pub open spec fn keys_view(ks: Seq<String>) -> Seq<Seq<char>> {
    ks.map_values(|k: String| k@)
}

/// Split a string at its separators, keeping every piece as it stands.
pub fn split_raw(s: &str, lines: bool) -> (r: Vec<String>)
    ensures
        keys_view(r@) == split_tokens(s@, lines),
{
    let n = s.unicode_len();
    let mut r: Vec<String> = Vec::new();
    let mut st: usize = 0;
    let mut i: usize = 0;
    proof {
        lemma_split_tokens_len(s@, lines);
        assert(s@.skip(0) =~= s@);
        assert(s@.subrange(0, 0) + split_tokens(s@, lines)[0] =~= split_tokens(s@, lines)[0]);
        assert(keys_view(r@) + seq![s@.subrange(0, 0) + split_tokens(s@.skip(0), lines)[0]]
            + split_tokens(s@.skip(0), lines).skip(1) =~= split_tokens(s@, lines));
    }
    while i < n
        invariant
            st <= i <= n,
            n == s@.len(),
            split_tokens(s@, lines) == keys_view(r@) + seq![
                s@.subrange(st as int, i as int) + split_tokens(s@.skip(i as int), lines)[0],
            ] + split_tokens(s@.skip(i as int), lines).skip(1),
        decreases n - i,
    {
        let ghost cur = s@.subrange(st as int, i as int);
        let ghost rest = split_tokens(s@.skip(i as int), lines);
        let ghost rest1 = split_tokens(s@.skip(i + 1), lines);
        proof {
            lemma_split_tokens_len(s@.skip(i + 1), lines);
            assert(s@.skip(i as int)[0] == s@[i as int]);
            assert(s@.skip(i as int).skip(1) =~= s@.skip(i + 1));
        }
        let c = s.get_char(i);
        if is_sep_exec(c, lines) {
            let ghost pre = r@;
            let tok = s.substring_char(st, i).to_owned();
            r.push(tok);
            st = i + 1;
            proof {
                assert(rest =~= seq![Seq::<char>::empty()] + rest1);
                assert(keys_view(r@) =~= keys_view(pre).push(cur));
                assert(cur + rest[0] =~= cur);
                assert(s@.subrange(i + 1, i + 1) + rest1[0] =~= rest1[0]);
                assert(rest.skip(1) =~= rest1);
                assert(keys_view(pre) + seq![cur + rest[0]] + rest.skip(1) =~= keys_view(r@)
                    + seq![s@.subrange(i + 1, i + 1) + rest1[0]] + rest1.skip(1));
            }
        } else {
            proof {
                assert(rest =~= seq![seq![s@[i as int]] + rest1[0]] + rest1.skip(1));
                assert(s@.subrange(st as int, i + 1) =~= cur.push(s@[i as int]));
                assert(cur + rest[0] =~= s@.subrange(st as int, i + 1) + rest1[0]);
                assert(rest.skip(1) =~= rest1.skip(1));
                assert(keys_view(r@) + seq![cur + rest[0]] + rest.skip(1) =~= keys_view(r@)
                    + seq![s@.subrange(st as int, i + 1) + rest1[0]] + rest1.skip(1));
            }
        }
        i = i + 1;
    }
    let ghost pre = r@;
    let tok = s.substring_char(st, n).to_owned();
    r.push(tok);
    proof {
        assert(s@.skip(n as int) =~= Seq::<char>::empty());
        assert(split_tokens(s@.skip(n as int), lines) =~= seq![Seq::<char>::empty()]);
        assert(s@.subrange(st as int, n as int) + split_tokens(s@.skip(n as int), lines)[0]
            =~= s@.subrange(st as int, n as int));
        assert(keys_view(r@) =~= keys_view(pre).push(s@.subrange(st as int, n as int)));
        assert(keys_view(pre) + seq![s@.subrange(st as int, n as int)] =~= keys_view(r@));
        assert(split_tokens(s@, lines) =~= keys_view(r@));
    }
    r
}

/// Parse a key list out of configuration text: split at the separators,
/// trim each piece, drop the blanks.
pub fn parse_key_text(s: &str, lines: bool) -> (r: Vec<String>)
    ensures
        keys_view(r@) == spec_keys(s@, lines),
{
    let toks = split_raw(s, lines);
    let mut r: Vec<String> = Vec::new();
    let mut i: usize = 0;
    proof {
        assert(keys_view(toks@).take(0) =~= Seq::<Seq<char>>::empty());
        assert(keys_view(r@) =~= clean_tokens(keys_view(toks@).take(0)));
    }
    while i < toks.len()
        invariant
            i <= toks@.len(),
            keys_view(r@) == clean_tokens(keys_view(toks@).take(i as int)),
            keys_view(toks@) == split_tokens(s@, lines),
        decreases toks@.len() - i,
    {
        let ghost pre = r@;
        let t = trim_str(toks[i].as_str());
        let keep = t.as_str().unicode_len() > 0;
        if keep {
            r.push(t);
        }
        proof {
            assert(keys_view(toks@).take(i + 1).drop_last() =~= keys_view(toks@).take(i as int));
            assert(keys_view(toks@).take(i + 1).last() == toks@[i as int]@);
            if keep {
                assert(keys_view(r@) =~= clean_tokens(keys_view(toks@).take(i as int)).push(
                    trim(toks@[i as int]@),
                ));
            }
        }
        i = i + 1;
    }
    proof {
        assert(keys_view(toks@).take(toks@.len() as int) =~= keys_view(toks@));
    }
    r
}

/// The keys named in the API keys environment value: comma-separated.
pub fn parse_env_keys(s: &str) -> (r: Vec<String>)
    ensures
        keys_view(r@) == spec_keys(s@, false),
{
    parse_key_text(s, false)
}

/// The keys held in a key file: comma-, newline- or return-separated.
pub fn parse_key_file(content: &str) -> (r: Vec<String>)
    ensures
        keys_view(r@) == spec_keys(content@, true),
{
    parse_key_text(content, true)
}

/// A decimal digit.
pub open spec fn is_digit(c: char) -> bool {
    '0' <= c && c <= '9'
}

/// The number a string of digits spells.
pub open spec fn digits_val(s: Seq<char>) -> int
    decreases s.len(),
{
    if s.len() == 0 {
        0
    } else {
        digits_val(s.drop_last()) * 10 + (s.last() as int - 48)
    }
}

/// The digit part of a decimal string: an optional leading plus sign is
/// allowed, as the standard integer parsing accepts it.
pub open spec fn decimal_part(s: Seq<char>) -> Seq<char> {
    if s.len() > 0 && s[0] == '+' {
        s.skip(1)
    } else {
        s
    }
}

/// What the standard parsing of an unsigned 16-bit number accepts.
pub open spec fn parseable_u16(s: Seq<char>) -> bool {
    &&& decimal_part(s).len() > 0
    &&& forall|i: int|
        0 <= i < decimal_part(s).len() ==> is_digit(#[trigger] decimal_part(s)[i])
    &&& digits_val(decimal_part(s)) <= 65535
}

/// The parsed number, when the string is accepted.
pub open spec fn spec_parse_u16(s: Seq<char>) -> Option<u16> {
    if parseable_u16(s) {
        Some(digits_val(decimal_part(s)) as u16)
    } else {
        None
    }
}

proof fn lemma_digits_val_nonneg(s: Seq<char>)
    requires
        forall|i: int| 0 <= i < s.len() ==> is_digit(#[trigger] s[i]),
    ensures
        digits_val(s) >= 0,
    decreases s.len(),
{
    if s.len() > 0 {
        lemma_digits_val_nonneg(s.drop_last());
    }
}

proof fn lemma_digits_prefix_le(s: Seq<char>, m: int)
    requires
        forall|i: int| 0 <= i < s.len() ==> is_digit(#[trigger] s[i]),
        0 <= m <= s.len(),
    ensures
        digits_val(s.take(m)) <= digits_val(s),
    decreases s.len() - m,
{
    if m < s.len() {
        lemma_digits_prefix_le(s, m + 1);
        assert(s.take(m + 1).drop_last() =~= s.take(m));
        lemma_digits_val_nonneg(s.take(m));
    } else {
        assert(s.take(m) =~= s);
    }
}

/// Parse a decimal number into a 16-bit value, exactly where the standard
/// parsing succeeds.
pub fn parse_u16(s: &str) -> (r: Option<u16>)
    ensures
        r == spec_parse_u16(s@),
{
    let n = s.unicode_len();
    let start: usize = if n > 0 && s.get_char(0) == '+' {
        1
    } else {
        0
    };
    let ghost d = decimal_part(s@);
    proof {
        assert(d =~= s@.skip(start as int));
    }
    if start >= n {
        return None;
    }
    let mut val: u32 = 0;
    let mut i: usize = start;
    while i < n
        invariant
            start <= i <= n,
            n == s@.len(),
            d == decimal_part(s@),
            d == s@.skip(start as int),
            d.len() == n - start,
            forall|j: int| 0 <= j < i - start ==> is_digit(#[trigger] d[j]),
            val == digits_val(d.take(i - start)),
            val <= 65535,
        decreases n - i,
    {
        let c = s.get_char(i);
        proof {
            assert(d[i - start] == s@[i as int]);
        }
        if c < '0' || c > '9' {
            proof {
                assert(!is_digit(decimal_part(s@)[i - start]));
                assert(!parseable_u16(s@));
            }
            return None;
        }
        let dv: u32 = (c as u32) - 48;
        val = val * 10 + dv;
        proof {
            assert(d.take(i + 1 - start).drop_last() =~= d.take(i - start));
            assert(d.take(i + 1 - start).last() == d[i - start]);
        }
        if val > 65535 {
            proof {
                if parseable_u16(s@) {
                    lemma_digits_prefix_le(d, i + 1 - start);
                }
            }
            return None;
        }
        i = i + 1;
    }
    proof {
        assert(d.take(n - start) =~= d);
    }
    Some(val as u16)
}

} // verus!
