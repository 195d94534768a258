//! Verified text utilities: character classes, scanning, trimming, decimal
//! numbers, substring search and `{}`-template substitution, shared by the
//! block parsers and renderers.

use vstd::prelude::*;
use vstd::string::*;

verus! {

/// View of an optional borrowed string, as handed in by a runner.
pub open spec fn opt_view(o: Option<&str>) -> Option<Seq<char>> {
    match o {
        Some(s) => Some(s@),
        None => None,
    }
}

/// Whitespace as the block parsers understand it.
pub open spec fn is_space(c: char) -> bool {
    c == ' ' || c == '\t' || c == '\n' || c == '\r'
}

/// An ASCII decimal digit.
pub open spec fn is_digit(c: char) -> bool {
    ('0' as int) <= (c as int) && (c as int) <= ('9' as int)
}

/// Numeric value of a digit character.
pub open spec fn digit_val(c: char) -> int {
    c as int - ('0' as int)
}

pub open spec fn all_digits(s: Seq<char>) -> bool {
    forall|i: int| 0 <= i < s.len() ==> is_digit(#[trigger] s[i])
}

/// Value of a digit string, most significant digit first.
pub open spec fn dec_val(s: Seq<char>) -> int
    decreases s.len(),
{
    if s.len() == 0 {
        0
    } else {
        dec_val(s.drop_last()) * 10 + digit_val(s.last())
    }
}

/// What parsing a whole string as a `u32` yields: the digits' value when
/// the string is nonempty, all digits, and the value fits.
pub open spec fn parse_u32_spec(s: Seq<char>) -> Option<u32> {
    if s.len() > 0 && all_digits(s) && dec_val(s) <= u32::MAX {
        Some(dec_val(s) as u32)
    } else {
        None
    }
}

pub proof fn lemma_dec_val_extend(s: Seq<char>, j: int)
    requires
        0 <= j < s.len(),
    ensures
        dec_val(s.subrange(0, j + 1)) == dec_val(s.subrange(0, j)) * 10 + digit_val(s[j]),
{
    assert(s.subrange(0, j + 1).drop_last() =~= s.subrange(0, j));
    assert(s.subrange(0, j + 1).last() == s[j]);
}

pub proof fn lemma_dec_val_nonneg(s: Seq<char>)
    requires
        all_digits(s),
    ensures
        dec_val(s) >= 0,
    decreases s.len(),
{
    if s.len() > 0 {
        assert(all_digits(s.drop_last()));
        lemma_dec_val_nonneg(s.drop_last());
    }
}

/// Appending digits never shrinks the value: the value of a digit-string
/// prefix is a lower bound for the whole.
pub proof fn lemma_dec_val_mono(s: Seq<char>, i: int, j: int)
    requires
        0 <= i <= j <= s.len(),
        all_digits(s.subrange(0, j)),
    ensures
        dec_val(s.subrange(0, i)) <= dec_val(s.subrange(0, j)),
    decreases j - i,
{
    if i < j {
        lemma_dec_val_extend(s, j - 1);
        assert(s.subrange(0, j - 1) =~= s.subrange(0, j).subrange(0, j - 1));
        assert(all_digits(s.subrange(0, j - 1)));
        lemma_dec_val_nonneg(s.subrange(0, j - 1));
        assert(is_digit(s[j - 1]));
        lemma_dec_val_mono(s, i, j - 1);
    }
}

/// Parse a whole string as a `u32`: digits only, value must fit.
pub fn parse_u32(s: &str) -> (r: Option<u32>)
    ensures
        r == parse_u32_spec(s@),
{
    let n = s.unicode_len();
    if n == 0 {
        return None;
    }
    let mut acc: u64 = 0;
    let mut i: usize = 0;
    while i < n
        invariant
            0 <= i <= n,
            n == s@.len(),
            all_digits(s@.subrange(0, i as int)),
            acc == dec_val(s@.subrange(0, i as int)),
            acc <= u32::MAX,
        decreases n - i,
    {
        let c = s.get_char(i);
        let cv = c as u32;
        if cv < 48 || cv > 57 {
            assert(!is_digit(s@[i as int]));
            return None;
        }
        assert(is_digit(s@[i as int]));
        let d = (cv - 48) as u64;
        let next: u64 = acc * 10 + d;
        proof {
            lemma_dec_val_extend(s@, i as int);
        }
        if next > u32::MAX as u64 {
            proof {
                if all_digits(s@) {
                    assert(s@.subrange(0, n as int) =~= s@);
                    lemma_dec_val_mono(s@, i as int + 1, n as int);
                }
            }
            return None;
        }
        acc = next;
        assert(all_digits(s@.subrange(0, i as int + 1)));
        i = i + 1;
    }
    assert(s@.subrange(0, n as int) =~= s@);
    Some(acc as u32)
}

/// The character standing for digit `d`.
pub open spec fn digit_char(d: int) -> char {
    if d == 0 { '0' }
    else if d == 1 { '1' }
    else if d == 2 { '2' }
    else if d == 3 { '3' }
    else if d == 4 { '4' }
    else if d == 5 { '5' }
    else if d == 6 { '6' }
    else if d == 7 { '7' }
    else if d == 8 { '8' }
    else { '9' }
}

/// Decimal rendering of a nonnegative number, no leading zeros.
pub open spec fn dec_chars(n: int) -> Seq<char>
    decreases n,
{
    if n < 10 {
        seq![digit_char(n)]
    } else {
        dec_chars(n / 10).push(digit_char(n % 10))
    }
}

fn digit_str(d: u32) -> (r: &'static str)
    requires
        d < 10,
    ensures
        r@ == seq![digit_char(d as int)],
{
    let r: &'static str = match d {
        0 => "0",
        1 => "1",
        2 => "2",
        3 => "3",
        4 => "4",
        5 => "5",
        6 => "6",
        7 => "7",
        8 => "8",
        _ => "9",
    };
    proof {
        reveal_strlit("0");
        reveal_strlit("1");
        reveal_strlit("2");
        reveal_strlit("3");
        reveal_strlit("4");
        reveal_strlit("5");
        reveal_strlit("6");
        reveal_strlit("7");
        reveal_strlit("8");
        reveal_strlit("9");
        assert(r@ =~= seq![digit_char(d as int)]);
    }
    r
}

/// Render a `u32` in decimal.
pub fn dec_string(n: u32) -> (r: String)
    ensures
        r@ == dec_chars(n as int),
    decreases n,
{
    if n < 10 {
        digit_str(n).to_owned()
    } else {
        let mut s = dec_string(n / 10);
        let tail = digit_str(n % 10);
        s.append(tail);
        proof {
            assert(dec_chars((n / 10) as int).push(digit_char((n % 10) as int)) =~= dec_chars(
                (n / 10) as int,
            ) + seq![digit_char((n % 10) as int)]);
        }
        s
    }
}

/// `needle` occurs in `hay` at position `k`.
pub open spec fn matches_at(hay: Seq<char>, needle: Seq<char>, k: int) -> bool {
    &&& 0 <= k
    &&& k + needle.len() <= hay.len()
    &&& hay.subrange(k, k + needle.len() as int) == needle
}

/// `needle` occurs somewhere in `hay`.
pub open spec fn has_seq(hay: Seq<char>, needle: Seq<char>) -> bool {
    exists|k: int| matches_at(hay, needle, k)
}

pub open spec fn has_char(s: Seq<char>, c: char) -> bool {
    exists|i: int| 0 <= i < s.len() && s[i] == c
}

fn match_at(hay: &str, needle: &str, k: usize) -> (r: bool)
    requires
        k + needle@.len() <= hay@.len(),
        hay@.len() <= usize::MAX,
    ensures
        r == matches_at(hay@, needle@, k as int),
{
    let nn = needle.unicode_len();
    let mut j: usize = 0;
    while j < nn
        invariant
            0 <= j <= nn,
            nn == needle@.len(),
            k + nn <= hay@.len(),
            hay@.len() <= usize::MAX,
            forall|t: int| 0 <= t < j ==> hay@[k + t] == needle@[t],
        decreases nn - j,
    {
        if hay.get_char(k + j) != needle.get_char(j) {
            assert(hay@.subrange(k as int, k + nn as int)[j as int] == hay@[k + j]);
            return false;
        }
        j = j + 1;
    }
    assert(hay@.subrange(k as int, k + nn as int) =~= needle@);
    true
}

/// Does `hay` contain `needle`?
pub fn contains_str(hay: &str, needle: &str) -> (r: bool)
    ensures
        r == has_seq(hay@, needle@),
{
    let hn = hay.unicode_len();
    let nn = needle.unicode_len();
    if nn > hn {
        assert(forall|k: int| !matches_at(hay@, needle@, k));
        return false;
    }
    if nn == 0 {
        assert(hay@.subrange(0, 0) =~= needle@);
        assert(matches_at(hay@, needle@, 0));
        return true;
    }
    let mut k: usize = 0;
    while k <= hn - nn
        invariant
            0 <= k <= hn - nn + 1,
            1 <= nn <= hn,
            hn == hay@.len(),
            nn == needle@.len(),
            forall|k2: int| 0 <= k2 < k ==> !matches_at(hay@, needle@, k2),
        decreases hn - nn - k + 1,
    {
        if match_at(hay, needle, k) {
            return true;
        }
        k = k + 1;
    }
    assert(forall|k2: int| matches_at(hay@, needle@, k2) ==> 0 <= k2 <= hn - nn);
    false
}

/// Does `hay` start with `prefix`?
pub fn starts_with_str(hay: &str, prefix: &str) -> (r: bool)
    ensures
        r == matches_at(hay@, prefix@, 0),
{
    let hn = hay.unicode_len();
    let pn = prefix.unicode_len();
    if pn > hn {
        return false;
    }
    match_at(hay, prefix, 0)
}

/// Are two strings equal, character for character?
pub fn eq_str(a: &str, b: &str) -> (r: bool)
    ensures
        r == (a@ == b@),
{
    let an = a.unicode_len();
    let bn = b.unicode_len();
    if an != bn {
        return false;
    }
    let mut i: usize = 0;
    while i < an
        invariant
            0 <= i <= an,
            an == a@.len(),
            an == b@.len(),
            forall|t: int| 0 <= t < i ==> a@[t] == b@[t],
        decreases an - i,
    {
        if a.get_char(i) != b.get_char(i) {
            return false;
        }
        i = i + 1;
    }
    assert(a@ =~= b@);
    true
}

/// First position at or after `i` holding `c`, or the length if none.
pub open spec fn find_char_idx(s: Seq<char>, i: int, c: char) -> int
    decreases s.len() - i when 0 <= i <= s.len()
{
    if i >= s.len() {
        s.len() as int
    } else if s[i] == c {
        i
    } else {
        find_char_idx(s, i + 1, c)
    }
}

pub proof fn lemma_find_char_idx(s: Seq<char>, i: int, c: char)
    requires
        0 <= i <= s.len(),
    ensures
        i <= find_char_idx(s, i, c) <= s.len(),
    decreases s.len() - i,
{
    if i < s.len() && s[i] != c {
        lemma_find_char_idx(s, i + 1, c);
    }
}

/// A known occurrence bounds the first occurrence from above.
pub proof fn lemma_find_char_le(s: Seq<char>, i: int, k: int, c: char)
    requires
        0 <= i <= k < s.len(),
        s[k] == c,
    ensures
        find_char_idx(s, i, c) <= k,
    decreases k - i,
{
    if i < k && s[i] != c {
        lemma_find_char_le(s, i + 1, k, c);
    }
}

/// Does `s` contain the character `c`?
pub fn contains_char(s: &str, c: char) -> (r: bool)
    ensures
        r == has_char(s@, c),
{
    let n = s.unicode_len();
    let mut i: usize = 0;
    while i < n
        invariant
            0 <= i <= n,
            n == s@.len(),
            forall|t: int| 0 <= t < i ==> s@[t] != c,
        decreases n - i,
    {
        if s.get_char(i) == c {
            return true;
        }
        i = i + 1;
    }
    false
}

/// First position at or after `i` whose character is not whitespace, or
/// the length if none.
pub open spec fn skip_ws_idx(s: Seq<char>, i: int) -> int
    decreases s.len() - i when 0 <= i <= s.len()
{
    if i >= s.len() {
        s.len() as int
    } else if is_space(s[i]) {
        skip_ws_idx(s, i + 1)
    } else {
        i
    }
}

pub proof fn lemma_skip_ws_idx(s: Seq<char>, i: int)
    requires
        0 <= i <= s.len(),
    ensures
        i <= skip_ws_idx(s, i) <= s.len(),
        skip_ws_idx(s, i) < s.len() ==> !is_space(s[skip_ws_idx(s, i)]),
    decreases s.len() - i,
{
    if i < s.len() && is_space(s[i]) {
        lemma_skip_ws_idx(s, i + 1);
    }
}

/// Whitespace test, usable from executable code.
pub fn is_space_char(c: char) -> (r: bool)
    ensures
        r == is_space(c),
{
    c == ' ' || c == '\t' || c == '\n' || c == '\r'
}

/// First whitespace position at or after `i`, or the length if none: the
/// end of the token starting at `i`.
pub open spec fn token_end_idx(s: Seq<char>, i: int) -> int
    decreases s.len() - i when 0 <= i <= s.len()
{
    if i >= s.len() {
        s.len() as int
    } else if is_space(s[i]) {
        i
    } else {
        token_end_idx(s, i + 1)
    }
}

pub proof fn lemma_token_end_idx(s: Seq<char>, i: int)
    requires
        0 <= i <= s.len(),
    ensures
        i <= token_end_idx(s, i) <= s.len(),
        i < s.len() && !is_space(s[i]) ==> token_end_idx(s, i) >= i + 1,
    decreases s.len() - i,
{
    if i < s.len() && !is_space(s[i]) {
        lemma_token_end_idx(s, i + 1);
    }
}

pub fn find_char_pos(s: &str, i: usize, c: char) -> (r: usize)
    requires
        i <= s@.len(),
    ensures
        r == find_char_idx(s@, i as int, c),
        i <= r <= s@.len(),
{
    let n = s.unicode_len();
    let mut j: usize = i;
    while j < n
        invariant
            i <= j <= n,
            n == s@.len(),
            find_char_idx(s@, i as int, c) == find_char_idx(s@, j as int, c),
        decreases n - j,
    {
        if s.get_char(j) == c {
            return j;
        }
        j = j + 1;
    }
    j
}

pub fn find_skip_ws(s: &str, i: usize) -> (r: usize)
    requires
        i <= s@.len(),
    ensures
        r == skip_ws_idx(s@, i as int),
        i <= r <= s@.len(),
{
    let n = s.unicode_len();
    let mut j: usize = i;
    while j < n
        invariant
            i <= j <= n,
            n == s@.len(),
            skip_ws_idx(s@, i as int) == skip_ws_idx(s@, j as int),
        decreases n - j,
    {
        let c = s.get_char(j);
        if !(c == ' ' || c == '\t' || c == '\n' || c == '\r') {
            return j;
        }
        j = j + 1;
    }
    j
}

pub fn find_token_end(s: &str, i: usize) -> (r: usize)
    requires
        i <= s@.len(),
    ensures
        r == token_end_idx(s@, i as int),
        i <= r <= s@.len(),
{
    let n = s.unicode_len();
    let mut j: usize = i;
    while j < n
        invariant
            i <= j <= n,
            n == s@.len(),
            token_end_idx(s@, i as int) == token_end_idx(s@, j as int),
        decreases n - j,
    {
        let c = s.get_char(j);
        if c == ' ' || c == '\t' || c == '\n' || c == '\r' {
            return j;
        }
        j = j + 1;
    }
    j
}

/// Last position at or before `j` such that everything from it up to `j`
/// is whitespace: the right trim boundary.
pub open spec fn trim_end_idx(s: Seq<char>, j: int) -> int
    decreases j when 0 <= j <= s.len()
{
    if j <= 0 {
        0
    } else if is_space(s[j - 1]) {
        trim_end_idx(s, j - 1)
    } else {
        j
    }
}

pub proof fn lemma_trim_end_idx(s: Seq<char>, j: int, a: int)
    requires
        0 <= a < j <= s.len(),
        !is_space(s[a]),
    ensures
        a + 1 <= trim_end_idx(s, j) <= j,
    decreases j,
{
    if j - 1 > a && is_space(s[j - 1]) {
        lemma_trim_end_idx(s, j - 1, a);
    }
}

/// The string with leading and trailing whitespace removed.
pub open spec fn trim_spec(s: Seq<char>) -> Seq<char> {
    if skip_ws_idx(s, 0) == s.len() {
        Seq::<char>::empty()
    } else {
        s.subrange(skip_ws_idx(s, 0), trim_end_idx(s, s.len() as int))
    }
}

/// Trim whitespace from both ends.
pub fn trim_str<'a>(s: &'a str) -> (r: &'a str)
    ensures
        r@ == trim_spec(s@),
{
    let n = s.unicode_len();
    let a = find_skip_ws(s, 0);
    if a == n {
        let r = s.substring_char(n, n);
        assert(r@ =~= trim_spec(s@));
        return r;
    }
    proof {
        lemma_skip_ws_idx(s@, 0);
        lemma_trim_end_idx(s@, n as int, a as int);
    }
    let mut b: usize = n;
    while b > 0 && is_space_char(s.get_char(b - 1))
        invariant
            0 <= b <= n,
            n == s@.len(),
            trim_end_idx(s@, n as int) == trim_end_idx(s@, b as int),
        decreases b,
    {
        b = b - 1;
    }
    proof {
        assert(trim_end_idx(s@, b as int) == b as int);
        assert(b == trim_end_idx(s@, n as int));
        assert(a as int != s@.len());
        assert(!is_space(s@[a as int]));
    }
    s.substring_char(a, b)
}

/// The string with every trailing `c` removed.
pub open spec fn strip_trailing(s: Seq<char>, c: char) -> Seq<char>
    decreases s.len(),
{
    if s.len() > 0 && s.last() == c {
        strip_trailing(s.drop_last(), c)
    } else {
        s
    }
}

/// Remove every trailing `c`.
pub fn strip_trailing_str<'a>(s: &'a str, c: char) -> (r: &'a str)
    ensures
        r@ == strip_trailing(s@, c),
{
    let n = s.unicode_len();
    proof {
        assert(s@.subrange(0, n as int) =~= s@);
    }
    let mut b: usize = n;
    while b > 0 && s.get_char(b - 1) == c
        invariant
            0 <= b <= n,
            n == s@.len(),
            strip_trailing(s@, c) == strip_trailing(s@.subrange(0, b as int), c),
        decreases b,
    {
        proof {
            assert(s@.subrange(0, b as int).last() == s@[b as int - 1]);
            assert(s@.subrange(0, b as int).drop_last() =~= s@.subrange(0, b as int - 1));
        }
        b = b - 1;
    }
    proof {
        let pre = s@.subrange(0, b as int);
        if b > 0 {
            assert(pre.last() == s@[b as int - 1]);
        }
        assert(strip_trailing(pre, c) == pre);
    }
    s.substring_char(0, b)
}

/// The template with every `{}` marker replaced by `val`.
pub open spec fn subst(fmt: Seq<char>, val: Seq<char>) -> Seq<char>
    decreases fmt.len(),
{
    if fmt.len() >= 2 && fmt[0] == '{' && fmt[1] == '}' {
        val + subst(fmt.skip(2), val)
    } else if fmt.len() >= 1 {
        seq![fmt[0]] + subst(fmt.skip(1), val)
    } else {
        Seq::<char>::empty()
    }
}

/// Apply a format template: replace each `{}` with `val`.
pub fn apply_format(fmt: &str, val: &str) -> (r: String)
    ensures
        r@ == subst(fmt@, val@),
{
    let n = fmt.unicode_len();
    let mut out = String::new();
    let mut i: usize = 0;
    proof {
        assert(fmt@.skip(0) =~= fmt@);
        assert(out@ + subst(fmt@, val@) =~= subst(fmt@, val@));
    }
    while i < n
        invariant
            0 <= i <= n,
            n == fmt@.len(),
            out@ + subst(fmt@.skip(i as int), val@) == subst(fmt@, val@),
        decreases n - i,
    {
        let ghost out0 = out@;
        let ghost rest = fmt@.skip(i as int);
        if i + 1 < n && fmt.get_char(i) == '{' && fmt.get_char(i + 1) == '}' {
            out.append(val);
            proof {
                assert(rest[0] == fmt@[i as int]);
                assert(rest[1] == fmt@[i as int + 1]);
                assert(rest.skip(2) =~= fmt@.skip(i as int + 2));
                assert(subst(rest, val@) == val@ + subst(fmt@.skip(i as int + 2), val@));
                assert((out0 + val@) + subst(fmt@.skip(i as int + 2), val@) =~= out0 + (val@
                    + subst(fmt@.skip(i as int + 2), val@)));
            }
            i = i + 2;
        } else {
            let piece = fmt.substring_char(i, i + 1);
            out.append(piece);
            proof {
                assert(rest[0] == fmt@[i as int]);
                assert(!(rest.len() >= 2 && rest[0] == '{' && rest[1] == '}')) by {
                    if rest.len() >= 2 {
                        assert(rest[1] == fmt@[i as int + 1]);
                    }
                }
                assert(rest.skip(1) =~= fmt@.skip(i as int + 1));
                assert(subst(rest, val@) == seq![fmt@[i as int]] + subst(
                    fmt@.skip(i as int + 1),
                    val@,
                ));
                assert(piece@ =~= seq![fmt@[i as int]]);
                assert((out0 + piece@) + subst(fmt@.skip(i as int + 1), val@) =~= out0 + (seq![
                    fmt@[i as int],
                ] + subst(fmt@.skip(i as int + 1), val@)));
            }
            i = i + 1;
        }
    }
    proof {
        assert(fmt@.skip(n as int) =~= Seq::<char>::empty());
        assert(out@ + Seq::<char>::empty() =~= out@);
    }
    out
}

} // verus!
