//! Character-level text operations shared by the notes logic: ASCII case
//! folding, substring search and SQL `LIKE` pattern matching.
use vstd::prelude::*;

verus! {

/// The characters of a string slice, in order.
pub fn chars_of(s: &str) -> (v: Vec<char>)
    ensures
        v@ == s@,
{
    let mut v: Vec<char> = Vec::new();
    for c in it: s.chars()
        invariant
            v@ == it.seq().take(it.index() as int),
            it.seq() == s@,
    {
        v.push(c);
    }
    v
}

/// Number of bytes that UTF-8 uses for the character `c`.
pub open spec fn utf8_width(c: char) -> nat {
    if (c as u32) < 0x80 {
        1
    } else if (c as u32) < 0x800 {
        2
    } else if (c as u32) < 0x10000 {
        3
    } else {
        4
    }
}

/// Number of bytes of the UTF-8 encoding of `s`.
pub open spec fn utf8_len(s: Seq<char>) -> nat
    decreases s.len(),
{
    if s.len() == 0 {
        0
    } else {
        utf8_len(s.drop_last()) + utf8_width(s.last())
    }
}

pub fn char_utf8_width(c: char) -> (w: usize)
    ensures
        w == utf8_width(c),
{
    let x: u32 = c as u32;
    if x < 0x80 {
        1
    } else if x < 0x800 {
        2
    } else if x < 0x10000 {
        3
    } else {
        4
    }
}

/// `c` with an ASCII capital letter replaced by its small letter.
pub open spec fn ascii_lower_char(c: char) -> char {
    if 'A' <= c && c <= 'Z' {
        ((c as u32) + 32) as char
    } else {
        c
    }
}

/// `s` with every ASCII capital letter replaced by its small letter; other
/// characters are kept. This is what SQLite's `lower()` does without ICU.
pub open spec fn ascii_lower(s: Seq<char>) -> Seq<char> {
    s.map_values(|c: char| ascii_lower_char(c))
}

pub fn lower_ascii_char(c: char) -> (r: char)
    ensures
        r == ascii_lower_char(c),
{
    if 'A' <= c && c <= 'Z' {
        let x: u32 = c as u32;
        let b: u8 = (x + 32) as u8;
        assert(b as u32 == x + 32);
        b as char
    } else {
        c
    }
}

pub fn lower_ascii(s: &Vec<char>) -> (r: Vec<char>)
    ensures
        r@ == ascii_lower(s@),
{
    let mut r: Vec<char> = Vec::new();
    for i in 0..s.len()
        invariant
            r@ == ascii_lower(s@.take(i as int)),
    {
        let c = lower_ascii_char(s[i]);
        r.push(c);
        assert(ascii_lower(s@.take(i + 1)) =~= ascii_lower(s@.take(i as int)).push(c));
    }
    assert(s@.take(s.len() as int) =~= s@);
    r
}

pub proof fn lemma_ascii_lower_char_idempotent(c: char)
    ensures
        ascii_lower_char(ascii_lower_char(c)) == ascii_lower_char(c),
{
}

/// ASCII case folding: each capital letter `A`..`Z` becomes the small letter
/// 32 code points above it, every other character is kept, and no capital
/// letter is left.
pub proof fn law_ascii_lower_folds_every_capital(c: char)
    ensures
        'A' <= c <= 'Z' ==> ascii_lower_char(c) as u32 == c as u32 + 32,
        !('A' <= c <= 'Z') ==> ascii_lower_char(c) == c,
        !('A' <= ascii_lower_char(c) <= 'Z'),
{
}

/// Lower-casing text keeps its length, and the text holds a capital letter
/// nowhere afterwards; a character that was a capital letter is its small
/// letter.
pub proof fn law_ascii_lower_text(s: Seq<char>)
    ensures
        ascii_lower(s).len() == s.len(),
        forall|k: int| 0 <= k < s.len() ==> !('A' <= #[trigger] ascii_lower(s)[k] <= 'Z'),
        forall|k: int|
            0 <= k < s.len() && 'A' <= s[k] <= 'Z' ==> #[trigger] ascii_lower(s)[k] as u32 == s[k] as u32
                + 32,
        forall|k: int|
            0 <= k < s.len() && !('A' <= s[k] <= 'Z') ==> #[trigger] ascii_lower(s)[k] == s[k],
{
    assert forall|k: int| 0 <= k < s.len() implies !('A' <= #[trigger] ascii_lower(s)[k] <= 'Z') by {
        law_ascii_lower_folds_every_capital(s[k]);
    }
}

/// The value of a string of decimal digits, read most significant first.
pub open spec fn digits_value(s: Seq<char>) -> int
    decreases s.len(),
{
    if s.len() == 0 {
        0
    } else {
        10 * digits_value(s.drop_last()) + (s.last() as int - 48)
    }
}

/// `digits(m)` is the ordinary decimal numeral of `m`: at least one
/// character, each one of `0`..`9`, no leading `0` unless `m` is 0, and read
/// back in base 10 it gives `m`.
pub proof fn law_digits_are_the_numeral(m: nat)
    ensures
        digits(m).len() >= 1,
        forall|k: int| 0 <= k < digits(m).len() ==> '0' <= #[trigger] digits(m)[k] <= '9',
        digits(m)[0] == '0' ==> m == 0,
        digits_value(digits(m)) == m,
    decreases m,
{
    if m >= 10 {
        let q = (m / 10) as nat;
        law_digits_are_the_numeral(q);
        let d = digits(m);
        assert(d == digits(q).push(digit_char((m % 10) as nat)));
        assert(d.drop_last() =~= digits(q));
        assert(d[0] == digits(q)[0]);
        assert(m == 10 * q + m % 10);
        assert(d.last() as int == 48 + m % 10);
        assert(digits_value(d) == 10 * digits_value(digits(q)) + (d.last() as int - 48));
        assert forall|k: int| 0 <= k < d.len() implies '0' <= #[trigger] d[k] <= '9' by {
            if k < digits(q).len() {
                assert(d[k] == digits(q)[k]);
            }
        }
    } else {
        let d = digits(m);
        assert(d.drop_last() =~= Seq::<char>::empty());
        assert(digits_value(d.drop_last()) == 0);
        assert(d.last() as int == 48 + m);
    }
}

/// `decimal(n)` starts with `-` exactly where `n` is negative, and the rest
/// is the numeral of the size of `n`.
pub proof fn law_decimal_is_signed_numeral(n: int)
    ensures
        decimal(n).len() >= 1,
        n < 0 ==> decimal(n)[0] == '-' && decimal(n).drop_first() == digits((-n) as nat),
        n >= 0 ==> decimal(n) == digits(n as nat),
        n < 0 ==> digits_value(decimal(n).drop_first()) == -n,
        n >= 0 ==> digits_value(decimal(n)) == n && '0' <= decimal(n)[0] <= '9',
{
    if n < 0 {
        law_digits_are_the_numeral((-n) as nat);
        assert(decimal(n).drop_first() =~= digits((-n) as nat));
    } else {
        law_digits_are_the_numeral(n as nat);
    }
}

/// `utf8_len(s)` splits at the first character as well as at the last.
proof fn lemma_utf8_len_first(s: Seq<char>)
    requires
        s.len() >= 1,
    ensures
        utf8_len(s) == utf8_width(s[0]) + utf8_len(s.drop_first()),
    decreases s.len(),
{
    assert(utf8_len(s) == utf8_len(s.drop_last()) + utf8_width(s.last()));
    if s.len() > 1 {
        lemma_utf8_len_first(s.drop_last());
        assert(s.drop_last()[0] == s[0]);
        assert(s.drop_last().drop_first() =~= s.drop_first().drop_last());
        assert(s.drop_first().last() == s.last());
        assert(utf8_len(s.drop_first()) == utf8_len(s.drop_first().drop_last()) + utf8_width(
            s.drop_first().last(),
        ));
    } else {
        assert(s.drop_first().len() == 0);
        assert(s.drop_last().len() == 0);
        assert(utf8_len(s.drop_last()) == 0);
        assert(utf8_len(s.drop_first()) == 0);
    }
}

/// `utf8_len(s)` is the number of bytes of the UTF-8 encoding of `s`, as
/// vstd encodes a `str` into its bytes.
pub proof fn law_utf8_len_is_encoded_length(s: Seq<char>)
    ensures
        utf8_len(s) == vstd::utf8::encode_utf8(s).len(),
    decreases s.len(),
{
    if s.len() > 0 {
        lemma_utf8_len_first(s);
        law_utf8_len_is_encoded_length(s.drop_first());
        let c = s[0];
        vstd::utf8::char_is_scalar(c);
        assert(vstd::utf8::encode_utf8(s) == vstd::utf8::encode_scalar(c as u32)
            + vstd::utf8::encode_utf8(s.drop_first()));
        assert(vstd::utf8::encode_scalar(c as u32).len() == utf8_width(c));
    }
}

/// `t` occurs in `s` starting at position `i`.
pub open spec fn occurs_at(s: Seq<char>, t: Seq<char>, i: int) -> bool {
    0 <= i && i + t.len() <= s.len() && s.subrange(i, i + t.len()) == t
}

/// `t` is a substring of `s` (the empty string is a substring of every string).
pub open spec fn has_substring(s: Seq<char>, t: Seq<char>) -> bool {
    exists|i: int| occurs_at(s, t, i)
}

fn occurs_at_exec(s: &Vec<char>, t: &Vec<char>, i: usize) -> (b: bool)
    requires
        i + t.len() <= s.len(),
    ensures
        b == occurs_at(s@, t@, i as int),
{
    let mut j: usize = 0;
    while j < t.len()
        invariant
            i + t.len() <= s.len(),
            j <= t.len(),
            s@.subrange(i as int, i + j) == t@.take(j as int),
        decreases t.len() - j,
    {
        if s[i + j] != t[j] {
            assert(s@.subrange(i as int, i + t.len())[j as int] != t@[j as int]);
            return false;
        }
        assert(s@.subrange(i as int, i + j + 1) =~= s@.subrange(i as int, i + j).push(s@[i + j]));
        assert(t@.take(j + 1) =~= t@.take(j as int).push(t@[j as int]));
        j = j + 1;
    }
    assert(t@.take(t.len() as int) =~= t@);
    true
}

/// Whether `t` is a substring of `s`.
pub fn contains_chars(s: &Vec<char>, t: &Vec<char>) -> (b: bool)
    ensures
        b == has_substring(s@, t@),
{
    if t.len() > s.len() {
        assert forall|i: int| !occurs_at(s@, t@, i) by {}
        return false;
    }
    let last: usize = s.len() - t.len();
    let mut i: usize = 0;
    loop
        invariant
            last == s.len() - t.len(),
            t.len() <= s.len(),
            i <= last,
            forall|k: int| 0 <= k < i ==> !occurs_at(s@, t@, k),
        ensures
            forall|k: int| 0 <= k <= last ==> !occurs_at(s@, t@, k),
        decreases last - i,
    {
        if occurs_at_exec(s, t, i) {
            return true;
        }
        if i == last {
            break;
        }
        i = i + 1;
    }
    assert forall|k: int| !occurs_at(s@, t@, k) by {}
    false
}

/// Equality of two characters up to ASCII case, as SQLite's `LIKE` compares.
pub open spec fn like_char_eq(a: char, b: char) -> bool {
    ascii_lower_char(a) == ascii_lower_char(b)
}

/// SQL `LIKE` without an `ESCAPE` clause: whether `s[i..]` matches the
/// pattern `p[j..]`, where `%` matches any run of characters, `_` any single
/// character, and every other pattern character one character equal up to
/// ASCII case.
pub open spec fn like_from(s: Seq<char>, i: int, p: Seq<char>, j: int) -> bool
    decreases p.len() - j, s.len() - i,
{
    if j >= p.len() || j < 0 || i < 0 {
        i >= s.len()
    } else if p[j] == '%' {
        like_from(s, i, p, j + 1) || (i < s.len() && like_from(s, i + 1, p, j))
    } else if i >= s.len() {
        false
    } else if p[j] == '_' {
        like_from(s, i + 1, p, j + 1)
    } else {
        like_char_eq(s[i], p[j]) && like_from(s, i + 1, p, j + 1)
    }
}

/// `s LIKE p` in SQL.
pub open spec fn like(s: Seq<char>, p: Seq<char>) -> bool {
    like_from(s, 0, p, 0)
}

fn like_from_exec(s: &Vec<char>, i: usize, p: &Vec<char>, j: usize) -> (b: bool)
    requires
        i <= s.len(),
        j <= p.len(),
    ensures
        b == like_from(s@, i as int, p@, j as int),
    decreases p.len() - j, s.len() - i,
{
    if j >= p.len() {
        i >= s.len()
    } else if p[j] == '%' {
        like_from_exec(s, i, p, j + 1) || (i < s.len() && like_from_exec(s, i + 1, p, j))
    } else if i >= s.len() {
        false
    } else if p[j] == '_' {
        like_from_exec(s, i + 1, p, j + 1)
    } else {
        lower_ascii_char(s[i]) == lower_ascii_char(p[j]) && like_from_exec(s, i + 1, p, j + 1)
    }
}

/// Whether `s LIKE p` holds.
pub fn like_matches(s: &Vec<char>, p: &Vec<char>) -> (b: bool)
    ensures
        b == like(s@, p@),
{
    like_from_exec(s, 0, p, 0)
}

/// std's `String::from_iter` over the first `n` characters of `chars`.
#[verifier::external_body]
pub(crate) fn string_from_char_prefix(chars: &Vec<char>, n: usize) -> (s: String)
    requires
        n <= chars.len(),
    ensures
        s@ == chars@.take(n as int),
{
    String::from_iter(chars[..n].iter())
}

/// The decimal digit `d`.
pub open spec fn digit_char(d: nat) -> char {
    ((48 + d) as u8) as char
}

/// The decimal digits of `m`, most significant first, without leading zeros.
pub open spec fn digits(m: nat) -> Seq<char>
    decreases m,
{
    if m < 10 {
        seq![digit_char(m)]
    } else {
        digits(m / 10).push(digit_char(m % 10))
    }
}

/// `n` written in decimal, with a `-` in front where it is negative.
pub open spec fn decimal(n: int) -> Seq<char> {
    if n < 0 {
        seq!['-'] + digits((-n) as nat)
    } else {
        digits(n as nat)
    }
}

/// `n` in decimal, as `format!("{}", n)` writes an `i64`.
pub fn decimal_string(n: i64) -> (s: String)
    ensures
        s@ == decimal(n as int),
{
    let wide: i128 = n as i128;
    let mag: u64 = if wide < 0 { (0 - wide) as u64 } else { wide as u64 };
    let mut m: u64 = mag;
    let mut out: Vec<char> = Vec::new();
    while m >= 10
        invariant
            digits(mag as nat) == digits(m as nat) + out@,
        decreases m,
    {
        let d: u8 = (m % 10) as u8;
        let c: char = (48u8 + d) as char;
        let ghost old_out = out@;
        out.insert(0, c);
        assert(digits(m as nat) == digits((m / 10) as nat).push(c));
        assert(digits((m / 10) as nat).push(c) + old_out =~= digits((m / 10) as nat) + out@);
        m = m / 10;
    }
    let c: char = (48u8 + (m as u8)) as char;
    out.insert(0, c);
    assert(digits(mag as nat) =~= out@);
    if wide < 0 {
        out.insert(0, '-');
    }
    let len = out.len();
    assert(out@.take(len as int) =~= out@);
    string_from_char_prefix(&out, len)
}

} // verus!
