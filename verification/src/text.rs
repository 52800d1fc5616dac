//! Text building blocks: digits, padding, trimming, ordering and escaping,
//! each stated over `Seq<char>`.

use vstd::prelude::*;

verus! {

/// `String::push` appends one character.
///
/// Trusted: the standard library documents that the character is added at
/// the end of the string and nothing else changes.
pub assume_specification[ String::push ](s: &mut String, c: char)
    ensures
        final(s)@ == old(s)@.push(c),
;

/// The upper-case hexadecimal digit for a value below sixteen.
pub open spec fn hex_digit(d: int) -> char {
    if d < 10 {
        (48 + d) as char
    } else {
        (55 + d) as char
    }
}

/// Upper-case hexadecimal text of a number, without leading zeros.
pub open spec fn hex_text(n: nat) -> Seq<char>
    decreases n,
{
    if n < 16 {
        seq![hex_digit(n as int)]
    } else {
        hex_text(n / 16).push(hex_digit((n % 16) as int))
    }
}

/// Upper-case hexadecimal text, padded with zeros to four digits.
pub open spec fn hex_text4(n: nat) -> Seq<char> {
    if n < 0x10 {
        seq!['0', '0', '0'] + hex_text(n)
    } else if n < 0x100 {
        seq!['0', '0'] + hex_text(n)
    } else if n < 0x1000 {
        seq!['0'] + hex_text(n)
    } else {
        hex_text(n)
    }
}

/// Decimal text of a natural number, without leading zeros.
pub open spec fn decimal_text(n: nat) -> Seq<char>
    decreases n,
{
    if n < 10 {
        seq![(48 + n) as char]
    } else {
        decimal_text(n / 10).push((48 + n % 10) as char)
    }
}

/// Decimal text of an integer, with a minus sign when negative.
pub open spec fn signed_decimal_text(v: int) -> Seq<char> {
    if v < 0 {
        seq!['-'] + decimal_text((-v) as nat)
    } else {
        decimal_text(v as nat)
    }
}

/// `n` spaces.
pub open spec fn spaces(n: nat) -> Seq<char> {
    Seq::new(n, |i: int| ' ')
}

/// Text right-justified in a field of three characters, padded with
/// spaces on the left; longer text is left as it is.
pub open spec fn right3(t: Seq<char>) -> Seq<char> {
    if t.len() < 3 {
        spaces((3 - t.len()) as nat) + t
    } else {
        t
    }
}

/// The characters with the Unicode property `White_Space`.
pub open spec fn is_space(c: char) -> bool {
    let u = c as u32;
    (0x09 <= u && u <= 0x0D) || u == 0x20 || u == 0x85 || u == 0xA0 || u == 0x1680 || (0x2000
        <= u && u <= 0x200A) || u == 0x2028 || u == 0x2029 || u == 0x202F || u == 0x205F || u
        == 0x3000
}

/// Number of characters at the front of `s` that satisfy `is_space`.
pub open spec fn leading_spaces(s: Seq<char>) -> nat
    decreases s.len(),
{
    if s.len() > 0 && is_space(s[0]) {
        1 + leading_spaces(s.drop_first())
    } else {
        0
    }
}

/// Length of `s` once the white space at its end is removed.
pub open spec fn trimmed_end(s: Seq<char>) -> nat
    decreases s.len(),
{
    if s.len() > 0 && is_space(s.last()) {
        trimmed_end(s.drop_last())
    } else {
        s.len()
    }
}

/// `s` without the white space at either end.
pub open spec fn trim_text(s: Seq<char>) -> Seq<char> {
    let a = leading_spaces(s);
    let rest = s.subrange(a as int, s.len() as int);
    rest.subrange(0, trimmed_end(rest) as int)
}

/// Length of `s` once the NUL characters at its end are removed.
pub open spec fn nul_trimmed_len(s: Seq<char>) -> nat
    decreases s.len(),
{
    if s.len() > 0 && s.last() == '\0' {
        nul_trimmed_len(s.drop_last())
    } else {
        s.len()
    }
}

/// `s` without the NUL characters at its end.
pub open spec fn trim_trailing_nuls(s: Seq<char>) -> Seq<char> {
    s.subrange(0, nul_trimmed_len(s) as int)
}

/// Strict lexicographic order by code point.
pub open spec fn lex_lt(a: Seq<char>, b: Seq<char>) -> bool
    decreases a.len(),
{
    if b.len() == 0 {
        false
    } else if a.len() == 0 {
        true
    } else if a[0] != b[0] {
        (a[0] as u32) < (b[0] as u32)
    } else {
        lex_lt(a.drop_first(), b.drop_first())
    }
}

/// What one character becomes in escaped output: a carriage return
/// vanishes, a line feed becomes `\P`, a backslash is doubled, other
/// printable ASCII stays, and anything else becomes `\U+` with four or
/// more upper-case hexadecimal digits.
pub open spec fn escape_char(c: char) -> Seq<char> {
    let u = c as u32;
    if c == '\r' {
        Seq::empty()
    } else if c == '\n' {
        seq!['\\', 'P']
    } else if c == '\\' {
        seq!['\\', '\\']
    } else if 0x20 <= u && u < 0x7F {
        seq![c]
    } else {
        seq!['\\', 'U', '+'] + hex_text4(u as nat)
    }
}

/// The escaped form of a text: the escaped forms of its characters, in
/// order.
pub open spec fn escape_text(s: Seq<char>) -> Seq<char>
    decreases s.len(),
{
    if s.len() == 0 {
        Seq::empty()
    } else {
        escape_text(s.drop_last()) + escape_char(s.last())
    }
}

/// Different numbers have different hexadecimal texts.
pub proof fn lemma_hex_text_injective(a: nat, b: nat)
    requires
        hex_text(a) == hex_text(b),
    ensures
        a == b,
    decreases a,
{
    if a < 16 && b < 16 {
        assert(hex_text(a)[0] == hex_digit(a as int));
        assert(hex_text(b)[0] == hex_digit(b as int));
    } else if a < 16 {
        lemma_hex_text_len(b / 16);
        assert(hex_text(b).len() >= 2);
    } else if b < 16 {
        lemma_hex_text_len(a / 16);
        assert(hex_text(a).len() >= 2);
    } else {
        assert(hex_text(a).last() == hex_digit((a % 16) as int));
        assert(hex_text(b).last() == hex_digit((b % 16) as int));
        assert(hex_text(a).drop_last() =~= hex_text(a / 16));
        assert(hex_text(b).drop_last() =~= hex_text(b / 16));
        lemma_hex_text_injective(a / 16, b / 16);
    }
}

/// A hexadecimal text has at least one digit.
pub proof fn lemma_hex_text_len(n: nat)
    ensures
        hex_text(n).len() >= 1,
    decreases n,
{
    if n >= 16 {
        lemma_hex_text_len(n / 16);
    }
}

/// The upper-case hexadecimal digit for a value below sixteen.
pub(crate) fn digit_char(d: u8) -> (c: char)
    requires
        d < 16,
    ensures
        c == hex_digit(d as int),
        d < 10 ==> c == (48 + d) as char,
{
    if d < 10 {
        (48 + d) as char
    } else {
        (55 + d) as char
    }
}

/// Appends the upper-case hexadecimal text of `n`.
pub fn push_hex(out: &mut String, n: u32)
    ensures
        final(out)@ == old(out)@ + hex_text(n as nat),
    decreases n,
{
    if n >= 16 {
        push_hex(out, n / 16);
    }
    out.push(digit_char((n % 16) as u8));
    assert(final(out)@ =~= old(out)@ + hex_text(n as nat));
}

/// Appends the hexadecimal text of `n`, padded with zeros to four digits.
pub fn push_hex4(out: &mut String, n: u32)
    ensures
        final(out)@ == old(out)@ + hex_text4(n as nat),
{
    if n < 0x10 {
        out.push('0');
        out.push('0');
        out.push('0');
    } else if n < 0x100 {
        out.push('0');
        out.push('0');
    } else if n < 0x1000 {
        out.push('0');
    }
    push_hex(out, n);
    assert(out@ =~= old(out)@ + hex_text4(n as nat));
}

/// Appends the decimal text of `n`.
pub fn push_decimal(out: &mut String, n: u64)
    ensures
        final(out)@ == old(out)@ + decimal_text(n as nat),
    decreases n,
{
    if n >= 10 {
        push_decimal(out, n / 10);
    }
    out.push(digit_char((n % 10) as u8));
    assert(final(out)@ =~= old(out)@ + decimal_text(n as nat));
}

/// Appends the decimal text of a signed number.
pub fn push_signed_decimal(out: &mut String, v: i32)
    ensures
        final(out)@ == old(out)@ + signed_decimal_text(v as int),
{
    if v < 0 {
        out.push('-');
        let m: u64 = (-(v as i64)) as u64;
        push_decimal(out, m);
        assert(out@ =~= old(out)@ + signed_decimal_text(v as int));
    } else {
        push_decimal(out, v as u64);
    }
}

pub proof fn lemma_decimal_text_len(n: nat)
    ensures
        decimal_text(n).len() >= 1,
        n < 10 ==> decimal_text(n).len() == 1,
        10 <= n < 100 ==> decimal_text(n).len() == 2,
        n >= 100 ==> decimal_text(n).len() >= 3,
    decreases n,
{
    if n >= 10 {
        lemma_decimal_text_len(n / 10);
    }
}

/// Appends a group code as the output format lays it out: decimal,
/// right-justified in three columns.
pub fn push_code(out: &mut String, code: i32)
    ensures
        final(out)@ == old(out)@ + right3(signed_decimal_text(code as int)),
{
    proof {
        if code < 0 {
            lemma_decimal_text_len((-code) as nat);
        } else {
            lemma_decimal_text_len(code as nat);
        }
    }
    let ghost t = signed_decimal_text(code as int);
    if 0 <= code && code < 10 {
        out.push(' ');
        out.push(' ');
        assert(old(out)@.push(' ').push(' ') =~= old(out)@ + spaces(2));
    } else if (10 <= code && code < 100) || (-10 < code && code < 0) {
        out.push(' ');
        assert(old(out)@.push(' ') =~= old(out)@ + spaces(1));
    }
    push_signed_decimal(out, code);
    assert(out@ =~= old(out)@ + right3(t));
}

/// The characters of a string, in order.
pub fn to_chars(s: &str) -> (v: Vec<char>)
    ensures
        v@ == s@,
{
    let mut v: Vec<char> = Vec::new();
    for c in iter: s.chars()
        invariant
            iter.seq() == s@,
            v@ =~= s@.take(iter.index()),
    {
        v.push(c);
    }
    assert(s@.take(s@.len() as int) =~= s@);
    v
}

/// The string made of `v[from..to]`.
fn string_of(v: &Vec<char>, from: usize, to: usize) -> (r: String)
    requires
        from <= to <= v.len(),
    ensures
        r@ == v@.subrange(from as int, to as int),
{
    let mut out = String::new();
    let mut i: usize = from;
    while i < to
        invariant
            from <= i <= to <= v.len(),
            out@ =~= v@.subrange(from as int, i as int),
        decreases to - i,
    {
        out.push(v[i]);
        i += 1;
    }
    out
}

/// Whether a character has the Unicode property `White_Space`.
pub fn char_is_space(c: char) -> (r: bool)
    ensures
        r == is_space(c),
{
    let u: u32 = c as u32;
    (0x09 <= u && u <= 0x0D) || u == 0x20 || u == 0x85 || u == 0xA0 || u == 0x1680 || (0x2000
        <= u && u <= 0x200A) || u == 0x2028 || u == 0x2029 || u == 0x202F || u == 0x205F || u
        == 0x3000
}

proof fn lemma_leading_spaces_step(s: Seq<char>, i: int)
    requires
        0 <= i <= s.len(),
        forall|j: int| 0 <= j < i ==> is_space(s[j]),
    ensures
        leading_spaces(s) == i + leading_spaces(s.subrange(i, s.len() as int)),
    decreases i,
{
    if i == 0 {
        assert(s.subrange(0, s.len() as int) =~= s);
    } else {
        let t = s.drop_first();
        assert forall|j: int| 0 <= j < i - 1 implies is_space(t[j]) by {
            assert(t[j] == s[j + 1]);
        }
        lemma_leading_spaces_step(t, i - 1);
        assert(t.subrange(i - 1, t.len() as int) =~= s.subrange(i, s.len() as int));
    }
}

proof fn lemma_trimmed_end_step(s: Seq<char>, e: int)
    requires
        0 <= e <= s.len(),
        forall|j: int| e <= j < s.len() ==> is_space(s[j]),
    ensures
        trimmed_end(s) == trimmed_end(s.subrange(0, e)),
    decreases s.len() - e,
{
    if e == s.len() {
        assert(s.subrange(0, e) =~= s);
    } else {
        let t = s.drop_last();
        lemma_trimmed_end_step(t, e);
        assert(t.subrange(0, e) =~= s.subrange(0, e));
    }
}

proof fn lemma_nul_trimmed_step(s: Seq<char>, e: int)
    requires
        0 <= e <= s.len(),
        forall|j: int| e <= j < s.len() ==> s[j] == '\0',
    ensures
        nul_trimmed_len(s) == nul_trimmed_len(s.subrange(0, e)),
    decreases s.len() - e,
{
    if e == s.len() {
        assert(s.subrange(0, e) =~= s);
    } else {
        let t = s.drop_last();
        lemma_nul_trimmed_step(t, e);
        assert(t.subrange(0, e) =~= s.subrange(0, e));
    }
}

/// The string without the white space at either end.
pub fn trim(s: &str) -> (r: String)
    ensures
        r@ == trim_text(s@),
{
    let v = to_chars(s);
    let n = v.len();
    let mut a: usize = 0;
    while a < n && char_is_space(v[a])
        invariant
            a <= n == v.len(),
            forall|j: int| 0 <= j < a ==> is_space(v@[j]),
        decreases n - a,
    {
        a += 1;
    }
    proof {
        lemma_leading_spaces_step(v@, a as int);
        let rest = v@.subrange(a as int, n as int);
        if a < n {
            assert(rest[0] == v@[a as int]);
        }
        assert(leading_spaces(rest) == 0);
    }
    let mut e: usize = n;
    while e > a && char_is_space(v[e - 1])
        invariant
            a <= e <= n == v.len(),
            forall|j: int| e <= j < n ==> is_space(v@[j]),
        decreases e,
    {
        e -= 1;
    }
    proof {
        let rest = v@.subrange(a as int, n as int);
        assert forall|j: int| e - a <= j < rest.len() implies is_space(rest[j]) by {
            assert(rest[j] == v@[j + a]);
        }
        lemma_trimmed_end_step(rest, e - a);
        let head = rest.subrange(0, e - a);
        if e > a {
            assert(head.last() == v@[e - 1]);
        }
        assert(trimmed_end(head) == head.len());
        assert(rest.subrange(0, e - a) =~= v@.subrange(a as int, e as int));
    }
    string_of(&v, a, e)
}

/// The string without the NUL characters at its end.
pub fn trim_nuls(s: &str) -> (r: String)
    ensures
        r@ == trim_trailing_nuls(s@),
{
    let v = to_chars(s);
    let n = v.len();
    let mut e: usize = n;
    while e > 0 && v[e - 1] == '\0'
        invariant
            e <= n == v.len(),
            forall|j: int| e <= j < n ==> v@[j] == '\0',
        decreases e,
    {
        e -= 1;
    }
    proof {
        lemma_nul_trimmed_step(v@, e as int);
        let head = v@.subrange(0, e as int);
        if e > 0 {
            assert(head.last() == v@[e - 1]);
        }
        assert(nul_trimmed_len(head) == head.len());
    }
    string_of(&v, 0, e)
}

/// Strict lexicographic comparison by code point, the order in which the
/// standard library sorts strings.
pub fn lex_less(a: &str, b: &str) -> (r: bool)
    ensures
        r == lex_lt(a@, b@),
{
    let x = to_chars(a);
    let y = to_chars(b);
    let mut i: usize = 0;
    proof {
        assert(x@.subrange(0, x.len() as int) =~= x@);
        assert(y@.subrange(0, y.len() as int) =~= y@);
    }
    while i < x.len() && i < y.len() && x[i] == y[i]
        invariant
            i <= x.len(),
            i <= y.len(),
            lex_lt(x@, y@) == lex_lt(
                x@.subrange(i as int, x.len() as int),
                y@.subrange(i as int, y.len() as int),
            ),
        decreases x.len() - i,
    {
        proof {
            let xs = x@.subrange(i as int, x.len() as int);
            let ys = y@.subrange(i as int, y.len() as int);
            assert(xs[0] == x@[i as int] && ys[0] == y@[i as int]);
            assert(xs.drop_first() =~= x@.subrange(i + 1, x.len() as int));
            assert(ys.drop_first() =~= y@.subrange(i + 1, y.len() as int));
        }
        i += 1;
    }
    proof {
        let xs = x@.subrange(i as int, x.len() as int);
        let ys = y@.subrange(i as int, y.len() as int);
        if i < x.len() && i < y.len() {
            assert(xs[0] == x@[i as int] && ys[0] == y@[i as int]);
        }
    }
    if i >= y.len() {
        false
    } else if i >= x.len() {
        true
    } else {
        (x[i] as u32) < (y[i] as u32)
    }
}

/// The escaped form of a text, see [`escape_text`].
pub fn escape_unicode(value: &str) -> (r: String)
    ensures
        r@ == escape_text(value@),
{
    let mut out = String::new();
    for ch in iter: value.chars()
        invariant
            iter.seq() == value@,
            out@ == escape_text(value@.take(iter.index())),
    {
        let ghost before = out@;
        let ghost k = iter.index();
        let u: u32 = ch as u32;
        if ch == '\r' {
        } else if ch == '\n' {
            out.push('\\');
            out.push('P');
        } else if ch == '\\' {
            out.push('\\');
            out.push('\\');
        } else if 0x20 <= u && u < 0x7F {
            out.push(ch);
        } else {
            out.push('\\');
            out.push('U');
            out.push('+');
            push_hex4(&mut out, u);
        }
        proof {
            let next = value@.take(k + 1);
            assert(next.drop_last() =~= value@.take(k));
            assert(next.last() == ch);
            assert(out@ =~= before + escape_char(ch));
        }
    }
    assert(value@.take(value@.len() as int) =~= value@);
    out
}

/// Whether two strings have the same characters.
pub fn same_text(a: &str, b: &str) -> (r: bool)
    ensures
        r == (a@ == b@),
{
    let x = to_chars(a);
    let y = to_chars(b);
    if x.len() != y.len() {
        return false;
    }
    let mut i: usize = 0;
    while i < x.len()
        invariant
            i <= x.len() == y.len(),
            x@ == a@,
            y@ == b@,
            forall|k: int| 0 <= k < i ==> x@[k] == y@[k],
        decreases x.len() - i,
    {
        if x[i] != y[i] {
            return false;
        }
        i += 1;
    }
    assert(a@ =~= b@);
    true
}

/// A fresh string with the characters of `s`.
pub fn owned(s: &str) -> (r: String)
    ensures
        r@ == s@,
{
    s.to_owned()
}

} // verus!
