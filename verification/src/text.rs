use vstd::prelude::*;

verus! {

/// The character that writes the decimal digit `d` (`0 <= d < 10`).
pub open spec fn digit_char(d: int) -> char {
    (d + 48) as char
}

/// Decimal text of `n`, without sign or leading zeros (as `Display` writes it).
pub open spec fn decimal_text(n: nat) -> Seq<char>
    decreases n,
{
    if n < 10 {
        seq![digit_char(n as int)]
    } else {
        decimal_text(n / 10).push(digit_char((n % 10) as int))
    }
}

/// `String::push`: appends the character `c` to `s`.
#[verifier::external_body]
fn push_char(s: &mut String, c: char)
    ensures
        final(s)@ == old(s)@.push(c),
{
    s.push(c);
}

/// Appends the decimal text of `n` to `s`.
fn push_decimal(s: &mut String, n: u128)
    ensures
        final(s)@ == old(s)@ + decimal_text(n as nat),
    decreases n,
{
    if n >= 10 {
        push_decimal(s, n / 10);
    }
    let d: u8 = (n % 10) as u8;
    let c: char = (48u8 + d) as char;
    assert(c == digit_char((n % 10) as int));
    push_char(s, c);
}

/// Writes `n` in decimal.
pub fn decimal_string(n: u128) -> (s: String)
    ensures
        s@ == decimal_text(n as nat),
{
    let mut s = String::new();
    push_decimal(&mut s, n);
    assert(s@ =~= decimal_text(n as nat));
    s
}

/// Whether `c` is one of the ASCII digits `0` to `9`.
pub open spec fn is_digit(c: char) -> bool {
    48 <= (c as u32) <= 57
}

/// The value of the digit `c`.
pub open spec fn digit_value(c: char) -> int {
    (c as u32) - 48
}

/// Every character of `ds` is a digit.
pub open spec fn all_digits(ds: Seq<char>) -> bool {
    forall|i: int| 0 <= i < ds.len() ==> is_digit(#[trigger] ds[i])
}

/// The number that the digits `ds` write in base ten.
pub open spec fn decimal_value(ds: Seq<char>) -> int
    decreases ds.len(),
{
    if ds.len() == 0 {
        0
    } else {
        decimal_value(ds.drop_last()) * 10 + digit_value(ds.last())
    }
}

/// The digits of an unsigned numeral: the text without one leading `+`.
pub open spec fn unsigned_digits(s: Seq<char>) -> Seq<char> {
    if s.len() > 0 && s[0] == '+' {
        s.drop_first()
    } else {
        s
    }
}

/// What `str::parse::<usize>` gives for the text `s`: an optional `+`, then
/// at least one digit, and a value that fits in a `usize`.
pub open spec fn parsed_usize(s: Seq<char>) -> Option<usize> {
    let ds = unsigned_digits(s);
    if ds.len() > 0 && all_digits(ds) && decimal_value(ds) <= usize::MAX {
        Some(decimal_value(ds) as usize)
    } else {
        None
    }
}

proof fn lemma_decimal_value_nonneg(ds: Seq<char>)
    requires
        all_digits(ds),
    ensures
        decimal_value(ds) >= 0,
    decreases ds.len(),
{
    if ds.len() > 0 {
        assert(is_digit(ds[ds.len() - 1]));
        lemma_decimal_value_nonneg(ds.drop_last());
    }
}

/// A prefix of a digit string never writes a larger number than the whole.
proof fn lemma_decimal_value_prefix(ds: Seq<char>, k: int)
    requires
        all_digits(ds),
        0 <= k <= ds.len(),
    ensures
        decimal_value(ds.subrange(0, k)) <= decimal_value(ds),
    decreases ds.len() - k,
{
    if k < ds.len() {
        let pre = ds.subrange(0, k + 1);
        assert(all_digits(pre));
        assert(pre.drop_last() =~= ds.subrange(0, k));
        assert(is_digit(pre.last()));
        lemma_decimal_value_nonneg(ds.subrange(0, k));
        lemma_decimal_value_prefix(ds, k + 1);
    } else {
        assert(ds.subrange(0, k) =~= ds);
    }
}

/// Reads a TTL the way `str::parse::<usize>` does: an optional `+`, then
/// decimal digits; `None` for any other text or a value beyond `usize::MAX`.
pub fn parse_ttl(s: &str) -> (r: Option<usize>)
    ensures
        r == parsed_usize(s@),
{
    let len = s.unicode_len();
    let mut start: usize = 0;
    if len > 0 && s.get_char(0) == '+' {
        start = 1;
    }
    let ghost ds = unsigned_digits(s@);
    assert(ds =~= s@.subrange(start as int, len as int));
    if start >= len {
        return None;
    }
    let mut i: usize = start;
    let mut acc: usize = 0;
    while i < len
        invariant
            start <= i <= len,
            start < len,
            len == s@.len(),
            ds == s@.subrange(start as int, len as int),
            ds == unsigned_digits(s@),
            all_digits(ds.subrange(0, i - start)),
            acc == decimal_value(ds.subrange(0, i - start)),
        decreases len - i,
    {
        let c = s.get_char(i);
        let ghost k: int = i - start;
        if !('0' <= c && c <= '9') {
            assert(ds[k] == c);
            assert(!all_digits(ds));
            return None;
        }
        let d: usize = (c as u32 - 48) as usize;
        let ghost next = ds.subrange(0, k + 1);
        assert(next.drop_last() =~= ds.subrange(0, k));
        assert(next.last() == c);
        assert(all_digits(next)) by {
            assert forall|j: int| 0 <= j < next.len() implies is_digit(#[trigger] next[j]) by {
                if j < k {
                    assert(next[j] == ds.subrange(0, k)[j]);
                }
            }
        }
        match acc.checked_mul(10) {
            None => {
                proof {
                    lemma_decimal_value_nonneg(ds.subrange(0, k));
                    prove_value_exceeds(ds, k + 1);
                }
                return None;
            },
            Some(m) => match m.checked_add(d) {
                None => {
                    proof {
                        prove_value_exceeds(ds, k + 1);
                    }
                    return None;
                },
                Some(v) => {
                    acc = v;
                },
            },
        }
        i = i + 1;
    }
    assert(ds.subrange(0, len - start) =~= ds);
    Some(acc)
}

/// Once a prefix of the digits is beyond `usize::MAX`, or the digits stop
/// being digits, the whole numeral has no `usize` value.
proof fn prove_value_exceeds(ds: Seq<char>, k: int)
    requires
        0 <= k <= ds.len(),
        all_digits(ds.subrange(0, k)),
        decimal_value(ds.subrange(0, k)) > usize::MAX,
    ensures
        !(all_digits(ds) && decimal_value(ds) <= usize::MAX),
{
    if all_digits(ds) {
        lemma_decimal_value_prefix(ds, k);
    }
}

proof fn lemma_decimal_text_digits(n: nat)
    ensures
        decimal_text(n).len() > 0,
        all_digits(decimal_text(n)),
        decimal_value(decimal_text(n)) == n,
    decreases n,
{
    let d = (n % 10) as int;
    assert(digit_char(d) as u32 == d + 48);
    if n < 10 {
        let t = decimal_text(n);
        assert(t.drop_last() =~= Seq::<char>::empty());
        assert(decimal_value(t.drop_last()) == 0);
        assert(t.last() == digit_char(d));
        assert(n % 10 == n);
    } else {
        lemma_decimal_text_digits(n / 10);
        let t = decimal_text(n);
        assert(t.drop_last() =~= decimal_text(n / 10));
        assert(t.last() == digit_char(d));
        assert(n == (n / 10) * 10 + n % 10);
        assert forall|i: int| 0 <= i < t.len() implies is_digit(#[trigger] t[i]) by {
            if i < t.len() - 1 {
                assert(t[i] == decimal_text(n / 10)[i]);
            }
        }
    }
}

/// A TTL written by [`decimal_string`] is read back unchanged by [`parse_ttl`]:
/// `parse_ttl(decimal_string(n)) == Some(n)` for every `usize`.
pub proof fn lemma_ttl_text_roundtrip(n: usize)
    ensures
        parsed_usize(decimal_text(n as nat)) == Some(n),
{
    lemma_decimal_text_digits(n as nat);
    let t = decimal_text(n as nat);
    assert(is_digit(t[0]));
    assert(unsigned_digits(t) == t);
}

/// The bytes that URL escaping keeps as they are: ASCII letters, digits and
/// `-`, `.`, `_`, `~` (the "unreserved" set of RFC 3986).
pub open spec fn is_unreserved(b: u8) -> bool {
    ||| 48 <= b <= 57
    ||| 65 <= b <= 90
    ||| 97 <= b <= 122
    ||| b == 45
    ||| b == 46
    ||| b == 95
    ||| b == 126
}

/// Upper-case hexadecimal digit for `0 <= v < 16`.
pub open spec fn hex_digit_upper(v: int) -> char {
    if v < 10 {
        (v + 48) as char
    } else {
        (v + 55) as char
    }
}

/// The escape of one byte: itself when unreserved, `%XY` otherwise.
pub open spec fn escaped_byte(b: u8) -> Seq<char> {
    if is_unreserved(b) {
        seq![b as char]
    } else {
        seq!['%', hex_digit_upper((b / 16) as int), hex_digit_upper((b % 16) as int)]
    }
}

/// URL escaping of a byte string, as libcurl's `curl_easy_escape` does it.
pub open spec fn url_escaped(bs: Seq<u8>) -> Seq<char>
    decreases bs.len(),
{
    if bs.len() == 0 {
        Seq::empty()
    } else {
        url_escaped(bs.drop_last()) + escaped_byte(bs.last())
    }
}

fn hex_char(v: u8) -> (c: char)
    requires
        v < 16,
    ensures
        c == hex_digit_upper(v as int),
{
    if v < 10 {
        (48u8 + v) as char
    } else {
        (55u8 + v) as char
    }
}

fn push_escaped(s: &mut String, b: u8)
    ensures
        final(s)@ == old(s)@ + escaped_byte(b),
{
    let keep = (48 <= b && b <= 57) || (65 <= b && b <= 90) || (97 <= b && b <= 122) || b == 45
        || b == 46 || b == 95 || b == 126;
    if keep {
        push_char(s, b as char);
    } else {
        push_char(s, '%');
        push_char(s, hex_char(b / 16));
        push_char(s, hex_char(b % 16));
    }
    assert(final(s)@ =~= old(s)@ + escaped_byte(b));
}

/// Appends the URL escape of `bytes` to `s`.
pub fn push_url_encoded(s: &mut String, bytes: &[u8])
    ensures
        final(s)@ == old(s)@ + url_escaped(bytes@),
{
    let ghost start = s@;
    let mut i: usize = 0;
    while i < bytes.len()
        invariant
            i <= bytes@.len(),
            s@ == start + url_escaped(bytes@.subrange(0, i as int)),
        decreases bytes@.len() - i,
    {
        let ghost pre = bytes@.subrange(0, i as int + 1);
        assert(pre.drop_last() =~= bytes@.subrange(0, i as int));
        assert(pre.last() == bytes@[i as int]);
        push_escaped(s, bytes[i]);
        assert(s@ =~= start + url_escaped(pre));
        i = i + 1;
    }
    assert(bytes@.subrange(0, bytes@.len() as int) =~= bytes@);
}

/// URL-escapes `bytes`: unreserved bytes stay, every other byte becomes
/// `%` and two upper-case hexadecimal digits.
pub fn url_encode(bytes: &[u8]) -> (s: String)
    ensures
        s@ == url_escaped(bytes@),
{
    let mut s = String::new();
    push_url_encoded(&mut s, bytes);
    assert(s@ =~= url_escaped(bytes@));
    s
}

/// The value of a hexadecimal digit of either case.
pub open spec fn hex_value(c: char) -> int {
    let u = c as u32;
    if 48 <= u <= 57 {
        u - 48
    } else if 65 <= u <= 70 {
        u - 55
    } else if 97 <= u <= 102 {
        u - 87
    } else {
        0
    }
}

/// URL unescaping: `%XY` gives the byte with hexadecimal value `XY`, any other
/// character gives its own code.
pub open spec fn url_unescaped(s: Seq<char>) -> Seq<u8>
    decreases s.len(),
{
    if s.len() == 0 {
        Seq::empty()
    } else if s[0] == '%' && s.len() >= 3 {
        seq![(hex_value(s[1]) * 16 + hex_value(s[2])) as u8] + url_unescaped(s.skip(3))
    } else {
        seq![s[0] as u8] + url_unescaped(s.drop_first())
    }
}

/// Text in which neither `&` nor `=` occurs, so that it can stand as a key or
/// a value of a form without changing how the form splits.
pub open spec fn free_of_form_separators(s: Seq<char>) -> bool {
    forall|i: int| 0 <= i < s.len() ==> #[trigger] s[i] != '&' && s[i] != '='
}

proof fn lemma_url_escaped_concat(a: Seq<u8>, b: Seq<u8>)
    ensures
        url_escaped(a + b) == url_escaped(a) + url_escaped(b),
    decreases b.len(),
{
    if b.len() == 0 {
        assert(a + b =~= a);
        assert(url_escaped(a) + url_escaped(b) =~= url_escaped(a));
    } else {
        assert((a + b).drop_last() =~= a + b.drop_last());
        assert((a + b).last() == b.last());
        lemma_url_escaped_concat(a, b.drop_last());
        assert(url_escaped(a + b) =~= url_escaped(a) + url_escaped(b));
    }
}

proof fn lemma_hex_digit_roundtrip(v: int)
    requires
        0 <= v < 16,
    ensures
        hex_value(hex_digit_upper(v)) == v,
        hex_digit_upper(v) != '%',
        hex_digit_upper(v) != '&',
        hex_digit_upper(v) != '=',
{
    if v < 10 {
        assert(hex_digit_upper(v) as u32 == v + 48);
    } else {
        assert(hex_digit_upper(v) as u32 == v + 55);
    }
}

proof fn lemma_unescape_escaped_byte(b: u8, rest: Seq<char>)
    ensures
        url_unescaped(escaped_byte(b) + rest) == seq![b] + url_unescaped(rest),
{
    let s = escaped_byte(b) + rest;
    if is_unreserved(b) {
        assert((b as char) as u32 == b as u32);
        assert(s[0] == b as char);
        assert(s[0] != '%');
        assert(s.drop_first() =~= rest);
        assert((s[0] as u8) == b);
    } else {
        lemma_hex_digit_roundtrip((b / 16) as int);
        lemma_hex_digit_roundtrip((b % 16) as int);
        assert(s[0] == '%');
        assert(s.skip(3) =~= rest);
        assert(s[1] == hex_digit_upper((b / 16) as int));
        assert(s[2] == hex_digit_upper((b % 16) as int));
        assert((b / 16) * 16 + b % 16 == b);
    }
}

/// URL escaping loses nothing: unescaping the escape of any byte string
/// gives back exactly those bytes.
pub proof fn lemma_url_escape_roundtrip(bs: Seq<u8>)
    ensures
        url_unescaped(url_escaped(bs)) == bs,
    decreases bs.len(),
{
    if bs.len() > 0 {
        let head = seq![bs[0]];
        let tail = bs.drop_first();
        assert(head + tail =~= bs);
        lemma_url_escaped_concat(head, tail);
        assert(head.drop_last() =~= Seq::<u8>::empty());
        assert(url_escaped(head.drop_last()) =~= Seq::<char>::empty());
        assert(head.last() == bs[0]);
        assert(url_escaped(head) =~= escaped_byte(bs[0]));
        lemma_unescape_escaped_byte(bs[0], url_escaped(tail));
        lemma_url_escape_roundtrip(tail);
        assert(seq![bs[0]] + tail =~= bs);
    } else {
        assert(url_unescaped(url_escaped(bs)) =~= bs);
    }
}

/// The URL escape of any byte string holds no `&` and no `=`.
pub proof fn lemma_url_escaped_free_of_separators(bs: Seq<u8>)
    ensures
        free_of_form_separators(url_escaped(bs)),
    decreases bs.len(),
{
    if bs.len() > 0 {
        lemma_url_escaped_free_of_separators(bs.drop_last());
        let b = bs.last();
        let e = escaped_byte(b);
        if is_unreserved(b) {
            assert((b as char) as u32 == b as u32);
        } else {
            lemma_hex_digit_roundtrip((b / 16) as int);
            lemma_hex_digit_roundtrip((b % 16) as int);
        }
        assert(free_of_form_separators(e));
        let whole = url_escaped(bs);
        let front = url_escaped(bs.drop_last());
        assert(whole =~= front + e);
        assert forall|i: int| 0 <= i < whole.len() implies #[trigger] whole[i] != '&' && whole[i]
            != '=' by {
            if i < front.len() {
                assert(whole[i] == front[i]);
            } else {
                assert(whole[i] == e[i - front.len()]);
            }
        }
    }
}

/// Whether two texts are equal.
pub fn text_eq(a: &str, b: &str) -> (r: bool)
    ensures
        r == (a@ == b@),
{
    let x = a.to_owned();
    let y = b.to_owned();
    x == y
}

/// `t` is a suffix of `s`.
pub open spec fn has_suffix(s: Seq<char>, t: Seq<char>) -> bool {
    t.len() <= s.len() && s.subrange(s.len() - t.len(), s.len() as int) == t
}

/// Whether `s` ends with `t` (as `str::ends_with` tells).
pub fn ends_with(s: &str, t: &str) -> (r: bool)
    ensures
        r == has_suffix(s@, t@),
{
    let n = s.unicode_len();
    let m = t.unicode_len();
    if m > n {
        return false;
    }
    let off = n - m;
    let mut i: usize = 0;
    while i < m
        invariant
            n == s@.len(),
            m == t@.len(),
            off == n - m,
            i <= m,
            forall|j: int| 0 <= j < i ==> s@[off + j] == t@[j],
        decreases m - i,
    {
        if s.get_char(off + i) != t.get_char(i) {
            assert(s@.subrange(off as int, n as int)[i as int] != t@[i as int]);
            return false;
        }
        i = i + 1;
    }
    assert(s@.subrange(off as int, n as int) =~= t@);
    true
}

/// The pieces of `s` between the occurrences of `c`, in order (one piece
/// more than there are occurrences).
pub open spec fn split_on(s: Seq<char>, c: char) -> Seq<Seq<char>>
    decreases s.len(),
{
    if s.len() == 0 {
        seq![Seq::empty()]
    } else {
        let prev = split_on(s.drop_last(), c);
        if s.last() == c {
            prev.push(Seq::empty())
        } else {
            prev.update(prev.len() - 1, prev.last().push(s.last()))
        }
    }
}

/// `c` does not occur in `t`.
pub open spec fn lacks(t: Seq<char>, c: char) -> bool {
    forall|i: int| 0 <= i < t.len() ==> #[trigger] t[i] != c
}

proof fn lemma_split_len(s: Seq<char>, c: char)
    ensures
        split_on(s, c).len() >= 1,
    decreases s.len(),
{
    if s.len() > 0 {
        lemma_split_len(s.drop_last(), c);
    }
}

/// Text without `c` appended to `s` only lengthens the last piece.
pub proof fn lemma_split_append_plain(s: Seq<char>, t: Seq<char>, c: char)
    requires
        lacks(t, c),
    ensures
        ({
            let p = split_on(s, c);
            split_on(s + t, c) == p.update(p.len() - 1, p.last() + t)
        }),
    decreases t.len(),
{
    lemma_split_len(s, c);
    let p = split_on(s, c);
    if t.len() == 0 {
        assert(s + t =~= s);
        assert(p.last() + t =~= p.last());
        assert(p.update(p.len() - 1, p.last() + t) =~= p);
    } else {
        let t0 = t.drop_last();
        assert(lacks(t0, c));
        lemma_split_append_plain(s, t0, c);
        assert((s + t).drop_last() =~= s + t0);
        assert((s + t).last() == t.last());
        assert(t.last() != c);
        let q = p.update(p.len() - 1, p.last() + t0);
        assert(q.last() == p.last() + t0);
        assert((p.last() + t0).push(t.last()) =~= p.last() + t);
        assert(q.update(q.len() - 1, q.last().push(t.last())) =~= p.update(p.len() - 1, p.last() + t));
    }
}

/// Appending `c` and then text without `c` adds exactly that text as a new piece.
pub proof fn lemma_split_append_piece(s: Seq<char>, t: Seq<char>, c: char)
    requires
        lacks(t, c),
    ensures
        split_on(s + seq![c] + t, c) == split_on(s, c).push(t),
{
    let sc = s + seq![c];
    assert(sc.drop_last() =~= s);
    assert(sc.last() == c);
    lemma_split_append_plain(sc, t, c);
    let p = split_on(sc, c);
    assert(p == split_on(s, c).push(Seq::empty()));
    assert(Seq::<char>::empty() + t =~= t);
    assert(p.update(p.len() - 1, p.last() + t) =~= split_on(s, c).push(t));
}

/// Text without `c` is one piece.
pub proof fn lemma_split_plain(t: Seq<char>, c: char)
    requires
        lacks(t, c),
    ensures
        split_on(t, c) == seq![t],
{
    lemma_split_append_plain(Seq::empty(), t, c);
    assert(Seq::<char>::empty() + t =~= t);
    assert(split_on(Seq::<char>::empty(), c) == seq![Seq::<char>::empty()]);
    assert(seq![Seq::<char>::empty()].update(0, Seq::<char>::empty() + t) =~= seq![t]);
}

/// A character that can stand in URL-escaped text: an ASCII letter or digit,
/// `-`, `.`, `_`, `~`, or the `%` that opens an escape.
pub open spec fn url_safe_char(c: char) -> bool {
    let u = c as u32;
    ||| 48 <= u <= 57
    ||| 65 <= u <= 90
    ||| 97 <= u <= 122
    ||| u == 45
    ||| u == 46
    ||| u == 95
    ||| u == 126
    ||| u == 37
}

proof fn lemma_escaped_byte_safe(b: u8)
    ensures
        forall|i: int| 0 <= i < escaped_byte(b).len() ==> url_safe_char(#[trigger] escaped_byte(b)[i]),
{
    if is_unreserved(b) {
        assert((b as char) as u32 == b as u32);
    } else {
        let hi = (b / 16) as int;
        let lo = (b % 16) as int;
        if hi < 10 {
            assert(hex_digit_upper(hi) as u32 == hi + 48);
        } else {
            assert(hex_digit_upper(hi) as u32 == hi + 55);
        }
        if lo < 10 {
            assert(hex_digit_upper(lo) as u32 == lo + 48);
        } else {
            assert(hex_digit_upper(lo) as u32 == lo + 55);
        }
    }
}

/// URL escaping keeps exactly the bytes that are ASCII letters, digits, `-`,
/// `.`, `_` or `~`; every other byte (`+`, space, `&`, `=`, `%`, non-ASCII...)
/// becomes `%` followed by two upper-case hexadecimal digits whose value is
/// the byte. So escaped text holds only those kept characters and `%`: never
/// a `+` or a space, which a form decoder would read differently.
pub proof fn lemma_url_escape_law(b: u8, bs: Seq<u8>)
    ensures
        (48 <= b <= 57 || 65 <= b <= 90 || 97 <= b <= 122 || b == 45 || b == 46 || b == 95 || b
            == 126) ==> url_escaped(seq![b]) == seq![b as char],
        !(48 <= b <= 57 || 65 <= b <= 90 || 97 <= b <= 122 || b == 45 || b == 46 || b == 95 || b
            == 126) ==> {
            let e = url_escaped(seq![b]);
            &&& e.len() == 3
            &&& e[0] == '%'
            &&& (48 <= e[1] as u32 <= 57 || 65 <= e[1] as u32 <= 70)
            &&& (48 <= e[2] as u32 <= 57 || 65 <= e[2] as u32 <= 70)
            &&& hex_value(e[1]) * 16 + hex_value(e[2]) == b
        },
        forall|i: int| 0 <= i < url_escaped(bs).len() ==> url_safe_char(#[trigger] url_escaped(bs)[i]),
        forall|i: int|
            0 <= i < url_escaped(bs).len() ==> #[trigger] url_escaped(bs)[i] != '+' && url_escaped(
                bs,
            )[i] != ' ',
    decreases bs.len(),
{
    let one = seq![b];
    assert(one.drop_last() =~= Seq::<u8>::empty());
    assert(url_escaped(one.drop_last()) =~= Seq::<char>::empty());
    assert(url_escaped(one) =~= escaped_byte(b));
    if !is_unreserved(b) {
        lemma_hex_digit_roundtrip((b / 16) as int);
        lemma_hex_digit_roundtrip((b % 16) as int);
        lemma_escaped_byte_safe(b);
        let e = escaped_byte(b);
        assert(url_safe_char(e[1]) && url_safe_char(e[2]));
        assert(e[1] == hex_digit_upper((b / 16) as int));
        assert(e[2] == hex_digit_upper((b % 16) as int));
        let hi = (b / 16) as int;
        let lo = (b % 16) as int;
        if hi < 10 {
            assert(hex_digit_upper(hi) as u32 == hi + 48);
        } else {
            assert(hex_digit_upper(hi) as u32 == hi + 55);
        }
        if lo < 10 {
            assert(hex_digit_upper(lo) as u32 == lo + 48);
        } else {
            assert(hex_digit_upper(lo) as u32 == lo + 55);
        }
        assert((b / 16) * 16 + b % 16 == b);
    }
    if bs.len() > 0 {
        lemma_url_escape_law(b, bs.drop_last());
        let front = url_escaped(bs.drop_last());
        let e = escaped_byte(bs.last());
        lemma_escaped_byte_safe(bs.last());
        let whole = url_escaped(bs);
        assert(whole =~= front + e);
        assert forall|i: int| 0 <= i < whole.len() implies url_safe_char(#[trigger] whole[i]) by {
            if i < front.len() {
                assert(whole[i] == front[i]);
            } else {
                assert(whole[i] == e[i - front.len()]);
            }
        }
    }
    assert forall|i: int| 0 <= i < url_escaped(bs).len() implies #[trigger] url_escaped(bs)[i]
        != '+' && url_escaped(bs)[i] != ' ' by {
        assert(url_safe_char(url_escaped(bs)[i]));
    }
}

} // verus!
