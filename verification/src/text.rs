//! Character-level text handling: whitespace trimming, line splitting,
//! joining, substring search and decimal rendering, each stated over the
//! `Seq<char>` view of a string.
use vstd::prelude::*;

verus! {

// ---------------------------------------------------------------------------
// Specifications
// ---------------------------------------------------------------------------

/// The Unicode `White_Space` property, which `char::is_whitespace` and
/// therefore `str::trim` go by.
pub open spec fn is_white_space(c: char) -> bool {
    ||| ('\u{9}' <= c && c <= '\u{d}')
    ||| c == ' '
    ||| c == '\u{85}'
    ||| c == '\u{a0}'
    ||| c == '\u{1680}'
    ||| ('\u{2000}' <= c && c <= '\u{200a}')
    ||| c == '\u{2028}'
    ||| c == '\u{2029}'
    ||| c == '\u{202f}'
    ||| c == '\u{205f}'
    ||| c == '\u{3000}'
}

/// The text of an optional string.
pub open spec fn opt_text(o: Option<String>) -> Option<Seq<char>> {
    match o {
        Some(s) => Some(s@),
        None => None,
    }
}

/// The texts of a result whose both sides are strings.
pub open spec fn result_text(r: Result<String, String>) -> Result<Seq<char>, Seq<char>> {
    match r {
        Ok(s) => Ok(s@),
        Err(e) => Err(e@),
    }
}

/// `s` without its leading white space.
pub open spec fn trim_start(s: Seq<char>) -> Seq<char>
    decreases s.len(),
{
    if s.len() > 0 && is_white_space(s[0]) {
        trim_start(s.drop_first())
    } else {
        s
    }
}

/// `s` without its trailing white space.
pub open spec fn trim_end(s: Seq<char>) -> Seq<char>
    decreases s.len(),
{
    if s.len() > 0 && is_white_space(s.last()) {
        trim_end(s.drop_last())
    } else {
        s
    }
}

/// `s` without leading and trailing white space, as `str::trim` gives it.
pub open spec fn trim(s: Seq<char>) -> Seq<char> {
    trim_end(trim_start(s))
}

/// ASCII lower case of one character; every other character stays.
pub open spec fn ascii_lower(c: char) -> char {
    if 'A' <= c && c <= 'Z' {
        ((c as u32) + 32) as char
    } else {
        c
    }
}

/// Index of the first `c` in `s`, or `s.len()` where there is none.
pub open spec fn find_char(s: Seq<char>, c: char) -> nat
    decreases s.len(),
{
    if s.len() == 0 {
        0
    } else if s[0] == c {
        0
    } else {
        1 + find_char(s.drop_first(), c)
    }
}

/// A line with one trailing carriage return removed, if it has one.
pub open spec fn strip_cr(l: Seq<char>) -> Seq<char> {
    if l.len() > 0 && l.last() == '\r' {
        l.drop_last()
    } else {
        l
    }
}

/// The lines of `s` as `str::lines` yields them: split after each `\n`,
/// the `\n` and a `\r` right before it removed, no empty line after a
/// final `\n`, and a last line without `\n` kept as it is.
pub open spec fn lines_of(s: Seq<char>) -> Seq<Seq<char>>
    decreases s.len(),
{
    if s.len() == 0 {
        seq![]
    } else {
        let k = find_char(s, '\n');
        if k >= s.len() {
            seq![s]
        } else {
            seq![strip_cr(s.take(k as int))] + lines_of(s.skip(k as int + 1))
        }
    }
}

/// The parts joined with `sep` between each two of them.
pub open spec fn join(parts: Seq<Seq<char>>, sep: Seq<char>) -> Seq<char>
    decreases parts.len(),
{
    if parts.len() == 0 {
        seq![]
    } else if parts.len() == 1 {
        parts[0]
    } else {
        join(parts.drop_last(), sep) + sep + parts.last()
    }
}

/// The last `n` items of `items`, or all of them where there are fewer.
pub open spec fn last_items<A>(items: Seq<A>, n: nat) -> Seq<A> {
    if items.len() > n {
        items.skip(items.len() - n)
    } else {
        items
    }
}

/// `pat` occurs in `s` at position `i`.
pub open spec fn occurs_at(s: Seq<char>, pat: Seq<char>, i: int) -> bool {
    0 <= i && i + pat.len() <= s.len() && s.subrange(i, i + pat.len()) == pat
}

/// `pat` occurs somewhere in `s`, as `str::contains` with a `&str` pattern
/// decides it.
pub open spec fn contains(s: Seq<char>, pat: Seq<char>) -> bool {
    exists|i: int| #[trigger] occurs_at(s, pat, i)
}

/// The decimal digit for `d < 10`.
pub open spec fn digit_char(d: nat) -> char {
    ((d + 48) as u32) as char
}

/// The decimal representation of `n`, without sign or leading zeros.
pub open spec fn decimal(n: nat) -> Seq<char>
    decreases n,
{
    if n < 10 {
        seq![digit_char(n)]
    } else {
        decimal(n / 10).push(digit_char(n % 10))
    }
}

/// `digits` with zeros in front up to `width` characters, as the `{:0w}`
/// format gives it.
pub open spec fn zero_padded(digits: Seq<char>, width: nat) -> Seq<char>
    decreases width,
{
    if digits.len() >= width {
        digits
    } else {
        seq!['0'] + zero_padded(digits, (width - 1) as nat)
    }
}

// ---------------------------------------------------------------------------
// Lemmas
// ---------------------------------------------------------------------------

/// `find_char` is the first position of `c`, or the length.
pub proof fn lemma_find_char(s: Seq<char>, c: char, k: int)
    requires
        0 <= k <= s.len(),
        forall|j: int| 0 <= j < k ==> s[j] != c,
        k < s.len() ==> s[k] == c,
    ensures
        find_char(s, c) == k,
    decreases k,
{
    if k > 0 {
        lemma_find_char(s.drop_first(), c, k - 1);
    }
}

/// What `find_char` gives: a position up to the length, before which no
/// `c` occurs, and at which `c` stands unless it is the length.
pub proof fn lemma_find_char_facts(s: Seq<char>, c: char)
    ensures
        find_char(s, c) <= s.len(),
        forall|j: int| 0 <= j < find_char(s, c) ==> s[j] != c,
        find_char(s, c) < s.len() ==> s[find_char(s, c) as int] == c,
    decreases s.len(),
{
    if s.len() > 0 && s[0] != c {
        lemma_find_char_facts(s.drop_first(), c);
        assert forall|j: int| 0 <= j < find_char(s, c) implies s[j] != c by {
            if j > 0 {
                assert(s[j] == s.drop_first()[j - 1]);
            }
        }
    }
}

/// A prefix without `c` moves the first `c` by its length.
pub proof fn lemma_find_char_after_prefix(p: Seq<char>, s: Seq<char>, c: char)
    requires
        forall|j: int| 0 <= j < p.len() ==> p[j] != c,
    ensures
        find_char(p + s, c) == p.len() + find_char(s, c),
{
    lemma_find_char_facts(s, c);
    let k = p.len() + find_char(s, c);
    assert forall|j: int| 0 <= j < k implies (p + s)[j] != c by {
        if j >= p.len() {
            assert((p + s)[j] == s[j - p.len()]);
        }
    }
    if k < (p + s).len() {
        assert((p + s)[k as int] == s[find_char(s, c) as int]);
    }
    lemma_find_char(p + s, c, k as int);
}

/// Text after the first `c` does not move it.
pub proof fn lemma_find_char_before_suffix(s: Seq<char>, t: Seq<char>, c: char)
    requires
        find_char(s, c) < s.len(),
    ensures
        find_char(s + t, c) == find_char(s, c),
{
    lemma_find_char_facts(s, c);
    let k = find_char(s, c) as int;
    assert forall|j: int| 0 <= j < k implies (s + t)[j] != c by {
        assert((s + t)[j] == s[j]);
    }
    assert((s + t)[k] == s[k]);
    lemma_find_char(s + t, c, k);
}

/// `s` is made of white space only.
pub open spec fn all_white_space(s: Seq<char>) -> bool {
    forall|j: int| 0 <= j < s.len() ==> is_white_space(#[trigger] s[j])
}

/// White space in front is trimmed away, and so is a text that is all white
/// space; otherwise trimming the front of `s + q` keeps `q` as it is.
pub proof fn lemma_trim_start_concat(s: Seq<char>, q: Seq<char>)
    ensures
        all_white_space(s) ==> trim_start(s + q) == trim_start(q),
        !all_white_space(s) ==> trim_start(s + q) == trim_start(s) + q,
        all_white_space(s) ==> trim_start(s).len() == 0,
    decreases s.len(),
{
    if s.len() == 0 {
        assert(s + q =~= q);
    } else {
        let rest = s.drop_first();
        lemma_trim_start_concat(rest, q);
        assert((s + q).drop_first() =~= rest + q);
        assert((s + q)[0] == s[0]);
        if is_white_space(s[0]) {
            assert(all_white_space(s) <==> all_white_space(rest)) by {
                if all_white_space(rest) {
                    assert forall|j: int| 0 <= j < s.len() implies is_white_space(#[trigger] s[j]) by {
                        if j > 0 {
                            assert(s[j] == rest[j - 1]);
                        }
                    }
                }
                if all_white_space(s) {
                    assert forall|j: int| 0 <= j < rest.len() implies is_white_space(
                        #[trigger] rest[j],
                    ) by {
                        assert(rest[j] == s[j + 1]);
                    }
                }
            }
        } else {
            assert(!all_white_space(s));
        }
    }
}

/// White space at the end is trimmed away.
pub proof fn lemma_trim_end_white_suffix(x: Seq<char>, q: Seq<char>)
    requires
        all_white_space(q),
    ensures
        trim_end(x + q) == trim_end(x),
    decreases q.len(),
{
    if q.len() == 0 {
        assert(x + q =~= x);
    } else {
        let front = q.drop_last();
        assert(all_white_space(front)) by {
            assert forall|j: int| 0 <= j < front.len() implies is_white_space(#[trigger] front[j]) by {
                assert(front[j] == q[j]);
            }
        }
        lemma_trim_end_white_suffix(x, front);
        assert((x + q).drop_last() =~= x + front);
        assert((x + q).last() == q.last());
        assert(is_white_space(q[q.len() - 1]));
    }
}

/// White space around a text does not change what trimming gives.
pub proof fn lemma_trim_white_around(p: Seq<char>, s: Seq<char>, q: Seq<char>)
    requires
        all_white_space(p),
        all_white_space(q),
    ensures
        trim(p + s + q) == trim(s),
{
    assert(p + s + q =~= p + (s + q));
    lemma_trim_start_concat(p, s + q);
    lemma_trim_start_concat(s, q);
    if all_white_space(s) {
        lemma_trim_start_concat(q, Seq::<char>::empty());
        assert(q + Seq::<char>::empty() =~= q);
        assert(trim_start(q).len() == 0);
        assert(trim_start(s).len() == 0);
        assert(trim_end(trim_start(q)) == trim_start(q));
        assert(trim_end(trim_start(s)) == trim_start(s));
        assert(trim_start(q) =~= trim_start(s));
    } else {
        lemma_trim_end_white_suffix(trim_start(s), q);
    }
}

/// ASCII upper case of one character; every other character stays.
pub open spec fn ascii_upper(c: char) -> char {
    if 'a' <= c && c <= 'z' {
        ((c as u32) - 32) as char
    } else {
        c
    }
}

/// A text in ASCII upper case, as `str::to_ascii_uppercase` gives it.
pub open spec fn upper(s: Seq<char>) -> Seq<char> {
    s.map_values(|c: char| ascii_upper(c))
}

/// Upper-casing leaves white space as it is and lower-casing undoes it.
pub proof fn lemma_ascii_upper_char(c: char)
    ensures
        is_white_space(ascii_upper(c)) == is_white_space(c),
        ascii_lower(ascii_upper(c)) == ascii_lower(c),
{
}

/// Trimming and upper-casing may come in either order.
pub proof fn lemma_trim_upper(s: Seq<char>)
    ensures
        trim(upper(s)) == upper(trim(s)),
{
    lemma_trim_start_upper(s);
    lemma_trim_end_upper(trim_start(s));
}

proof fn lemma_trim_start_upper(s: Seq<char>)
    ensures
        trim_start(upper(s)) == upper(trim_start(s)),
    decreases s.len(),
{
    if s.len() > 0 {
        lemma_ascii_upper_char(s[0]);
        assert(upper(s)[0] == ascii_upper(s[0]));
        if is_white_space(s[0]) {
            assert(upper(s).drop_first() =~= upper(s.drop_first()));
            lemma_trim_start_upper(s.drop_first());
        }
    } else {
        assert(upper(s).len() == 0);
    }
}

proof fn lemma_trim_end_upper(s: Seq<char>)
    ensures
        trim_end(upper(s)) == upper(trim_end(s)),
    decreases s.len(),
{
    if s.len() > 0 {
        lemma_ascii_upper_char(s.last());
        assert(upper(s).last() == ascii_upper(s.last()));
        if is_white_space(s.last()) {
            assert(upper(s).drop_last() =~= upper(s.drop_last()));
            lemma_trim_end_upper(s.drop_last());
        }
    } else {
        assert(upper(s).len() == 0);
    }
}

/// A decimal digit.
pub open spec fn is_digit(c: char) -> bool {
    '0' <= c && c <= '9'
}

/// The number that a string of decimal digits reads as.
pub open spec fn digits_value(s: Seq<char>) -> int
    decreases s.len(),
{
    if s.len() == 0 {
        0
    } else {
        10 * digits_value(s.drop_last()) + ((s.last() as u32) as int - 48)
    }
}

/// The digit for `x` is the character `x` places after '0'.
proof fn lemma_digit_char(x: nat)
    requires
        x < 10,
    ensures
        (digit_char(x) as u32) as int == x + 48,
        is_digit(digit_char(x)),
{
    assert((((x + 48) as u32) as char) as u32 == (x + 48) as u32);
}

/// The decimal form of `n` is made of digits, reads back as `n`, and has
/// no leading zero unless it is the single digit of zero.
pub proof fn lemma_decimal_reads_back(n: nat)
    ensures
        digits_value(decimal(n)) == n,
        decimal(n).len() >= 1,
        forall|i: int| 0 <= i < decimal(n).len() ==> is_digit(#[trigger] decimal(n)[i]),
        decimal(n)[0] == '0' ==> n == 0,
    decreases n,
{
    lemma_digit_char(n % 10);
    let e = Seq::<char>::empty();
    assert(digits_value(e) == 0);
    if n < 10 {
        let d = decimal(n);
        assert(d.drop_last() =~= e);
        assert(digits_value(d) == 10 * digits_value(d.drop_last()) + ((d.last() as u32) as int
            - 48));
    }
    if n >= 10 {
        let q = n / 10;
        lemma_decimal_reads_back(q);
        let d = decimal(n);
        assert(d.drop_last() =~= decimal(q));
        assert(d.last() == digit_char(n % 10));
        assert(digits_value(d) == 10 * digits_value(d.drop_last()) + ((d.last() as u32) as int
            - 48));
        assert(d[0] == decimal(q)[0]);
        assert forall|i: int| 0 <= i < d.len() implies is_digit(#[trigger] d[i]) by {
            if i < d.len() - 1 {
                assert(d[i] == decimal(q)[i]);
            }
        }
    }
}

/// How many digits the decimal form of small numbers has.
pub proof fn lemma_decimal_len(n: nat)
    ensures
        n < 10 ==> decimal(n).len() == 1,
        10 <= n < 100 ==> decimal(n).len() == 2,
        n < 100 ==> decimal(n).len() <= 2,
        n < 1000 ==> decimal(n).len() <= 3,
        n < 10000 ==> decimal(n).len() <= 4,
    decreases n,
{
    if n >= 10 {
        lemma_decimal_len(n / 10);
    }
}

/// Zeros in front do not change what digits read as.
proof fn lemma_leading_zero(s: Seq<char>)
    ensures
        digits_value(seq!['0'] + s) == digits_value(s),
    decreases s.len(),
{
    if s.len() > 0 {
        let z = seq!['0'] + s;
        assert(z.drop_last() =~= seq!['0'] + s.drop_last());
        assert(z.last() == s.last());
        lemma_leading_zero(s.drop_last());
        assert(digits_value(z) == 10 * digits_value(z.drop_last()) + ((z.last() as u32) as int
            - 48));
        assert(digits_value(s) == 10 * digits_value(s.drop_last()) + ((s.last() as u32) as int
            - 48));
    } else {
        assert((seq!['0'] + s).drop_last() =~= Seq::<char>::empty());
        assert(('0' as u32) as int == 48);
        let z = seq!['0'] + s;
        assert(z =~= seq!['0']);
        assert(digits_value(Seq::<char>::empty()) == 0);
        assert(digits_value(z) == 10 * digits_value(z.drop_last()) + ((z.last() as u32) as int
            - 48));
    }
}

/// Padding puts zeros in front up to the width: the text is as long as the
/// width or the digits, whichever is more, ends with the digits, and reads
/// as the same number.
pub proof fn lemma_zero_padded(d: Seq<char>, width: nat)
    ensures
        zero_padded(d, width).len() == if d.len() >= width {
            d.len()
        } else {
            width
        },
        zero_padded(d, width).skip(zero_padded(d, width).len() - d.len()) == d,
        forall|i: int|
            0 <= i < zero_padded(d, width).len() - d.len() ==> #[trigger] zero_padded(d, width)[i]
                == '0',
        digits_value(zero_padded(d, width)) == digits_value(d),
    decreases width,
{
    if d.len() >= width {
        assert(d.skip(0) =~= d);
    } else {
        let w1 = (width - 1) as nat;
        lemma_zero_padded(d, w1);
        let inner = zero_padded(d, w1);
        let z = zero_padded(d, width);
        assert(z == seq!['0'] + inner);
        assert(z.skip(z.len() - d.len()) =~= inner.skip(inner.len() - d.len()));
        assert forall|i: int| 0 <= i < z.len() - d.len() implies #[trigger] z[i] == '0' by {
            if i > 0 {
                assert(z[i] == inner[i - 1]);
            }
        }
        lemma_leading_zero(inner);
    }
}

/// A number below 100 (or 10000) written with two (or four) zero-padded
/// digits takes exactly that many digits and reads back as the number.
pub proof fn lemma_padded_field(n: nat, width: nat)
    requires
        (width == 2 && n < 100) || (width == 4 && n < 10000),
    ensures
        zero_padded(decimal(n), width).len() == width,
        digits_value(zero_padded(decimal(n), width)) == n,
        forall|i: int|
            0 <= i < width ==> is_digit(#[trigger] zero_padded(decimal(n), width)[i]),
{
    lemma_decimal_len(n);
    lemma_decimal_reads_back(n);
    lemma_zero_padded(decimal(n), width);
    let d = decimal(n);
    let z = zero_padded(d, width);
    assert forall|i: int| 0 <= i < width implies is_digit(#[trigger] z[i]) by {
        if i >= z.len() - d.len() {
            assert(z[i] == z.skip(z.len() - d.len())[i - (z.len() - d.len())]);
        }
    }
}

/// One step of `lines_of`: the line that ends at the `\n` at `k`.
proof fn lemma_lines_step(s: Seq<char>, k: int)
    requires
        0 <= k < s.len(),
        s[k] == '\n',
        forall|j: int| 0 <= j < k ==> s[j] != '\n',
    ensures
        lines_of(s) == seq![strip_cr(s.take(k))] + lines_of(s.skip(k + 1)),
{
    lemma_find_char(s, '\n', k);
}

/// The last line, which no `\n` ends.
proof fn lemma_lines_last(s: Seq<char>)
    requires
        s.len() > 0,
        forall|j: int| 0 <= j < s.len() ==> s[j] != '\n',
    ensures
        lines_of(s) == seq![s],
{
    lemma_find_char(s, '\n', s.len() as int);
}

// ---------------------------------------------------------------------------
// Executable functions
// ---------------------------------------------------------------------------

/// What `String::from_utf8_lossy` makes of a byte sequence: a function of
/// the bytes alone.
pub uninterp spec fn utf8_lossy(bytes: Seq<u8>) -> Seq<char>;

/// Calls `String::from_utf8_lossy`. Its contract claims that the result is
/// the named function of the bytes, and, as std documents, that valid UTF-8
/// is decoded as it stands. How invalid sequences are replaced by U+FFFD is
/// left unsaid.
#[verifier::external_body]
pub(crate) fn lossy_string(bytes: &[u8]) -> (s: String)
    ensures
        s@ == utf8_lossy(bytes@),
        vstd::utf8::valid_utf8(bytes@) ==> s@ == vstd::utf8::decode_utf8(bytes@),
{
    String::from_utf8_lossy(bytes).into_owned()
}

/// Appends one character.
#[verifier::external_body]
pub(crate) fn push_char(s: &mut String, c: char)
    ensures
        final(s)@ == old(s)@.push(c),
{
    s.push(c)
}

/// The characters of `s`, one per element.
pub fn chars_of(s: &str) -> (v: Vec<char>)
    ensures
        v@ == s@,
{
    let mut v: Vec<char> = Vec::new();
    for c in it: s.chars()
        invariant
            it.seq() == s@,
            v@ == it.seq().take(it.index() as int),
    {
        v.push(c);
    }
    v
}

/// Appends `v[from..to]`.
pub fn push_chars(out: &mut String, v: &Vec<char>, from: usize, to: usize)
    requires
        from <= to <= v.len(),
    ensures
        final(out)@ == old(out)@ + v@.subrange(from as int, to as int),
{
    let mut k = from;
    while k < to
        invariant
            from <= k <= to <= v.len(),
            out@ == old(out)@ + v@.subrange(from as int, k as int),
        decreases to - k,
    {
        push_char(out, v[k]);
        assert(v@.subrange(from as int, k + 1) =~= v@.subrange(from as int, k as int).push(
            v@[k as int],
        ));
        k += 1;
    }
}

/// A new string with the text of `a` followed by that of `b`.
pub fn joined(a: &str, b: &str) -> (s: String)
    ensures
        s@ == a@ + b@,
{
    let s = String::from_str(a);
    s.concat(b)
}

/// A copy of an optional string.
pub fn clone_opt(o: &Option<String>) -> (c: Option<String>)
    ensures
        opt_text(c) == opt_text(*o),
{
    match o {
        Some(s) => Some(s.clone()),
        None => None,
    }
}

/// The string made of `v[from..to]`.
pub fn string_of(v: &Vec<char>, from: usize, to: usize) -> (s: String)
    requires
        from <= to <= v.len(),
    ensures
        s@ == v@.subrange(from as int, to as int),
{
    let mut s = String::new();
    push_chars(&mut s, v, from, to);
    assert(Seq::<char>::empty() + v@.subrange(from as int, to as int) =~= v@.subrange(
        from as int,
        to as int,
    ));
    s
}

/// Whether `c` is Unicode white space.
pub fn white_space(c: char) -> (b: bool)
    ensures
        b == is_white_space(c),
{
    ('\u{9}' <= c && c <= '\u{d}') || c == ' ' || c == '\u{85}' || c == '\u{a0}' || c
        == '\u{1680}' || ('\u{2000}' <= c && c <= '\u{200a}') || c == '\u{2028}' || c
        == '\u{2029}' || c == '\u{202f}' || c == '\u{205f}' || c == '\u{3000}'
}

/// The bounds of `v[from..to]` with its white space trimmed at both ends.
pub fn trim_bounds(v: &Vec<char>, from: usize, to: usize) -> (r: (usize, usize))
    requires
        from <= to <= v.len(),
    ensures
        from <= r.0 <= r.1 <= to,
        trim(v@.subrange(from as int, to as int)) == v@.subrange(r.0 as int, r.1 as int),
{
    let ghost s = v@.subrange(from as int, to as int);
    let mut i = from;
    while i < to && white_space(v[i])
        invariant
            from <= i <= to <= v.len(),
            s == v@.subrange(from as int, to as int),
            trim_start(s) == trim_start(v@.subrange(i as int, to as int)),
        decreases to - i,
    {
        assert(v@.subrange(i as int, to as int).drop_first() =~= v@.subrange(
            i + 1,
            to as int,
        ));
        i += 1;
    }
    assert(trim_start(v@.subrange(i as int, to as int)) == v@.subrange(i as int, to as int));
    let mut j = to;
    while j > i && white_space(v[j - 1])
        invariant
            from <= i <= j <= to <= v.len(),
            trim_start(s) == v@.subrange(i as int, to as int),
            trim(s) == trim_end(v@.subrange(i as int, j as int)),
        decreases j - i,
    {
        assert(v@.subrange(i as int, j as int).drop_last() =~= v@.subrange(
            i as int,
            j - 1,
        ));
        j -= 1;
    }
    (i, j)
}

/// The position of the first `c` in `v[from..to]`, or `to` where there is none.
pub fn find_char_in(v: &Vec<char>, from: usize, to: usize, c: char) -> (k: usize)
    requires
        from <= to <= v.len(),
    ensures
        from <= k <= to,
        k == from + find_char(v@.subrange(from as int, to as int), c),
{
    let mut k = from;
    while k < to && v[k] != c
        invariant
            from <= k <= to <= v.len(),
            forall|j: int| from <= j < k ==> v@[j] != c,
        decreases to - k,
    {
        k += 1;
    }
    proof {
        lemma_find_char(v@.subrange(from as int, to as int), c, k - from);
    }
    k
}

/// The texts of `s` that a list of bounds marks, in order.
pub open spec fn ranges_text(s: Seq<char>, r: Seq<(usize, usize)>) -> Seq<Seq<char>> {
    r.map_values(|b: (usize, usize)| s.subrange(b.0 as int, b.1 as int))
}

/// Bounds that lie within a text of length `n`.
pub open spec fn ranges_within(r: Seq<(usize, usize)>, n: nat) -> bool {
    forall|i: int| 0 <= i < r.len() ==> #[trigger] r[i].0 <= r[i].1 && r[i].1 <= n
}

/// Splits `v` into lines as `str::lines` does, giving each line's bounds.
pub fn line_ranges(v: &Vec<char>) -> (r: Vec<(usize, usize)>)
    ensures
        ranges_within(r@, v@.len()),
        ranges_text(v@, r@) == lines_of(v@),
{
    let n = v.len();
    let mut out: Vec<(usize, usize)> = Vec::new();
    let mut start: usize = 0;
    let mut p: usize = 0;
    assert(v@.skip(0) =~= v@);
    assert(ranges_text(v@, out@) + lines_of(v@) =~= lines_of(v@));
    while p < n
        invariant
            n == v.len(),
            start <= p <= n,
            forall|q: int| start <= q < p ==> v@[q] != '\n',
            ranges_within(out@, n as nat),
            lines_of(v@) == ranges_text(v@, out@) + lines_of(v@.skip(start as int)),
        decreases n - p,
    {
        if v[p] == '\n' {
            let ghost rest = v@.skip(start as int);
            proof {
                lemma_lines_step(rest, p - start);
                assert(rest.skip(p - start + 1) =~= v@.skip(p + 1));
            }
            let end = if p > start && v[p - 1] == '\r' {
                p - 1
            } else {
                p
            };
            assert(strip_cr(rest.take(p - start)) =~= v@.subrange(start as int, end as int));
            let ghost before = out@;
            out.push((start, end));
            assert(ranges_text(v@, out@) =~= ranges_text(v@, before).push(
                v@.subrange(start as int, end as int),
            ));
            start = p + 1;
        }
        p += 1;
    }
    if start < n {
        proof {
            lemma_lines_last(v@.skip(start as int));
        }
        let ghost before = out@;
        out.push((start, n));
        assert(ranges_text(v@, out@) =~= ranges_text(v@, before).push(
            v@.subrange(start as int, n as int),
        ));
        assert(v@.skip(start as int) =~= v@.subrange(start as int, n as int));
    } else {
        assert(v@.skip(start as int).len() == 0);
        assert(ranges_text(v@, out@) + Seq::<Seq<char>>::empty() =~= ranges_text(v@, out@));
    }
    out
}

/// Whether `pat` occurs in `v` at `i`.
fn occurs_at_exec(v: &Vec<char>, pat: &Vec<char>, i: usize) -> (b: bool)
    requires
        i + pat.len() <= v.len(),
    ensures
        b == occurs_at(v@, pat@, i as int),
{
    let m = pat.len();
    let mut k: usize = 0;
    while k < m
        invariant
            m == pat.len(),
            i + m <= v.len(),
            k <= m,
            forall|j: int| 0 <= j < k ==> v@[i + j] == pat@[j],
        decreases m - k,
    {
        if v[i + k] != pat[k] {
            assert(v@.subrange(i as int, i + m)[k as int] != pat@[k as int]);
            return false;
        }
        k += 1;
    }
    assert(v@.subrange(i as int, i + m) =~= pat@);
    true
}

/// Whether `pat` occurs in `s`, as `str::contains` decides it.
pub fn contains_str(s: &str, pat: &str) -> (b: bool)
    ensures
        b == contains(s@, pat@),
{
    let v = chars_of(s);
    let p = chars_of(pat);
    let n = v.len();
    let m = p.len();
    if m > n {
        assert forall|i: int| !occurs_at(s@, pat@, i) by {}
        return false;
    }
    if m == 0 {
        assert(s@.subrange(0, 0) =~= pat@);
        assert(occurs_at(s@, pat@, 0));
        return true;
    }
    let mut i: usize = 0;
    while i <= n - m
        invariant
            v@ == s@,
            p@ == pat@,
            n == v.len(),
            m == p.len(),
            1 <= m <= n,
            i <= n - m + 1,
            forall|j: int| 0 <= j < i ==> !occurs_at(s@, pat@, j),
        decreases n - m + 1 - i,
    {
        if occurs_at_exec(&v, &p, i) {
            return true;
        }
        i += 1;
    }
    assert forall|j: int| !occurs_at(s@, pat@, j) by {
        if 0 <= j && j + m <= n {
            assert(j < i);
        }
    }
    false
}

/// The texts that the bounds `r` mark in `v`, from the one at `first` on,
/// joined with `\n`.
pub fn join_lines(v: &Vec<char>, r: &Vec<(usize, usize)>, first: usize) -> (s: String)
    requires
        ranges_within(r@, v@.len()),
        first <= r.len(),
    ensures
        s@ == join(ranges_text(v@, r@).skip(first as int), seq!['\n']),
{
    let ghost lines = ranges_text(v@, r@);
    let mut out = String::new();
    let mut i = first;
    while i < r.len()
        invariant
            first <= i <= r.len(),
            ranges_within(r@, v@.len()),
            lines == ranges_text(v@, r@),
            out@ == join(lines.subrange(first as int, i as int), seq!['\n']),
        decreases r.len() - i,
    {
        let (a, b) = r[i];
        assert(r@[i as int].0 <= r@[i as int].1 <= v@.len());
        let ghost prev = lines.subrange(first as int, i as int);
        let ghost next = lines.subrange(first as int, i + 1);
        if i > first {
            push_char(&mut out, '\n');
            assert(next.drop_last() =~= prev);
        }
        push_chars(&mut out, v, a, b);
        assert(next.last() == v@.subrange(a as int, b as int));
        if i == first {
            assert(next.len() == 1);
            assert(Seq::<char>::empty() + v@.subrange(a as int, b as int) =~= next[0]);
        }
        i += 1;
    }
    assert(lines.subrange(first as int, r.len() as int) =~= lines.skip(first as int));
    out
}

/// Appends the decimal representation of `n`.
pub fn push_decimal(out: &mut String, n: u64)
    ensures
        final(out)@ == old(out)@ + decimal(n as nat),
    decreases n,
{
    if n >= 10 {
        push_decimal(out, n / 10);
    }
    let d = (n % 10) as u8;
    let c = (d + 48) as char;
    assert(c == digit_char((n % 10) as nat));
    push_char(out, c);
    if n >= 10 {
        assert(old(out)@ + decimal(n as nat) =~= old(out)@ + decimal((n / 10) as nat) + seq![c]);
    } else {
        assert(old(out)@ + decimal(n as nat) =~= old(out)@ + seq![c]);
    }
}

/// The decimal representation of `n`.
pub fn decimal_string(n: u64) -> (s: String)
    ensures
        s@ == decimal(n as nat),
        digits_value(s@) == n,
        forall|i: int| 0 <= i < s@.len() ==> is_digit(#[trigger] s@[i]),
{
    proof {
        lemma_decimal_reads_back(n as nat);
    }
    let mut s = String::new();
    push_decimal(&mut s, n);
    assert(Seq::<char>::empty() + decimal(n as nat) =~= decimal(n as nat));
    s
}

/// The decimal representation of `n` with zeros in front up to two digits,
/// as `format!("{:02}", n)` gives it.
pub fn two_digits(n: u64) -> (s: String)
    ensures
        s@ == zero_padded(decimal(n as nat), 2),
        digits_value(s@) == n,
        n < 100 ==> s@.len() == 2,
{
    proof {
        lemma_decimal_reads_back(n as nat);
        lemma_zero_padded(decimal(n as nat), 2);
        lemma_decimal_len(n as nat);
    }
    let mut s = String::new();
    if n < 10 {
        push_char(&mut s, '0');
        assert(decimal(n as nat).len() == 1);
        assert(zero_padded(decimal(n as nat), 1) == decimal(n as nat));
    } else {
        assert(decimal(n as nat).len() >= 2) by {
            assert(decimal((n / 10) as nat).len() >= 1);
        }
    }
    push_decimal(&mut s, n);
    if n < 10 {
        assert(seq!['0'] + decimal(n as nat) =~= s@);
    } else {
        assert(Seq::<char>::empty() + decimal(n as nat) =~= decimal(n as nat));
    }
    s
}

} // verus!
