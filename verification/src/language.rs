//! The interface language: the rule that maps a language tag to German or
//! English, and the reading of the system's preferred languages.
use vstd::prelude::*;
use crate::text::{
    all_white_space, ascii_upper, lemma_ascii_upper_char, lemma_find_char,
    lemma_find_char_after_prefix, lemma_find_char_before_suffix, lemma_find_char_facts,
    lemma_trim_upper, lemma_trim_white_around, strip_cr, upper, trim_end, trim_start, ascii_lower, chars_of, find_char, find_char_in, line_ranges, lines_of, lossy_string, ranges_text,
    ranges_within, trim, trim_bounds, utf8_lossy,
};

verus! {

/// A tag names German when, with white space trimmed and in ASCII lower
/// case, it begins with "de".
pub open spec fn is_german(raw: Seq<char>) -> bool {
    let t = trim(raw);
    t.len() >= 2 && ascii_lower(t[0]) == 'd' && ascii_lower(t[1]) == 'e'
}

/// The interface language a tag stands for: "de" for German, "en" for
/// everything else.
pub open spec fn language_code(raw: Seq<char>) -> Seq<char> {
    if is_german(raw) {
        "de"@
    } else {
        "en"@
    }
}

/// The text between the first two double quotes of a line, if it has two.
pub open spec fn quoted(line: Seq<char>) -> Option<Seq<char>> {
    let a = find_char(line, '"');
    if a >= line.len() {
        None
    } else {
        let rest = line.skip(a as int + 1);
        let b = find_char(rest, '"');
        if b >= rest.len() {
            None
        } else {
            Some(rest.take(b as int))
        }
    }
}

/// The quoted text of the first line that holds one.
pub open spec fn first_quoted(lines: Seq<Seq<char>>) -> Option<Seq<char>>
    decreases lines.len(),
{
    if lines.len() == 0 {
        None
    } else {
        match quoted(lines[0]) {
            Some(q) => Some(q),
            None => first_quoted(lines.drop_first()),
        }
    }
}

/// The language that the output of `defaults read -g AppleLanguages`
/// names first, if any line of it holds a quoted tag.
pub open spec fn apple_language(output: Seq<char>) -> Option<Seq<char>> {
    match first_quoted(lines_of(output)) {
        Some(q) => Some(language_code(q)),
        None => None,
    }
}

proof fn lemma_ascii_lower_d(c: char)
    ensures
        (ascii_lower(c) == 'd') <==> (c == 'd' || c == 'D'),
        (ascii_lower(c) == 'e') <==> (c == 'e' || c == 'E'),
{
}

/// The language code of `v[from..to]`.
fn language_in(v: &Vec<char>, from: usize, to: usize) -> (r: &'static str)
    requires
        from <= to <= v.len(),
    ensures
        r@ == language_code(v@.subrange(from as int, to as int)),
{
    let (i, j) = trim_bounds(v, from, to);
    proof {
        lemma_ascii_lower_d(v@[i as int]);
        if i + 1 < j {
            lemma_ascii_lower_d(v@[i + 1]);
        }
    }
    if j - i >= 2 && (v[i] == 'd' || v[i] == 'D') && (v[i + 1] == 'e' || v[i + 1] == 'E') {
        "de"
    } else {
        "en"
    }
}

/// The interface language for a language tag: "de" when the tag, trimmed
/// and in lower case, begins with "de", and "en" for everything else.
pub fn normalize_language(raw: &str) -> (r: &'static str)
    ensures
        r@ == language_code(raw@),
        r@ == "de"@ <==> "de"@.is_prefix_of(lowered(trim(raw@))),
        r@ == "en"@ <==> !"de"@.is_prefix_of(lowered(trim(raw@))),
{
    proof {
        lemma_german_exactly_for_de_prefix(raw@);
    }
    let v = chars_of(raw);
    assert(v@.subrange(0, v.len() as int) =~= raw@);
    language_in(&v, 0, v.len())
}

/// Reads the first language from the list that `defaults` prints, such as
/// `(\n    "de-DE",\n    "en-DE"\n)`: the first line with a quoted tag
/// decides, since macOS orders the list by preference.
pub fn parse_apple_languages(output: &str) -> (r: Option<&'static str>)
    ensures
        match apple_language(output@) {
            Some(code) => r is Some && r->0@ == code,
            None => r is None,
        },
{
    let v = chars_of(output);
    let r = line_ranges(&v);
    let ghost lines = lines_of(v@);
    let mut i: usize = 0;
    assert(lines.skip(0) =~= lines);
    while i < r.len()
        invariant
            v@ == output@,
            lines == lines_of(v@),
            ranges_within(r@, v@.len()),
            ranges_text(v@, r@) == lines,
            i <= r.len(),
            first_quoted(lines) == first_quoted(lines.skip(i as int)),
        decreases r.len() - i,
    {
        let (a, b) = r[i];
        assert(r@[i as int].0 <= r@[i as int].1 <= v@.len());
        let ghost line = v@.subrange(a as int, b as int);
        assert(lines[i as int] == line);
        let x = find_char_in(&v, a, b, '"');
        if x < b {
            let y = find_char_in(&v, x + 1, b, '"');
            assert(line.skip(x - a + 1) =~= v@.subrange(x + 1, b as int));
            if y < b {
                assert(line.skip(x - a + 1).take(y - x - 1) =~= v@.subrange(x + 1, y as int));
                assert(quoted(line) == Some(v@.subrange(x + 1, y as int)));
                return Some(language_in(&v, x + 1, y));
            }
        }
        assert(quoted(line) is None);
        assert(lines.skip(i as int).drop_first() =~= lines.skip(i + 1));
        i += 1;
    }
    None
}

/// The language for the first menu, from the output of
/// `defaults read -g AppleLanguages`: `None` where the command could not
/// run or failed, and then, as where no tag can be read, English.
pub fn system_language(defaults_stdout: Option<&[u8]>) -> (r: &'static str)
    ensures
        r@ == match defaults_stdout {
            None => "en"@,
            Some(bytes) => match apple_language(utf8_lossy(bytes@)) {
                Some(code) => code,
                None => "en"@,
            },
        },
{
    match defaults_stdout {
        None => "en",
        Some(bytes) => {
            let text = lossy_string(bytes);
            match parse_apple_languages(text.as_str()) {
                Some(code) => code,
                None => "en",
            }
        },
    }
}

/// The rule is stable: a language code that it gives maps to itself
/// again, so normalizing twice gives what normalizing once gives.
pub proof fn lemma_language_code_is_stable(raw: Seq<char>)
    ensures
        language_code(language_code(raw)) == language_code(raw),
        language_code(raw) == "de"@ || language_code(raw) == "en"@,
{
    reveal_strlit("de");
    reveal_strlit("en");
    let de = "de"@;
    let en = "en"@;
    assert(trim_start(de) == de);
    assert(trim_end(de) == de);
    assert(trim_start(en) == en);
    assert(trim_end(en) == en);
    assert(is_german(de));
    assert(!is_german(en));
}

/// Every language that `parse_apple_languages` reads is "de" or "en".
pub proof fn lemma_apple_language_is_a_code(output: Seq<char>)
    ensures
        apple_language(output) matches Some(code) ==> (code == "de"@ || code == "en"@),
{
    if let Some(q) = first_quoted(lines_of(output)) {
        lemma_language_code_is_stable(q);
    }
}

/// The rule ignores ASCII case and white space around the tag: the tag in
/// upper case, or with white space before and after it, names the same
/// language.
pub proof fn lemma_case_and_white_space_do_not_matter(p: Seq<char>, raw: Seq<char>, q: Seq<char>)
    requires
        all_white_space(p),
        all_white_space(q),
    ensures
        language_code(upper(raw)) == language_code(raw),
        language_code(p + raw + q) == language_code(raw),
{
    lemma_trim_white_around(p, raw, q);
    lemma_trim_upper(raw);
    let t = trim(raw);
    if t.len() >= 2 {
        lemma_ascii_upper_char(t[0]);
        lemma_ascii_upper_char(t[1]);
        assert(upper(t)[0] == ascii_upper(t[0]));
        assert(upper(t)[1] == ascii_upper(t[1]));
    }
    assert(is_german(upper(raw)) == is_german(raw));
}

/// `s` holds no double quote.
pub open spec fn quote_free(s: Seq<char>) -> bool {
    forall|j: int| 0 <= j < s.len() ==> s[j] != '"'
}

/// A line without double quotes holds no quoted text.
proof fn lemma_quote_free_line(l: Seq<char>)
    requires
        quote_free(l),
    ensures
        quoted(l) is None,
{
    lemma_find_char(l, '"', l.len() as int);
}

/// Text without double quotes before a line changes nothing of its quoted
/// text.
proof fn lemma_quoted_after_prefix(p: Seq<char>, l: Seq<char>)
    requires
        quote_free(p),
    ensures
        quoted(p + l) == quoted(l),
{
    lemma_find_char_after_prefix(p, l, '"');
    let a = find_char(l, '"');
    if a < l.len() {
        assert((p + l).skip((p.len() + a + 1) as int) =~= l.skip(a as int + 1));
    }
}

/// The quoted text of a line depends only on the line up to its second
/// double quote.
proof fn lemma_quoted_prefix(y: Seq<char>, z: Seq<char>)
    requires
        quoted(y) is Some,
        ({
            let a = find_char(y, '"');
            let m = a + find_char(y.skip(a as int + 1), '"') + 2;
            m <= z.len() && z.take(m as int) == y.take(m as int)
        }),
    ensures
        quoted(z) == quoted(y),
{
    let a = find_char(y, '"') as int;
    let ry = y.skip(a + 1);
    let b = find_char(ry, '"') as int;
    let m = a + b + 2;
    lemma_find_char_facts(y, '"');
    lemma_find_char_facts(ry, '"');
    assert forall|j: int| 0 <= j < m implies z[j] == y[j] by {
        assert(z.take(m)[j] == y.take(m)[j]);
    }
    assert forall|j: int| 0 <= j < a implies z[j] != '"' by {}
    lemma_find_char(z, '"', a);
    let rz = z.skip(a + 1);
    assert forall|j: int| 0 <= j < b implies rz[j] != '"' by {
        assert(rz[j] == z[a + 1 + j]);
        assert(ry[j] == y[a + 1 + j]);
    }
    assert(rz[b] == z[a + 1 + b]);
    assert(ry[b] == y[a + 1 + b]);
    lemma_find_char(rz, '"', b);
    assert(rz.take(b) =~= ry.take(b)) by {
        assert forall|j: int| 0 <= j < b implies rz.take(b)[j] == ry.take(b)[j] by {
            assert(rz[j] == z[a + 1 + j]);
            assert(ry[j] == y[a + 1 + j]);
        }
    }
}

/// A first line that holds no quoted text is passed over.
proof fn lemma_first_quoted_skips(l: Seq<char>, rest: Seq<Seq<char>>)
    requires
        quoted(l) is None,
    ensures
        first_quoted(seq![l] + rest) == first_quoted(rest),
{
    assert((seq![l] + rest).drop_first() =~= rest);
}

/// A line with quoted text decides.
proof fn lemma_first_quoted_takes(l: Seq<char>, rest: Seq<Seq<char>>)
    requires
        quoted(l) is Some,
    ensures
        first_quoted(seq![l] + rest) == quoted(l),
{
}

/// Quote-free text before the last, unterminated line of the rest.
proof fn lemma_quoted_strip_after_prefix(p: Seq<char>, x: Seq<char>)
    requires
        quote_free(p),
    ensures
        quoted(strip_cr(p + x)) == quoted(strip_cr(x)),
{
    if x.len() > 0 {
        assert(strip_cr(p + x) =~= p + strip_cr(x));
        lemma_quoted_after_prefix(p, strip_cr(x));
    } else {
        assert(p + x =~= p);
        let sp = strip_cr(p);
        assert(quote_free(sp)) by {
            assert forall|j: int| 0 <= j < sp.len() implies sp[j] != '"' by {
                assert(sp[j] == p[j]);
            }
        }
        lemma_quote_free_line(sp);
        lemma_quote_free_line(strip_cr(x));
    }
}

/// Text without double quotes in front of the output changes nothing of
/// what is read from it.
pub proof fn lemma_quote_free_prefix(p: Seq<char>, s: Seq<char>)
    requires
        quote_free(p),
    ensures
        first_quoted(lines_of(p + s)) == first_quoted(lines_of(s)),
        apple_language(p + s) == apple_language(s),
    decreases p.len(),
{
    lemma_find_char_facts(p, '\n');
    let k = find_char(p, '\n') as int;
    if k < p.len() {
        // The first line lies within `p`.
        lemma_find_char_before_suffix(p, s, '\n');
        let first = strip_cr(p.take(k));
        assert(quote_free(first)) by {
            assert forall|j: int| 0 <= j < first.len() implies first[j] != '"' by {
                assert(first[j] == p[j]);
            }
        }
        lemma_quote_free_line(first);
        assert((p + s).take(k) =~= p.take(k));
        assert((p + s).skip(k + 1) =~= p.skip(k + 1) + s);
        let rest = p.skip(k + 1);
        assert(quote_free(rest)) by {
            assert forall|j: int| 0 <= j < rest.len() implies rest[j] != '"' by {
                assert(rest[j] == p[k + 1 + j]);
            }
        }
        lemma_quote_free_prefix(rest, s);
        lemma_first_quoted_skips(first, lines_of(rest + s));
    } else {
        // `p` holds no line break: it joins the first line of `s`.
        assert(forall|j: int| 0 <= j < p.len() ==> p[j] != '\n');
        lemma_find_char_after_prefix(p, s, '\n');
        lemma_find_char_facts(s, '\n');
        let j = find_char(s, '\n') as int;
        if s.len() == 0 {
            assert(p + s =~= p);
            if p.len() > 0 {
                lemma_quote_free_line(p);
                assert(lines_of(p) == seq![p]);
                lemma_first_quoted_skips(p, Seq::<Seq<char>>::empty());
                assert(seq![p] + Seq::<Seq<char>>::empty() =~= seq![p]);
            }
        } else if j < s.len() {
            assert((p + s).take(p.len() + j) =~= p + s.take(j));
            assert((p + s).skip(p.len() + j + 1) =~= s.skip(j + 1));
            lemma_quoted_strip_after_prefix(p, s.take(j));
            let lp = strip_cr(p + s.take(j));
            let ls = strip_cr(s.take(j));
            let rest = lines_of(s.skip(j + 1));
            assert(lines_of(p + s) == seq![lp] + rest);
            assert(lines_of(s) == seq![ls] + rest);
            if quoted(ls) is Some {
                lemma_first_quoted_takes(lp, rest);
                lemma_first_quoted_takes(ls, rest);
            } else {
                lemma_first_quoted_skips(lp, rest);
                lemma_first_quoted_skips(ls, rest);
            }
        } else {
            lemma_quoted_after_prefix(p, s);
            assert(lines_of(p + s) == seq![p + s]);
            assert(lines_of(s) == seq![s]);
            assert(seq![p + s] =~= seq![p + s] + Seq::<Seq<char>>::empty());
            assert(seq![s] =~= seq![s] + Seq::<Seq<char>>::empty());
            if quoted(s) is Some {
                lemma_first_quoted_takes(p + s, Seq::<Seq<char>>::empty());
                lemma_first_quoted_takes(s, Seq::<Seq<char>>::empty());
            } else {
                lemma_first_quoted_skips(p + s, Seq::<Seq<char>>::empty());
                lemma_first_quoted_skips(s, Seq::<Seq<char>>::empty());
            }
        }
    }
}

/// The quoted text of a line stays where the line gets longer, or loses a
/// carriage return at its end.
proof fn lemma_quoted_extended(s: Seq<char>, x: Seq<char>)
    requires
        quoted(s) is Some,
    ensures
        quoted(strip_cr(s + x)) == quoted(s),
        quoted(s + x) == quoted(s),
{
    let a = find_char(s, '"') as int;
    let rs = s.skip(a + 1);
    let b = find_char(rs, '"') as int;
    let m = a + b + 2;
    lemma_find_char_facts(s, '"');
    lemma_find_char_facts(rs, '"');
    assert(rs[b] == s[a + 1 + b]);
    assert((s + x).take(m) =~= s.take(m));
    lemma_quoted_prefix(s, s + x);
    let z = strip_cr(s + x);
    if x.len() > 0 {
        assert(z =~= s + strip_cr(x));
        assert(z.take(m) =~= s.take(m));
    } else {
        assert(s + x =~= s);
        if s.len() > 0 && s.last() == '\r' {
            assert(m <= s.len() - 1);
        }
        assert(z.take(m) =~= s.take(m));
    }
    lemma_quoted_prefix(s, z);
}

/// Once a language has been read, text appended to the output changes
/// nothing: the languages after the first one never decide.
pub proof fn lemma_appended_text_changes_nothing(s: Seq<char>, t: Seq<char>)
    requires
        first_quoted(lines_of(s)) is Some,
    ensures
        first_quoted(lines_of(s + t)) == first_quoted(lines_of(s)),
        apple_language(s + t) == apple_language(s),
    decreases s.len(),
{
    lemma_find_char_facts(s, '\n');
    let k = find_char(s, '\n') as int;
    if k < s.len() {
        lemma_find_char_before_suffix(s, t, '\n');
        assert((s + t).take(k) =~= s.take(k));
        assert((s + t).skip(k + 1) =~= s.skip(k + 1) + t);
        let first = strip_cr(s.take(k));
        let rest = s.skip(k + 1);
        if quoted(first) is Some {
            lemma_first_quoted_takes(first, lines_of(rest));
            lemma_first_quoted_takes(first, lines_of(rest + t));
        } else {
            lemma_first_quoted_skips(first, lines_of(rest));
            lemma_first_quoted_skips(first, lines_of(rest + t));
            lemma_appended_text_changes_nothing(rest, t);
        }
    } else {
        assert(lines_of(s) == seq![s]);
        assert(seq![s] =~= seq![s] + Seq::<Seq<char>>::empty());
        if quoted(s) is None {
            lemma_first_quoted_skips(s, Seq::<Seq<char>>::empty());
        }
        lemma_first_quoted_takes(s, Seq::<Seq<char>>::empty());
        lemma_find_char_after_prefix(s, t, '\n');
        lemma_find_char_facts(t, '\n');
        let j = find_char(t, '\n') as int;
        lemma_quoted_extended(s, t.take(j));
        lemma_quoted_extended(s, t);
        if t.len() == 0 {
            assert(s + t =~= s);
        } else if j < t.len() {
            assert((s + t).take(s.len() + j) =~= s + t.take(j));
            let l = strip_cr(s + t.take(j));
            lemma_first_quoted_takes(l, lines_of((s + t).skip(s.len() + j + 1)));
        } else {
            assert(lines_of(s + t) == seq![s + t]);
            assert(seq![s + t] =~= seq![s + t] + Seq::<Seq<char>>::empty());
            lemma_first_quoted_takes(s + t, Seq::<Seq<char>>::empty());
        }
    }
}

/// A text in ASCII lower case, as `str::to_ascii_lowercase` gives it.
pub open spec fn lowered(s: Seq<char>) -> Seq<char> {
    s.map_values(|c: char| ascii_lower(c))
}

/// A tag names German exactly when, with white space trimmed and in ASCII
/// lower case, it begins with "de"; every other tag names English.
pub proof fn lemma_german_exactly_for_de_prefix(raw: Seq<char>)
    ensures
        language_code(raw) == "de"@ <==> "de"@.is_prefix_of(lowered(trim(raw))),
        language_code(raw) == "en"@ <==> !"de"@.is_prefix_of(lowered(trim(raw))),
{
    reveal_strlit("de");
    reveal_strlit("en");
    let de = "de"@;
    let en = "en"@;
    assert(de != en) by {
        assert(de[0] != en[0]);
    }
    let t = trim(raw);
    let l = lowered(t);
    if de.is_prefix_of(l) {
        assert(l.subrange(0, 2)[0] == de[0]);
        assert(l.subrange(0, 2)[1] == de[1]);
        assert(l[0] == ascii_lower(t[0]));
        assert(l[1] == ascii_lower(t[1]));
        assert(is_german(raw));
    }
    if is_german(raw) {
        assert(l[0] == ascii_lower(t[0]));
        assert(l[1] == ascii_lower(t[1]));
        assert(l.subrange(0, 2) =~= de);
        assert(de.is_prefix_of(l));
    }
}

/// The quoted text of a line is what stands between its first and its
/// second double quote; a line with fewer than two double quotes has none.
pub proof fn lemma_quoted_between_first_two_quotes(l: Seq<char>)
    ensures
        quoted(l) matches Some(q) ==> exists|a: int|
            #![trigger l[a]]
            {
                &&& 0 <= a
                &&& a + q.len() + 1 < l.len()
                &&& l[a] == '"'
                &&& l[a + 1 + q.len()] == '"'
                &&& quote_free(l.take(a))
                &&& quote_free(q)
                &&& l.subrange(a + 1, a + 1 + q.len()) == q
            },
        quoted(l) is None ==> forall|a: int, b: int|
            0 <= a < b < l.len() ==> !(#[trigger] l[a] == '"' && #[trigger] l[b] == '"'),
{
    lemma_find_char_facts(l, '"');
    let a = find_char(l, '"') as int;
    if a < l.len() {
        let rest = l.skip(a + 1);
        lemma_find_char_facts(rest, '"');
        let b = find_char(rest, '"') as int;
        if b < rest.len() {
            let q = rest.take(b);
            assert(l[a + 1 + b] == rest[b]);
            assert(quote_free(l.take(a))) by {
                assert forall|j: int| 0 <= j < l.take(a).len() implies l.take(a)[j] != '"' by {
                    assert(l.take(a)[j] == l[j]);
                }
            }
            assert(quote_free(q)) by {
                assert forall|j: int| 0 <= j < q.len() implies q[j] != '"' by {
                    assert(q[j] == rest[j]);
                }
            }
            assert(l.subrange(a + 1, a + 1 + q.len()) =~= q);
        } else {
            assert forall|x: int, y: int|
                0 <= x < y < l.len() implies !(#[trigger] l[x] == '"' && #[trigger] l[y] == '"') by {
                if l[x] == '"' && l[y] == '"' {
                    assert(x >= a);
                    assert(l[y] == rest[y - a - 1]);
                }
            }
        }
    }
}

/// Over a list of lines: the first line with quoted text decides, and
/// where there is none, nothing is read.
pub proof fn lemma_first_quoted_is_the_first_line_with_quotes(ls: Seq<Seq<char>>)
    ensures
        first_quoted(ls) matches Some(q) ==> exists|i: int|
            0 <= i < ls.len() && #[trigger] quoted(ls[i]) == Some(q) && forall|j: int|
                0 <= j < i ==> #[trigger] quoted(ls[j]) is None,
        first_quoted(ls) is None ==> forall|i: int| 0 <= i < ls.len() ==> #[trigger] quoted(ls[i])
            is None,
    decreases ls.len(),
{
    if ls.len() > 0 {
        let rest = ls.drop_first();
        lemma_first_quoted_is_the_first_line_with_quotes(rest);
        if quoted(ls[0]) is None {
            if let Some(q) = first_quoted(ls) {
                let i = choose|i: int|
                    0 <= i < rest.len() && #[trigger] quoted(rest[i]) == Some(q) && forall|j: int|
                        0 <= j < i ==> #[trigger] quoted(rest[j]) is None;
                assert(quoted(ls[i + 1]) == Some(q));
                assert forall|j: int| 0 <= j < i + 1 implies #[trigger] quoted(ls[j]) is None by {
                    if j > 0 {
                        assert(ls[j] == rest[j - 1]);
                    }
                }
            } else {
                assert forall|i: int| 0 <= i < ls.len() implies #[trigger] quoted(ls[i]) is None by {
                    if i > 0 {
                        assert(ls[i] == rest[i - 1]);
                    }
                }
            }
        } else {
            assert(quoted(ls[0]) == first_quoted(ls));
        }
    }
}

} // verus!
