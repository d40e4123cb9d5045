//! Text primitives over Unicode scalar values, with their specifications.

use vstd::prelude::*;

verus! {

broadcast use vstd::seq_lib::group_seq_properties;

// ---------------------------------------------------------------------------
// Specifications
// ---------------------------------------------------------------------------

/// Strict lexicographic order on character sequences, character by character by
/// code point; a proper prefix comes first. For UTF-8 strings this is the order of
/// their bytes, which is how `str` and `String` compare.
pub open spec fn lex_lt(a: Seq<char>, b: Seq<char>) -> bool
    decreases a.len(),
{
    if a.len() == 0 {
        b.len() > 0
    } else if b.len() == 0 {
        false
    } else if a[0] != b[0] {
        (a[0] as u32) < (b[0] as u32)
    } else {
        lex_lt(a.drop_first(), b.drop_first())
    }
}

/// `a` comes before or is equal to `b`.
pub open spec fn lex_le(a: Seq<char>, b: Seq<char>) -> bool {
    lex_lt(a, b) || a == b
}

/// ASCII lower-casing of one character; all other characters are unchanged.
pub open spec fn ascii_lower_char(c: char) -> char {
    let u = c as u32;
    if 65 <= u <= 90 {
        (u + 32) as char
    } else {
        c
    }
}

/// ASCII lower-casing of a character sequence.
pub open spec fn ascii_lower(s: Seq<char>) -> Seq<char> {
    s.map_values(|c: char| ascii_lower_char(c))
}

/// The Unicode `White_Space` characters, which `char::is_whitespace` recognizes.
pub open spec fn is_white_space(c: char) -> bool {
    let u = c as u32;
    ||| 0x09 <= u <= 0x0D
    ||| u == 0x20
    ||| u == 0x85
    ||| u == 0xA0
    ||| u == 0x1680
    ||| 0x2000 <= u <= 0x200A
    ||| u == 0x2028
    ||| u == 0x2029
    ||| u == 0x202F
    ||| u == 0x205F
    ||| u == 0x3000
}

/// `s` without its leading white space.
pub open spec fn trim_start(s: Seq<char>) -> Seq<char>
    decreases s.len(),
{
    if s.len() > 0 && is_white_space(s[0]) {
        trim_start(s.drop_first())
    } else {
        s
    }
}

/// `s` without its trailing white space.
pub open spec fn trim_end(s: Seq<char>) -> Seq<char>
    decreases s.len(),
{
    if s.len() > 0 && is_white_space(s.last()) {
        trim_end(s.drop_last())
    } else {
        s
    }
}

/// `s` without leading and trailing white space (as `str::trim` gives it).
pub open spec fn trimmed(s: Seq<char>) -> Seq<char> {
    trim_end(trim_start(s))
}

/// `needle` occurs as a contiguous part of `hay`.
pub open spec fn contains_seq(hay: Seq<char>, needle: Seq<char>) -> bool {
    exists|i: int|
        0 <= i && i + needle.len() <= hay.len() && #[trigger] hay.subrange(i, i + needle.len())
            == needle
}

/// `s` with every backslash replaced by a forward slash.
pub open spec fn forward_slashes(s: Seq<char>) -> Seq<char> {
    s.map_values(|c: char| if c == '\\' { '/' } else { c })
}

/// The lower-case form of a string according to the Unicode `Lowercase` mapping,
/// as `str::to_lowercase` computes it.
pub uninterp spec fn unicode_lowercase(s: Seq<char>) -> Seq<char>;

/// The filter rule of the editor's list panels: an empty filter keeps everything;
/// otherwise the lower-cased text must contain the lower-cased filter.
pub open spec fn passes_filter(text: Seq<char>, filter: Seq<char>) -> bool {
    filter.len() == 0 || contains_seq(unicode_lowercase(text), unicode_lowercase(filter))
}

/// The decimal digit for `d` (0 to 9).
pub open spec fn digit_char(d: nat) -> char {
    (48 + d) as char
}

/// The decimal representation of `n`, without leading zeros.
pub open spec fn decimal(n: nat) -> Seq<char>
    decreases n,
{
    if n < 10 {
        seq![digit_char(n)]
    } else {
        decimal(n / 10).push(digit_char(n % 10))
    }
}

// ---------------------------------------------------------------------------
// Lemmas on the lexicographic order
// ---------------------------------------------------------------------------

/// No sequence comes before itself.
pub proof fn lemma_lex_irreflexive(a: Seq<char>)
    ensures
        !lex_lt(a, a),
    decreases a.len(),
{
    if a.len() > 0 {
        lemma_lex_irreflexive(a.drop_first());
    }
}

/// The order is transitive.
pub proof fn lemma_lex_transitive(a: Seq<char>, b: Seq<char>, c: Seq<char>)
    requires
        lex_lt(a, b),
        lex_lt(b, c),
    ensures
        lex_lt(a, c),
    decreases a.len(),
{
    if a.len() > 0 && b.len() > 0 && c.len() > 0 {
        if a[0] == b[0] && b[0] == c[0] {
            lemma_lex_transitive(a.drop_first(), b.drop_first(), c.drop_first());
        }
    }
}

/// Two different sequences are ordered one way or the other.
pub proof fn lemma_lex_total(a: Seq<char>, b: Seq<char>)
    ensures
        a == b || lex_lt(a, b) || lex_lt(b, a),
    decreases a.len(),
{
    if a.len() > 0 && b.len() > 0 && a[0] == b[0] {
        lemma_lex_total(a.drop_first(), b.drop_first());
        if a.drop_first() == b.drop_first() {
            assert(a == seq![a[0]] + a.drop_first());
            assert(b == seq![b[0]] + b.drop_first());
        }
    } else if a.len() == 0 && b.len() == 0 {
        assert(a == b);
    } else if a.len() > 0 && b.len() > 0 {
        vstd::utf8::char_u32_cast(a[0], a[0] as u32);
        vstd::utf8::char_u32_cast(b[0], b[0] as u32);
    }
}

/// The order never holds both ways.
pub proof fn lemma_lex_asymmetric(a: Seq<char>, b: Seq<char>)
    requires
        lex_lt(a, b),
    ensures
        !lex_lt(b, a),
{
    if lex_lt(b, a) {
        lemma_lex_transitive(a, b, a);
        lemma_lex_irreflexive(a);
    }
}

// ---------------------------------------------------------------------------
// Executable functions
// ---------------------------------------------------------------------------

/// Append one character to a string (`String::push`).
#[verifier::external_body]
pub(crate) fn push_char(s: &mut String, c: char)
    ensures
        final(s)@ == old(s)@.push(c),
{
    s.push(c);
}

/// Lower-case a string (`str::to_lowercase`); the result is determined by the input
/// alone and is named by [`unicode_lowercase`].
#[verifier::external_body]
pub(crate) fn to_lowercase(s: &str) -> (r: String)
    ensures
        r@ == unicode_lowercase(s@),
{
    s.to_lowercase()
}

/// The characters of `s`, in order.
pub fn chars_of(s: &str) -> (r: Vec<char>)
    ensures
        r@ == s@,
{
    let mut out: Vec<char> = Vec::new();
    for c in it: s.chars()
        invariant
            out@ == it.seq().take(it.index() as int),
    {
        out.push(c);
    }
    out
}

/// A string holding exactly the given characters.
pub fn string_of(chars: &Vec<char>) -> (r: String)
    ensures
        r@ == chars@,
{
    let mut s = String::new();
    let mut i: usize = 0;
    while i < chars.len()
        invariant
            i <= chars@.len(),
            s@ == chars@.take(i as int),
        decreases chars@.len() - i,
    {
        push_char(&mut s, chars[i]);
        i = i + 1;
        proof {
            assert(chars@.take(i as int) == chars@.take(i - 1).push(chars@[i - 1]));
        }
    }
    proof {
        assert(chars@.take(chars@.len() as int) == chars@);
    }
    s
}

/// The decimal representation of `n`.
pub fn decimal_string(n: usize) -> (r: String)
    ensures
        r@ == decimal(n as nat),
{
    // Digits, least significant first.
    let mut digits: Vec<char> = Vec::new();
    let mut m: usize = n;
    proof {
        assert(digits@.reverse() =~= Seq::<char>::empty());
        assert(decimal(n as nat) == decimal(m as nat) + digits@.reverse());
    }
    while m >= 10
        invariant
            decimal(n as nat) == decimal(m as nat) + digits@.reverse(),
        decreases m,
    {
        let d = m % 10;
        let ch = ((48 + d) as u8) as char;
        proof {
            assert(ch == digit_char(d as nat));
            assert(decimal(m as nat) == decimal((m / 10) as nat).push(digit_char((m % 10) as nat)));
            assert(digits@.push(ch).reverse() =~= seq![ch] + digits@.reverse());
        }
        digits.push(ch);
        m = m / 10;
    }
    let ch = ((48 + m) as u8) as char;
    proof {
        assert(ch == digit_char(m as nat));
        assert(digits@.push(ch).reverse() =~= seq![ch] + digits@.reverse());
    }
    digits.push(ch);
    proof {
        assert(decimal(n as nat) == digits@.reverse());
    }
    let mut out: Vec<char> = Vec::new();
    let mut i: usize = digits.len();
    while i > 0
        invariant
            i <= digits@.len(),
            out@ == digits@.reverse().take(digits@.len() - i),
        decreases i,
    {
        i = i - 1;
        out.push(digits[i]);
        proof {
            assert(digits@.reverse().take(digits@.len() - i) == digits@.reverse().take(
                digits@.len() - i - 1,
            ).push(digits@[i as int]));
        }
    }
    proof {
        assert(digits@.reverse().take(digits@.len() as int) == digits@.reverse());
    }
    string_of(&out)
}

/// `a` followed by `b`.
pub fn joined(a: &str, b: &str) -> (r: String)
    ensures
        r@ == a@ + b@,
{
    let mut s = String::from_str(a);
    s.append(b);
    s
}

/// Whether two strings hold the same characters.
pub fn same_text(a: &str, b: &str) -> (r: bool)
    ensures
        r == (a@ == b@),
{
    let x = chars_of(a);
    let y = chars_of(b);
    if x.len() != y.len() {
        return false;
    }
    let mut i: usize = 0;
    while i < x.len()
        invariant
            x@ == a@,
            y@ == b@,
            x@.len() == y@.len(),
            i <= x@.len(),
            forall|j: int| 0 <= j < i ==> x@[j] == y@[j],
        decreases x@.len() - i,
    {
        if x[i] != y[i] {
            return false;
        }
        i = i + 1;
    }
    proof {
        assert(x@ == y@);
    }
    true
}

/// Whether `a` comes strictly before `b` in the order of [`lex_lt`].
pub fn lex_less(a: &Vec<char>, b: &Vec<char>) -> (r: bool)
    ensures
        r == lex_lt(a@, b@),
{
    let mut i: usize = 0;
    while i < a.len() && i < b.len()
        invariant
            i <= a@.len(),
            i <= b@.len(),
            lex_lt(a@, b@) == lex_lt(a@.skip(i as int), b@.skip(i as int)),
        decreases a@.len() - i,
    {
        let x = a[i];
        let y = b[i];
        proof {
            assert(a@.skip(i as int)[0] == x);
            assert(b@.skip(i as int)[0] == y);
        }
        if x != y {
            return (x as u32) < (y as u32);
        }
        proof {
            assert(a@.skip(i as int).drop_first() == a@.skip(i + 1));
            assert(b@.skip(i as int).drop_first() == b@.skip(i + 1));
        }
        i = i + 1;
    }
    a.len() < b.len()
}

/// Whether `text`, lower-cased by ASCII rules, equals `expected`.
pub fn eq_ascii_lower(text: &Vec<char>, expected: &str) -> (r: bool)
    ensures
        r == (ascii_lower(text@) == expected@),
{
    let e = chars_of(expected);
    if text.len() != e.len() {
        return false;
    }
    let mut i: usize = 0;
    while i < text.len()
        invariant
            e@ == expected@,
            text@.len() == e@.len(),
            i <= text@.len(),
            forall|j: int| 0 <= j < i ==> ascii_lower_char(text@[j]) == e@[j],
        decreases text@.len() - i,
    {
        let c = text[i];
        let code = c as u32;
        let lowered: u32 = if 65 <= code && code <= 90 {
            code + 32
        } else {
            code
        };
        if lowered != e[i] as u32 {
            proof {
                assert(ascii_lower(text@)[i as int] == ascii_lower_char(c));
            }
            return false;
        }
        proof {
            vstd::utf8::char_u32_cast(e@[i as int], e@[i as int] as u32);
            vstd::utf8::char_u32_cast(c, code);
        }
        i = i + 1;
    }
    proof {
        assert(ascii_lower(text@) == e@);
    }
    true
}

/// The index of the first character of `c` that is not white space (or its length).
fn first_non_white(c: &Vec<char>) -> (start: usize)
    ensures
        start <= c@.len(),
        trim_start(c@) == c@.skip(start as int),
{
    let n = c.len();
    let mut start: usize = 0;
    while start < n && is_whitespace(c[start])
        invariant
            n == c@.len(),
            start <= n,
            trim_start(c@) == trim_start(c@.skip(start as int)),
        decreases n - start,
    {
        proof {
            assert(c@.skip(start as int).drop_first() == c@.skip(start + 1));
        }
        start = start + 1;
    }
    start
}

/// The end of `c[start..]` once trailing white space is dropped.
fn end_before_white(c: &Vec<char>, start: usize) -> (end: usize)
    requires
        start <= c@.len(),
    ensures
        start <= end <= c@.len(),
        trim_end(c@.subrange(start as int, c@.len() as int)) == c@.subrange(
            start as int,
            end as int,
        ),
{
    let n = c.len();
    let mut end: usize = n;
    while end > start && is_whitespace(c[end - 1])
        invariant
            n == c@.len(),
            start <= end <= n,
            trim_end(c@.subrange(start as int, n as int)) == trim_end(
                c@.subrange(start as int, end as int),
            ),
        decreases end - start,
    {
        proof {
            assert(c@.subrange(start as int, end as int).drop_last() == c@.subrange(
                start as int,
                end - 1,
            ));
        }
        end = end - 1;
    }
    end
}

/// The characters `c[from..to]`.
pub fn slice_chars(c: &Vec<char>, from: usize, to: usize) -> (r: Vec<char>)
    requires
        from <= to <= c@.len(),
    ensures
        r@ == c@.subrange(from as int, to as int),
{
    let mut out: Vec<char> = Vec::new();
    let mut i: usize = from;
    while i < to
        invariant
            from <= i <= to <= c@.len(),
            out@ == c@.subrange(from as int, i as int),
        decreases to - i,
    {
        out.push(c[i]);
        i = i + 1;
        proof {
            assert(c@.subrange(from as int, i as int) == c@.subrange(from as int, i - 1).push(
                c@[i - 1],
            ));
        }
    }
    out
}

/// `s` without leading and trailing white space.
pub fn trim(s: &str) -> (r: String)
    ensures
        r@ == trimmed(s@),
{
    let c = chars_of(s);
    let start = first_non_white(&c);
    let end = end_before_white(&c, start);
    proof {
        assert(c@.skip(start as int) == c@.subrange(start as int, c@.len() as int));
    }
    let out = slice_chars(&c, start, end);
    string_of(&out)
}

/// Whether `c` is white space (`char::is_whitespace`).
pub fn is_whitespace(c: char) -> (r: bool)
    ensures
        r == is_white_space(c),
{
    let u = c as u32;
    (0x09 <= u && u <= 0x0D) || u == 0x20 || u == 0x85 || u == 0xA0 || u == 0x1680 || (0x2000
        <= u && u <= 0x200A) || u == 0x2028 || u == 0x2029 || u == 0x202F || u == 0x205F || u
        == 0x3000
}

/// Whether `needle` occurs as a contiguous part of `hay`.
pub fn contains_chars(hay: &Vec<char>, needle: &Vec<char>) -> (r: bool)
    ensures
        r == contains_seq(hay@, needle@),
{
    let h = hay.len();
    let m = needle.len();
    if m > h {
        proof {
            assert forall|i: int|
                0 <= i && i + needle@.len() <= hay@.len() implies #[trigger] hay@.subrange(
                i,
                i + needle@.len(),
            ) != needle@ by {}
        }
        return false;
    }
    if m == 0 {
        proof {
            assert(hay@.subrange(0int, 0int + needle@.len()) =~= needle@);
        }
        return true;
    }
    let mut i: usize = 0;
    while i <= h - m
        invariant
            0 < m <= h,
            h == hay@.len(),
            m == needle@.len(),
            forall|k: int| 0 <= k < i ==> #[trigger] hay@.subrange(k, k + m) != needle@,
        decreases h - m + 1 - i,
    {
        let mut j: usize = 0;
        let mut same = true;
        while j < m && same
            invariant
                m <= h,
                i + m <= h,
                h == hay@.len(),
                m == needle@.len(),
                j <= m,
                same ==> forall|t: int| 0 <= t < j ==> hay@[i + t] == needle@[t],
                !same ==> hay@.subrange(i as int, i + m) != needle@,
            decreases m - j + (if same { 1int } else { 0int }),
        {
            if hay[i + j] != needle[j] {
                same = false;
                proof {
                    assert(hay@.subrange(i as int, i + m)[j as int] != needle@[j as int]);
                }
            } else {
                j = j + 1;
            }
        }
        if same {
            proof {
                assert(hay@.subrange(i as int, i + m) == needle@);
            }
            return true;
        }
        i = i + 1;
    }
    false
}

/// The filter rule of the list panels: an empty filter keeps everything; otherwise
/// the lower-cased text must contain the lower-cased filter.
pub fn matches_filter(text: &str, filter: &str) -> (r: bool)
    ensures
        r == passes_filter(text@, filter@),
{
    let f = chars_of(filter);
    if f.len() == 0 {
        return true;
    }
    let lt = to_lowercase(text);
    let lf = to_lowercase(filter);
    let h = chars_of(lt.as_str());
    let n = chars_of(lf.as_str());
    contains_chars(&h, &n)
}

/// `s` with every backslash replaced by a forward slash.
pub fn with_forward_slashes(s: &str) -> (r: String)
    ensures
        r@ == forward_slashes(s@),
{
    let c = chars_of(s);
    let mut out: Vec<char> = Vec::new();
    let mut i: usize = 0;
    while i < c.len()
        invariant
            c@ == s@,
            i <= c@.len(),
            out@ == forward_slashes(s@.take(i as int)),
        decreases c@.len() - i,
    {
        let ch = c[i];
        out.push(if ch == '\\' { '/' } else { ch });
        i = i + 1;
        proof {
            assert(forward_slashes(s@.take(i as int)) == forward_slashes(s@.take(i - 1)).push(
                if ch == '\\' { '/' } else { ch },
            ));
        }
    }
    proof {
        assert(s@.take(c@.len() as int) == s@);
    }
    string_of(&out)
}

} // verus!
