//! Text helpers over `Seq<char>`: the building blocks that the rest of the
//! library uses to state what a produced string holds.
use vstd::prelude::*;

verus! {

/// The characters of a string slice, in order.
pub fn chars_of(s: &str) -> (r: Vec<char>)
    ensures
        r@ == s@,
{
    let n = s.unicode_len();
    let mut r: Vec<char> = Vec::new();
    let mut i: usize = 0;
    while i < n
        invariant
            n == s@.len(),
            i <= n,
            r@ == s@.subrange(0, i as int),
        decreases n - i,
    {
        let c = s.get_char(i);
        r.push(c);
        i = i + 1;
    }
    r
}

/// Appends one character to a string (`String::push`).
#[verifier::external_body]
pub(crate) fn push_char(s: &mut String, c: char)
    ensures
        final(s)@ == old(s)@.push(c),
{
    s.push(c);
}

/// Appends a string slice to a string.
pub fn push_str(s: &mut String, t: &str)
    ensures
        final(s)@ == old(s)@ + t@,
{
    s.append(t);
}

/// A copy of a string slice.
pub fn owned(t: &str) -> (r: String)
    ensures
        r@ == t@,
{
    String::from_str(t)
}

/// Whether two strings hold the same characters.
pub fn same_text(a: &str, b: &str) -> (r: bool)
    ensures
        r == (a@ == b@),
{
    let x = String::from_str(a);
    let y = String::from_str(b);
    x == y
}

// ---------------------------------------------------------------------------
// Decimal numbers
// ---------------------------------------------------------------------------

/// The ASCII digit for a value below ten.
pub open spec fn digit(d: nat) -> char {
    if d == 0 { '0' }
    else if d == 1 { '1' }
    else if d == 2 { '2' }
    else if d == 3 { '3' }
    else if d == 4 { '4' }
    else if d == 5 { '5' }
    else if d == 6 { '6' }
    else if d == 7 { '7' }
    else if d == 8 { '8' }
    else { '9' }
}

/// The decimal representation of a natural number, without leading zeros.
pub open spec fn decimal(n: nat) -> Seq<char>
    decreases n,
{
    if n < 10 {
        seq![digit(n)]
    } else {
        decimal(n / 10).push(digit(n % 10))
    }
}

/// Decimal text is made of the digits '0' to '9' and is never empty.
pub proof fn lemma_decimal_digits(n: nat)
    ensures
        decimal(n).len() >= 1,
        n >= 10 ==> decimal(n).len() >= 2,
        forall|i: int| 0 <= i < decimal(n).len() ==> '0' <= #[trigger] decimal(n)[i] <= '9',
    decreases n,
{
    if n >= 10 {
        lemma_decimal_digits(n / 10);
        let d = decimal(n / 10);
        assert forall|i: int| 0 <= i < decimal(n).len() implies '0' <= #[trigger] decimal(n)[i] <= '9' by {
            if i < d.len() {
                assert(decimal(n)[i] == d[i]);
            }
        }
    }
}

/// Different numbers have different decimal texts.
pub proof fn lemma_decimal_injective(n: nat, m: nat)
    requires
        decimal(n) == decimal(m),
    ensures
        n == m,
    decreases n,
{
    lemma_decimal_digits(n);
    lemma_decimal_digits(m);
    if n < 10 && m < 10 {
        assert(decimal(n)[0] == decimal(m)[0]);
    } else if n >= 10 && m >= 10 {
        let a = decimal(n);
        let b = decimal(m);
        assert(a.last() == digit(n % 10));
        assert(b.last() == digit(m % 10));
        assert(n % 10 == m % 10);
        assert(a.drop_last() =~= decimal(n / 10));
        assert(b.drop_last() =~= decimal(m / 10));
        lemma_decimal_injective(n / 10, m / 10);
    }
}

fn digit_char(d: u64) -> (c: char)
    requires
        d < 10,
    ensures
        c == digit(d as nat),
{
    if d == 0 { '0' }
    else if d == 1 { '1' }
    else if d == 2 { '2' }
    else if d == 3 { '3' }
    else if d == 4 { '4' }
    else if d == 5 { '5' }
    else if d == 6 { '6' }
    else if d == 7 { '7' }
    else if d == 8 { '8' }
    else { '9' }
}

/// Appends the decimal digits of `n` to `s`.
pub fn push_decimal(s: &mut String, n: u64)
    ensures
        final(s)@ == old(s)@ + decimal(n as nat),
    decreases n,
{
    if n >= 10 {
        push_decimal(s, n / 10);
    }
    push_char(s, digit_char(n % 10));
    assert(old(s)@ + decimal(n as nat) == (if n >= 10 {
        old(s)@ + decimal((n / 10) as nat)
    } else {
        old(s)@
    }).push(digit((n % 10) as nat)));
}

/// `n.to_string()` for an unsigned integer.
pub fn decimal_string(n: u64) -> (r: String)
    ensures
        r@ == decimal(n as nat),
{
    let mut r = String::new();
    push_decimal(&mut r, n);
    r
}

// ---------------------------------------------------------------------------
// Searching
// ---------------------------------------------------------------------------

/// `needle` occurs in `hay` at position `i`.
pub open spec fn occurs_at(hay: Seq<char>, needle: Seq<char>, i: int) -> bool {
    0 <= i && i + needle.len() <= hay.len() && hay.subrange(i, i + needle.len()) == needle
}

/// `needle` occurs somewhere in `hay` (the empty needle occurs everywhere).
pub open spec fn contains_text(hay: Seq<char>, needle: Seq<char>) -> bool {
    exists|i: int| occurs_at(hay, needle, i)
}

/// `prefix` is a prefix of `s`.
pub open spec fn has_prefix(s: Seq<char>, prefix: Seq<char>) -> bool {
    prefix.len() <= s.len() && s.subrange(0, prefix.len() as int) == prefix
}

fn matches_at(hay: &Vec<char>, needle: &Vec<char>, i: usize) -> (r: bool)
    requires
        i + needle@.len() <= hay@.len(),
    ensures
        r == occurs_at(hay@, needle@, i as int),
{
    let _hay_len = hay.len();
    let mut j: usize = 0;
    while j < needle.len()
        invariant
            i + needle@.len() <= hay@.len(),
            hay@.len() <= usize::MAX,
            j <= needle@.len(),
            forall|k: int| 0 <= k < j ==> hay@[i + k] == needle@[k],
        decreases needle@.len() - j,
    {
        assert(i + j < hay@.len());
        if hay[i + j] != needle[j] {
            assert(hay@.subrange(i as int, i + needle@.len())[j as int] != needle@[j as int]);
            return false;
        }
        j = j + 1;
    }
    assert(hay@.subrange(i as int, i + needle@.len()) =~= needle@);
    true
}

/// Whether `needle` occurs in `hay` (`str::contains`).
pub fn contains_chars(hay: &Vec<char>, needle: &Vec<char>) -> (r: bool)
    ensures
        r == contains_text(hay@, needle@),
{
    if needle.len() == 0 {
        assert(hay@.subrange(0, 0) =~= needle@);
        assert(occurs_at(hay@, needle@, 0));
        return true;
    }
    if needle.len() > hay.len() {
        assert forall|i: int| !occurs_at(hay@, needle@, i) by {}
        return false;
    }
    let last = hay.len() - needle.len();
    let mut i: usize = 0;
    while i <= last
        invariant
            last == hay@.len() - needle@.len(),
            1 <= needle@.len() <= hay@.len(),
            hay@.len() <= usize::MAX,
            i <= last + 1,
            forall|k: int| 0 <= k < i ==> !occurs_at(hay@, needle@, k),
        decreases last + 1 - i,
    {
        if matches_at(hay, needle, i) {
            return true;
        }
        i = i + 1;
    }
    assert forall|k: int| !occurs_at(hay@, needle@, k) by {
        if 0 <= k && k <= last {
            assert(k < i);
        }
    }
    false
}

/// Whether `needle` occurs in `hay`.
pub fn contains_str(hay: &str, needle: &str) -> (r: bool)
    ensures
        r == contains_text(hay@, needle@),
{
    let h = chars_of(hay);
    let n = chars_of(needle);
    contains_chars(&h, &n)
}

/// `s` with one leading `prefix` removed, when `s` starts with it
/// (`str::strip_prefix(..).unwrap_or(s)`).
pub open spec fn strip_prefix_text(s: Seq<char>, prefix: Seq<char>) -> Seq<char> {
    if has_prefix(s, prefix) {
        s.subrange(prefix.len() as int, s.len() as int)
    } else {
        s
    }
}

/// `s` with one leading `prefix` removed when present.
pub fn strip_prefix_or_keep(s: &str, prefix: &str) -> (r: String)
    ensures
        r@ == strip_prefix_text(s@, prefix@),
{
    let sv = chars_of(s);
    let pv = chars_of(prefix);
    if pv.len() > sv.len() {
        return owned(s);
    }
    let mut j: usize = 0;
    while j < pv.len()
        invariant
            sv@ == s@,
            pv@ == prefix@,
            pv@.len() <= sv@.len(),
            j <= pv@.len(),
            forall|k: int| 0 <= k < j ==> sv@[k] == pv@[k],
        decreases pv@.len() - j,
    {
        if sv[j] != pv[j] {
            assert(sv@.subrange(0, pv@.len() as int)[j as int] != pv@[j as int]);
            assert(sv@.subrange(0, pv@.len() as int) != pv@);
            assert(!has_prefix(s@, prefix@));
            return owned(s);
        }
        j = j + 1;
    }
    assert(sv@.subrange(0, pv@.len() as int) =~= pv@);
    let mut out = String::new();
    let mut i: usize = pv.len();
    while i < sv.len()
        invariant
            pv@.len() <= i <= sv@.len(),
            out@ == sv@.subrange(pv@.len() as int, i as int),
        decreases sv@.len() - i,
    {
        push_char(&mut out, sv[i]);
        i = i + 1;
        assert(sv@.subrange(pv@.len() as int, i as int) == sv@.subrange(
            pv@.len() as int,
            i - 1,
        ).push(sv@[i - 1]));
    }
    out
}

/// `s` with every trailing `c` removed (`str::trim_end_matches(c)`).
pub open spec fn trim_end_char(s: Seq<char>, c: char) -> Seq<char>
    decreases s.len(),
{
    if s.len() > 0 && s.last() == c {
        trim_end_char(s.drop_last(), c)
    } else {
        s
    }
}

proof fn lemma_trim_end_prefix(s: Seq<char>, c: char, n: int)
    requires
        0 <= n <= s.len(),
        forall|k: int| n <= k < s.len() ==> s[k] == c,
    ensures
        trim_end_char(s, c) == trim_end_char(s.subrange(0, n), c),
    decreases s.len() - n,
{
    if n < s.len() {
        assert(s.drop_last() == s.subrange(0, s.len() - 1));
        lemma_trim_end_prefix(s.drop_last(), c, n);
        assert(s.drop_last().subrange(0, n) == s.subrange(0, n));
    } else {
        assert(s.subrange(0, n) == s);
    }
}

/// `s` with every trailing `c` removed.
pub fn trim_end_matching(s: &str, c: char) -> (r: String)
    ensures
        r@ == trim_end_char(s@, c),
{
    let v = chars_of(s);
    let mut n: usize = v.len();
    while n > 0 && v[n - 1] == c
        invariant
            n <= v@.len(),
            forall|k: int| n <= k < v@.len() ==> v@[k] == c,
        decreases n,
    {
        n = n - 1;
    }
    proof {
        lemma_trim_end_prefix(v@, c, n as int);
        let t = v@.subrange(0, n as int);
        if n > 0 {
            assert(t.last() != c);
        }
    }
    let mut out = String::new();
    let mut i: usize = 0;
    while i < n
        invariant
            n <= v@.len(),
            i <= n,
            out@ == v@.subrange(0, i as int),
        decreases n - i,
    {
        push_char(&mut out, v[i]);
        i = i + 1;
        assert(v@.subrange(0, i as int) == v@.subrange(0, i - 1).push(v@[i - 1]));
    }
    out
}

// ---------------------------------------------------------------------------
// Case
// ---------------------------------------------------------------------------

/// What `str::to_lowercase` returns for a string: its text under Unicode's
/// lower-case mapping (which the standard library applies with the final-sigma
/// rule, so it is not stated here character by character).
pub uninterp spec fn lowercase(s: Seq<char>) -> Seq<char>;

/// What `str::to_uppercase` returns for a string: its text under Unicode's
/// upper-case mapping (one character may become several).
pub uninterp spec fn uppercase(s: Seq<char>) -> Seq<char>;

/// `str::to_lowercase`: the result is `lowercase` of the argument, a function
/// of the argument's characters alone. Each character becomes one or more
/// characters (the documentation of `char::to_lowercase`), so the result is
/// empty exactly when the argument is.
#[verifier::external_body]
pub(crate) fn to_lowercase(s: &str) -> (r: String)
    ensures
        r@ == lowercase(s@),
        r@.len() == 0 <==> s@.len() == 0,
{
    s.to_lowercase()
}

/// `str::to_uppercase`: the result is `uppercase` of the argument, a function
/// of the argument's characters alone. Each character becomes one or more
/// characters (the documentation of `char::to_uppercase`), so the result is
/// empty exactly when the argument is.
#[verifier::external_body]
pub(crate) fn to_uppercase(s: &str) -> (r: String)
    ensures
        r@ == uppercase(s@),
        r@.len() == 0 <==> s@.len() == 0,
{
    s.to_uppercase()
}

/// ASCII lower-case of one character; other characters are unchanged.
pub open spec fn ascii_lower(c: char) -> char {
    if 'A' <= c && c <= 'Z' {
        ((c as u32) + 32) as char
    } else {
        c
    }
}

/// Equality up to ASCII case (`str::eq_ignore_ascii_case`).
pub open spec fn eq_ignore_ascii_case_text(a: Seq<char>, b: Seq<char>) -> bool {
    a.len() == b.len() && forall|i: int| 0 <= i < a.len() ==> ascii_lower(a[i]) == ascii_lower(b[i])
}

fn ascii_lower_char(c: char) -> (r: char)
    ensures
        r == ascii_lower(c),
{
    if 'A' <= c && c <= 'Z' {
        let u: u32 = (c as u32) + 32;
        assert(u <= 0x7a);
        u as u8 as char
    } else {
        c
    }
}

/// Whether two strings are equal up to ASCII case.
pub fn eq_ignore_ascii_case(a: &str, b: &str) -> (r: bool)
    ensures
        r == eq_ignore_ascii_case_text(a@, b@),
{
    let x = chars_of(a);
    let y = chars_of(b);
    if x.len() != y.len() {
        return false;
    }
    let mut i: usize = 0;
    while i < x.len()
        invariant
            x@ == a@,
            y@ == b@,
            x@.len() == y@.len(),
            i <= x@.len(),
            forall|k: int| 0 <= k < i ==> ascii_lower(x@[k]) == ascii_lower(y@[k]),
        decreases x@.len() - i,
    {
        if ascii_lower_char(x[i]) != ascii_lower_char(y[i]) {
            assert(ascii_lower(a@[i as int]) != ascii_lower(b@[i as int]));
            return false;
        }
        i = i + 1;
    }
    true
}

// ---------------------------------------------------------------------------
// Words
// ---------------------------------------------------------------------------

/// Unicode `White_Space`, the property behind `char::is_whitespace`.
pub open spec fn is_white(c: char) -> bool {
    let u = c as u32;
    (0x9 <= u && u <= 0xd) || u == 0x20 || u == 0x85 || u == 0xa0 || u == 0x1680 || (0x2000 <= u
        && u <= 0x200a) || u == 0x2028 || u == 0x2029 || u == 0x202f || u == 0x205f || u == 0x3000
}

pub fn is_white_char(c: char) -> (r: bool)
    ensures
        r == is_white(c),
{
    let u = c as u32;
    (0x9 <= u && u <= 0xd) || u == 0x20 || u == 0x85 || u == 0xa0 || u == 0x1680 || (0x2000 <= u
        && u <= 0x200a) || u == 0x2028 || u == 0x2029 || u == 0x202f || u == 0x205f || u == 0x3000
}

/// The first character of each whitespace-separated word of `s`, in order;
/// `after_white` says whether the text before `s` ended in whitespace (or was empty).
pub open spec fn word_starts(s: Seq<char>, after_white: bool) -> Seq<char>
    decreases s.len(),
{
    if s.len() == 0 {
        seq![]
    } else {
        let c = s[0];
        let rest = word_starts(s.drop_first(), is_white(c));
        if after_white && !is_white(c) {
            seq![c] + rest
        } else {
            rest
        }
    }
}

/// The first character of each word of `s`
/// (`s.split_whitespace().filter_map(|w| w.chars().next())`).
pub open spec fn initials_of(s: Seq<char>) -> Seq<char> {
    word_starts(s, true)
}

proof fn lemma_word_starts_step(s: Seq<char>, i: int)
    requires
        0 <= i < s.len(),
    ensures
        word_starts(s.subrange(i, s.len() as int), i == 0 || is_white(s[i - 1])) == (if (i == 0
            || is_white(s[i - 1])) && !is_white(s[i]) {
            seq![s[i]]
        } else {
            seq![]
        }) + word_starts(s.subrange(i + 1, s.len() as int), is_white(s[i])),
{
    let t = s.subrange(i, s.len() as int);
    assert(t.drop_first() == s.subrange(i + 1, s.len() as int));
    assert(t[0] == s[i]);
}

/// The first `limit` initials of the words of `s`.
pub fn word_initials(s: &str, limit: usize) -> (r: String)
    ensures
        r@ == initials_of(s@).take(
            if limit <= initials_of(s@).len() {
                limit as int
            } else {
                initials_of(s@).len() as int
            },
        ),
{
    let v = chars_of(s);
    let mut out = String::new();
    let mut count: usize = 0;
    let mut after_white = true;
    let mut i: usize = 0;
    let ghost full = initials_of(s@);
    assert(v@.subrange(0, v@.len() as int) == v@);
    assert(full == out@ + word_starts(v@.subrange(0, v@.len() as int), true));
    while i < v.len() && count < limit
        invariant
            v@ == s@,
            i <= v@.len(),
            count <= limit,
            after_white == (i == 0 || is_white(v@[i - 1])),
            out@.len() == count,
            full == out@ + word_starts(v@.subrange(i as int, v@.len() as int), after_white),
        decreases v@.len() - i,
    {
        proof {
            lemma_word_starts_step(v@, i as int);
        }
        let c = v[i];
        let w = is_white_char(c);
        if after_white && !w {
            push_char(&mut out, c);
            count = count + 1;
        }
        after_white = w;
        i = i + 1;
        proof {
            assert(full == out@ + word_starts(v@.subrange(i as int, v@.len() as int), after_white));
        }
    }
    proof {
        let rest = word_starts(v@.subrange(i as int, v@.len() as int), after_white);
        if i == v@.len() {
            assert(v@.subrange(i as int, v@.len() as int).len() == 0);
            assert(rest.len() == 0);
            assert(full =~= out@);
        }
        assert(full.take(out@.len() as int) =~= out@);
    }
    out
}

/// The items of `parts` joined with `sep` between them (`[..].join(sep)`).
pub open spec fn join_text(parts: Seq<Seq<char>>, sep: Seq<char>) -> Seq<char>
    decreases parts.len(),
{
    if parts.len() == 0 {
        seq![]
    } else if parts.len() == 1 {
        parts[0]
    } else {
        join_text(parts.drop_last(), sep) + sep + parts.last()
    }
}

} // verus!
