//! Character-level string operations with exact specifications over `Seq<char>`.

use vstd::prelude::*;
use vstd::string::*;

verus! {

/// The Unicode `White_Space` property, which `char::is_whitespace` implements.
pub open spec fn is_ws(c: char) -> bool {
    let u = c as u32;
    ||| 0x9 <= u <= 0xD
    ||| u == 0x20
    ||| u == 0x85
    ||| u == 0xA0
    ||| u == 0x1680
    ||| 0x2000 <= u <= 0x200A
    ||| u == 0x2028
    ||| u == 0x2029
    ||| u == 0x202F
    ||| u == 0x205F
    ||| u == 0x3000
}

pub fn is_whitespace(c: char) -> (b: bool)
    ensures
        b == is_ws(c),
{
    let u = c as u32;
    (0x9 <= u && u <= 0xD) || u == 0x20 || u == 0x85 || u == 0xA0 || u == 0x1680 || (0x2000
        <= u && u <= 0x200A) || u == 0x2028 || u == 0x2029 || u == 0x202F || u == 0x205F || u
        == 0x3000
}

/// `s` without its leading whitespace.
pub open spec fn trim_start_seq(s: Seq<char>) -> Seq<char>
    decreases s.len(),
{
    if s.len() > 0 && is_ws(s[0]) {
        trim_start_seq(s.drop_first())
    } else {
        s
    }
}

/// `s` without its trailing whitespace.
pub open spec fn trim_end_seq(s: Seq<char>) -> Seq<char>
    decreases s.len(),
{
    if s.len() > 0 && is_ws(s.last()) {
        trim_end_seq(s.drop_last())
    } else {
        s
    }
}

/// `s` without leading and trailing whitespace, as `str::trim` returns it.
pub open spec fn trim_seq(s: Seq<char>) -> Seq<char> {
    trim_end_seq(trim_start_seq(s))
}

proof fn lemma_trim_start_skip(s: Seq<char>, i: int)
    requires
        0 <= i <= s.len(),
        forall|k: int| 0 <= k < i ==> is_ws(#[trigger] s[k]),
    ensures
        trim_start_seq(s) == trim_start_seq(s.skip(i)),
    decreases i,
{
    if i == 0 {
        assert(s.skip(0) =~= s);
    } else {
        let t = s.drop_first();
        assert forall|k: int| 0 <= k < i - 1 implies is_ws(#[trigger] t[k]) by {
            assert(t[k] == s[k + 1]);
        }
        lemma_trim_start_skip(t, i - 1);
        assert(t.skip(i - 1) =~= s.skip(i));
    }
}

proof fn lemma_trim_end_take(s: Seq<char>, j: int)
    requires
        0 <= j <= s.len(),
        forall|k: int| j <= k < s.len() ==> is_ws(#[trigger] s[k]),
    ensures
        trim_end_seq(s) == trim_end_seq(s.take(j)),
    decreases s.len() - j,
{
    if j == s.len() {
        assert(s.take(j) =~= s);
    } else {
        let t = s.drop_last();
        assert forall|k: int| j <= k < t.len() implies is_ws(#[trigger] t[k]) by {
            assert(t[k] == s[k]);
        }
        lemma_trim_end_take(t, j);
        assert(t.take(j) =~= s.take(j));
    }
}

/// The characters of `s`, in order.
pub fn chars(s: &str) -> (v: Vec<char>)
    ensures
        v@ == s@,
{
    let n = s.unicode_len();
    let mut v: Vec<char> = Vec::new();
    let mut i: usize = 0;
    while i < n
        invariant
            n == s@.len(),
            i <= n,
            v@ == s@.take(i as int),
        decreases n - i,
    {
        v.push(s.get_char(i));
        i = i + 1;
        assert(v@ =~= s@.take(i as int));
    }
    assert(s@.take(n as int) =~= s@);
    v
}

/// The bounds `(i, j)` such that `v[i..j]` is `v` trimmed of surrounding whitespace.
pub fn trim_range(v: &Vec<char>) -> (r: (usize, usize))
    ensures
        r.0 <= r.1 <= v@.len(),
        v@.subrange(r.0 as int, r.1 as int) == trim_seq(v@),
{
    let n = v.len();
    let mut i: usize = 0;
    while i < n && is_whitespace(v[i])
        invariant
            n == v@.len(),
            i <= n,
            forall|k: int| 0 <= k < i ==> is_ws(#[trigger] v@[k]),
        decreases n - i,
    {
        i = i + 1;
    }
    let mut j: usize = n;
    while j > i && is_whitespace(v[j - 1])
        invariant
            n == v@.len(),
            i <= j <= n,
            forall|k: int| j <= k < n ==> is_ws(#[trigger] v@[k]),
        decreases j,
    {
        j = j - 1;
    }
    proof {
        let s = v@;
        lemma_trim_start_skip(s, i as int);
        let t = s.skip(i as int);
        assert(trim_start_seq(t) == t);
        assert forall|k: int| (j - i) <= k < t.len() implies is_ws(#[trigger] t[k]) by {
            assert(t[k] == s[k + i]);
        }
        lemma_trim_end_take(t, (j - i) as int);
        let u = t.take((j - i) as int);
        assert(u =~= s.subrange(i as int, j as int));
        if u.len() > 0 {
            assert(u.last() == s[j - 1]);
        }
        assert(trim_end_seq(u) == u);
    }
    (i, j)
}

/// `str::trim`: the slice of `s` without leading and trailing whitespace.
pub fn trim(s: &str) -> (r: &str)
    ensures
        r@ == trim_seq(s@),
{
    let v = chars(s);
    let (i, j) = trim_range(&v);
    s.substring_char(i, j)
}

/// The characters `v[lo..hi]` as a new vector.
pub fn slice_chars(v: &Vec<char>, lo: usize, hi: usize) -> (r: Vec<char>)
    requires
        lo <= hi <= v@.len(),
    ensures
        r@ == v@.subrange(lo as int, hi as int),
{
    let mut r: Vec<char> = Vec::new();
    let mut k: usize = lo;
    while k < hi
        invariant
            lo <= k <= hi <= v@.len(),
            r@ == v@.subrange(lo as int, k as int),
        decreases hi - k,
    {
        r.push(v[k]);
        k = k + 1;
        assert(r@ =~= v@.subrange(lo as int, k as int));
    }
    r
}

/// `v` trimmed of surrounding whitespace, as a new vector.
pub fn trim_chars(v: &Vec<char>) -> (r: Vec<char>)
    ensures
        r@ == trim_seq(v@),
{
    let (i, j) = trim_range(v);
    slice_chars(v, i, j)
}

/// `String::push`: appends one character.
#[verifier::external_body]
fn push_char(s: &mut String, c: char)
    ensures
        final(s)@ == old(s)@.push(c),
{
    s.push(c);
}

/// A `String` holding exactly the characters of `v`.
pub fn string_from_chars(v: &Vec<char>) -> (s: String)
    ensures
        s@ == v@,
{
    let mut s = String::new();
    let mut k: usize = 0;
    while k < v.len()
        invariant
            k <= v@.len(),
            s@ == v@.take(k as int),
        decreases v@.len() - k,
    {
        push_char(&mut s, v[k]);
        k = k + 1;
        assert(s@ =~= v@.take(k as int));
    }
    assert(v@.take(v@.len() as int) =~= v@);
    s
}

/// Whether two character sequences are equal.
pub fn chars_eq(a: &Vec<char>, b: &Vec<char>) -> (r: bool)
    ensures
        r == (a@ == b@),
{
    if a.len() != b.len() {
        return false;
    }
    let mut k: usize = 0;
    while k < a.len()
        invariant
            a@.len() == b@.len(),
            k <= a@.len(),
            forall|i: int| 0 <= i < k ==> a@[i] == b@[i],
        decreases a@.len() - k,
    {
        if a[k] != b[k] {
            return false;
        }
        k = k + 1;
    }
    assert(a@ =~= b@);
    true
}

/// Whether the characters of `v` spell `s`.
pub fn chars_eq_str(v: &Vec<char>, s: &str) -> (r: bool)
    ensures
        r == (v@ == s@),
{
    let w = chars(s);
    chars_eq(v, &w)
}

/// Whether `a` and `b` hold the same text.
pub fn str_eq(a: &str, b: &str) -> (r: bool)
    ensures
        r == (a@ == b@),
{
    let v = chars(a);
    chars_eq_str(&v, b)
}

/// Whether `p` is a prefix of `s`.
pub open spec fn has_prefix(s: Seq<char>, p: Seq<char>) -> bool {
    p.len() <= s.len() && s.take(p.len() as int) == p
}

/// Whether `p` is a prefix of `v`.
pub fn chars_start_with(v: &Vec<char>, p: &Vec<char>) -> (r: bool)
    ensures
        r == has_prefix(v@, p@),
{
    if p.len() > v.len() {
        return false;
    }
    let mut k: usize = 0;
    while k < p.len()
        invariant
            p@.len() <= v@.len(),
            k <= p@.len(),
            forall|i: int| 0 <= i < k ==> v@[i] == p@[i],
        decreases p@.len() - k,
    {
        if v[k] != p[k] {
            assert(v@.take(p@.len() as int)[k as int] != p@[k as int]);
            return false;
        }
        k = k + 1;
    }
    assert(v@.take(p@.len() as int) =~= p@);
    true
}

/// `str::starts_with` with a string pattern.
pub fn starts_with(s: &str, p: &str) -> (r: bool)
    ensures
        r == has_prefix(s@, p@),
{
    let v = chars(s);
    let w = chars(p);
    chars_start_with(&v, &w)
}

/// Whether `c` occurs in `v`.
pub fn chars_contain(v: &Vec<char>, c: char) -> (r: bool)
    ensures
        r == v@.contains(c),
{
    let mut k: usize = 0;
    while k < v.len()
        invariant
            k <= v@.len(),
            forall|i: int| 0 <= i < k ==> v@[i] != c,
        decreases v@.len() - k,
    {
        if v[k] == c {
            return true;
        }
        k = k + 1;
    }
    false
}

/// The index of the first `c` in `s`, or -1 when `c` does not occur.
pub open spec fn find_char(s: Seq<char>, c: char) -> int
    decreases s.len(),
{
    if s.len() == 0 {
        -1
    } else if s[0] == c {
        0
    } else {
        let r = find_char(s.drop_first(), c);
        if r < 0 {
            -1
        } else {
            r + 1
        }
    }
}

pub proof fn lemma_find_char(s: Seq<char>, c: char, i: int)
    requires
        0 <= i <= s.len(),
        forall|k: int| 0 <= k < i ==> s[k] != c,
        i < s.len() ==> s[i] == c,
    ensures
        find_char(s, c) == (if i == s.len() { -1 } else { i }),
    decreases i,
{
    if i > 0 {
        let t = s.drop_first();
        assert forall|k: int| 0 <= k < i - 1 implies t[k] != c by {
            assert(t[k] == s[k + 1]);
        }
        if i < s.len() {
            assert(t[i - 1] == s[i]);
        }
        lemma_find_char(t, c, i - 1);
    }
}

pub proof fn lemma_find_char_bounds(s: Seq<char>, c: char)
    ensures
        -1 <= find_char(s, c) < s.len(),
        find_char(s, c) >= 0 ==> s[find_char(s, c)] == c,
        forall|k: int| 0 <= k < find_char(s, c) ==> s[k] != c,
        find_char(s, c) < 0 ==> !s.contains(c),
    decreases s.len(),
{
    if s.len() > 0 && s[0] != c {
        let t = s.drop_first();
        lemma_find_char_bounds(t, c);
        let r = find_char(t, c);
        assert forall|k: int| 0 <= k < find_char(s, c) implies s[k] != c by {
            if k > 0 {
                assert(s[k] == t[k - 1]);
            }
        }
        if r < 0 {
            assert forall|k: int| 0 <= k < s.len() implies s[k] != c by {
                if k > 0 {
                    assert(s[k] == t[k - 1]);
                }
            }
        } else {
            assert(s[r + 1] == t[r]);
        }
    }
}

/// The index of the first `c` in `v`, as `str::find` with a char pattern counts characters.
pub fn find_char_index(v: &Vec<char>, c: char) -> (r: Option<usize>)
    ensures
        match r {
            Some(i) => find_char(v@, c) == i as int,
            None => find_char(v@, c) == -1,
        },
{
    let mut k: usize = 0;
    while k < v.len()
        invariant
            k <= v@.len(),
            forall|i: int| 0 <= i < k ==> v@[i] != c,
        decreases v@.len() - k,
    {
        if v[k] == c {
            proof {
                lemma_find_char(v@, c, k as int);
            }
            return Some(k);
        }
        k = k + 1;
    }
    proof {
        lemma_find_char(v@, c, v@.len() as int);
    }
    None
}

/// The pieces of `s` between occurrences of `sep`, as `str::split` with a char pattern yields them.
pub open spec fn split_seq(s: Seq<char>, sep: char) -> Seq<Seq<char>>
    decreases s.len(),
{
    if s.len() == 0 {
        seq![Seq::<char>::empty()]
    } else {
        let init = split_seq(s.drop_last(), sep);
        if s.last() == sep {
            init.push(Seq::<char>::empty())
        } else {
            init.update(init.len() - 1, init.last().push(s.last()))
        }
    }
}

pub proof fn lemma_split_nonempty(s: Seq<char>, sep: char)
    ensures
        split_seq(s, sep).len() >= 1,
    decreases s.len(),
{
    if s.len() > 0 {
        lemma_split_nonempty(s.drop_last(), sep);
    }
}

/// The views of a sequence of character vectors.
pub open spec fn vec_views(v: Seq<Vec<char>>) -> Seq<Seq<char>> {
    v.map_values(|p: Vec<char>| p@)
}

/// The views of a sequence of strings.
pub open spec fn string_views(v: Seq<String>) -> Seq<Seq<char>> {
    v.map_values(|p: String| p@)
}

/// `str::split` with a char pattern, over characters.
pub fn split_chars(v: &Vec<char>, sep: char) -> (r: Vec<Vec<char>>)
    ensures
        vec_views(r@) == split_seq(v@, sep),
{
    let mut done: Vec<Vec<char>> = Vec::new();
    let mut cur: Vec<char> = Vec::new();
    let mut i: usize = 0;
    assert(vec_views(done@).push(cur@) =~= split_seq(v@.take(0), sep));
    while i < v.len()
        invariant
            i <= v@.len(),
            vec_views(done@).push(cur@) == split_seq(v@.take(i as int), sep),
        decreases v@.len() - i,
    {
        let c = v[i];
        let ghost before = vec_views(done@).push(cur@);
        proof {
            let t = v@.take(i as int + 1);
            assert(t.drop_last() =~= v@.take(i as int));
            assert(t.last() == c);
        }
        if c == sep {
            let piece = cur;
            done.push(piece);
            cur = Vec::new();
            assert(vec_views(done@).push(cur@) =~= before.push(Seq::<char>::empty()));
        } else {
            cur.push(c);
            assert(vec_views(done@).push(cur@) =~= before.update(
                before.len() - 1,
                before.last().push(c),
            ));
        }
        i = i + 1;
    }
    assert(v@.take(v@.len() as int) =~= v@);
    done.push(cur);
    done
}

/// The pieces of `parts` joined with `sep` between neighbours, as `[T]::join` builds them.
pub open spec fn join_seq(parts: Seq<Seq<char>>, sep: Seq<char>) -> Seq<char>
    decreases parts.len(),
{
    if parts.len() == 0 {
        Seq::<char>::empty()
    } else if parts.len() == 1 {
        parts[0]
    } else {
        join_seq(parts.drop_last(), sep) + sep + parts.last()
    }
}

/// The pieces of `parts` joined with `sep`.
pub fn join_chars(parts: &Vec<Vec<char>>, sep: &Vec<char>) -> (r: Vec<char>)
    ensures
        r@ == join_seq(vec_views(parts@), sep@),
{
    let mut r: Vec<char> = Vec::new();
    let mut i: usize = 0;
    while i < parts.len()
        invariant
            i <= parts@.len(),
            r@ == join_seq(vec_views(parts@.take(i as int)), sep@),
        decreases parts@.len() - i,
    {
        let ghost before = r@;
        if i > 0 {
            append_chars(&mut r, sep);
        }
        append_chars(&mut r, &parts[i]);
        proof {
            let t = vec_views(parts@.take(i as int + 1));
            assert(t.drop_last() =~= vec_views(parts@.take(i as int)));
            assert(t.last() == parts@[i as int]@);
            if i == 0 {
                assert(r@ =~= t[0]);
            } else {
                assert(r@ =~= before + sep@ + t.last());
            }
        }
        i = i + 1;
    }
    assert(parts@.take(parts@.len() as int) =~= parts@);
    r
}

/// Appends the characters of `w` to `r`.
pub fn append_chars(r: &mut Vec<char>, w: &Vec<char>)
    ensures
        final(r)@ == old(r)@ + w@,
{
    let mut k: usize = 0;
    while k < w.len()
        invariant
            k <= w@.len(),
            r@ == old(r)@ + w@.take(k as int),
        decreases w@.len() - k,
    {
        r.push(w[k]);
        k = k + 1;
        assert(r@ =~= old(r)@ + w@.take(k as int));
    }
    assert(w@.take(w@.len() as int) =~= w@);
}

/// Appends the characters of `s` to `r`.
pub fn append_str(r: &mut Vec<char>, s: &str)
    ensures
        final(r)@ == old(r)@ + s@,
{
    let w = chars(s);
    append_chars(r, &w);
}

/// `s` with every `'` doubled, the quoting of OData string literals.
pub open spec fn escape_quotes(s: Seq<char>) -> Seq<char>
    decreases s.len(),
{
    if s.len() == 0 {
        Seq::<char>::empty()
    } else if s.last() == '\'' {
        escape_quotes(s.drop_last()) + seq!['\'', '\'']
    } else {
        escape_quotes(s.drop_last()).push(s.last())
    }
}

/// `s.replace('\'', "''")`.
pub fn escape_single_quotes(v: &Vec<char>) -> (r: Vec<char>)
    ensures
        r@ == escape_quotes(v@),
{
    let mut r: Vec<char> = Vec::new();
    let mut i: usize = 0;
    while i < v.len()
        invariant
            i <= v@.len(),
            r@ == escape_quotes(v@.take(i as int)),
        decreases v@.len() - i,
    {
        let ghost before = r@;
        let c = v[i];
        if c == '\'' {
            r.push('\'');
            r.push('\'');
        } else {
            r.push(c);
        }
        proof {
            let t = v@.take(i as int + 1);
            assert(t.drop_last() =~= v@.take(i as int));
            assert(t.last() == c);
            if c == '\'' {
                assert(r@ =~= before + seq!['\'', '\'']);
            } else {
                assert(r@ =~= before.push(c));
            }
        }
        i = i + 1;
    }
    assert(v@.take(v@.len() as int) =~= v@);
    r
}

/// `char::to_ascii_lowercase`.
pub open spec fn ascii_lower_char(c: char) -> char {
    if 'A' <= c <= 'Z' {
        ((c as u32) + 32) as char
    } else {
        c
    }
}

/// `str::to_ascii_lowercase`: ASCII capitals lowered, every other character kept.
pub open spec fn ascii_lower(s: Seq<char>) -> Seq<char> {
    s.map_values(|c: char| ascii_lower_char(c))
}

pub fn to_ascii_lower_char(c: char) -> (r: char)
    ensures
        r == ascii_lower_char(c),
{
    if 'A' <= c && c <= 'Z' {
        let b: u8 = c as u8;
        (b + 32) as char
    } else {
        c
    }
}

/// `v` with ASCII capitals lowered.
pub fn ascii_lowercase(v: &Vec<char>) -> (r: Vec<char>)
    ensures
        r@ == ascii_lower(v@),
{
    let mut r: Vec<char> = Vec::new();
    let mut i: usize = 0;
    while i < v.len()
        invariant
            i <= v@.len(),
            r@ == ascii_lower(v@.take(i as int)),
        decreases v@.len() - i,
    {
        r.push(to_ascii_lower_char(v[i]));
        i = i + 1;
        assert(r@ =~= ascii_lower(v@.take(i as int)));
    }
    assert(v@.take(v@.len() as int) =~= v@);
    r
}

/// What `str::to_lowercase` returns for a string: the full Unicode lowercase mapping,
/// which depends on the Unicode tables built into the standard library.
pub uninterp spec fn unicode_lowercase(s: Seq<char>) -> Seq<char>;

/// Calls `str::to_lowercase`; its result is named, not restated.
#[verifier::external_body]
pub fn to_lowercase(s: &str) -> (r: String)
    ensures
        r@ == unicode_lowercase(s@),
{
    s.to_lowercase()
}

/// Whether `c` is an ASCII decimal digit.
pub open spec fn is_digit(c: char) -> bool {
    '0' <= c <= '9'
}

/// The value of a string of decimal digits.
pub open spec fn digits_value(d: Seq<char>) -> nat
    decreases d.len(),
{
    if d.len() == 0 {
        0
    } else {
        digits_value(d.drop_last()) * 10 + ((d.last() as u32) - ('0' as u32)) as nat
    }
}

/// Whether every character of `d` is an ASCII decimal digit.
pub open spec fn all_digits(d: Seq<char>) -> bool {
    forall|i: int| 0 <= i < d.len() ==> is_digit(#[trigger] d[i])
}

/// `s` without one leading `+`.
pub open spec fn unsigned_digits(s: Seq<char>) -> Seq<char> {
    if s.len() > 0 && s[0] == '+' {
        s.drop_first()
    } else {
        s
    }
}

/// What `str::parse::<u64>` returns: an optional `+`, then one or more ASCII digits whose
/// value fits in a `u64`.
pub open spec fn parse_u64_spec(s: Seq<char>) -> Option<u64> {
    let d = unsigned_digits(s);
    if d.len() > 0 && all_digits(d) && digits_value(d) <= u64::MAX {
        Some(digits_value(d) as u64)
    } else {
        None
    }
}

proof fn lemma_digits_value_grows(d: Seq<char>, i: int)
    requires
        0 <= i <= d.len(),
        forall|k: int| 0 <= k < d.len() ==> is_digit(#[trigger] d[k]),
    ensures
        digits_value(d.take(i)) <= digits_value(d),
    decreases d.len() - i,
{
    if i < d.len() {
        let t = d.drop_last();
        assert forall|k: int| 0 <= k < t.len() implies is_digit(#[trigger] t[k]) by {
            assert(t[k] == d[k]);
        }
        lemma_digits_value_grows(t, i);
        assert(t.take(i) =~= d.take(i));
    } else {
        assert(d.take(i) =~= d);
    }
}

/// `str::parse::<u64>` on characters, `None` where it returns an error.
pub fn parse_u64_chars(v: &Vec<char>) -> (r: Option<u64>)
    ensures
        r == parse_u64_spec(v@),
{
    let n = v.len();
    let start: usize = if n > 0 && v[0] == '+' {
        1
    } else {
        0
    };
    let ghost d = unsigned_digits(v@);
    assert(d =~= v@.skip(start as int));
    if start == n {
        return None;
    }
    let mut value: u64 = 0;
    let mut i: usize = start;
    while i < n
        invariant
            start <= i <= n,
            n == v@.len(),
            d == v@.skip(start as int),
            d == unsigned_digits(v@),
            forall|k: int| start <= k < i ==> is_digit(#[trigger] v@[k]),
            value == digits_value(d.take(i - start)),
        decreases n - i,
    {
        let c = v[i];
        proof {
            let t = d.take(i - start + 1);
            assert(t.drop_last() =~= d.take(i - start));
            assert(t.last() == c);
        }
        if !('0' <= c && c <= '9') {
            proof {
                assert(d[i - start] == v@[i as int]);
                assert(!is_digit(d[i - start]));
            }
            return None;
        }
        let digit: u64 = (c as u32 - '0' as u32) as u64;
        if value > 1844674407370955161 || (value == 1844674407370955161 && digit > 5) {
            proof {
                let t = d.take(i - start + 1);
                if all_digits(d) {
                    lemma_digits_value_grows(d, i - start + 1);
                }
                assert(digits_value(t) > u64::MAX);
            }
            return None;
        }
        value = value * 10 + digit;
        i = i + 1;
    }
    proof {
        assert(d.take(n - start) =~= d);
        assert forall|k: int| 0 <= k < d.len() implies is_digit(#[trigger] d[k]) by {
            assert(d[k] == v@[k + start]);
        }
        assert(all_digits(d));
    }
    Some(value)
}


/// Whether `v` starts with the text of `p`.
pub fn chars_start_with_str(v: &Vec<char>, p: &str) -> (r: bool)
    ensures
        r == has_prefix(v@, p@),
{
    let w = chars(p);
    chars_start_with(v, &w)
}

/// A `String` with the text of `s`.
pub fn owned(s: &str) -> (r: String)
    ensures
        r@ == s@,
{
    s.to_owned()
}

/// The number of bytes that UTF-8 uses for `c`.
pub open spec fn utf8_width(c: char) -> nat {
    let u = c as u32;
    if u < 0x80 {
        1
    } else if u < 0x800 {
        2
    } else if u < 0x10000 {
        3
    } else {
        4
    }
}

/// The UTF-8 byte length of `s`, which `str::len` returns.
pub open spec fn utf8_len(s: Seq<char>) -> nat
    decreases s.len(),
{
    if s.len() == 0 {
        0
    } else {
        utf8_len(s.drop_last()) + utf8_width(s.last())
    }
}

proof fn lemma_utf8_len_grows(s: Seq<char>, i: int)
    requires
        0 <= i <= s.len(),
    ensures
        utf8_len(s.take(i)) <= utf8_len(s),
    decreases s.len() - i,
{
    if i < s.len() {
        let t = s.drop_last();
        lemma_utf8_len_grows(t, i);
        assert(t.take(i) =~= s.take(i));
    } else {
        assert(s.take(i) =~= s);
    }
}

pub fn char_utf8_width(c: char) -> (r: usize)
    ensures
        r == utf8_width(c),
{
    let u = c as u32;
    if u < 0x80 {
        1
    } else if u < 0x800 {
        2
    } else if u < 0x10000 {
        3
    } else {
        4
    }
}

/// Whether `v` takes at least `bound` bytes in UTF-8.
pub fn utf8_len_at_least(v: &Vec<char>, bound: usize) -> (r: bool)
    ensures
        r == (utf8_len(v@) >= bound),
{
    if bound == 0 {
        return true;
    }
    let mut total: usize = 0;
    let mut i: usize = 0;
    while i < v.len()
        invariant
            i <= v@.len(),
            total == utf8_len(v@.take(i as int)),
            total < bound,
        decreases v@.len() - i,
    {
        let w = char_utf8_width(v[i]);
        proof {
            let t = v@.take(i as int + 1);
            assert(t.drop_last() =~= v@.take(i as int));
        }
        if w >= bound - total {
            proof {
                lemma_utf8_len_grows(v@, i as int + 1);
            }
            return true;
        }
        total = total + w;
        i = i + 1;
    }
    assert(v@.take(v@.len() as int) =~= v@);
    false
}

/// The non-empty trimmed pieces of `pieces`, in order.
pub open spec fn nonempty_trimmed(pieces: Seq<Seq<char>>) -> Seq<Seq<char>>
    decreases pieces.len(),
{
    if pieces.len() == 0 {
        Seq::<Seq<char>>::empty()
    } else {
        let init = nonempty_trimmed(pieces.drop_last());
        let t = trim_seq(pieces.last());
        if t.len() > 0 {
            init.push(t)
        } else {
            init
        }
    }
}

/// The comma-separated entries of a configured list, trimmed, empty entries dropped.
pub open spec fn config_list(s: Seq<char>) -> Seq<Seq<char>> {
    nonempty_trimmed(split_seq(s, ','))
}

/// The comma-separated entries of `v`, trimmed, empty entries dropped.
pub fn config_list_chars(v: &Vec<char>) -> (r: Vec<Vec<char>>)
    ensures
        vec_views(r@) == config_list(v@),
{
    let pieces = split_chars(v, ',');
    let mut items: Vec<Vec<char>> = Vec::new();
    let mut i: usize = 0;
    while i < pieces.len()
        invariant
            i <= pieces@.len(),
            vec_views(items@) == nonempty_trimmed(vec_views(pieces@).take(i as int)),
        decreases pieces@.len() - i,
    {
        let t = trim_chars(&pieces[i]);
        let ghost before = vec_views(pieces@).take(i as int);
        let ghost after = vec_views(pieces@).take(i as int + 1);
        proof {
            assert(after.drop_last() =~= before);
            assert(after.last() == pieces@[i as int]@);
        }
        if t.len() > 0 {
            let ghost old_items = items@;
            items.push(t);
            proof {
                assert(vec_views(items@) =~= vec_views(old_items).push(t@));
            }
        }
        i = i + 1;
    }
    assert(vec_views(pieces@).take(pieces@.len() as int) =~= vec_views(pieces@));
    items
}

/// The strings spelled by each character vector, in order.
pub fn strings_from_chars(items: &Vec<Vec<char>>) -> (r: Vec<String>)
    ensures
        string_views(r@) == vec_views(items@),
{
    let mut r: Vec<String> = Vec::new();
    let mut i: usize = 0;
    while i < items.len()
        invariant
            i <= items@.len(),
            r@.len() == i,
            string_views(r@) == vec_views(items@.take(i as int)),
        decreases items@.len() - i,
    {
        let ghost old_r = r@;
        let s = string_from_chars(&items[i]);
        r.push(s);
        proof {
            assert forall|k: int| 0 <= k < i + 1 implies string_views(r@)[k] == vec_views(
                items@.take(i + 1),
            )[k] by {
                if k < i {
                    assert(string_views(old_r)[k] == vec_views(items@.take(i as int))[k]);
                }
            }
            assert(string_views(r@) =~= vec_views(items@.take(i + 1)));
        }
        i = i + 1;
    }
    assert(items@.take(items@.len() as int) =~= items@);
    r
}

/// Whether `items` holds an element equal to `t`.
pub fn chars_list_contains(items: &Vec<Vec<char>>, t: &Vec<char>) -> (r: bool)
    ensures
        r == vec_views(items@).contains(t@),
{
    let mut i: usize = 0;
    while i < items.len()
        invariant
            i <= items@.len(),
            forall|k: int| 0 <= k < i ==> items@[k]@ != t@,
        decreases items@.len() - i,
    {
        if chars_eq(&items[i], t) {
            assert(vec_views(items@)[i as int] == t@);
            return true;
        }
        i = i + 1;
    }
    assert forall|k: int| 0 <= k < vec_views(items@).len() implies vec_views(items@)[k] != t@ by {
        assert(vec_views(items@)[k] == items@[k]@);
    }
    false
}

/// `Path::join` on Unix paths: an absolute `rest` replaces `base`; otherwise `rest` follows
/// `base`, with a `/` between them unless `base` is empty or already ends in one.
pub open spec fn path_join(base: Seq<char>, rest: Seq<char>) -> Seq<char> {
    if rest.len() > 0 && rest[0] == '/' {
        rest
    } else if base.len() == 0 || base.last() == '/' {
        base + rest
    } else {
        base + "/"@ + rest
    }
}

/// The path `rest` joined onto `base`.
pub fn join_path(base: &str, rest: &str) -> (r: String)
    ensures
        r@ == path_join(base@, rest@),
{
    let b = chars(base);
    let t = chars(rest);
    if t.len() > 0 && t[0] == '/' {
        return string_from_chars(&t);
    }
    let mut out = b;
    if out.len() > 0 && out[out.len() - 1] != '/' {
        append_str(&mut out, "/");
    }
    append_chars(&mut out, &t);
    proof {
        reveal_strlit("/");
    }
    string_from_chars(&out)
}

/// The decimal digit character of `d`.
pub open spec fn digit_char(d: nat) -> char {
    if d == 0 {
        '0'
    } else if d == 1 {
        '1'
    } else if d == 2 {
        '2'
    } else if d == 3 {
        '3'
    } else if d == 4 {
        '4'
    } else if d == 5 {
        '5'
    } else if d == 6 {
        '6'
    } else if d == 7 {
        '7'
    } else if d == 8 {
        '8'
    } else {
        '9'
    }
}

/// The decimal representation of `n`, as `Display` writes an unsigned integer.
pub open spec fn decimal(n: nat) -> Seq<char>
    decreases n,
{
    if n < 10 {
        seq![digit_char(n)]
    } else {
        decimal(n / 10).push(digit_char(n % 10))
    }
}

fn digit(d: u64) -> (c: char)
    requires
        d < 10,
    ensures
        c == digit_char(d as nat),
{
    if d == 0 {
        '0'
    } else if d == 1 {
        '1'
    } else if d == 2 {
        '2'
    } else if d == 3 {
        '3'
    } else if d == 4 {
        '4'
    } else if d == 5 {
        '5'
    } else if d == 6 {
        '6'
    } else if d == 7 {
        '7'
    } else if d == 8 {
        '8'
    } else {
        '9'
    }
}

/// The decimal digits of `n`.
pub fn decimal_chars(n: u64) -> (r: Vec<char>)
    ensures
        r@ == decimal(n as nat),
    decreases n,
{
    if n < 10 {
        let mut v: Vec<char> = Vec::new();
        v.push(digit(n));
        assert(v@ =~= seq![digit_char(n as nat)]);
        v
    } else {
        let mut v = decimal_chars(n / 10);
        v.push(digit(n % 10));
        v
    }
}


/// The characters of each string.
pub fn chars_of_strings(items: &Vec<String>) -> (r: Vec<Vec<char>>)
    ensures
        vec_views(r@) == string_views(items@),
{
    let mut r: Vec<Vec<char>> = Vec::new();
    let mut i: usize = 0;
    while i < items.len()
        invariant
            i <= items@.len(),
            vec_views(r@) == string_views(items@.take(i as int)),
        decreases items@.len() - i,
    {
        let ghost old_r = r@;
        r.push(chars(items[i].as_str()));
        proof {
            assert(vec_views(r@) =~= vec_views(old_r).push(items@[i as int]@));
            assert(items@.take(i + 1) =~= items@.take(i as int).push(items@[i as int]));
            assert(string_views(items@.take(i + 1)) =~= string_views(items@.take(i as int)).push(
                items@[i as int]@,
            ));
        }
        i = i + 1;
    }
    assert(items@.take(items@.len() as int) =~= items@);
    r
}

/// The strings joined with `sep` between neighbours, `[String]::join`.
pub fn join_strings(items: &Vec<String>, sep: &str) -> (r: String)
    ensures
        r@ == join_seq(string_views(items@), sep@),
{
    let parts = chars_of_strings(items);
    string_from_chars(&join_chars(&parts, &chars(sep)))
}

/// A list entry as `config_list` yields them: non-empty, trimmed, without a comma.
pub open spec fn clean_token(t: Seq<char>) -> bool {
    t.len() > 0 && trim_seq(t) == t && !t.contains(',')
}

/// Whether every entry is clean.
pub open spec fn all_clean(ts: Seq<Seq<char>>) -> bool {
    forall|i: int| 0 <= i < ts.len() ==> clean_token(#[trigger] ts[i])
}

proof fn lemma_trim_start_shape(s: Seq<char>)
    ensures
        exists|k: int| 0 <= k <= s.len() && trim_start_seq(s) == s.skip(k),
        trim_start_seq(s).len() == 0 || !is_ws(trim_start_seq(s)[0]),
    decreases s.len(),
{
    if s.len() > 0 && is_ws(s[0]) {
        lemma_trim_start_shape(s.drop_first());
        let k = choose|k: int| 0 <= k <= s.drop_first().len() && trim_start_seq(s.drop_first())
            == s.drop_first().skip(k);
        assert(s.drop_first().skip(k) =~= s.skip(k + 1));
    } else {
        assert(s.skip(0) =~= s);
    }
}

proof fn lemma_trim_end_shape(s: Seq<char>)
    ensures
        exists|k: int| 0 <= k <= s.len() && trim_end_seq(s) == s.take(k),
        trim_end_seq(s).len() == 0 || !is_ws(trim_end_seq(s).last()),
    decreases s.len(),
{
    if s.len() > 0 && is_ws(s.last()) {
        lemma_trim_end_shape(s.drop_last());
        let k = choose|k: int| 0 <= k <= s.drop_last().len() && trim_end_seq(s.drop_last())
            == s.drop_last().take(k);
        assert(s.drop_last().take(k) =~= s.take(k));
    } else {
        assert(s.take(s.len() as int) =~= s);
    }
}

/// Trimming keeps only characters of `s`, and trimming twice changes nothing more.
pub proof fn lemma_trim_facts(s: Seq<char>)
    ensures
        trim_seq(trim_seq(s)) == trim_seq(s),
        forall|c: char| trim_seq(s).contains(c) ==> s.contains(c),
{
    lemma_trim_start_shape(s);
    let w = trim_start_seq(s);
    let a = choose|k: int| 0 <= k <= s.len() && w == s.skip(k);
    lemma_trim_end_shape(w);
    let u = trim_end_seq(w);
    let b = choose|k: int| 0 <= k <= w.len() && u == w.take(k);
    assert forall|c: char| u.contains(c) implies s.contains(c) by {
        let i = choose|i: int| 0 <= i < u.len() && u[i] == c;
        assert(s[a + i] == c);
    }
    if u.len() > 0 {
        assert(u[0] == w[0]);
        assert(trim_start_seq(u) == u);
        assert(trim_end_seq(u) == u);
    } else {
        assert(trim_start_seq(u) == u);
        assert(trim_end_seq(u) == u);
    }
}

proof fn lemma_split_pieces_free(s: Seq<char>, sep: char)
    ensures
        forall|i: int| 0 <= i < split_seq(s, sep).len() ==> !(#[trigger] split_seq(s, sep)[i]).contains(sep),
    decreases s.len(),
{
    if s.len() > 0 {
        lemma_split_pieces_free(s.drop_last(), sep);
        lemma_split_nonempty(s.drop_last(), sep);
        let init = split_seq(s.drop_last(), sep);
        let r = split_seq(s, sep);
        if s.last() != sep {
            assert forall|i: int| 0 <= i < r.len() implies !(#[trigger] r[i]).contains(sep) by {
                if i == init.len() - 1 {
                    let p = init.last().push(s.last());
                    assert(r[i] == p);
                    if p.contains(sep) {
                        let j = choose|j: int| 0 <= j < p.len() && p[j] == sep;
                        if j < p.len() - 1 {
                            assert(init.last()[j] == sep);
                            assert(init[init.len() - 1].contains(sep));
                        }
                    }
                } else {
                    assert(r[i] == init[i]);
                }
            }
        } else {
            assert forall|i: int| 0 <= i < r.len() implies !(#[trigger] r[i]).contains(sep) by {
                if i < init.len() {
                    assert(r[i] == init[i]);
                } else {
                    assert(r[i] =~= Seq::<char>::empty());
                }
            }
        }
    }
}

proof fn lemma_nonempty_trimmed_clean(pieces: Seq<Seq<char>>)
    requires
        forall|i: int| 0 <= i < pieces.len() ==> !(#[trigger] pieces[i]).contains(','),
    ensures
        all_clean(nonempty_trimmed(pieces)),
    decreases pieces.len(),
{
    if pieces.len() > 0 {
        let init = pieces.drop_last();
        assert forall|i: int| 0 <= i < init.len() implies !(#[trigger] init[i]).contains(',') by {
            assert(init[i] == pieces[i]);
        }
        lemma_nonempty_trimmed_clean(init);
        let t = trim_seq(pieces.last());
        lemma_trim_facts(pieces.last());
        assert(!pieces[pieces.len() - 1].contains(','));
        if t.contains(',') {
            assert(pieces.last().contains(','));
        }
    }
}

/// The entries of a configured list are clean.
pub proof fn lemma_config_list_clean(s: Seq<char>)
    ensures
        all_clean(config_list(s)),
{
    lemma_split_pieces_free(s, ',');
    lemma_nonempty_trimmed_clean(split_seq(s, ','));
}

proof fn lemma_split_append_free(a: Seq<char>, t: Seq<char>, sep: char)
    requires
        !t.contains(sep),
    ensures
        split_seq(a + t, sep) == split_seq(a, sep).update(
            split_seq(a, sep).len() - 1,
            split_seq(a, sep).last() + t,
        ),
    decreases t.len(),
{
    lemma_split_nonempty(a, sep);
    if t.len() == 0 {
        assert(a + t =~= a);
        assert(split_seq(a, sep).last() + t =~= split_seq(a, sep).last());
        assert(split_seq(a, sep).update(split_seq(a, sep).len() - 1, split_seq(a, sep).last())
            =~= split_seq(a, sep));
    } else {
        let t0 = t.drop_last();
        assert forall|j: int| 0 <= j < t0.len() implies t0[j] != sep by {
            assert(t0[j] == t[j]);
        }
        lemma_split_append_free(a, t0, sep);
        assert((a + t).drop_last() =~= a + t0);
        assert((a + t).last() == t.last());
        assert(t.last() != sep) by {
            assert(t[t.len() - 1] == t.last());
        }
        let sa = split_seq(a, sep);
        assert((sa.last() + t0).push(t.last()) =~= sa.last() + t);
        let s1 = sa.update(sa.len() - 1, sa.last() + t0);
        assert(s1.last() == sa.last() + t0);
        assert(s1.update(s1.len() - 1, s1.last().push(t.last())) =~= sa.update(
            sa.len() - 1,
            sa.last() + t,
        ));
    }
}

proof fn lemma_split_join(ts: Seq<Seq<char>>, sep: char)
    requires
        ts.len() >= 1,
        forall|i: int| 0 <= i < ts.len() ==> !(#[trigger] ts[i]).contains(sep),
    ensures
        split_seq(join_seq(ts, seq![sep]), sep) == ts,
    decreases ts.len(),
{
    if ts.len() == 1 {
        lemma_split_append_free(Seq::<char>::empty(), ts[0], sep);
        assert(Seq::<char>::empty() + ts[0] =~= ts[0]);
        assert(split_seq(Seq::<char>::empty(), sep) =~= seq![Seq::<char>::empty()]);
        assert(seq![Seq::<char>::empty()].update(0, Seq::<char>::empty() + ts[0]) =~= ts);
    } else {
        let init = ts.drop_last();
        assert forall|i: int| 0 <= i < init.len() implies !(#[trigger] init[i]).contains(sep) by {
            assert(init[i] == ts[i]);
        }
        lemma_split_join(init, sep);
        let a = join_seq(init, seq![sep]);
        assert(!ts[ts.len() - 1].contains(sep));
        lemma_split_append_free(a.push(sep), ts.last(), sep);
        assert(join_seq(ts, seq![sep]) =~= a.push(sep) + ts.last());
        assert(a + seq![sep] =~= a.push(sep));
        let sp = split_seq(a.push(sep), sep);
        assert(a.push(sep).drop_last() =~= a);
        assert(sp == init.push(Seq::<char>::empty()));
        assert(sp.update(sp.len() - 1, sp.last() + ts.last()) =~= ts);
    }
}

proof fn lemma_nonempty_trimmed_id(ts: Seq<Seq<char>>)
    requires
        all_clean(ts),
    ensures
        nonempty_trimmed(ts) == ts,
    decreases ts.len(),
{
    if ts.len() > 0 {
        let init = ts.drop_last();
        assert forall|i: int| 0 <= i < init.len() implies clean_token(#[trigger] init[i]) by {
            assert(init[i] == ts[i]);
        }
        lemma_nonempty_trimmed_id(init);
        assert(clean_token(ts[ts.len() - 1]));
        assert(init.push(ts.last()) =~= ts);
    }
}

/// Joining clean entries with commas and reading the list back gives them again.
pub proof fn lemma_config_list_join(ts: Seq<Seq<char>>)
    requires
        all_clean(ts),
    ensures
        config_list(join_seq(ts, ","@)) == ts,
{
    reveal_strlit(",");
    assert(","@ =~= seq![',']);
    if ts.len() == 0 {
        assert(split_seq(Seq::<char>::empty(), ',') =~= seq![Seq::<char>::empty()]);
        let p = seq![Seq::<char>::empty()];
        assert(p.last() =~= Seq::<char>::empty());
        assert(trim_start_seq(p.last()) =~= Seq::<char>::empty());
        assert(trim_seq(p.last()) =~= Seq::<char>::empty());
        assert(p.drop_last() =~= Seq::<Seq<char>>::empty());
        assert(nonempty_trimmed(p.drop_last()) =~= Seq::<Seq<char>>::empty());
        assert(nonempty_trimmed(p) =~= Seq::<Seq<char>>::empty());
    } else {
        assert forall|i: int| 0 <= i < ts.len() implies !(#[trigger] ts[i]).contains(',') by {
            assert(clean_token(ts[i]));
        }
        lemma_split_join(ts, ',');
        lemma_nonempty_trimmed_id(ts);
    }
}

} // verus!

verus! {

/// A clean entry neither starts nor ends with whitespace.
pub proof fn lemma_clean_ends(t: Seq<char>)
    requires
        clean_token(t),
    ensures
        !is_ws(t[0]),
        !is_ws(t.last()),
{
    lemma_trim_start_shape(t);
    let w = trim_start_seq(t);
    let a = choose|k: int| 0 <= k <= t.len() && w == t.skip(k);
    lemma_trim_end_shape(w);
    let u = trim_end_seq(w);
    let b = choose|k: int| 0 <= k <= w.len() && u == w.take(k);
    assert(u.len() == t.len());
    assert(a == 0 && b == w.len());
    if is_ws(t[0]) {
        lemma_trim_start_shape(t.drop_first());
        assert(w == trim_start_seq(t.drop_first()));
        let c = choose|k: int| 0 <= k <= t.drop_first().len() && trim_start_seq(t.drop_first())
            == t.drop_first().skip(k);
        assert(w.len() < t.len());
    }
    if is_ws(t.last()) {
        assert(w =~= t);
        lemma_trim_end_shape(w.drop_last());
        assert(u == trim_end_seq(w.drop_last()));
        let c = choose|k: int| 0 <= k <= w.drop_last().len() && trim_end_seq(w.drop_last())
            == w.drop_last().take(k);
        assert(u.len() < t.len());
    }
}

/// Joining nonempty pieces starts with the first piece's first character and ends with the
/// last piece's last character.
pub proof fn lemma_join_ends(ts: Seq<Seq<char>>, sep: Seq<char>)
    requires
        ts.len() > 0,
        forall|i: int| 0 <= i < ts.len() ==> (#[trigger] ts[i]).len() > 0,
    ensures
        join_seq(ts, sep).len() > 0,
        join_seq(ts, sep)[0] == ts[0][0],
        join_seq(ts, sep).last() == ts.last().last(),
    decreases ts.len(),
{
    if ts.len() > 1 {
        let init = ts.drop_last();
        assert forall|i: int| 0 <= i < init.len() implies (#[trigger] init[i]).len() > 0 by {
            assert(init[i] == ts[i]);
        }
        lemma_join_ends(init, sep);
        assert(init[0] == ts[0]);
        assert(ts[ts.len() - 1].len() > 0);
    }
}

/// A list of clean entries, joined with commas, is its own trim.
pub proof fn lemma_clean_join_trimmed(ts: Seq<Seq<char>>)
    requires
        ts.len() > 0,
        all_clean(ts),
    ensures
        join_seq(ts, ","@).len() > 0,
        trim_seq(join_seq(ts, ","@)) == join_seq(ts, ","@),
{
    let j = join_seq(ts, ","@);
    assert forall|i: int| 0 <= i < ts.len() implies (#[trigger] ts[i]).len() > 0 by {
        assert(clean_token(ts[i]));
    }
    lemma_join_ends(ts, ","@);
    lemma_clean_ends(ts[0]);
    assert(clean_token(ts[ts.len() - 1]));
    lemma_clean_ends(ts.last());
    assert(trim_start_seq(j) == j);
    assert(trim_end_seq(j) == j);
}


proof fn lemma_trim_start_all_ws(s: Seq<char>)
    ensures
        trim_start_seq(s).len() == 0 <==> forall|i: int| 0 <= i < s.len() ==> is_ws(#[trigger] s[i]),
    decreases s.len(),
{
    if s.len() > 0 {
        if is_ws(s[0]) {
            let t = s.drop_first();
            lemma_trim_start_all_ws(t);
            if forall|i: int| 0 <= i < t.len() ==> is_ws(#[trigger] t[i]) {
                assert forall|i: int| 0 <= i < s.len() implies is_ws(#[trigger] s[i]) by {
                    if i > 0 {
                        assert(s[i] == t[i - 1]);
                    }
                }
            } else {
                let i = choose|i: int| 0 <= i < t.len() && !is_ws(#[trigger] t[i]);
                assert(s[i + 1] == t[i]);
            }
        }
    }
}

proof fn lemma_trim_end_all_ws(s: Seq<char>)
    ensures
        trim_end_seq(s).len() == 0 <==> forall|i: int| 0 <= i < s.len() ==> is_ws(#[trigger] s[i]),
    decreases s.len(),
{
    if s.len() > 0 {
        if is_ws(s.last()) {
            let t = s.drop_last();
            lemma_trim_end_all_ws(t);
            if forall|i: int| 0 <= i < t.len() ==> is_ws(#[trigger] t[i]) {
                assert forall|i: int| 0 <= i < s.len() implies is_ws(#[trigger] s[i]) by {
                    if i < s.len() - 1 {
                        assert(s[i] == t[i]);
                    }
                }
            } else {
                let i = choose|i: int| 0 <= i < t.len() && !is_ws(#[trigger] t[i]);
                assert(s[i] == t[i]);
            }
        } else {
            assert(!is_ws(s[s.len() - 1]));
        }
    }
}

/// A text trims to nothing exactly when all its characters are whitespace.
proof fn lemma_trim_all_ws(s: Seq<char>)
    ensures
        trim_seq(s).len() == 0 <==> forall|i: int| 0 <= i < s.len() ==> is_ws(#[trigger] s[i]),
{
    lemma_trim_start_all_ws(s);
    lemma_trim_start_shape(s);
    let w = trim_start_seq(s);
    lemma_trim_end_all_ws(w);
    let k = choose|k: int| 0 <= k <= s.len() && w == s.skip(k);
    if trim_seq(s).len() == 0 && w.len() > 0 {
        assert(is_ws(w[0]));
    }
    if forall|i: int| 0 <= i < s.len() ==> is_ws(#[trigger] s[i]) {
        assert(w.len() == 0);
        assert(trim_end_seq(w) =~= w);
    }
}

/// Every character of a piece of `split_seq(s, sep)` is a character of `s`.
proof fn lemma_split_chars_from(s: Seq<char>, sep: char)
    ensures
        forall|i: int, j: int|
            0 <= i < split_seq(s, sep).len() && 0 <= j < split_seq(s, sep)[i].len() ==> s.contains(
                #[trigger] split_seq(s, sep)[i][j],
            ),
    decreases s.len(),
{
    if s.len() > 0 {
        let init = split_seq(s.drop_last(), sep);
        lemma_split_chars_from(s.drop_last(), sep);
        lemma_split_nonempty(s.drop_last(), sep);
        let r = split_seq(s, sep);
        assert forall|i: int, j: int| 0 <= i < r.len() && 0 <= j < r[i].len() implies s.contains(
            #[trigger] r[i][j],
        ) by {
            if s.last() == sep {
                if i < init.len() {
                    assert(r[i] == init[i]);
                    let k = choose|k: int| 0 <= k < s.drop_last().len() && s.drop_last()[k] == init[i][j];
                    assert(s[k] == init[i][j]);
                }
            } else if i == init.len() - 1 {
                let p = init.last().push(s.last());
                assert(r[i] == p);
                if j < p.len() - 1 {
                    assert(p[j] == init[i][j]);
                    let k = choose|k: int| 0 <= k < s.drop_last().len() && s.drop_last()[k] == init[i][j];
                    assert(s[k] == init[i][j]);
                } else {
                    assert(s[s.len() - 1] == r[i][j]);
                }
            } else {
                assert(r[i] == init[i]);
                let k = choose|k: int| 0 <= k < s.drop_last().len() && s.drop_last()[k] == init[i][j];
                assert(s[k] == init[i][j]);
            }
        }
    }
}

proof fn lemma_nonempty_trimmed_blank(pieces: Seq<Seq<char>>)
    requires
        forall|i: int| 0 <= i < pieces.len() ==> trim_seq(#[trigger] pieces[i]).len() == 0,
    ensures
        nonempty_trimmed(pieces).len() == 0,
    decreases pieces.len(),
{
    if pieces.len() > 0 {
        let init = pieces.drop_last();
        assert forall|i: int| 0 <= i < init.len() implies trim_seq(#[trigger] init[i]).len() == 0 by {
            assert(init[i] == pieces[i]);
        }
        lemma_nonempty_trimmed_blank(init);
        assert(trim_seq(pieces[pieces.len() - 1]).len() == 0);
    }
}

/// A blank configured list has no entries.
pub proof fn lemma_blank_has_no_entries(s: Seq<char>)
    requires
        trim_seq(s).len() == 0,
    ensures
        config_list(s).len() == 0,
{
    lemma_trim_all_ws(s);
    lemma_split_chars_from(s, ',');
    let pieces = split_seq(s, ',');
    assert forall|i: int| 0 <= i < pieces.len() implies trim_seq(#[trigger] pieces[i]).len() == 0 by {
        let p = pieces[i];
        assert forall|j: int| 0 <= j < p.len() implies is_ws(#[trigger] p[j]) by {
            assert(s.contains(pieces[i][j]));
            let k = choose|k: int| 0 <= k < s.len() && s[k] == pieces[i][j];
            assert(is_ws(s[k]));
        }
        lemma_trim_all_ws(p);
    }
    lemma_nonempty_trimmed_blank(pieces);
}

} // verus!
