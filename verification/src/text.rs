//! Character-level string helpers with their mathematical meaning.
//!
//! Strings are viewed as `Seq<char>` (the view that vstd gives `str` and
//! `String`); every helper here states its result over that view.

use vstd::prelude::*;

verus! {

/// `String::push`: the string grows by exactly the given character.
#[verifier::external_body]
pub fn push_char(s: &mut String, c: char)
    ensures
        final(s)@ == old(s)@.push(c),
{
    s.push(c);
}

/// The view of an optional string.
pub open spec fn opt_view(o: Option<String>) -> Option<Seq<char>> {
    match o {
        Some(s) => Some(s@),
        None => None,
    }
}

/// Unicode `White_Space`, the property that `char::is_whitespace` tests.
pub open spec fn is_ws(c: char) -> bool {
    let u = c as u32;
    ||| 0x9 <= u <= 0xd
    ||| u == 0x20
    ||| u == 0x85
    ||| u == 0xa0
    ||| u == 0x1680
    ||| 0x2000 <= u <= 0x200a
    ||| u == 0x2028
    ||| u == 0x2029
    ||| u == 0x202f
    ||| u == 0x205f
    ||| u == 0x3000
}

/// `char::is_whitespace`.
pub fn is_whitespace(c: char) -> (b: bool)
    ensures
        b == is_ws(c),
{
    let u = c as u32;
    (0x9 <= u && u <= 0xd) || u == 0x20 || u == 0x85 || u == 0xa0 || u == 0x1680 || (0x2000 <= u
        && u <= 0x200a) || u == 0x2028 || u == 0x2029 || u == 0x202f || u == 0x205f || u
        == 0x3000
}

/// ASCII letters and digits, what `char::is_ascii_alphanumeric` accepts.
pub open spec fn is_ascii_alnum(c: char) -> bool {
    let u = c as u32;
    ||| 0x30 <= u <= 0x39
    ||| 0x41 <= u <= 0x5a
    ||| 0x61 <= u <= 0x7a
}

/// `char::is_ascii_alphanumeric`.
pub fn is_ascii_alphanumeric(c: char) -> (b: bool)
    ensures
        b == is_ascii_alnum(c),
{
    let u = c as u32;
    (0x30 <= u && u <= 0x39) || (0x41 <= u && u <= 0x5a) || (0x61 <= u && u <= 0x7a)
}

/// The characters of a string slice, in order.
pub fn chars_of(s: &str) -> (v: Vec<char>)
    ensures
        v@ == s@,
{
    let mut v: Vec<char> = Vec::new();
    for c in it: s.chars()
        invariant
            it.seq() == s@,
            v@ == s@.take(it.index()),
    {
        assert(s@.take(it.index() + 1) == s@.take(it.index()).push(c));
        v.push(c);
    }
    assert(s@.take(s@.len() as int) == s@);
    v
}

/// The string made of `v[lo..hi]`.
pub fn string_of(v: &Vec<char>, lo: usize, hi: usize) -> (res: String)
    requires
        lo <= hi <= v@.len(),
    ensures
        res@ == v@.subrange(lo as int, hi as int),
{
    let mut out = String::new();
    let mut i = lo;
    while i < hi
        invariant
            lo <= i <= hi <= v@.len(),
            out@ == v@.subrange(lo as int, i as int),
        decreases hi - i,
    {
        assert(v@.subrange(lo as int, i + 1) == v@.subrange(lo as int, i as int).push(v@[i as int]));
        push_char(&mut out, v[i]);
        i = i + 1;
    }
    out
}

/// Every character of `s` is whitespace (the trimmed string is empty).
pub open spec fn is_blank_seq(s: Seq<char>) -> bool {
    forall|i: int| 0 <= i < s.len() ==> is_ws(#[trigger] s[i])
}

/// `s.trim().is_empty()`.
pub fn is_blank(s: &str) -> (b: bool)
    ensures
        b == is_blank_seq(s@),
{
    for c in it: s.chars()
        invariant
            it.seq() == s@,
            forall|i: int| 0 <= i < it.index() ==> is_ws(#[trigger] s@[i]),
    {
        if !is_whitespace(c) {
            return false;
        }
    }
    true
}

/// How many characters of `s` are not whitespace.
pub open spec fn count_non_ws(s: Seq<char>) -> nat
    decreases s.len(),
{
    if s.len() == 0 {
        0
    } else {
        count_non_ws(s.drop_last()) + if is_ws(s.last()) {
            0nat
        } else {
            1nat
        }
    }
}

/// `s.chars().filter(|c| !c.is_whitespace()).count()`.
pub fn non_whitespace_count(s: &str) -> (n: usize)
    ensures
        n == count_non_ws(s@),
{
    let v = chars_of(s);
    let mut n: usize = 0;
    let mut i: usize = 0;
    while i < v.len()
        invariant
            v@ == s@,
            i <= v@.len(),
            n == count_non_ws(s@.take(i as int)),
            n <= i,
        decreases v@.len() - i,
    {
        assert(s@.take(i + 1).drop_last() == s@.take(i as int));
        if !is_whitespace(v[i]) {
            n = n + 1;
        }
        i = i + 1;
    }
    assert(s@.take(s@.len() as int) == s@);
    n
}

/// `s` with the leading characters that satisfy `p` removed.
pub open spec fn strip_leading(s: Seq<char>, p: spec_fn(char) -> bool) -> Seq<char>
    decreases s.len(),
{
    if s.len() > 0 && p(s[0]) {
        strip_leading(s.drop_first(), p)
    } else {
        s
    }
}

/// `s` with the trailing characters that satisfy `p` removed.
pub open spec fn strip_trailing(s: Seq<char>, p: spec_fn(char) -> bool) -> Seq<char>
    decreases s.len(),
{
    if s.len() > 0 && p(s.last()) {
        strip_trailing(s.drop_last(), p)
    } else {
        s
    }
}

/// `str::trim_matches` with a character predicate.
pub open spec fn trim_where(s: Seq<char>, p: spec_fn(char) -> bool) -> Seq<char> {
    strip_trailing(strip_leading(s, p), p)
}

/// `str::trim`.
pub open spec fn trim_ws(s: Seq<char>) -> Seq<char> {
    trim_where(s, |c: char| is_ws(c))
}

/// `str::trim_matches('/')`.
pub open spec fn trim_slashes(s: Seq<char>) -> Seq<char> {
    trim_where(s, |c: char| c == '/')
}

proof fn lemma_strip_leading(s: Seq<char>, p: spec_fn(char) -> bool, i: int)
    requires
        0 <= i <= s.len(),
        forall|k: int| 0 <= k < i ==> p(#[trigger] s[k]),
        i == s.len() || !p(s[i]),
    ensures
        strip_leading(s, p) == s.subrange(i, s.len() as int),
    decreases i,
{
    if i == 0 {
        assert(s.subrange(0, s.len() as int) == s);
    } else {
        let t = s.drop_first();
        assert forall|k: int| 0 <= k < i - 1 implies p(#[trigger] t[k]) by {
            assert(t[k] == s[k + 1]);
        }
        lemma_strip_leading(t, p, i - 1);
        assert(t.subrange(i - 1, t.len() as int) == s.subrange(i, s.len() as int));
    }
}

proof fn lemma_strip_trailing(s: Seq<char>, p: spec_fn(char) -> bool, j: int)
    requires
        0 <= j <= s.len(),
        forall|k: int| j <= k < s.len() ==> p(#[trigger] s[k]),
        j == 0 || !p(s[j - 1]),
    ensures
        strip_trailing(s, p) == s.subrange(0, j),
    decreases s.len() - j,
{
    if j == s.len() {
        assert(s.subrange(0, s.len() as int) == s);
    } else {
        let t = s.drop_last();
        assert forall|k: int| j <= k < t.len() implies p(#[trigger] t[k]) by {
            assert(t[k] == s[k]);
        }
        lemma_strip_trailing(t, p, j);
        assert(t.subrange(0, j) == s.subrange(0, j));
    }
}

fn trimmed_char(c: char, slash: bool) -> (b: bool)
    ensures
        b == (if slash {
            c == '/'
        } else {
            is_ws(c)
        }),
{
    if slash {
        c == '/'
    } else {
        is_whitespace(c)
    }
}

/// The bounds `(i, j)` such that `trim_where(v, p) == v[i..j]`, found for the
/// predicate given by `slash`: `/` when it is set, whitespace otherwise.
fn trim_bounds(v: &Vec<char>, slash: bool) -> (r: (usize, usize))
    ensures
        r.0 <= r.1 <= v@.len(),
        slash ==> trim_slashes(v@) == v@.subrange(r.0 as int, r.1 as int),
        !slash ==> trim_ws(v@) == v@.subrange(r.0 as int, r.1 as int),
{
    let ghost p: spec_fn(char) -> bool = if slash {
        |c: char| c == '/'
    } else {
        |c: char| is_ws(c)
    };
    let n = v.len();
    let mut i: usize = 0;
    while i < n && trimmed_char(v[i], slash)
        invariant
            i <= n == v@.len(),
            forall|k: int| 0 <= k < i ==> p(#[trigger] v@[k]),
            p == (if slash {
                |c: char| c == '/'
            } else {
                |c: char| is_ws(c)
            }),
        decreases n - i,
    {
        i = i + 1;
    }
    proof {
        lemma_strip_leading(v@, p, i as int);
    }
    let ghost lead = v@.subrange(i as int, n as int);
    let mut j: usize = n;
    while j > i && trimmed_char(v[j - 1], slash)
        invariant
            i <= j <= n == v@.len(),
            lead == v@.subrange(i as int, n as int),
            forall|k: int| j <= k < n ==> p(#[trigger] v@[k]),
            p == (if slash {
                |c: char| c == '/'
            } else {
                |c: char| is_ws(c)
            }),
        decreases j - i,
    {
        j = j - 1;
    }
    proof {
        assert forall|k: int| j - i <= k < lead.len() implies p(#[trigger] lead[k]) by {
            assert(lead[k] == v@[k + i]);
        }
        if j > i {
            assert(lead[j - i - 1] == v@[j - 1]);
        }
        lemma_strip_trailing(lead, p, j - i);
        assert(lead.subrange(0, j - i) == v@.subrange(i as int, j as int));
        if slash {
            assert(trim_slashes(v@) == trim_where(v@, p));
        } else {
            assert(trim_ws(v@) == trim_where(v@, p));
        }
    }
    (i, j)
}

/// `s.trim().to_string()`.
pub fn trim(s: &str) -> (res: String)
    ensures
        res@ == trim_ws(s@),
{
    let v = chars_of(s);
    let (i, j) = trim_bounds(&v, false);
    string_of(&v, i, j)
}

/// `s.trim_matches('/').to_string()`.
pub fn trim_slash(s: &str) -> (res: String)
    ensures
        res@ == trim_slashes(s@),
{
    let v = chars_of(s);
    let (i, j) = trim_bounds(&v, true);
    string_of(&v, i, j)
}

/// `s` with every `from` replaced by `to`.
pub open spec fn replace_char(s: Seq<char>, from: char, to: char) -> Seq<char> {
    s.map_values(|c: char| if c == from { to } else { c })
}

/// `s.replace(from, to)` for single characters.
pub fn replace_char_exec(s: &str, from: char, to: char) -> (res: String)
    ensures
        res@ == replace_char(s@, from, to),
{
    let mut out = String::new();
    for c in it: s.chars()
        invariant
            it.seq() == s@,
            out@ == replace_char(s@.take(it.index()), from, to),
    {
        assert(replace_char(s@.take(it.index() + 1), from, to) == replace_char(
            s@.take(it.index()),
            from,
            to,
        ).push(if c == from { to } else { c }));
        if c == from {
            push_char(&mut out, to);
        } else {
            push_char(&mut out, c);
        }
    }
    assert(s@.take(s@.len() as int) == s@);
    out
}

/// The character that keeps file and directory names portable: ASCII letters,
/// digits, `.`, `-` and `_` stay, anything else becomes `_`.
pub open spec fn safe_char(c: char) -> char {
    if is_ascii_alnum(c) || c == '.' || c == '-' || c == '_' {
        c
    } else {
        '_'
    }
}

/// `s` with every character made safe.
pub open spec fn safe_chars(s: Seq<char>) -> Seq<char> {
    s.map_values(|c: char| safe_char(c))
}

/// Map every character of `s` through `safe_char`.
pub fn make_safe(s: &str) -> (res: String)
    ensures
        res@ == safe_chars(s@),
{
    let mut out = String::new();
    for c in it: s.chars()
        invariant
            it.seq() == s@,
            out@ == safe_chars(s@.take(it.index())),
    {
        assert(safe_chars(s@.take(it.index() + 1)) == safe_chars(s@.take(it.index())).push(
            safe_char(c),
        ));
        if is_ascii_alphanumeric(c) || c == '.' || c == '-' || c == '_' {
            push_char(&mut out, c);
        } else {
            push_char(&mut out, '_');
        }
    }
    assert(s@.take(s@.len() as int) == s@);
    out
}

/// `p` is a prefix of `s`.
pub open spec fn has_prefix(s: Seq<char>, p: Seq<char>) -> bool {
    p.len() <= s.len() && s.subrange(0, p.len() as int) == p
}

/// `s.starts_with(p)`.
pub fn starts_with(s: &str, p: &str) -> (b: bool)
    ensures
        b == has_prefix(s@, p@),
{
    let sv = chars_of(s);
    let pv = chars_of(p);
    if pv.len() > sv.len() {
        return false;
    }
    let mut i: usize = 0;
    while i < pv.len()
        invariant
            pv@.len() <= sv@.len(),
            sv@ == s@,
            pv@ == p@,
            i <= pv@.len(),
            forall|k: int| 0 <= k < i ==> sv@[k] == pv@[k],
        decreases pv@.len() - i,
    {
        if sv[i] != pv[i] {
            return false;
        }
        i = i + 1;
    }
    assert(sv@.subrange(0, pv@.len() as int) == pv@);
    true
}

/// `n` occurs in `h` starting at `i`.
pub open spec fn occurs_at(h: Seq<char>, n: Seq<char>, i: int) -> bool {
    0 <= i && i + n.len() <= h.len() && h.subrange(i, i + n.len()) == n
}

/// `n` occurs somewhere in `h`.
pub open spec fn has_substring(h: Seq<char>, n: Seq<char>) -> bool {
    exists|i: int| occurs_at(h, n, i)
}

/// `h.contains(n)`.
pub fn contains_str(h: &str, n: &str) -> (b: bool)
    ensures
        b == has_substring(h@, n@),
{
    let hv = chars_of(h);
    let nv = chars_of(n);
    if nv.len() > hv.len() {
        assert forall|i: int| !occurs_at(h@, n@, i) by {}
        return false;
    }
    let last = hv.len() - nv.len();
    let mut i: usize = 0;
    loop
        invariant
            hv@ == h@,
            nv@ == n@,
            nv@.len() <= hv@.len(),
            last == hv@.len() - nv@.len(),
            i <= last,
            forall|k: int| 0 <= k < i ==> !occurs_at(h@, n@, k),
        decreases last - i,
    {
        let mut j: usize = 0;
        let mut same = true;
        while j < nv.len()
            invariant
                hv@ == h@,
                nv@ == n@,
                nv@.len() <= hv@.len(),
                i <= last,
                last == hv@.len() - nv@.len(),
                j <= nv@.len(),
                i + nv.len() <= hv.len(),
                same == (forall|k: int| 0 <= k < j ==> hv@[i + k] == nv@[k]),
            decreases nv@.len() - j,
        {
            if hv[i + j] != nv[j] {
                same = false;
            }
            j = j + 1;
        }
        if same {
            assert(h@.subrange(i as int, i + n@.len()) == n@);
            assert(occurs_at(h@, n@, i as int));
            return true;
        } else {
            assert(!occurs_at(h@, n@, i as int)) by {
                if occurs_at(h@, n@, i as int) {
                    assert forall|k: int| 0 <= k < nv@.len() implies hv@[i + k] == nv@[k] by {
                        assert(h@.subrange(i as int, i + n@.len())[k] == h@[i + k]);
                    }
                }
            }
        }
        if i == last {
            assert forall|k: int| !occurs_at(h@, n@, k) by {
                if k > last {
                    assert(!(k + n@.len() <= h@.len()));
                }
            }
            return false;
        }
        i = i + 1;
    }
}

/// The decimal digit `d`.
pub open spec fn digit_char(d: nat) -> char {
    if d == 0 {
        '0'
    } else if d == 1 {
        '1'
    } else if d == 2 {
        '2'
    } else if d == 3 {
        '3'
    } else if d == 4 {
        '4'
    } else if d == 5 {
        '5'
    } else if d == 6 {
        '6'
    } else if d == 7 {
        '7'
    } else if d == 8 {
        '8'
    } else {
        '9'
    }
}

/// The decimal notation of `n`, as `format!("{}", n)` writes it.
pub open spec fn decimal(n: nat) -> Seq<char>
    decreases n,
{
    if n < 10 {
        seq![digit_char(n)]
    } else {
        decimal(n / 10).push(digit_char(n % 10))
    }
}

/// The decimal digit `d` as a character.
pub fn digit_exec(d: u64) -> (c: char)
    requires
        d < 10,
    ensures
        c == digit_char(d as nat),
{
    if d == 0 {
        '0'
    } else if d == 1 {
        '1'
    } else if d == 2 {
        '2'
    } else if d == 3 {
        '3'
    } else if d == 4 {
        '4'
    } else if d == 5 {
        '5'
    } else if d == 6 {
        '6'
    } else if d == 7 {
        '7'
    } else if d == 8 {
        '8'
    } else {
        '9'
    }
}

/// Append the decimal notation of `n`.
pub fn push_decimal(out: &mut String, n: u64)
    ensures
        final(out)@ == old(out)@ + decimal(n as nat),
    decreases n,
{
    if n >= 10 {
        push_decimal(out, n / 10);
    }
    push_char(out, digit_exec(n % 10));
    proof {
        if n < 10 {
            assert(n % 10 == n);
        }
    }
}

/// `format!("{}", n)`.
pub fn decimal_string(n: u64) -> (res: String)
    ensures
        res@ == decimal(n as nat),
{
    let mut out = String::new();
    push_decimal(&mut out, n);
    out
}

/// `s + t`, as a new string.
pub fn concat_str(s: &str, t: &str) -> (res: String)
    ensures
        res@ == s@ + t@,
{
    let mut out = s.to_owned();
    out.append(t);
    out
}

proof fn lemma_strip_leading_shape(s: Seq<char>, p: spec_fn(char) -> bool)
    ensures
        exists|i: int|
            0 <= i <= s.len() && strip_leading(s, p) == s.subrange(i, s.len() as int) && (forall|
                k: int,
            | 0 <= k < i ==> p(#[trigger] s[k])),
        strip_leading(s, p).len() > 0 ==> !p(strip_leading(s, p)[0]),
    decreases s.len(),
{
    if s.len() > 0 && p(s[0]) {
        let t = s.drop_first();
        lemma_strip_leading_shape(t, p);
        let i = choose|i: int|
            0 <= i <= t.len() && strip_leading(t, p) == t.subrange(i, t.len() as int) && (forall|
                k: int,
            | 0 <= k < i ==> p(#[trigger] t[k]));
        assert(t.subrange(i, t.len() as int) == s.subrange(i + 1, s.len() as int));
        assert forall|k: int| 0 <= k < i + 1 implies p(#[trigger] s[k]) by {
            if k > 0 {
                assert(s[k] == t[k - 1]);
            }
        }
    } else {
        assert(s.subrange(0, s.len() as int) == s);
    }
}

proof fn lemma_strip_trailing_shape(s: Seq<char>, p: spec_fn(char) -> bool)
    ensures
        exists|j: int|
            0 <= j <= s.len() && strip_trailing(s, p) == s.subrange(0, j) && (forall|k: int|
                j <= k < s.len() ==> p(#[trigger] s[k])),
        strip_trailing(s, p).len() > 0 ==> !p(strip_trailing(s, p).last()),
    decreases s.len(),
{
    if s.len() > 0 && p(s.last()) {
        let t = s.drop_last();
        lemma_strip_trailing_shape(t, p);
        let j = choose|j: int|
            0 <= j <= t.len() && strip_trailing(t, p) == t.subrange(0, j) && (forall|k: int|
                j <= k < t.len() ==> p(#[trigger] t[k]));
        assert(t.subrange(0, j) == s.subrange(0, j));
        assert forall|k: int| j <= k < s.len() implies p(#[trigger] s[k]) by {
            if k < s.len() - 1 {
                assert(s[k] == t[k]);
            }
        }
    } else {
        assert(s.subrange(0, s.len() as int) == s);
    }
}

/// Trimming keeps a contiguous part of the text, drops only whitespace on
/// either side of it, and leaves no whitespace at either end.
pub proof fn trim_drops_only_outer_whitespace(s: Seq<char>)
    ensures
        exists|i: int, j: int|
            0 <= i <= j <= s.len() && trim_ws(s) == s.subrange(i, j) && (forall|k: int|
                0 <= k < i ==> is_ws(#[trigger] s[k])) && (forall|k: int|
                j <= k < s.len() ==> is_ws(#[trigger] s[k])),
        trim_ws(s).len() > 0 ==> !is_ws(trim_ws(s)[0]) && !is_ws(trim_ws(s).last()),
{
    let p = |c: char| is_ws(c);
    let lead = strip_leading(s, p);
    lemma_strip_leading_shape(s, p);
    lemma_strip_trailing_shape(lead, p);
    let i = choose|i: int|
        0 <= i <= s.len() && lead == s.subrange(i, s.len() as int) && (forall|k: int|
            0 <= k < i ==> p(#[trigger] s[k]));
    let j = choose|j: int|
        0 <= j <= lead.len() && strip_trailing(lead, p) == lead.subrange(0, j) && (forall|k: int|
            j <= k < lead.len() ==> p(#[trigger] lead[k]));
    assert(trim_ws(s) == strip_trailing(lead, p));
    assert(lead.subrange(0, j) == s.subrange(i, i + j));
    assert forall|k: int| i + j <= k < s.len() implies is_ws(#[trigger] s[k]) by {
        assert(s[k] == lead[k - i]);
        assert(p(lead[k - i]));
    }
    assert forall|k: int| 0 <= k < i implies is_ws(#[trigger] s[k]) by {
        assert(p(s[k]));
    }
    if trim_ws(s).len() > 0 {
        assert(trim_ws(s)[0] == lead[0]);
        assert(!p(lead[0]));
    }
}

/// Making a name safe keeps its length, keeps every safe character where it
/// is, and turns every other character into `_`.
pub proof fn safe_chars_shape(s: Seq<char>)
    ensures
        safe_chars(s).len() == s.len(),
        forall|i: int|
            0 <= i < s.len() ==> (#[trigger] safe_chars(s)[i] == if is_ascii_alnum(s[i]) || s[i]
                == '.' || s[i] == '-' || s[i] == '_' {
                s[i]
            } else {
                '_'
            }),
{
}

/// The number that a string of decimal digits denotes.
pub open spec fn digits_value(s: Seq<char>) -> nat
    decreases s.len(),
{
    if s.len() == 0 {
        0
    } else {
        digits_value(s.drop_last()) * 10 + ((s.last() as u32) - 0x30) as nat
    }
}

/// Reading the decimal notation of `n` back gives `n`.
pub proof fn decimal_reads_back(n: nat)
    ensures
        digits_value(decimal(n)) == n,
        decimal(n).len() >= 1,
    decreases n,
{
    let d = (n % 10) as nat;
    assert((digit_char(d) as u32) - 0x30 == d);
    if n >= 10 {
        decimal_reads_back(n / 10);
        assert(decimal(n).drop_last() == decimal(n / 10));
        assert(decimal(n).last() == digit_char(d));
        assert(n == (n / 10) * 10 + d);
    } else {
        assert(d == n);
        assert(decimal(n).drop_last().len() == 0);
        assert(digits_value(decimal(n).drop_last()) == 0);
        assert(decimal(n).last() == digit_char(n));
    }
}

} // verus!
