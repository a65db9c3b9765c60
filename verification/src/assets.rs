//! Names of the downloaded images and the map from their URLs to the local
//! copies. The downloads themselves are done by the program around the
//! library.

use vstd::prelude::*;
use crate::converter::AssetMap;
use crate::text::{
    chars_of, concat_str, decimal, decimal_string, is_ascii_alnum, make_safe, safe_char,
    safe_chars, string_of,
};
use crate::web_url::{WebUrl, url_path};

verus! {

/// What follows the last `/` of `s` (all of `s` where it has none).
pub open spec fn after_last_slash(s: Seq<char>) -> Seq<char>
    decreases s.len(),
{
    if s.len() == 0 || s.last() == '/' {
        Seq::empty()
    } else {
        after_last_slash(s.drop_last()).push(s.last())
    }
}

/// The last path segment, as `Url::path_segments().next_back()` gives it:
/// `None` for a path that does not start with `/` (a cannot-be-a-base URL).
pub open spec fn last_segment(path: Seq<char>) -> Option<Seq<char>> {
    if path.len() > 0 && path[0] == '/' {
        Some(after_last_slash(path))
    } else {
        None
    }
}

/// The file name of the `idx`-th image of the page whose URL has path `path`:
/// `<idx>-<last segment made safe>` where that segment has a `.`, otherwise
/// `image-<idx>.bin`.
pub open spec fn filename_for(path: Seq<char>, idx: nat) -> Seq<char> {
    let seg = match last_segment(path) {
        Some(s) => safe_chars(s),
        None => Seq::empty(),
    };
    if seg.len() == 0 || !seg.contains('.') {
        "image-"@ + decimal(idx) + ".bin"@
    } else {
        decimal(idx) + "-"@ + seg
    }
}

fn last_slash_from(v: &Vec<char>) -> (k: usize)
    requires
        v@.len() > 0,
        v@[0] == '/',
    ensures
        k < v@.len(),
        v@[k as int] == '/',
        after_last_slash(v@) == v@.subrange(k + 1, v@.len() as int),
{
    let mut k: usize = v.len() - 1;
    while v[k] != '/'
        invariant
            k < v@.len(),
            v@[0] == '/',
            forall|j: int| k < j < v@.len() ==> v@[j] != '/',
        decreases k,
    {
        k = k - 1;
    }
    proof {
        lemma_after_last_slash(v@, k as int);
    }
    k
}

proof fn lemma_after_last_slash(s: Seq<char>, k: int)
    requires
        0 <= k < s.len(),
        s[k] == '/',
        forall|j: int| k < j < s.len() ==> s[j] != '/',
    ensures
        after_last_slash(s) == s.subrange(k + 1, s.len() as int),
    decreases s.len(),
{
    if k == s.len() - 1 {
    } else {
        let t = s.drop_last();
        assert forall|j: int| k < j < t.len() implies t[j] != '/' by {
            assert(t[j] == s[j]);
        }
        lemma_after_last_slash(t, k);
        assert(s.subrange(k + 1, s.len() as int) == t.subrange(k + 1, t.len() as int).push(
            s.last(),
        ));
    }
}

fn has_dot(s: &str) -> (b: bool)
    ensures
        b == s@.contains('.'),
{
    let v = chars_of(s);
    let mut i: usize = 0;
    while i < v.len()
        invariant
            v@ == s@,
            i <= v@.len(),
            forall|j: int| 0 <= j < i ==> v@[j] != '.',
        decreases v@.len() - i,
    {
        if v[i] == '.' {
            assert(s@[i as int] == '.');
            return true;
        }
        i = i + 1;
    }
    false
}

/// The local file name for the `idx`-th image, from the last segment of its
/// URL's path.
pub fn guess_filename(url: &WebUrl, idx: usize) -> (name: String)
    ensures
        name@ == filename_for(url_path(url@), idx as nat),
{
    let path = url.path();
    let v = chars_of(&path);
    let last_seg = if v.len() > 0 && v[0] == '/' {
        let k = last_slash_from(&v);
        sanitize(&string_of(&v, k + 1, v.len()))
    } else {
        String::new()
    };
    if last_seg.as_str().is_empty() || !has_dot(&last_seg) {
        let head = concat_str("image-", &decimal_string(idx as u64));
        concat_str(&head, ".bin")
    } else {
        let head = concat_str(&decimal_string(idx as u64), "-");
        concat_str(&head, &last_seg)
    }
}

/// `s` with every character other than ASCII letters, digits, `.`, `-` and
/// `_` replaced by `_`.
pub fn sanitize(s: &str) -> (r: String)
    ensures
        r@ == safe_chars(s@),
{
    make_safe(s)
}

/// Where each image of a download goes: its URL, the key of the asset map,
/// and the file name of the `i`-th one.
pub open spec fn planned(urls: Seq<WebUrl>, plan: Seq<(String, String)>) -> bool {
    &&& plan.len() == urls.len()
    &&& forall|i: int|
        0 <= i < urls.len() ==> {
            &&& (#[trigger] plan[i]).0@ == urls[i]@
            &&& plan[i].1@ == filename_for(url_path(urls[i]@), i as nat)
        }
}

/// Name the download of each image: its URL as the key and the file name
/// derived from the URL and the image's position.
pub fn download_plan(urls: &Vec<WebUrl>) -> (plan: Vec<(String, String)>)
    ensures
        planned(urls@, plan@),
{
    let mut plan: Vec<(String, String)> = Vec::new();
    let mut i: usize = 0;
    while i < urls.len()
        invariant
            i <= urls@.len(),
            planned(urls@.take(i as int), plan@),
        decreases urls@.len() - i,
    {
        let key = urls[i].as_str().to_owned();
        let name = guess_filename(&urls[i], i);
        let ghost before = plan@;
        plan.push((key, name));
        assert forall|j: int| 0 <= j < i + 1 implies {
            &&& (#[trigger] plan@[j]).0@ == urls@.take(i + 1)[j]@
            &&& plan@[j].1@ == filename_for(url_path(urls@.take(i + 1)[j]@), j as nat)
        } by {
            if j < i {
                assert(plan@[j] == before[j]);
                assert(urls@.take(i + 1)[j] == urls@.take(i as int)[j]);
            }
        }
        i = i + 1;
    }
    assert(urls@.take(urls@.len() as int) == urls@);
    plan
}

/// The path of a downloaded image relative to the output directory.
pub open spec fn local_path(filename: Seq<char>) -> Seq<char> {
    "assets/"@ + filename
}

/// Where the image named `filename` is referenced from `index.md`.
pub fn local_asset_path(filename: &str) -> (p: String)
    ensures
        p@ == local_path(filename@),
{
    concat_str("assets/", filename)
}

/// The map built from the download plan and the outcome of each download,
/// in order: each image whose download succeeded maps its URL to
/// `assets/<its file name>`; failed ones are left out.
pub open spec fn outcome_map(plan: Seq<(String, String)>, ok: Seq<bool>) -> Map<
    Seq<char>,
    Seq<char>,
>
    decreases plan.len(),
{
    if plan.len() == 0 || ok.len() == 0 {
        Map::empty()
    } else {
        let m = outcome_map(plan.drop_last(), ok.drop_last());
        if ok.last() {
            m.insert(plan.last().0@, local_path(plan.last().1@))
        } else {
            m
        }
    }
}

proof fn lemma_outcome_map(plan: Seq<(String, String)>, ok: Seq<bool>)
    requires
        plan.len() == ok.len(),
    ensures
        forall|k: Seq<char>|
            #[trigger] outcome_map(plan, ok).contains_key(k) <==> exists|j: int|
                0 <= j < plan.len() && plan[j].0@ == k && ok[j],
        forall|i: int|
            0 <= i < plan.len() && ok[i] && (forall|j: int|
                0 <= j < plan.len() && j != i ==> plan[j].0@ != plan[i].0@) ==> #[trigger] outcome_map(
                plan,
                ok,
            )[plan[i].0@] == local_path(plan[i].1@),
    decreases plan.len(),
{
    if plan.len() > 0 {
        let tp = plan.drop_last();
        let to = ok.drop_last();
        let n = plan.len() - 1;
        lemma_outcome_map(tp, to);
        let m = outcome_map(tp, to);
        assert forall|k: Seq<char>| #[trigger] outcome_map(plan, ok).contains_key(k) <==> exists|
            j: int,
        | 0 <= j < plan.len() && plan[j].0@ == k && ok[j] by {
            if outcome_map(plan, ok).contains_key(k) {
                if m.contains_key(k) {
                    let j = choose|j: int| 0 <= j < tp.len() && tp[j].0@ == k && to[j];
                    assert(plan[j] == tp[j] && ok[j] == to[j]);
                } else {
                    assert(plan[n].0@ == k && ok[n]);
                }
            }
            if exists|j: int| 0 <= j < plan.len() && plan[j].0@ == k && ok[j] {
                let j = choose|j: int| 0 <= j < plan.len() && plan[j].0@ == k && ok[j];
                if j < n {
                    assert(plan[j] == tp[j] && ok[j] == to[j]);
                    assert(m.contains_key(k));
                }
            }
        }
        assert forall|i: int|
            0 <= i < plan.len() && ok[i] && (forall|j: int|
                0 <= j < plan.len() && j != i ==> plan[j].0@ != plan[i].0@) implies #[trigger] outcome_map(
            plan,
            ok,
        )[plan[i].0@] == local_path(plan[i].1@) by {
            if i < n {
                assert(plan[i] == tp[i] && ok[i] == to[i]);
                assert forall|j: int| 0 <= j < tp.len() && j != i implies tp[j].0@ != tp[i].0@ by {
                    assert(tp[j] == plan[j]);
                }
                assert(plan[n].0@ != plan[i].0@);
                assert(m[tp[i].0@] == local_path(tp[i].1@));
            }
        }
    }
}

/// Collect the outcomes of the planned downloads into the asset map:
/// `ok[i]` tells whether the `i`-th image of `plan` was downloaded. A URL is
/// mapped exactly where some download of it succeeded; failures are skipped,
/// not propagated; an image whose URL is planned once maps to
/// `assets/<its file name>`. The order in which downloads complete plays no
/// part: the outcomes are taken in the plan's order.
pub fn asset_map_from_outcomes(plan: &Vec<(String, String)>, ok: &Vec<bool>) -> (map: AssetMap)
    requires
        plan@.len() == ok@.len(),
    ensures
        map@ == outcome_map(plan@, ok@),
        forall|i: int|
            0 <= i < plan@.len() ==> (map@.contains_key(#[trigger] plan@[i].0@) <==> exists|j: int|
                0 <= j < plan@.len() && plan@[j].0@ == plan@[i].0@ && ok@[j]),
        forall|k: Seq<char>|
            #[trigger] map@.contains_key(k) ==> exists|j: int|
                0 <= j < plan@.len() && plan@[j].0@ == k && ok@[j],
        forall|i: int|
            0 <= i < plan@.len() && ok@[i] && (forall|j: int|
                0 <= j < plan@.len() && j != i ==> plan@[j].0@ != plan@[i].0@) ==> map@[
                #[trigger] plan@[i].0@] == local_path(plan@[i].1@),
{
    let mut map = AssetMap::new();
    let mut i: usize = 0;
    while i < plan.len()
        invariant
            i <= plan@.len() == ok@.len(),
            map@ == outcome_map(plan@.take(i as int), ok@.take(i as int)),
        decreases plan@.len() - i,
    {
        assert(plan@.take(i + 1).drop_last() == plan@.take(i as int));
        assert(ok@.take(i + 1).drop_last() == ok@.take(i as int));
        assert(plan@.take(i + 1).last() == plan@[i as int]);
        assert(ok@.take(i + 1).last() == ok@[i as int]);
        if ok[i] {
            map.insert(plan[i].0.clone(), local_asset_path(&plan[i].1));
        }
        i = i + 1;
    }
    assert(plan@.take(plan@.len() as int) == plan@);
    assert(ok@.take(ok@.len() as int) == ok@);
    proof {
        lemma_outcome_map(plan@, ok@);
    }
    map
}

proof fn lemma_decimal_digits(n: nat)
    ensures
        forall|i: int| 0 <= i < decimal(n).len() ==> is_ascii_alnum(#[trigger] decimal(n)[i]),
    decreases n,
{
    assert(is_ascii_alnum(crate::text::digit_char(n % 10)));
    assert(n < 10 ==> is_ascii_alnum(crate::text::digit_char(n)));
    if n >= 10 {
        lemma_decimal_digits(n / 10);
        let d = decimal(n);
        assert forall|i: int| 0 <= i < d.len() implies is_ascii_alnum(#[trigger] d[i]) by {
            if i < d.len() - 1 {
                assert(d[i] == decimal(n / 10)[i]);
            }
        }
    }
}

proof fn lemma_decimal_is_digits(n: nat)
    ensures
        decimal(n).len() >= 1,
        n >= 10 ==> decimal(n).len() >= 2,
        forall|i: int|
            0 <= i < decimal(n).len() ==> 0x30 <= (#[trigger] decimal(n)[i]) as u32 <= 0x39,
    decreases n,
{
    if n >= 10 {
        lemma_decimal_is_digits(n / 10);
        let d = decimal(n);
        assert forall|i: int| 0 <= i < d.len() implies 0x30 <= (#[trigger] d[i]) as u32 <= 0x39 by {
            if i < d.len() - 1 {
                assert(d[i] == decimal(n / 10)[i]);
            }
        }
    }
}

proof fn lemma_digit_char_injective(a: nat, b: nat)
    requires
        a < 10,
        b < 10,
        crate::text::digit_char(a) == crate::text::digit_char(b),
    ensures
        a == b,
{
}

proof fn lemma_decimal_injective(n: nat, m: nat)
    requires
        decimal(n) == decimal(m),
    ensures
        n == m,
    decreases n,
{
    lemma_decimal_is_digits(n);
    lemma_decimal_is_digits(m);
    if n < 10 && m < 10 {
        assert(decimal(n) == seq![crate::text::digit_char(n)]);
        assert(decimal(m) == seq![crate::text::digit_char(m)]);
        assert(decimal(n)[0] == decimal(m)[0]);
        assert(seq![crate::text::digit_char(n)][0] == crate::text::digit_char(n));
        assert(seq![crate::text::digit_char(m)][0] == crate::text::digit_char(m));
        lemma_digit_char_injective(n, m);
    } else if n >= 10 && m >= 10 {
        let a = decimal(n);
        let b = decimal(m);
        assert(a.drop_last() == decimal(n / 10));
        assert(b.drop_last() == decimal(m / 10));
        lemma_decimal_injective(n / 10, m / 10);
        assert(a.last() == b.last());
        lemma_digit_char_injective(n % 10, m % 10);
    }
}

/// Images at different positions get different file names, whatever their
/// URLs: the index that starts each name keeps them apart.
pub proof fn filenames_are_distinct(p: Seq<char>, i: nat, q: Seq<char>, j: nat)
    requires
        i != j,
    ensures
        filename_for(p, i) != filename_for(q, j),
{
    reveal_strlit("image-");
    reveal_strlit(".bin");
    reveal_strlit("-");
    lemma_decimal_is_digits(i);
    lemma_decimal_is_digits(j);
    let di = decimal(i);
    let dj = decimal(j);
    let f = filename_for(p, i);
    let g = filename_for(q, j);
    if f == g {
        let seg_p = match last_segment(p) {
            Some(s) => safe_chars(s),
            None => Seq::<char>::empty(),
        };
        let seg_q = match last_segment(q) {
            Some(s) => safe_chars(s),
            None => Seq::<char>::empty(),
        };
        let image_p = seg_p.len() == 0 || !seg_p.contains('.');
        let image_q = seg_q.len() == 0 || !seg_q.contains('.');
        if image_p && image_q {
            assert(f == "image-"@ + di + ".bin"@);
            assert(g == "image-"@ + dj + ".bin"@);
            assert(di.len() == dj.len());
            assert(f.subrange(6, 6 + di.len() as int) == di);
            assert(g.subrange(6, 6 + dj.len() as int) == dj);
            lemma_decimal_injective(i, j);
        } else if image_p && !image_q {
            assert(f[0] == 'i');
            assert(g[0] == dj[0]);
        } else if !image_p && image_q {
            assert(g[0] == 'i');
            assert(f[0] == di[0]);
        } else {
            assert(f == di + "-"@ + seg_p);
            assert(g == dj + "-"@ + seg_q);
            if di.len() < dj.len() {
                assert(f[di.len() as int] == '-');
                assert(g[di.len() as int] == dj[di.len() as int]);
            } else if dj.len() < di.len() {
                assert(g[dj.len() as int] == '-');
                assert(f[dj.len() as int] == di[dj.len() as int]);
            } else {
                assert(f.subrange(0, di.len() as int) == di);
                assert(g.subrange(0, dj.len() as int) == dj);
                lemma_decimal_injective(i, j);
            }
        }
    }
}

/// A character that may stand in a portable file name.
pub open spec fn portable(c: char) -> bool {
    is_ascii_alnum(c) || c == '.' || c == '-' || c == '_'
}

/// Every image file name is portable: it holds only ASCII letters, digits,
/// `.`, `-` and `_`.
pub proof fn filenames_are_portable(path: Seq<char>, idx: nat)
    ensures
        forall|i: int|
            0 <= i < filename_for(path, idx).len() ==> portable(#[trigger] filename_for(path, idx)[i]),
{
    lemma_decimal_digits(idx);
    reveal_strlit("image-");
    reveal_strlit(".bin");
    reveal_strlit("-");
    let seg = match last_segment(path) {
        Some(s) => safe_chars(s),
        None => Seq::<char>::empty(),
    };
    assert forall|i: int| 0 <= i < seg.len() implies portable(#[trigger] seg[i]) by {
        let s = last_segment(path)->0;
        assert(seg[i] == safe_char(s[i]));
    }
    let d = decimal(idx);
    let f = filename_for(path, idx);
    assert forall|i: int| 0 <= i < f.len() implies portable(#[trigger] f[i]) by {
        if seg.len() == 0 || !seg.contains('.') {
            if i >= 6 && i < 6 + d.len() {
                assert(f[i] == d[i - 6]);
            }
        } else {
            if i < d.len() {
                assert(f[i] == d[i]);
            } else if i > d.len() {
                assert(f[i] == seg[i - d.len() - 1]);
            }
        }
    }
}

/// An image whose last path segment holds a `.` keeps that segment (made
/// safe) as the end of its file name, after the index and a `-`.
pub proof fn filename_keeps_segment(path: Seq<char>, idx: nat)
    requires
        last_segment(path) matches Some(s) && safe_chars(s).contains('.'),
    ensures
        filename_for(path, idx) == decimal(idx) + "-"@ + safe_chars(last_segment(path)->0),
{
    let s = last_segment(path)->0;
    assert(safe_chars(s).len() > 0);
}

/// An image whose last path segment has no `.` (or that has no segment) is
/// named `image-<index>.bin`; every downloaded image is referenced as
/// `assets/<file name>`.
pub proof fn filename_fallback_and_location(path: Seq<char>, idx: nat, name: Seq<char>)
    ensures
        (match last_segment(path) {
            Some(s) => !safe_chars(s).contains('.'),
            None => true,
        }) ==> filename_for(path, idx) == "image-"@ + decimal(idx) + ".bin"@,
        local_path(name) == "assets/"@ + name,
{
}

/// The last segment of a path is what follows its last `/`, and only a path
/// that starts with `/` has one.
pub proof fn last_segment_follows_last_slash(path: Seq<char>, k: int)
    requires
        0 <= k < path.len(),
        path[0] == '/',
        path[k] == '/',
        forall|j: int| k < j < path.len() ==> path[j] != '/',
    ensures
        last_segment(path) == Some(path.subrange(k + 1, path.len() as int)),
{
    lemma_after_last_slash(path, k);
}

} // verus!
