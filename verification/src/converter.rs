//! From the extracted article to Markdown: which images it shows, where the
//! downloaded copies are, and the rewritten HTML converted to Markdown.

use vstd::prelude::*;
use crate::extractor::Article;
use crate::html::{fragment_attr_values, fragment_img_srcs, html_to_markdown, htmd_output, img_srcs};
use crate::text::{concat_str, has_prefix, opt_view, starts_with};
use crate::web_url::{WebUrl, url_join_result};

verus! {

/// The map from an image's absolute URL to the path, relative to the output
/// directory, of its downloaded copy (such as `assets/0-foo.png`).
pub struct AssetMap {
    entries: Vec<(String, String)>,
}

/// The map that a list of (key, value) entries stands for.
pub open spec fn entries_map(s: Seq<(String, String)>) -> Map<Seq<char>, Seq<char>>
    decreases s.len(),
{
    if s.len() == 0 {
        Map::empty()
    } else {
        entries_map(s.drop_last()).insert(s.last().0@, s.last().1@)
    }
}

/// No key occurs twice.
pub open spec fn keys_unique(s: Seq<(String, String)>) -> bool {
    forall|i: int, j: int| 0 <= i < s.len() && 0 <= j < s.len() && i != j ==> s[i].0@ != s[j].0@
}

proof fn lemma_entries_map(s: Seq<(String, String)>)
    requires
        keys_unique(s),
    ensures
        forall|k: Seq<char>|
            #[trigger] entries_map(s).contains_key(k) <==> exists|i: int|
                0 <= i < s.len() && s[i].0@ == k,
        forall|i: int| 0 <= i < s.len() ==> #[trigger] entries_map(s)[s[i].0@] == s[i].1@,
    decreases s.len(),
{
    if s.len() > 0 {
        let t = s.drop_last();
        assert(keys_unique(t));
        lemma_entries_map(t);
        assert forall|k: Seq<char>| #[trigger] entries_map(s).contains_key(k) <==> exists|i: int|
            0 <= i < s.len() && s[i].0@ == k by {
            if entries_map(s).contains_key(k) {
                if k != s.last().0@ {
                    assert(entries_map(t).contains_key(k));
                    let i = choose|i: int| 0 <= i < t.len() && t[i].0@ == k;
                    assert(s[i] == t[i]);
                } else {
                    assert(s[s.len() - 1].0@ == k);
                }
            }
            if exists|i: int| 0 <= i < s.len() && s[i].0@ == k {
                let i = choose|i: int| 0 <= i < s.len() && s[i].0@ == k;
                if i < s.len() - 1 {
                    assert(t[i] == s[i]);
                    assert(entries_map(t).contains_key(k));
                }
            }
        }
        assert forall|i: int| 0 <= i < s.len() implies #[trigger] entries_map(s)[s[i].0@]
            == s[i].1@ by {
            if i < s.len() - 1 {
                assert(s[i] == t[i]);
                assert(s[i].0@ != s.last().0@);
                assert(entries_map(t)[t[i].0@] == t[i].1@);
            }
        }
    }
}

impl View for AssetMap {
    type V = Map<Seq<char>, Seq<char>>;

    closed spec fn view(&self) -> Map<Seq<char>, Seq<char>> {
        entries_map(self.entries@)
    }
}

impl AssetMap {
    #[verifier::type_invariant]
    spec fn unique(self) -> bool {
        keys_unique(self.entries@)
    }

    /// An empty map.
    pub fn new() -> (m: AssetMap)
        ensures
            m@ == Map::<Seq<char>, Seq<char>>::empty(),
    {
        AssetMap { entries: Vec::new() }
    }

    fn find(&self, key: &String) -> (r: Option<usize>)
        ensures
            match r {
                Some(i) => i < self.entries@.len() && self.entries@[i as int].0@ == key@,
                None => forall|i: int| 0 <= i < self.entries@.len() ==> self.entries@[i].0@ != key@,
            },
    {
        let mut i: usize = 0;
        while i < self.entries.len()
            invariant
                i <= self.entries@.len(),
                forall|k: int| 0 <= k < i ==> self.entries@[k].0@ != key@,
            decreases self.entries@.len() - i,
        {
            if self.entries[i].0 == *key {
                return Some(i);
            }
            i = i + 1;
        }
        None
    }

    /// Map `key` to `value`, replacing what it was mapped to before.
    pub fn insert(&mut self, key: String, value: String)
        ensures
            final(self)@ == old(self)@.insert(key@, value@),
    {
        proof {
            use_type_invariant(&*self);
            lemma_entries_map(self.entries@);
        }
        let ghost before = self.entries@;
        let found = self.find(&key);
        let mut entries: Vec<(String, String)> = Vec::new();
        std::mem::swap(&mut entries, &mut self.entries);
        match found {
            Some(i) => {
                let ghost k = key@;
                let ghost v = value@;
                entries.set(i, (key, value));
                proof {
                    let after = entries@;
                    assert(after == before.update(i as int, after[i as int]));
                    assert(keys_unique(after)) by {
                        assert forall|a: int, b: int|
                            0 <= a < after.len() && 0 <= b < after.len() && a != b implies after[a].0@
                            != after[b].0@ by {
                            if a != i && b != i {
                                assert(after[a] == before[a] && after[b] == before[b]);
                            } else if a == i {
                                assert(after[b] == before[b]);
                            } else {
                                assert(after[a] == before[a]);
                            }
                        }
                    }
                    lemma_entries_map(after);
                    assert forall|kk: Seq<char>| #[trigger] entries_map(after).contains_key(kk) <==> entries_map(
                        before,
                    ).insert(k, v).contains_key(kk) by {
                        if entries_map(after).contains_key(kk) && kk != k {
                            let j = choose|j: int| 0 <= j < after.len() && after[j].0@ == kk;
                            assert(before[j] == after[j]);
                        }
                        if entries_map(before).contains_key(kk) && kk != k {
                            let j = choose|j: int| 0 <= j < before.len() && before[j].0@ == kk;
                            assert(before[j] == after[j]);
                        }
                        if kk == k {
                            assert(after[i as int].0@ == k);
                        }
                    }
                    assert forall|kk: Seq<char>| #[trigger] entries_map(after).contains_key(kk)
                        implies entries_map(after)[kk] == entries_map(before).insert(k, v)[kk] by {
                        let j = choose|j: int| 0 <= j < after.len() && after[j].0@ == kk;
                        if j != i {
                            assert(before[j] == after[j]);
                        }
                    }
                    assert(entries_map(after) =~= entries_map(before).insert(k, v));
                }
                self.entries = entries;
            },
            None => {
                entries.push((key, value));
                proof {
                    let after = entries@;
                    assert(after.drop_last() == before);
                    assert(keys_unique(after)) by {
                        assert forall|a: int, b: int|
                            0 <= a < after.len() && 0 <= b < after.len() && a != b implies after[a].0@
                            != after[b].0@ by {
                            if a < before.len() && b < before.len() {
                                assert(after[a] == before[a] && after[b] == before[b]);
                            } else if a < before.len() {
                                assert(after[a] == before[a]);
                            } else {
                                assert(after[b] == before[b]);
                            }
                        }
                    }
                }
                self.entries = entries;
            },
        }
    }

    /// What `key` is mapped to, if anything.
    pub fn get(&self, key: &str) -> (res: Option<&String>)
        ensures
            match res {
                Some(v) => self@.contains_key(key@) && self@[key@] == v@,
                None => !self@.contains_key(key@),
            },
    {
        proof {
            use_type_invariant(self);
            lemma_entries_map(self.entries@);
        }
        let k = key.to_owned();
        match self.find(&k) {
            Some(i) => Some(&self.entries[i].1),
            None => None,
        }
    }

    /// The number of keys.
    pub fn len(&self) -> (n: usize)
        ensures
            n == self@.len(),
    {
        proof {
            use_type_invariant(self);
            lemma_entries_len(self.entries@);
        }
        self.entries.len()
    }

    /// No key is mapped.
    pub fn is_empty(&self) -> (b: bool)
        ensures
            b == (self@ == Map::<Seq<char>, Seq<char>>::empty()),
    {
        proof {
            use_type_invariant(self);
            lemma_entries_len(self.entries@);
            if self.entries@.len() > 0 {
                lemma_entries_map(self.entries@);
                assert(self@.contains_key(self.entries@[0].0@));
            }
        }
        self.entries.len() == 0
    }
}

proof fn lemma_entries_len(s: Seq<(String, String)>)
    requires
        keys_unique(s),
    ensures
        entries_map(s).dom().finite(),
        entries_map(s).len() == s.len(),
    decreases s.len(),
{
    if s.len() > 0 {
        let t = s.drop_last();
        assert(keys_unique(t));
        lemma_entries_len(t);
        lemma_entries_map(t);
        assert(!entries_map(t).contains_key(s.last().0@)) by {
            if entries_map(t).contains_key(s.last().0@) {
                let i = choose|i: int| 0 <= i < t.len() && t[i].0@ == s.last().0@;
                assert(s[i] == t[i]);
            }
        }
    }
}

/// Where the image `src` points, read against the page URL `base`: nothing
/// for inline `data:` images and for sources that do not resolve.
pub open spec fn resolve_src(src: Seq<char>, base: Seq<char>) -> Option<Seq<char>> {
    if has_prefix(src, "data:"@) {
        None
    } else {
        url_join_result(base, src)
    }
}

/// The resolved sources, in order, leaving out those that do not resolve.
pub open spec fn resolved_srcs(srcs: Seq<Seq<char>>, base: Seq<char>) -> Seq<Seq<char>>
    decreases srcs.len(),
{
    if srcs.len() == 0 {
        Seq::empty()
    } else {
        let rest = resolved_srcs(srcs.drop_last(), base);
        match resolve_src(srcs.last(), base) {
            Some(u) => rest.push(u),
            None => rest,
        }
    }
}

/// `s` with every repetition of an earlier element left out.
pub open spec fn first_occurrences(s: Seq<Seq<char>>) -> Seq<Seq<char>>
    decreases s.len(),
{
    if s.len() == 0 {
        Seq::empty()
    } else {
        let d = first_occurrences(s.drop_last());
        if d.contains(s.last()) {
            d
        } else {
            d.push(s.last())
        }
    }
}

/// The absolute URLs of the article's images, each once, in order of first
/// appearance.
pub open spec fn image_urls(content: Seq<char>, base: Seq<char>) -> Seq<Seq<char>> {
    first_occurrences(resolved_srcs(fragment_img_srcs(content), base))
}

/// The views of a list of URLs.
pub open spec fn urls_view(v: Seq<WebUrl>) -> Seq<Seq<char>> {
    v.map_values(|u: WebUrl| u@)
}

fn resolve_image(src: &str, base_url: &WebUrl) -> (res: Option<WebUrl>)
    ensures
        match res {
            Some(u) => resolve_src(src@, base_url@) == Some(u@),
            None => resolve_src(src@, base_url@) is None,
        },
{
    if starts_with(src, "data:") {
        None
    } else {
        base_url.join(src)
    }
}

fn contains_url(v: &Vec<WebUrl>, u: &WebUrl) -> (b: bool)
    ensures
        b == urls_view(v@).contains(u@),
{
    let mut i: usize = 0;
    while i < v.len()
        invariant
            i <= v@.len(),
            forall|k: int| 0 <= k < i ==> v@[k]@ != u@,
        decreases v@.len() - i,
    {
        if v[i].same_as(u) {
            assert(urls_view(v@)[i as int] == u@);
            return true;
        }
        i = i + 1;
    }
    assert(!urls_view(v@).contains(u@)) by {
        if urls_view(v@).contains(u@) {
            let k = choose|k: int| 0 <= k < urls_view(v@).len() && urls_view(v@)[k] == u@;
            assert(v@[k]@ == u@);
        }
    }
    false
}

/// The absolute URL of every image in the article, each once, in order of
/// first appearance; inline `data:` images and sources that do not resolve
/// against `base_url` are left out.
pub fn collect_image_urls(article: &Article, base_url: &WebUrl) -> (urls: Vec<WebUrl>)
    ensures
        urls_view(urls@) == image_urls(article.content_html@, base_url@),
{
    let srcs = img_srcs(&article.content_html);
    let ghost all = fragment_img_srcs(article.content_html@);
    let mut out: Vec<WebUrl> = Vec::new();
    let mut i: usize = 0;
    while i < srcs.len()
        invariant
            i <= srcs@.len(),
            crate::html::strings_view(srcs@) == all,
            urls_view(out@) == first_occurrences(resolved_srcs(all.take(i as int), base_url@)),
        decreases srcs@.len() - i,
    {
        let ghost prev = resolved_srcs(all.take(i as int), base_url@);
        assert(all.take(i + 1).drop_last() == all.take(i as int));
        assert(all.take(i + 1).last() == all[i as int]);
        assert(all[i as int] == srcs@[i as int]@);
        match resolve_image(&srcs[i], base_url) {
            Some(u) => {
                assert(resolved_srcs(all.take(i + 1), base_url@) == prev.push(u@));
                assert(prev.push(u@).drop_last() == prev);
                if !contains_url(&out, &u) {
                    let ghost before = out@;
                    out.push(u);
                    assert(urls_view(out@) == urls_view(before).push(u@));
                }
            },
            None => {
                assert(resolved_srcs(all.take(i + 1), base_url@) == prev);
            },
        }
        i = i + 1;
    }
    assert(all.take(srcs@.len() as int) == all);
    out
}

/// The first occurrences hold no element twice.
pub proof fn lemma_first_occurrences_unique(s: Seq<Seq<char>>)
    ensures
        first_occurrences(s).no_duplicates(),
    decreases s.len(),
{
    if s.len() > 0 {
        lemma_first_occurrences_unique(s.drop_last());
    }
}

/// The first occurrences hold exactly the elements of the sequence.
pub proof fn lemma_first_occurrences_elements(s: Seq<Seq<char>>)
    ensures
        forall|x: Seq<char>| #[trigger] first_occurrences(s).contains(x) <==> s.contains(x),
    decreases s.len(),
{
    if s.len() > 0 {
        let t = s.drop_last();
        lemma_first_occurrences_elements(t);
        let d = first_occurrences(t);
        assert forall|x: Seq<char>| #[trigger] first_occurrences(s).contains(x) <==> s.contains(
            x,
        ) by {
            if first_occurrences(s).contains(x) {
                if d.contains(x) {
                    assert(t.contains(x));
                    let i = choose|i: int| 0 <= i < t.len() && t[i] == x;
                    assert(s[i] == x);
                } else {
                    let k = choose|k: int| 0 <= k < first_occurrences(s).len() && first_occurrences(s)[k] == x;
                    assert(d.push(s.last())[k] == x);
                    assert(k == d.len());
                    assert(s[s.len() - 1] == x);
                }
            }
            if s.contains(x) {
                let i = choose|i: int| 0 <= i < s.len() && s[i] == x;
                if i < s.len() - 1 {
                    assert(t[i] == x);
                    assert(d.contains(x));
                    let k = choose|k: int| 0 <= k < d.len() && d[k] == x;
                    if !d.contains(s.last()) {
                        assert(d.push(s.last())[k] == x);
                    }
                } else if !d.contains(s.last()) {
                    assert(d.push(s.last())[d.len() as int] == x);
                }
            }
        }
    }
}

proof fn lemma_resolved_srcs_elements(srcs: Seq<Seq<char>>, base: Seq<char>)
    ensures
        forall|u: Seq<char>| #[trigger] resolved_srcs(srcs, base).contains(u) <==> exists|i: int|
            0 <= i < srcs.len() && resolve_src(srcs[i], base) == Some(u),
    decreases srcs.len(),
{
    if srcs.len() > 0 {
        let t = srcs.drop_last();
        lemma_resolved_srcs_elements(t, base);
        assert forall|u: Seq<char>| #[trigger] resolved_srcs(srcs, base).contains(u) <==> exists|
            i: int,
        | 0 <= i < srcs.len() && resolve_src(srcs[i], base) == Some(u) by {
            let rest = resolved_srcs(t, base);
            if resolved_srcs(srcs, base).contains(u) {
                if rest.contains(u) {
                    let i = choose|i: int| 0 <= i < t.len() && resolve_src(t[i], base) == Some(u);
                    assert(srcs[i] == t[i]);
                } else {
                    let k = choose|k: int|
                        0 <= k < resolved_srcs(srcs, base).len() && resolved_srcs(srcs, base)[k]
                            == u;
                    assert(k == rest.len());
                    assert(resolve_src(srcs[srcs.len() - 1], base) == Some(u));
                }
            }
            if exists|i: int| 0 <= i < srcs.len() && resolve_src(srcs[i], base) == Some(u) {
                let i = choose|i: int| 0 <= i < srcs.len() && resolve_src(srcs[i], base) == Some(u);
                if i < srcs.len() - 1 {
                    assert(t[i] == srcs[i]);
                    assert(rest.contains(u));
                    let k = choose|k: int| 0 <= k < rest.len() && rest[k] == u;
                    match resolve_src(srcs.last(), base) {
                        Some(w) => assert(rest.push(w)[k] == u),
                        None => {},
                    }
                } else {
                    assert(resolved_srcs(srcs, base)[rest.len() as int] == u);
                }
            }
        }
    }
}

/// The collected image URLs hold no URL twice.
pub proof fn image_urls_are_unique(content: Seq<char>, base: Seq<char>)
    ensures
        image_urls(content, base).no_duplicates(),
{
    lemma_first_occurrences_unique(resolved_srcs(fragment_img_srcs(content), base));
}

/// A URL is collected exactly when the `src` of some `<img src>` of the
/// article, not a `data:` URI, resolves to it against the page URL.
pub proof fn image_urls_are_the_resolved_sources(content: Seq<char>, base: Seq<char>, u: Seq<char>)
    ensures
        image_urls(content, base).contains(u) <==> exists|i: int|
            0 <= i < fragment_attr_values(content, "img[src]"@, "src"@).len() && !has_prefix(
                fragment_attr_values(content, "img[src]"@, "src"@)[i],
                "data:"@,
            ) && url_join_result(base, fragment_attr_values(content, "img[src]"@, "src"@)[i])
                == Some(u),
{
    let srcs = fragment_img_srcs(content);
    lemma_first_occurrences_elements(resolved_srcs(srcs, base));
    lemma_resolved_srcs_elements(srcs, base);
    assert(image_urls(content, base).contains(u) <==> resolved_srcs(srcs, base).contains(u));
}

/// The position of the first occurrence of `x` in `s`, or -1.
pub open spec fn first_pos(s: Seq<Seq<char>>, x: Seq<char>) -> int
    decreases s.len(),
{
    if s.len() == 0 {
        -1
    } else if first_pos(s.drop_last(), x) >= 0 {
        first_pos(s.drop_last(), x)
    } else if s.last() == x {
        s.len() - 1
    } else {
        -1
    }
}

proof fn lemma_first_pos(s: Seq<Seq<char>>, x: Seq<char>)
    ensures
        s.contains(x) ==> 0 <= first_pos(s, x) < s.len() && s[first_pos(s, x)] == x,
        !s.contains(x) ==> first_pos(s, x) == -1,
    decreases s.len(),
{
    if s.len() > 0 {
        let t = s.drop_last();
        lemma_first_pos(t, x);
        if t.contains(x) {
            let i = choose|i: int| 0 <= i < t.len() && t[i] == x;
            assert(s[i] == x);
            assert(s[first_pos(t, x)] == t[first_pos(t, x)]);
        } else if s.last() == x {
            assert(s[s.len() - 1] == x);
        } else {
            assert(!s.contains(x)) by {
                if s.contains(x) {
                    let i = choose|i: int| 0 <= i < s.len() && s[i] == x;
                    if i < s.len() - 1 {
                        assert(t[i] == x);
                    }
                }
            }
        }
    }
}

/// The first occurrences come in the order in which they first occur.
pub proof fn lemma_first_occurrences_order(s: Seq<Seq<char>>)
    ensures
        forall|i: int, j: int|
            0 <= i < j < first_occurrences(s).len() ==> first_pos(s, first_occurrences(s)[i])
                < first_pos(s, first_occurrences(s)[j]),
        forall|i: int|
            0 <= i < first_occurrences(s).len() ==> 0 <= first_pos(s, #[trigger] first_occurrences(s)[i]),
    decreases s.len(),
{
    if s.len() > 0 {
        let t = s.drop_last();
        let d = first_occurrences(t);
        lemma_first_occurrences_order(t);
        lemma_first_occurrences_elements(t);
        lemma_first_occurrences_elements(s);
        assert forall|y: Seq<char>| #[trigger] t.contains(y) implies first_pos(s, y) == first_pos(t, y) by {
            lemma_first_pos(t, y);
        }
        assert forall|i: int| 0 <= i < d.len() implies #[trigger] t.contains(d[i]) by {
            assert(d.contains(d[i]));
        }
        if !d.contains(s.last()) {
            assert(!t.contains(s.last()));
            lemma_first_pos(t, s.last());
            assert(first_pos(s, s.last()) == s.len() - 1);
            assert forall|i: int| 0 <= i < d.len() implies first_pos(t, #[trigger] d[i]) < t.len() by {
                lemma_first_pos(t, d[i]);
            }
        }
    }
}

/// The collected URLs come in the order in which the article first shows
/// them: a URL listed before another first resolves from an earlier image.
pub proof fn image_urls_keep_first_appearance_order(content: Seq<char>, base: Seq<char>, i: int, j: int)
    requires
        0 <= i < j < image_urls(content, base).len(),
    ensures
        ({
            let r = resolved_srcs(fragment_attr_values(content, "img[src]"@, "src"@), base);
            0 <= first_pos(r, image_urls(content, base)[i]) < first_pos(
                r,
                image_urls(content, base)[j],
            )
        }),
{
    let r = resolved_srcs(fragment_img_srcs(content), base);
    lemma_first_occurrences_order(r);
    assert(0 <= first_pos(r, first_occurrences(r)[i]));
}

/// The image sources point at local copies exactly where that is known: no
/// `data:` image is touched, and an image is pointed at the path that
/// `assets` gives for the URL its source resolves to against the page.
pub proof fn local_src_is_the_downloaded_copy(
    src: Seq<char>,
    base: Seq<char>,
    assets: Map<Seq<char>, Seq<char>>,
)
    ensures
        has_prefix(src, "data:"@) ==> local_src(src, base, assets) is None,
        !has_prefix(src, "data:"@) ==> local_src(src, base, assets) == match url_join_result(
            base,
            src,
        ) {
            Some(u) => if assets.contains_key(u) {
                Some(assets[u])
            } else {
                None
            },
            None => None,
        },
{
}

/// The local copy that an `<img>` whose `src` is `src` is pointed at: the
/// path that `assets` gives for the URL it resolves to, if any.
pub open spec fn local_src(src: Seq<char>, base: Seq<char>, assets: Map<Seq<char>, Seq<char>>) -> Option<
    Seq<char>,
> {
    match resolve_src(src, base) {
        Some(u) => if assets.contains_key(u) {
            Some(assets[u])
        } else {
            None
        },
        None => None,
    }
}

/// The local path to put in place of the image source `src`, if its image
/// was downloaded.
pub fn local_src_for(src: &str, base_url: &WebUrl, assets: &AssetMap) -> (res: Option<String>)
    ensures
        opt_view(res) == local_src(src@, base_url@, assets@),
{
    match resolve_image(src, base_url) {
        Some(u) => match assets.get(u.as_str()) {
            Some(local) => Some(local.clone()),
            None => None,
        },
        None => None,
    }
}

/// `lol_html::rewrite_str` run on `html` with one element handler on the
/// elements that the CSS selector `selector` matches, which sets the attribute
/// `attr` to `local_src(value, base, assets)` (`value` being the attribute's
/// value, empty where it is missing) where that is some and leaves the
/// element alone otherwise: the rewritten HTML, or `None` where the selector
/// does not parse or rewriting fails.
pub uninterp spec fn attrs_rewritten(
    html: Seq<char>,
    selector: Seq<char>,
    attr: Seq<char>,
    base: Seq<char>,
    assets: Map<Seq<char>, Seq<char>>,
) -> Option<Seq<char>>;

/// The HTML with the `src` of every `<img src>` rewritten.
pub open spec fn img_srcs_rewritten(
    html: Seq<char>,
    base: Seq<char>,
    assets: Map<Seq<char>, Seq<char>>,
) -> Option<Seq<char>> {
    attrs_rewritten(html, "img[src]"@, "src"@, base, assets)
}

/// `lol_html::rewrite_str` with an element handler on `selector` that calls
/// `local_src_for` on each element's `attr`. Scoped to real element
/// attributes: text that merely looks like `src="…"` is not touched.
#[verifier::external_body]
fn rewrite_with_lol_html(
    html: &str,
    selector: &str,
    attr: &str,
    base_url: &WebUrl,
    assets: &AssetMap,
) -> (res: Option<String>)
    ensures
        opt_view(res) == attrs_rewritten(html@, selector@, attr@, base_url@, assets@),
{
    let selector: lol_html::Selector = match selector.parse() {
        Ok(s) => s,
        Err(_) => return None,
    };
    let handlers = lol_html::ElementContentHandlers::default().element(|el: &mut lol_html::html_content::Element| {
        if let Some(local) = local_src_for(&el.get_attribute(attr).unwrap_or_default(), base_url, assets) {
            el.set_attribute(attr, &local).ok();
        }
        Ok(())
    });
    let settings = lol_html::RewriteStrSettings::new()
        .append_element_content_handler((std::borrow::Cow::Owned(selector), handlers));
    lol_html::rewrite_str(html, settings).ok()
}

/// The HTML with its image sources rewritten, or unchanged where rewriting
/// fails.
pub open spec fn rewritten_html(
    html: Seq<char>,
    base: Seq<char>,
    assets: Map<Seq<char>, Seq<char>>,
) -> Seq<char> {
    match img_srcs_rewritten(html, base, assets) {
        Some(r) => r,
        None => html,
    }
}

/// Rewrite the `src` attribute of every real `<img>` element to its locally
/// downloaded path.
fn rewrite_image_srcs(html: &str, base_url: &WebUrl, asset_map: &AssetMap) -> (res: String)
    ensures
        res@ == rewritten_html(html@, base_url@, asset_map@),
{
    match rewrite_with_lol_html(html, "img[src]", "src", base_url, asset_map) {
        Some(r) => r,
        None => html.to_owned(),
    }
}

/// The Markdown of the article: its HTML with image sources rewritten,
/// converted by `htmd`; where conversion fails, an HTML comment with the
/// error followed by the rewritten HTML.
pub open spec fn markdown_of(
    content: Seq<char>,
    base: Seq<char>,
    assets: Map<Seq<char>, Seq<char>>,
) -> Seq<char> {
    let rewritten = rewritten_html(content, base, assets);
    match htmd_output(rewritten) {
        Ok(md) => md,
        Err(e) => "<!-- htmd error: "@ + e + " -->\n"@ + rewritten,
    }
}

/// Convert the article to Markdown, pointing its images at their local copies.
pub fn to_markdown(article: &Article, base_url: &WebUrl, asset_map: &AssetMap) -> (md: String)
    ensures
        md@ == markdown_of(article.content_html@, base_url@, asset_map@),
{
    let rewritten = rewrite_image_srcs(&article.content_html, base_url, asset_map);
    match html_to_markdown(&rewritten) {
        Ok(md) => md,
        Err(e) => {
            let head = concat_str("<!-- htmd error: ", &e);
            let head = concat_str(&head, " -->\n");
            concat_str(&head, &rewritten)
        },
    }
}

/// The rewrite acts on every `img` element that has a `src`, whatever its
/// other attributes, and rewrites its `src`; where rewriting fails the HTML
/// is kept as it is.
pub proof fn every_img_src_is_rewritten(
    html: Seq<char>,
    base: Seq<char>,
    assets: Map<Seq<char>, Seq<char>>,
)
    ensures
        rewritten_html(html, base, assets) == match attrs_rewritten(
            html,
            "img[src]"@,
            "src"@,
            base,
            assets,
        ) {
            Some(r) => r,
            None => html,
        },
{
}

/// The Markdown is htmd's conversion of the rewritten HTML; where htmd
/// fails, an HTML comment with its message followed by the rewritten HTML.
pub proof fn markdown_is_htmd_of_rewritten(
    content: Seq<char>,
    base: Seq<char>,
    assets: Map<Seq<char>, Seq<char>>,
)
    ensures
        ({
            let r = match attrs_rewritten(content, "img[src]"@, "src"@, base, assets) {
                Some(r) => r,
                None => content,
            };
            markdown_of(content, base, assets) == match htmd_output(r) {
                Ok(md) => md,
                Err(e) => "<!-- htmd error: "@ + e + " -->\n"@ + r,
            }
        }),
{
}

} // verus!
