//! URL-safe slugs of route names.

use vstd::prelude::*;
use crate::text::{alnum, ascii_lower, ascii_upper, lower, to_lowercase};

verus! {

/// A character that stands in a slug besides hyphens: alphanumeric, and its
/// own lower-case mapping.
pub open spec fn slug_letter(x: char) -> bool {
    x != '-' && alnum(x) && lower(x) == seq![x]
}

/// The slug letters of `w`, in order.
pub open spec fn keep_letters(w: Seq<char>) -> Seq<char>
    decreases w.len(),
{
    if w.len() == 0 {
        Seq::empty()
    } else if slug_letter(w.last()) {
        keep_letters(w.drop_last()).push(w.last())
    } else {
        keep_letters(w.drop_last())
    }
}

/// What an alphanumeric character puts into a slug: the slug letters of its
/// lower-case mapping (for every ASCII letter or digit, exactly its ASCII
/// lower-case form; a combining mark that a mapping adds is left out).
pub open spec fn letters(c: char) -> Seq<char> {
    keep_letters(lower(c))
}

/// The slug of `s` as it is built from left to right, and whether it ends in
/// a separator hyphen: an alphanumeric character adds its letters; any other
/// character adds one hyphen, unless the slug is still empty or the last
/// character added was a separator hyphen.
pub open spec fn slug_scan(s: Seq<char>) -> (Seq<char>, bool)
    decreases s.len(),
{
    if s.len() == 0 {
        (Seq::empty(), false)
    } else {
        let prev = slug_scan(s.drop_last());
        let c = s.last();
        if alnum(c) {
            if letters(c).len() > 0 {
                (prev.0 + letters(c), false)
            } else {
                prev
            }
        } else if !prev.1 && prev.0.len() > 0 {
            (prev.0.push('-'), true)
        } else {
            prev
        }
    }
}

/// The slug of `s`: the left-to-right scan without its trailing separator.
pub open spec fn spec_slugify(s: Seq<char>) -> Seq<char> {
    let r = slug_scan(s);
    if r.1 {
        r.0.drop_last()
    } else {
        r.0
    }
}

proof fn lemma_scan_flag(s: Seq<char>)
    ensures
        slug_scan(s).1 ==> slug_scan(s).0.len() > 0 && slug_scan(s).0.last() == '-',
    decreases s.len(),
{
    if s.len() > 0 {
        lemma_scan_flag(s.drop_last());
    }
}

/// The letters that the alphanumeric character `c` puts into a slug: the
/// characters of its lower-case mapping that are alphanumeric and their own
/// lower-case mapping.
pub fn kept_letters(c: char) -> (kept: String)
    ensures
        kept@ == letters(c),
{
    let lowered = to_lowercase(c);
    let mut kept = String::new();
    for x in it: lowered.as_str().chars()
        invariant
            it.seq() == lower(c),
            kept@ == keep_letters(lower(c).take(it.index() as int)),
    {
        assert(lower(c).take(it.index() + 1).drop_last() =~= lower(c).take(it.index() as int));
        if x.is_alphanumeric() {
            let own = to_lowercase(x);
            let mut single = String::new();
            single.push(x);
            if own == single {
                kept.push(x);
            }
        }
    }
    assert(lower(c).take(lower(c).len() as int) =~= lower(c));
    kept
}

/// Converts a string to a URL-safe slug by lower-casing it and replacing
/// runs of non-alphanumeric characters by one hyphen: "My Cool Route" becomes
/// "my-cool-route".
pub fn slugify(s: &str) -> (slug: String)
    ensures
        slug@ == spec_slugify(s@),
{
    let mut slug = String::new();
    let mut last_was_hyphen = false;
    for ch in it: s.chars()
        invariant
            slug@ == slug_scan(s@.take(it.index() as int)).0,
            last_was_hyphen == slug_scan(s@.take(it.index() as int)).1,
            it.seq() == s@,
    {
        assert(s@.take(it.index() + 1).drop_last() =~= s@.take(it.index() as int));
        if ch.is_alphanumeric() {
            let kept = kept_letters(ch);
            if !kept.as_str().is_empty() {
                slug.append(kept.as_str());
                last_was_hyphen = false;
            }
        } else if !last_was_hyphen && !slug.as_str().is_empty() {
            slug.push('-');
            last_was_hyphen = true;
        }
    }
    assert(s@.take(s@.len() as int) =~= s@);
    proof {
        lemma_scan_flag(s@);
    }
    if last_was_hyphen {
        slug.pop();
    }
    slug
}

/// Whether `t` has the shape of a slug: no hyphen at either end, no two
/// hyphens in a row, and every other character a slug letter.
pub open spec fn is_slug(t: Seq<char>) -> bool {
    &&& slug_body(t)
    &&& (t.len() > 0 ==> t.last() != '-')
}

/// A slug that may still end with one hyphen.
pub open spec fn slug_body(t: Seq<char>) -> bool {
    &&& forall|i: int| 0 <= i < t.len() ==> slug_char(#[trigger] t[i])
    &&& (t.len() > 0 ==> t[0] != '-')
    &&& forall|i: int| 0 <= i < t.len() - 1 ==> !(#[trigger] t[i] == '-' && t[i + 1] == '-')
}

/// A character that may stand in a slug.
pub open spec fn slug_char(c: char) -> bool {
    c == '-' || slug_letter(c)
}

/// Whether every alphanumeric character of `s` puts at least one letter into
/// the slug; every ASCII text has this property (`law_ascii_keeps_letters`).
pub open spec fn keeps_letters(s: Seq<char>) -> bool {
    forall|i: int| 0 <= i < s.len() && alnum(#[trigger] s[i]) ==> letters(s[i]).len() > 0
}

proof fn lemma_keep_letters(w: Seq<char>)
    ensures
        forall|k: int| 0 <= k < keep_letters(w).len() ==> slug_letter(#[trigger] keep_letters(w)[k]),
    decreases w.len(),
{
    if w.len() > 0 {
        lemma_keep_letters(w.drop_last());
        let p = keep_letters(w.drop_last());
        if slug_letter(w.last()) {
            assert forall|k: int| 0 <= k < keep_letters(w).len() implies slug_letter(#[trigger] keep_letters(w)[k]) by {
                if k < p.len() {
                    assert(keep_letters(w)[k] == p[k]);
                }
            }
        }
    }
}

proof fn lemma_keeps_letters_prefix(s: Seq<char>)
    requires
        keeps_letters(s),
        s.len() > 0,
    ensures
        keeps_letters(s.drop_last()),
        alnum(s.last()) ==> letters(s.last()).len() > 0,
{
    let u = s.drop_last();
    assert forall|i: int| 0 <= i < u.len() && alnum(#[trigger] u[i]) implies letters(u[i]).len() > 0 by {
        assert(u[i] == s[i]);
    }
    if alnum(s.last()) {
        assert(alnum(s[s.len() - 1]));
    }
}

proof fn lemma_scan_body(s: Seq<char>)
    ensures
        slug_body(slug_scan(s).0),
        !slug_scan(s).1 && slug_scan(s).0.len() > 0 ==> slug_scan(s).0.last() != '-',
    decreases s.len(),
{
    lemma_scan_flag(s);
    if s.len() > 0 {
        lemma_scan_body(s.drop_last());
        lemma_scan_flag(s.drop_last());
        let d = slug_scan(s.drop_last()).0;
        let e = slug_scan(s).0;
        let c = s.last();
        lemma_keep_letters(lower(c));
        if alnum(c) && letters(c).len() > 0 {
            let l = letters(c);
            assert(e == d + l);
            assert forall|i: int| 0 <= i < e.len() implies slug_char(#[trigger] e[i]) by {
                if i < d.len() {
                    assert(e[i] == d[i]);
                } else {
                    assert(e[i] == l[i - d.len()]);
                }
            }
            assert forall|i: int| 0 <= i < e.len() - 1 implies !(#[trigger] e[i] == '-' && e[i + 1] == '-') by {
                if i + 1 < d.len() {
                    assert(e[i] == d[i] && e[i + 1] == d[i + 1]);
                } else {
                    assert(e[i + 1] == l[i + 1 - d.len()]);
                    assert(slug_letter(l[i + 1 - d.len()]));
                }
            }
            if e.len() > 0 {
                if d.len() > 0 {
                    assert(e[0] == d[0]);
                } else {
                    assert(e[0] == l[0]);
                    assert(slug_letter(l[0]));
                }
                assert(e.last() == l[l.len() - 1]);
                assert(slug_letter(l[l.len() - 1]));
            }
        } else if !alnum(c) && !slug_scan(s.drop_last()).1 && d.len() > 0 {
            assert(e == d.push('-'));
            assert forall|i: int| 0 <= i < e.len() implies slug_char(#[trigger] e[i]) by {
                if i < d.len() {
                    assert(e[i] == d[i]);
                }
            }
            assert forall|i: int| 0 <= i < e.len() - 1 implies !(#[trigger] e[i] == '-' && e[i + 1] == '-') by {
                if i + 1 < d.len() {
                    assert(e[i] == d[i] && e[i + 1] == d[i + 1]);
                } else {
                    assert(e[i] == d.last());
                }
            }
            assert(e[0] == d[0]);
        }
    }
}

proof fn lemma_body_scans_to_itself(t: Seq<char>)
    requires
        slug_body(t),
    ensures
        slug_scan(t) == (t, t.len() > 0 && t.last() == '-'),
    decreases t.len(),
{
    if t.len() > 0 {
        let u = t.drop_last();
        assert(slug_body(u)) by {
            assert forall|i: int| 0 <= i < u.len() implies slug_char(#[trigger] u[i]) by {
                assert(u[i] == t[i]);
            }
            assert forall|i: int| 0 <= i < u.len() - 1 implies !(#[trigger] u[i] == '-' && u[i + 1] == '-') by {
                assert(u[i] == t[i] && u[i + 1] == t[i + 1]);
            }
        }
        lemma_body_scans_to_itself(u);
        let c = t.last();
        assert(slug_char(t[t.len() - 1]));
        if c == '-' {
            assert(u.len() > 0);
            assert(!(t[t.len() - 2] == '-' && t[t.len() - 1] == '-'));
            assert(u.last() != '-');
            assert(u.push('-') =~= t);
        } else {
            assert(lower(c) == seq![c]);
            assert(seq![c].drop_last() =~= Seq::<char>::empty());
            assert(seq![c].last() == c);
            assert(keep_letters(Seq::<char>::empty()) == Seq::<char>::empty());
            assert(Seq::<char>::empty().push(c) =~= seq![c]);
            assert(letters(c) == seq![c]);
            assert(u + seq![c] =~= t);
        }
    }
}

/// Every slug has the shape of a slug: no hyphen at either end, no run of
/// hyphens, and between them only alphanumeric characters that are their own
/// lower-case mapping.
pub proof fn law_slug_shape(s: Seq<char>)
    ensures
        is_slug(spec_slugify(s)),
{
    lemma_scan_body(s);
    lemma_scan_flag(s);
    let d = slug_scan(s).0;
    let r = spec_slugify(s);
    if slug_scan(s).1 {
        assert forall|i: int| 0 <= i < r.len() implies slug_char(#[trigger] r[i]) by {
            assert(r[i] == d[i]);
        }
        assert forall|i: int| 0 <= i < r.len() - 1 implies !(#[trigger] r[i] == '-' && r[i + 1] == '-') by {
            assert(r[i] == d[i] && r[i + 1] == d[i + 1]);
        }
        if r.len() > 0 {
            assert(r[0] == d[0]);
            assert(r.last() == d[d.len() - 2]);
            assert(!(d[d.len() - 2] == '-' && d[d.len() - 1] == '-'));
        }
    }
}

/// A text that already has the shape of a slug is its own slug.
pub proof fn law_slug_fixed_point(t: Seq<char>)
    requires
        is_slug(t),
    ensures
        spec_slugify(t) == t,
{
    lemma_body_scans_to_itself(t);
}

/// Slugifying is idempotent: the slug of a slug is the slug itself.
pub proof fn law_slugify_idempotent(s: Seq<char>)
    ensures
        spec_slugify(spec_slugify(s)) == spec_slugify(s),
{
    law_slug_shape(s);
    law_slug_fixed_point(spec_slugify(s));
}

/// Every ASCII letter or digit puts exactly its ASCII lower-case form into the
/// slug, so every ASCII text keeps its letters.
pub proof fn law_ascii_keeps_letters(s: Seq<char>)
    requires
        forall|i: int| 0 <= i < s.len() ==> (#[trigger] s[i] as u32) < 128,
    ensures
        keeps_letters(s),
        forall|i: int| 0 <= i < s.len() && alnum(#[trigger] s[i]) ==> letters(s[i]) == seq![ascii_lower(s[i])],
{
    assert forall|i: int| 0 <= i < s.len() && alnum(#[trigger] s[i]) implies letters(s[i]) == seq![ascii_lower(s[i])] by {
        let c = s[i];
        let x = ascii_lower(c);
        assert(lower(c) == seq![x]);
        assert(slug_letter(x));
        assert(seq![x].drop_last() =~= Seq::<char>::empty());
        assert(keep_letters(Seq::<char>::empty()) == Seq::<char>::empty());
        assert(Seq::<char>::empty().push(x) =~= seq![x]);
    }
}

/// The letters of the alphanumeric characters of `s`, in order.
pub open spec fn lowered_alnums(s: Seq<char>) -> Seq<char>
    decreases s.len(),
{
    if s.len() == 0 {
        Seq::empty()
    } else if alnum(s.last()) {
        lowered_alnums(s.drop_last()) + letters(s.last())
    } else {
        lowered_alnums(s.drop_last())
    }
}

/// `t` without its hyphens.
pub open spec fn without_hyphens(t: Seq<char>) -> Seq<char>
    decreases t.len(),
{
    if t.len() == 0 {
        Seq::empty()
    } else if t.last() == '-' {
        without_hyphens(t.drop_last())
    } else {
        without_hyphens(t.drop_last()).push(t.last())
    }
}

proof fn lemma_without_hyphens_concat(a: Seq<char>, b: Seq<char>)
    ensures
        without_hyphens(a + b) == without_hyphens(a) + without_hyphens(b),
    decreases b.len(),
{
    if b.len() == 0 {
        assert(a + b =~= a);
        assert(without_hyphens(a) + Seq::<char>::empty() =~= without_hyphens(a));
    } else {
        lemma_without_hyphens_concat(a, b.drop_last());
        assert((a + b).drop_last() =~= a + b.drop_last());
        if b.last() != '-' {
            assert(without_hyphens(a) + without_hyphens(b.drop_last()).push(b.last()) =~= (without_hyphens(a)
                + without_hyphens(b.drop_last())).push(b.last()));
        }
    }
}

proof fn lemma_scan_content(s: Seq<char>)
    ensures
        without_hyphens(slug_scan(s).0) == without_hyphens(lowered_alnums(s)),
    decreases s.len(),
{
    if s.len() > 0 {
        lemma_scan_content(s.drop_last());
        let d = slug_scan(s.drop_last()).0;
        let c = s.last();
        if alnum(c) {
            lemma_without_hyphens_concat(d, letters(c));
            lemma_without_hyphens_concat(lowered_alnums(s.drop_last()), letters(c));
        } else if !slug_scan(s.drop_last()).1 && d.len() > 0 {
            assert(d.push('-').drop_last() =~= d);
        }
    }
}

/// The slug holds the letters of the alphanumeric characters of the input, in
/// order, and adds nothing else but hyphens.
pub proof fn law_slug_content(s: Seq<char>)
    ensures
        without_hyphens(spec_slugify(s)) == without_hyphens(lowered_alnums(s)),
{
    lemma_scan_content(s);
    lemma_scan_flag(s);
    let d = slug_scan(s).0;
    if slug_scan(s).1 {
        assert(d.drop_last().push('-') =~= d);
    }
}

/// `s` with its ASCII letters upper-cased.
pub open spec fn upper_ascii(s: Seq<char>) -> Seq<char> {
    s.map_values(|c: char| ascii_upper(c))
}

proof fn lemma_scan_ignores_ascii_case(s: Seq<char>)
    ensures
        slug_scan(upper_ascii(s)) == slug_scan(s),
    decreases s.len(),
{
    if s.len() > 0 {
        lemma_scan_ignores_ascii_case(s.drop_last());
        assert(upper_ascii(s).drop_last() =~= upper_ascii(s.drop_last()));
        let c = s.last();
        assert(upper_ascii(s).last() == ascii_upper(c));
        assert(alnum(ascii_upper(c)) == alnum(c));
        assert(lower(ascii_upper(c)) =~= lower(c));
        assert(letters(ascii_upper(c)) == letters(c));
    }
}

proof fn lemma_scan_ignores_leading_space(s: Seq<char>)
    ensures
        slug_scan(seq![' '] + s) == slug_scan(s),
    decreases s.len(),
{
    assert(!alnum(' '));
    assert(slug_scan(Seq::<char>::empty()) == (Seq::<char>::empty(), false));
    if s.len() == 0 {
        assert(seq![' '] + s =~= seq![' ']);
        assert(seq![' '].drop_last() =~= Seq::<char>::empty());
        assert(seq![' '].last() == ' ');
    } else {
        lemma_scan_ignores_leading_space(s.drop_last());
        assert((seq![' '] + s).drop_last() =~= seq![' '] + s.drop_last());
        assert((seq![' '] + s).last() == s.last());
    }
}

/// Neither the case of ASCII letters nor separators around the text change
/// the slug.
pub proof fn law_slug_ignores_case_and_separators(s: Seq<char>)
    ensures
        spec_slugify(upper_ascii(s)) == spec_slugify(s),
        spec_slugify(seq![' '] + s + seq![' ', '!']) == spec_slugify(s),
{
    lemma_scan_ignores_ascii_case(s);
    lemma_scan_ignores_leading_space(s);
    lemma_scan_flag(s);
    let x = seq![' '] + s;
    let y = x + seq![' ', '!'];
    assert(y.drop_last() =~= x.push(' '));
    assert(x.push(' ').drop_last() =~= x);
    assert(y.last() == '!');
    assert(x.push(' ').last() == ' ');
    assert(!alnum(' ') && !alnum('!'));
    assert(slug_scan(x) == slug_scan(s));
    let d = slug_scan(s).0;
    let a = slug_scan(x.push(' '));
    if !slug_scan(s).1 && d.len() > 0 {
        assert(a == (d.push('-'), true));
        assert(slug_scan(y) == a);
        assert(d.push('-').drop_last() =~= d);
    } else {
        assert(a == slug_scan(s));
        assert(slug_scan(y) == a);
    }
}

/// The words of `s`: its maximal runs of alphanumeric characters, in order.
pub open spec fn words(s: Seq<char>) -> Seq<Seq<char>>
    decreases s.len(),
{
    if s.len() == 0 {
        Seq::empty()
    } else {
        let w = words(s.drop_last());
        let c = s.last();
        if !alnum(c) {
            w
        } else if s.len() >= 2 && alnum(s[s.len() - 2]) {
            w.update(w.len() - 1, w.last().push(c))
        } else {
            w.push(seq![c])
        }
    }
}

/// The letters of every character of `w`, in order.
pub open spec fn lower_all(w: Seq<char>) -> Seq<char>
    decreases w.len(),
{
    if w.len() == 0 {
        Seq::empty()
    } else {
        lower_all(w.drop_last()) + letters(w.last())
    }
}

/// The words `ws` joined by single hyphens.
pub open spec fn hyphen_join(ws: Seq<Seq<char>>) -> Seq<char>
    decreases ws.len(),
{
    if ws.len() == 0 {
        Seq::empty()
    } else if ws.len() == 1 {
        ws[0]
    } else {
        hyphen_join(ws.drop_last()) + seq!['-'] + ws.last()
    }
}

proof fn lemma_join_extend_last(ws: Seq<Seq<char>>, y: Seq<char>)
    requires
        ws.len() > 0,
    ensures
        hyphen_join(ws.update(ws.len() - 1, ws.last() + y)) == hyphen_join(ws) + y,
{
    let u = ws.update(ws.len() - 1, ws.last() + y);
    if ws.len() > 1 {
        assert(u.drop_last() =~= ws.drop_last());
        assert(hyphen_join(ws.drop_last()) + seq!['-'] + (ws.last() + y) =~= hyphen_join(ws.drop_last())
            + seq!['-'] + ws.last() + y);
    }
}

proof fn lemma_join_push(ws: Seq<Seq<char>>, w: Seq<char>)
    requires
        ws.len() > 0,
    ensures
        hyphen_join(ws.push(w)) == hyphen_join(ws) + seq!['-'] + w,
{
    assert(ws.push(w).drop_last() =~= ws);
}

proof fn lemma_join_nonempty(ws: Seq<Seq<char>>)
    requires
        ws.len() > 0,
        ws.last().len() > 0,
    ensures
        hyphen_join(ws).len() > 0,
{
}

proof fn lemma_lower_all_nonempty(w: Seq<char>)
    requires
        w.len() > 0,
        letters(w.last()).len() > 0,
    ensures
        lower_all(w).len() > 0,
{
}

proof fn lemma_empty_words_no_alnum(s: Seq<char>)
    requires
        words(s).len() == 0,
        s.len() > 0,
    ensures
        !alnum(s.last()),
    decreases s.len(),
{
    let w0 = words(s.drop_last());
    if alnum(s.last()) {
        if s.len() >= 2 && alnum(s[s.len() - 2]) {
            assert(words(s).len() == w0.len());
            lemma_empty_words_no_alnum(s.drop_last());
            assert(s.drop_last().last() == s[s.len() - 2]);
        } else {
            assert(words(s).len() == w0.len() + 1);
        }
    }
}

/// The words of `s`, lower-cased.
pub open spec fn lowered_words(s: Seq<char>) -> Seq<Seq<char>> {
    words(s).map_values(|w: Seq<char>| lower_all(w))
}

proof fn lemma_words_last_alnum(s: Seq<char>)
    requires
        words(s).len() > 0,
    ensures
        words(s).last().len() > 0,
        alnum(words(s).last().last()),
    decreases s.len(),
{
    let w0 = words(s.drop_last());
    let c = s.last();
    if !alnum(c) {
        lemma_words_last_alnum(s.drop_last());
    } else if s.len() >= 2 && alnum(s[s.len() - 2]) {
        if w0.len() == 0 {
            assert(s.drop_last().last() == s[s.len() - 2]);
            lemma_empty_words_no_alnum(s.drop_last());
        }
    }
}

proof fn lemma_scan_words(s: Seq<char>)
    requires
        keeps_letters(s),
    ensures
        words(s).len() == 0 ==> slug_scan(s) == (Seq::<char>::empty(), false),
        words(s).len() > 0 && alnum(s.last()) ==> slug_scan(s) == (hyphen_join(lowered_words(s)), false),
        words(s).len() > 0 && !alnum(s.last()) ==> slug_scan(s) == (
            hyphen_join(lowered_words(s)).push('-'),
            true,
        ),
        words(s).len() > 0 ==> hyphen_join(lowered_words(s)).len() > 0,
    decreases s.len(),
{
    if s.len() > 0 {
        let s0 = s.drop_last();
        lemma_keeps_letters_prefix(s);
        lemma_scan_words(s0);
        let c = s.last();
        let w0 = words(s0);
        let w = words(s);
        let l0 = lowered_words(s0);
        let l = lowered_words(s);
        if alnum(c) {
            assert(letters(c).len() > 0);
            if s.len() >= 2 && alnum(s[s.len() - 2]) {
                assert(s0.last() == s[s.len() - 2]);
                assert(w0.len() > 0) by {
                    if w0.len() == 0 {
                        lemma_empty_words_no_alnum(s0);
                    }
                }
                assert(w == w0.update(w0.len() - 1, w0.last().push(c)));
                assert(w0.last().push(c).drop_last() =~= w0.last());
                assert(lower_all(w0.last().push(c)) == lower_all(w0.last()) + letters(c));
                assert(l =~= l0.update(l0.len() - 1, l0.last() + letters(c)));
                lemma_join_extend_last(l0, letters(c));
                assert(hyphen_join(l) == hyphen_join(l0) + letters(c));
            } else {
                assert(w == w0.push(seq![c]));
                assert(seq![c].drop_last() =~= Seq::<char>::empty());
                assert(seq![c].last() == c);
                assert(lower_all(Seq::<char>::empty()) == Seq::<char>::empty());
                assert(Seq::<char>::empty() + letters(c) =~= letters(c));
                assert(lower_all(seq![c]) =~= letters(c));
                assert(l =~= l0.push(letters(c)));
                if w0.len() > 0 {
                    lemma_join_push(l0, letters(c));
                    assert(s0.len() > 0);
                } else {
                    assert(l0.len() == 0);
                    assert(Seq::<char>::empty() + letters(c) =~= letters(c));
                }
            }
            lemma_words_last_alnum(s);
            lemma_lower_all_nonempty(w.last());
            assert(l.last() == lower_all(w.last()));
            lemma_join_nonempty(l);
        } else {
            assert(w == w0);
        }
    }
}

/// Where every alphanumeric character keeps a letter (as in every ASCII
/// text), the slug is the words of the input (its maximal runs of alphanumeric
/// characters), lower-cased and joined by single hyphens.
pub proof fn law_slug_joins_words(s: Seq<char>)
    requires
        keeps_letters(s),
    ensures
        spec_slugify(s) == hyphen_join(lowered_words(s)),
{
    lemma_scan_words(s);
    if words(s).len() > 0 && !alnum(s.last()) {
        assert(hyphen_join(lowered_words(s)).push('-').drop_last() =~= hyphen_join(lowered_words(s)));
    }
}

} // verus!
