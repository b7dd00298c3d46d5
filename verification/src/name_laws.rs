use vstd::prelude::*;

use crate::loader::ends_with;
use crate::models::vehicle::{
    display_name, normalize_name, strip_candidate, strip_candidates, underscores_to_spaces,
};
use crate::text::{
    byte_to_char, is_white_space, join_space, lemma_join_extend, lemma_ws_pieces_len,
    nonempty_pieces, starts_with, trim, trim_end, trim_start, utf8_width, words, ws_pieces,
};

verus! {

/// `s` is in the tidy form of display names: no `_`, and its only white
/// space is single `' '` characters between other characters.
pub open spec fn tidy(s: Seq<char>) -> bool {
    &&& forall|i: int| 0 <= i < s.len() ==> #[trigger] s[i] != '_'
    &&& forall|i: int|
        0 <= i < s.len() && is_white_space(#[trigger] s[i]) ==> s[i] == ' ' && 0 < i < s.len() - 1
            && !is_white_space(s[i + 1])
}

/// A word of a tidied name: not empty, with no white space and no `_`.
pub open spec fn clean_word(w: Seq<char>) -> bool {
    &&& w.len() > 0
    &&& forall|i: int| 0 <= i < w.len() ==> !is_white_space(#[trigger] w[i]) && w[i] != '_'
}

proof fn lemma_trim_start_index(t: Seq<char>) -> (k: int)
    ensures
        0 <= k <= t.len(),
        trim_start(t) == t.skip(k),
        k < t.len() ==> !is_white_space(t[k]),
    decreases t.len(),
{
    if t.len() > 0 && is_white_space(t[0]) {
        let k = lemma_trim_start_index(t.drop_first());
        assert(t.drop_first().skip(k) =~= t.skip(k + 1));
        k + 1
    } else {
        assert(t.skip(0) =~= t);
        0
    }
}

proof fn lemma_tidy_cut(s: Seq<char>, j: int)
    requires
        tidy(s),
        0 <= j <= s.len(),
    ensures
        tidy(trim(s.skip(j))),
        ends_with(s, trim(s.skip(j))),
{
    let t = s.skip(j);
    let k = lemma_trim_start_index(t);
    let m = j + k;
    let u = s.skip(m);
    assert(t.skip(k) =~= u);
    if u.len() > 0 {
        assert(u.last() == s[s.len() - 1]);
        assert(!is_white_space(s[s.len() - 1]));
    }
    assert(trim_end(u) == u);
    assert(trim(t) == u);
    assert forall|i: int| 0 <= i < u.len() && is_white_space(#[trigger] u[i]) implies u[i] == ' '
        && 0 < i < u.len() - 1 && !is_white_space(u[i + 1]) by {
        assert(u[i] == s[m + i]);
        if i == 0 {
            assert(u[0] == t[k]);
        }
        assert(u[i + 1] == s[m + i + 1]);
    }
    assert forall|i: int| 0 <= i < u.len() implies #[trigger] u[i] != '_' by {
        assert(u[i] == s[m + i]);
    }
    assert(s.skip(s.len() - u.len()) =~= u);
}

proof fn lemma_byte_to_char_range(s: Seq<char>, b: int)
    ensures
        byte_to_char(s, b) matches Some(j) ==> 0 <= j <= s.len(),
    decreases s.len(),
{
    if b != 0 && s.len() > 0 && b >= 0 {
        lemma_byte_to_char_range(s.drop_first(), b - utf8_width(s[0]));
    }
}

proof fn lemma_strip_tidy(norm: Seq<char>, cands: Seq<Seq<char>>)
    requires
        tidy(norm),
    ensures
        strip_candidates(norm, cands) matches Some(x) ==> tidy(x) && x.len() > 0 && ends_with(
            norm,
            x,
        ),
    decreases cands.len(),
{
    if cands.len() > 0 {
        let p = cands[0];
        if starts_with(norm, p) && trim(norm.skip(p.len() as int)).len() > 0 {
            lemma_tidy_cut(norm, p.len() as int);
        } else {
            lemma_byte_to_char_range(norm, crate::text::utf8_len(p) as int);
            match byte_to_char(norm, crate::text::utf8_len(p) as int) {
                Some(j) => lemma_tidy_cut(norm, j),
                None => {},
            }
        }
        lemma_strip_tidy(norm, cands.drop_first());
    }
}

proof fn lemma_pieces_clean(s: Seq<char>)
    requires
        forall|i: int| 0 <= i < s.len() ==> #[trigger] s[i] != '_',
    ensures
        forall|k: int, i: int|
            0 <= k < ws_pieces(s).len() && 0 <= i < ws_pieces(s)[k].len() ==> !is_white_space(
                #[trigger] ws_pieces(s)[k][i],
            ) && ws_pieces(s)[k][i] != '_',
    decreases s.len(),
{
    if s.len() > 0 {
        let t = s.drop_last();
        assert forall|i: int| 0 <= i < t.len() implies #[trigger] t[i] != '_' by {
            assert(t[i] == s[i]);
        }
        lemma_pieces_clean(t);
        lemma_ws_pieces_len(t);
        let r = ws_pieces(t);
        assert forall|k: int, i: int|
            0 <= k < ws_pieces(s).len() && 0 <= i < ws_pieces(s)[k].len() implies !is_white_space(
            #[trigger] ws_pieces(s)[k][i],
        ) && ws_pieces(s)[k][i] != '_' by {
            if !is_white_space(s.last()) && k == r.len() - 1 {
                if i < r.last().len() {
                    assert(ws_pieces(s)[k][i] == r[k][i]);
                } else {
                    assert(ws_pieces(s)[k][i] == s.last());
                    assert(s[s.len() - 1] != '_');
                }
            } else if k < r.len() {
                assert(ws_pieces(s)[k] == r[k]);
                assert(ws_pieces(s)[k][i] == r[k][i]);
            }
        }
    }
}

proof fn lemma_nonempty_pieces_from(r: Seq<Seq<char>>)
    requires
        forall|k: int, i: int|
            0 <= k < r.len() && 0 <= i < r[k].len() ==> !is_white_space(#[trigger] r[k][i])
                && r[k][i] != '_',
    ensures
        forall|k: int| 0 <= k < nonempty_pieces(r).len() ==> clean_word(#[trigger] nonempty_pieces(r)[k]),
    decreases r.len(),
{
    if r.len() > 0 {
        let d = r.drop_last();
        assert forall|k: int, i: int| 0 <= k < d.len() && 0 <= i < d[k].len() implies !is_white_space(
            #[trigger] d[k][i],
        ) && d[k][i] != '_' by {
            assert(d[k] == r[k]);
        }
        lemma_nonempty_pieces_from(d);
        if r.last().len() == 0 {
            assert(nonempty_pieces(r) == nonempty_pieces(d));
        } else {
            let np = nonempty_pieces(r);
            assert forall|k: int| 0 <= k < np.len() implies clean_word(#[trigger] np[k]) by {
                if k == np.len() - 1 {
                    assert(np[k] == r[r.len() - 1]);
                    assert forall|i: int| 0 <= i < np[k].len() implies !is_white_space(#[trigger] np[k][i])
                        && np[k][i] != '_' by {
                        assert(np[k][i] == r[r.len() - 1][i]);
                    }
                } else {
                    assert(np[k] == nonempty_pieces(d)[k]);
                }
            }
        }
    }
}

proof fn lemma_join_tidy(ws: Seq<Seq<char>>)
    requires
        forall|k: int| 0 <= k < ws.len() ==> clean_word(#[trigger] ws[k]),
    ensures
        tidy(join_space(ws)),
        ws.len() > 0 ==> join_space(ws).len() > 0,
    decreases ws.len(),
{
    if ws.len() == 1 {
        let w = ws[0];
        assert(clean_word(ws[0]));
        assert forall|i: int| 0 <= i < w.len() implies !is_white_space(#[trigger] w[i]) by {}
    } else if ws.len() > 1 {
        let d = ws.drop_last();
        assert forall|k: int| 0 <= k < d.len() implies clean_word(#[trigger] d[k]) by {
            assert(d[k] == ws[k]);
        }
        lemma_join_tidy(d);
        let a = join_space(d);
        let w = ws.last();
        assert(clean_word(ws[ws.len() - 1]));
        let j = a + seq![' '] + w;
        assert(join_space(ws) == j);
        assert forall|i: int| 0 <= i < j.len() implies #[trigger] j[i] != '_' by {
            if i < a.len() {
                assert(j[i] == a[i]);
            } else if i > a.len() {
                assert(j[i] == w[i - a.len() - 1]);
            }
        }
        assert forall|i: int| 0 <= i < j.len() && is_white_space(#[trigger] j[i]) implies j[i] == ' '
            && 0 < i < j.len() - 1 && !is_white_space(j[i + 1]) by {
            if i < a.len() {
                assert(j[i] == a[i]);
                if i < a.len() - 1 {
                    assert(j[i + 1] == a[i + 1]);
                }
            } else if i > a.len() {
                assert(j[i] == w[i - a.len() - 1]);
            } else {
                assert(j[i + 1] == w[0]);
            }
        }
    }
}

proof fn lemma_join_pieces(s: Seq<char>)
    requires
        forall|i: int| 0 <= i < s.len() && is_white_space(#[trigger] s[i]) ==> s[i] == ' ',
    ensures
        join_space(ws_pieces(s)) == s,
    decreases s.len(),
{
    if s.len() == 0 {
        assert(join_space(ws_pieces(s)) =~= s);
    } else {
        let t = s.drop_last();
        assert forall|i: int| 0 <= i < t.len() && is_white_space(#[trigger] t[i]) implies t[i] == ' ' by {
            assert(t[i] == s[i]);
        }
        lemma_join_pieces(t);
        lemma_ws_pieces_len(t);
        let r = ws_pieces(t);
        if is_white_space(s.last()) {
            assert(s[s.len() - 1] == ' ');
            assert(r.push(Seq::<char>::empty()).drop_last() =~= r);
            assert(join_space(ws_pieces(s)) =~= s);
        } else {
            let w = r.drop_last();
            assert(r =~= w.push(r.last()));
            lemma_join_extend(w, r.last(), s.last());
            assert(ws_pieces(s) =~= w.push(r.last().push(s.last())));
            assert(join_space(ws_pieces(s)) =~= s);
        }
    }
}

proof fn lemma_pieces_nonempty(s: Seq<char>)
    requires
        s.len() > 0,
        !is_white_space(s[0]),
        forall|i: int| 0 <= i < s.len() - 1 && is_white_space(#[trigger] s[i]) ==> !is_white_space(s[i + 1]),
    ensures
        forall|k: int| 0 <= k < ws_pieces(s).len() - 1 ==> (#[trigger] ws_pieces(s)[k]).len() > 0,
        ws_pieces(s).last().len() == 0 <==> is_white_space(s.last()),
    decreases s.len(),
{
    let t = s.drop_last();
    lemma_ws_pieces_len(t);
    if t.len() == 0 {
        assert(ws_pieces(t) =~= seq![Seq::<char>::empty()]);
    } else {
        assert(t[0] == s[0]);
        assert forall|i: int| 0 <= i < t.len() - 1 && is_white_space(#[trigger] t[i]) implies !is_white_space(
            t[i + 1],
        ) by {
            assert(t[i] == s[i]);
            assert(t[i + 1] == s[i + 1]);
        }
        lemma_pieces_nonempty(t);
        let r = ws_pieces(t);
        if is_white_space(s.last()) {
            assert(s[s.len() - 2] == t.last());
            assert(!is_white_space(t.last()));
            assert forall|k: int| 0 <= k < ws_pieces(s).len() - 1 implies (
            #[trigger] ws_pieces(s)[k]).len() > 0 by {
                assert(ws_pieces(s)[k] == r[k]);
            }
        } else {
            assert forall|k: int| 0 <= k < ws_pieces(s).len() - 1 implies (
            #[trigger] ws_pieces(s)[k]).len() > 0 by {
                assert(ws_pieces(s)[k] == r[k]);
            }
        }
    }
}

proof fn lemma_nonempty_id(r: Seq<Seq<char>>)
    requires
        forall|k: int| 0 <= k < r.len() ==> (#[trigger] r[k]).len() > 0,
    ensures
        nonempty_pieces(r) == r,
    decreases r.len(),
{
    if r.len() > 0 {
        let d = r.drop_last();
        assert forall|k: int| 0 <= k < d.len() implies (#[trigger] d[k]).len() > 0 by {
            assert(d[k] == r[k]);
        }
        lemma_nonempty_id(d);
        assert(r[r.len() - 1].len() > 0);
        assert(d.push(r.last()) =~= r);
    }
}

proof fn lemma_tidy_normal(d: Seq<char>)
    requires
        tidy(d),
        d.len() > 0,
    ensures
        trim(d) == d,
        normalize_name(d) == d,
{
    assert(!is_white_space(d[0]));
    assert(!is_white_space(d[d.len() - 1]));
    assert(trim_start(d) == d);
    assert(trim_end(d) == d);
    assert(underscores_to_spaces(d) =~= d) by {
        assert forall|i: int| 0 <= i < d.len() implies underscores_to_spaces(d)[i] == d[i] by {
            assert(d[i] != '_');
        }
    }
    lemma_pieces_nonempty(d);
    lemma_nonempty_id(ws_pieces(d));
    lemma_join_pieces(d);
}

/// The display name of a vehicle whose tidied name is not empty (names
/// made only of white space and `_` tidy to nothing) is itself tidy and
/// not empty: no `_`, no white space but single spaces between words, so
/// trimmed; it is the end of the tidied name (all of it without a
/// manufacturer); and tidying it again changes nothing.
pub proof fn law_display_name_form(n: Seq<char>, m: Option<Seq<char>>)
    requires
        words(underscores_to_spaces(trim(n))).len() > 0,
    ensures
        display_name(Some(n), m) matches Some(d) && {
            &&& d.len() > 0
            &&& tidy(d)
            &&& trim(d) == d
            &&& ends_with(normalize_name(n), d)
            &&& m is None ==> d == normalize_name(n)
            &&& display_name(Some(d), None) == Some(d)
        },
{
    let u = underscores_to_spaces(trim(n));
    if trim(n).len() == 0 {
        assert(u.len() == 0);
        let e = seq![Seq::<char>::empty()];
        assert(ws_pieces(u) =~= e);
        assert(e.drop_last() =~= Seq::<Seq<char>>::empty());
        assert(nonempty_pieces(Seq::<Seq<char>>::empty()).len() == 0);
        assert(nonempty_pieces(e).len() == 0);
    }
    assert forall|i: int| 0 <= i < u.len() implies #[trigger] u[i] != '_' by {}
    lemma_pieces_clean(u);
    lemma_nonempty_pieces_from(ws_pieces(u));
    lemma_join_tidy(words(u));
    let norm = normalize_name(n);
    assert(norm == join_space(words(u)));
    assert(norm.skip(0) =~= norm);
    match m {
        None => {},
        Some(mm) => {
            lemma_strip_tidy(norm, crate::models::vehicle::name_candidates(mm));
        },
    }
    let d = display_name(Some(n), m)->0;
    lemma_tidy_normal(d);
}

} // verus!
