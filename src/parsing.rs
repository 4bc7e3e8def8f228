//! The grammar of the `title` attribute: `;`-separated clauses, each a property
//! name followed by values, where a `"`-quoted span is one value.
use vstd::prelude::*;
use crate::text::{
    blank, is_blank, is_whitespace, is_ws, split_char, split_spec, split_words, views, words,
};

verus! {

/// A parsed property: its name and its values, as character sequences.
pub type PropertyView = (Seq<char>, Seq<Seq<char>>);

/// The first index at or after `i` that does not hold whitespace.
pub open spec fn skip_ws(s: Seq<char>, i: int) -> int
    decreases s.len() - i,
{
    if 0 <= i < s.len() && is_ws(s[i]) {
        skip_ws(s, i + 1)
    } else {
        i
    }
}

/// The first index at or after `i` that holds whitespace.
pub open spec fn skip_word(s: Seq<char>, i: int) -> int
    decreases s.len() - i,
{
    if 0 <= i < s.len() && !is_ws(s[i]) {
        skip_word(s, i + 1)
    } else {
        i
    }
}

/// The length of `s` without its trailing whitespace.
pub open spec fn trimmed_len(s: Seq<char>) -> int
    decreases s.len(),
{
    if s.len() > 0 && is_ws(s.last()) {
        trimmed_len(s.drop_last())
    } else {
        s.len() as int
    }
}

/// The values that the `k`-th `"`-separated segment contributes: an even one
/// (outside quotes) gives its words, an odd one (inside quotes) gives itself,
/// unless it is blank.
pub open spec fn segment_tokens(seg: Seq<char>, k: int) -> Seq<Seq<char>> {
    if k % 2 == 0 {
        words(seg)
    } else if blank(seg) {
        seq![]
    } else {
        seq![seg]
    }
}

/// The values of all segments, in segment order.
pub open spec fn segment_values(segs: Seq<Seq<char>>) -> Seq<Seq<char>>
    decreases segs.len(),
{
    if segs.len() == 0 {
        seq![]
    } else {
        segment_values(segs.drop_last()) + segment_tokens(segs.last(), segs.len() - 1)
    }
}

/// The values written after a property name.
pub open spec fn values_spec(rest: Seq<char>) -> Seq<Seq<char>> {
    segment_values(split_spec(rest, '"'))
}

/// One clause: the name is its first word; the values are read from what
/// follows the name, up to the clause's trailing whitespace. A blank clause
/// gives nothing.
pub open spec fn clause_spec(c: Seq<char>) -> Option<PropertyView> {
    let a = skip_ws(c, 0);
    if a >= c.len() {
        None
    } else {
        let b = skip_word(c, a);
        Some((c.subrange(a, b), values_spec(c.subrange(b, trimmed_len(c)))))
    }
}

/// The properties of a sequence of clauses, in order.
pub open spec fn clauses_spec(cls: Seq<Seq<char>>) -> Seq<PropertyView>
    decreases cls.len(),
{
    if cls.len() == 0 {
        seq![]
    } else {
        let p = clauses_spec(cls.drop_last());
        match clause_spec(cls.last()) {
            Some(x) => p.push(x),
            None => p,
        }
    }
}

/// The properties of a `title` attribute.
pub open spec fn properties_spec(s: Seq<char>) -> Seq<PropertyView> {
    clauses_spec(split_spec(s, ';'))
}

/// What a parsed property holds.
pub open spec fn property_view(p: (&str, Vec<&str>)) -> PropertyView {
    (p.0@, views(p.1@))
}

/// What a list of parsed properties holds.
pub open spec fn properties_view(v: Seq<(&str, Vec<&str>)>) -> Seq<PropertyView> {
    v.map_values(|p: (&str, Vec<&str>)| property_view(p))
}

/// The values of the text that follows a property name.
fn parse_values<'a>(rest: &'a str) -> (r: Vec<&'a str>)
    ensures
        views(r@) == values_spec(rest@),
{
    let segs = split_char(rest, '"');
    let ghost sv = views(segs@);
    let mut acc: Vec<&'a str> = Vec::new();
    let mut k: usize = 0;
    assert(sv.take(0) =~= Seq::<Seq<char>>::empty());
    assert(views(acc@) =~= Seq::<Seq<char>>::empty());
    while k < segs.len()
        invariant
            sv == views(segs@),
            k <= segs@.len(),
            views(acc@) == segment_values(sv.take(k as int)),
        decreases segs.len() - k,
    {
        let seg = segs[k];
        assert(sv.take(k + 1).drop_last() =~= sv.take(k as int));
        assert(sv.take(k + 1).last() == seg@);
        if k % 2 == 0 {
            let ws = split_words(seg);
            let mut j: usize = 0;
            let ghost before = views(acc@);
            while j < ws.len()
                invariant
                    j <= ws@.len(),
                    views(acc@) == before + views(ws@).take(j as int),
                decreases ws.len() - j,
            {
                let ghost old_acc = acc@;
                acc.push(ws[j]);
                assert(acc@ == old_acc.push(ws@[j as int]));
                assert(views(acc@) =~= views(old_acc).push(ws@[j as int]@));
                assert(views(ws@).take(j + 1) =~= views(ws@).take(j as int).push(ws@[j as int]@));
                j += 1;
                assert(views(acc@) =~= before + views(ws@).take(j as int));
            }
            assert(views(ws@).take(j as int) =~= views(ws@));
        } else if !is_blank(seg) {
            acc.push(seg);
            assert(views(acc@) =~= segment_values(sv.take(k + 1)));
        } else {
            assert(views(acc@) =~= segment_values(sv.take(k + 1)));
        }
        k += 1;
    }
    assert(sv.take(k as int) =~= sv);
    acc
}

/// Parses one clause of a `title` attribute.
fn parse_clause<'a>(c: &'a str) -> (r: Option<(&'a str, Vec<&'a str>)>)
    ensures
        match r {
            Some(p) => clause_spec(c@) == Some(property_view(p)),
            None => clause_spec(c@) is None,
        },
{
    let n = c.unicode_len();
    let mut a: usize = 0;
    while a < n && is_whitespace(c.get_char(a))
        invariant
            n == c@.len(),
            a <= n,
            skip_ws(c@, a as int) == skip_ws(c@, 0),
        decreases n - a,
    {
        a += 1;
    }
    if a >= n {
        return None;
    }
    assert(!is_ws(c@[a as int]));
    let mut b: usize = a;
    while b < n && !is_whitespace(c.get_char(b))
        invariant
            n == c@.len(),
            a < n,
            !is_ws(c@[a as int]),
            a <= b <= n,
            skip_word(c@, b as int) == skip_word(c@, a as int),
            forall|j: int| a <= j < b ==> !is_ws(#[trigger] c@[j]),
        decreases n - b,
    {
        b += 1;
    }
    assert(a < b);
    assert(!is_ws(c@[b - 1]));
    let mut e: usize = n;
    assert(c@.take(n as int) =~= c@);
    while e > 0 && is_whitespace(c.get_char(e - 1))
        invariant
            n == c@.len(),
            e <= n,
            a < b <= n,
            !is_ws(c@[b - 1]),
            trimmed_len(c@.take(e as int)) == trimmed_len(c@),
            forall|j: int| e <= j < n ==> is_ws(#[trigger] c@[j]),
        decreases e,
    {
        assert(c@.take(e as int).drop_last() =~= c@.take(e - 1));
        e -= 1;
    }
    assert(trimmed_len(c@.take(e as int)) == e as int);
    assert(!is_ws(c@[a as int]));
    assert(b <= e);
    let name = c.substring_char(a, b);
    let rest = c.substring_char(b, e);
    let values = parse_values(rest);
    Some((name, values))
}

/// Parses the `title` attribute of an element into its properties, in order of
/// appearance. It never fails: a blank clause is left out.
pub fn parse_properties<'a>(prop: &'a str) -> (r: Vec<(&'a str, Vec<&'a str>)>)
    ensures
        properties_view(r@) == properties_spec(prop@),
{
    let cls = split_char(prop, ';');
    let ghost cv = views(cls@);
    let mut acc: Vec<(&'a str, Vec<&'a str>)> = Vec::new();
    let mut k: usize = 0;
    assert(cv.take(0) =~= Seq::<Seq<char>>::empty());
    assert(properties_view(acc@) =~= Seq::<PropertyView>::empty());
    while k < cls.len()
        invariant
            cv == views(cls@),
            k <= cls@.len(),
            properties_view(acc@) == clauses_spec(cv.take(k as int)),
        decreases cls.len() - k,
    {
        assert(cv.take(k + 1).drop_last() =~= cv.take(k as int));
        assert(cv.take(k + 1).last() == cls@[k as int]@);
        match parse_clause(cls[k]) {
            Some(p) => {
                acc.push(p);
                assert(properties_view(acc@) =~= clauses_spec(cv.take(k + 1)));
            },
            None => {},
        }
        k += 1;
    }
    assert(cv.take(k as int) =~= cv);
    acc
}

proof fn lemma_skip_ws_blank(s: Seq<char>, i: int)
    requires
        blank(s),
        0 <= i <= s.len(),
    ensures
        skip_ws(s, i) == s.len(),
    decreases s.len() - i,
{
    if i < s.len() {
        lemma_skip_ws_blank(s, i + 1);
    }
}

/// Splitting a text in which `d` does not occur gives the text itself.
pub proof fn lemma_split_without_delimiter(s: Seq<char>, d: char)
    requires
        !s.contains(d),
    ensures
        split_spec(s, d) == seq![s],
    decreases s.len(),
{
    if s.len() > 0 {
        assert(!s.drop_last().contains(d)) by {
            if s.drop_last().contains(d) {
                let j = choose|j: int| 0 <= j < s.drop_last().len() && s.drop_last()[j] == d;
                assert(s[j] == d);
            }
        }
        lemma_split_without_delimiter(s.drop_last(), d);
        assert(s.last() != d) by {
            assert(s[s.len() - 1] == s.last());
        }
        assert(s.drop_last().push(s.last()) =~= s);
        assert(split_spec(s, d) =~= seq![s]);
    } else {
        assert(s =~= Seq::<char>::empty());
    }
}

/// Splitting never gives an empty list of pieces.
pub proof fn lemma_split_nonempty(s: Seq<char>, d: char)
    ensures
        split_spec(s, d).len() >= 1,
    decreases s.len(),
{
    if s.len() > 0 {
        lemma_split_nonempty(s.drop_last(), d);
    }
}

/// Splitting `a`, a delimiter, then `b` gives the pieces of `a` and then the
/// pieces of `b`.
pub proof fn lemma_split_concat(a: Seq<char>, b: Seq<char>, d: char)
    ensures
        split_spec(a + seq![d] + b, d) == split_spec(a, d) + split_spec(b, d),
    decreases b.len(),
{
    let s = a + seq![d] + b;
    lemma_split_nonempty(a, d);
    if b.len() == 0 {
        assert(s.drop_last() =~= a);
        assert(s.last() == d);
        assert(split_spec(s, d) =~= split_spec(a, d) + split_spec(b, d));
    } else {
        assert(s.drop_last() =~= a + seq![d] + b.drop_last());
        assert(s.last() == b.last());
        lemma_split_concat(a, b.drop_last(), d);
        lemma_split_nonempty(b.drop_last(), d);
        assert(split_spec(s, d) =~= split_spec(a, d) + split_spec(b, d));
    }
}

/// The values of segments `x` then `y`, where `x` has an even number of
/// segments, are those of `x` followed by those of `y`.
pub proof fn lemma_segment_values_concat(x: Seq<Seq<char>>, y: Seq<Seq<char>>)
    requires
        x.len() % 2 == 0,
    ensures
        segment_values(x + y) == segment_values(x) + segment_values(y),
    decreases y.len(),
{
    if y.len() == 0 {
        assert(x + y =~= x);
        assert(segment_values(x) + segment_values(y) =~= segment_values(x));
    } else {
        assert((x + y).drop_last() =~= x + y.drop_last());
        assert((x + y).last() == y.last());
        lemma_segment_values_concat(x, y.drop_last());
        assert((x.len() + y.len() - 1) % 2 == (y.len() - 1) % 2);
        assert(segment_values(x + y) =~= segment_values(x) + segment_values(y));
    }
}

/// A blank `title` attribute, the empty one included, has no properties.
pub proof fn lemma_blank_title_has_no_properties(s: Seq<char>)
    requires
        blank(s),
    ensures
        properties_spec(s) == Seq::<PropertyView>::empty(),
{
    assert(!s.contains(';')) by {
        if s.contains(';') {
            let j = choose|j: int| 0 <= j < s.len() && s[j] == ';';
            assert(is_ws(s[j]));
        }
    }
    lemma_split_without_delimiter(s, ';');
    lemma_skip_ws_blank(s, 0);
    let cls = seq![s];
    assert(cls.drop_last() =~= Seq::<Seq<char>>::empty());
    assert(clause_spec(cls.last()) is None);
    assert(clauses_spec(cls.drop_last()) == Seq::<PropertyView>::empty());
    assert(clauses_spec(cls) == clauses_spec(cls.drop_last()));
    assert(split_spec(s, ';') == cls);
}

/// Values are read left to right across quotes: an unquoted run gives its
/// words, the quoted span after it gives itself as one value, and what follows
/// the closing quote is read the same way.
pub proof fn lemma_values_interleave(u: Seq<char>, q: Seq<char>, w: Seq<char>)
    requires
        !u.contains('"'),
        !q.contains('"'),
        !blank(q),
    ensures
        values_spec(u + seq!['"'] + q + seq!['"'] + w) == words(u) + seq![q] + values_spec(w),
{
    let d = '"';
    let qw = q + seq![d] + w;
    assert(u + seq![d] + q + seq![d] + w =~= u + seq![d] + qw);
    lemma_split_concat(u, qw, d);
    lemma_split_concat(q, w, d);
    lemma_split_without_delimiter(u, d);
    lemma_split_without_delimiter(q, d);
    let x = seq![u, q];
    assert(split_spec(u, d) + split_spec(qw, d) =~= x + split_spec(w, d));
    lemma_segment_values_concat(x, split_spec(w, d));
    assert(x.drop_last() =~= seq![u]);
    assert(seq![u].drop_last() =~= Seq::<Seq<char>>::empty());
    assert(segment_values(seq![u].drop_last()) == Seq::<Seq<char>>::empty());
    assert(segment_tokens(u, 0) == words(u));
    assert(segment_values(seq![u]) =~= words(u));
    assert(segment_values(x) =~= words(u) + seq![q]);
}

} // verus!
