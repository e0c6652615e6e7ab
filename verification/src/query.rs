//! Query strings: `&`-separated segments of the form `name=value`.
use vstd::prelude::*;
use crate::fields::{
    FieldView, fields_map, fields_view, has_name, in_first_appearance_order, latest_fields,
    names_distinct,
};
use crate::text::{chars_of, slice_text};

verus! {

/// The index of the first `c` in `s`, or the length of `s` where there is none.
pub open spec fn first_index(s: Seq<char>, c: char) -> nat
    decreases s.len(),
{
    if s.len() == 0 {
        0
    } else if s[0] == c {
        0
    } else {
        1 + first_index(s.drop_first(), c)
    }
}

/// The text of `s` before its first `c` (all of `s` where there is none).
pub open spec fn before(s: Seq<char>, c: char) -> Seq<char> {
    s.take(first_index(s, c) as int)
}

/// The text of `s` after its first `c`.
pub open spec fn after(s: Seq<char>, c: char) -> Seq<char> {
    s.skip(first_index(s, c) as int + 1)
}

/// Whether `s` holds `c`, by its first index.
pub open spec fn holds(s: Seq<char>, c: char) -> bool {
    first_index(s, c) < s.len()
}

/// The field of one segment: its name is the text before the first `=`, its
/// value the text after that `=` up to the next `=` or the end.
pub open spec fn segment_field(seg: Seq<char>) -> FieldView {
    (before(seg, '='), before(after(seg, '='), '='))
}

/// A segment `name=value`, or `name=value=more`, whose name and value hold
/// no `=`, gives the field (name, value): the value ends at the second `=`.
/// A segment without `=` gives no field: a query of that one non-empty
/// segment, with no `&`, is not well formed.
pub proof fn lemma_segment_parts(name: Seq<char>, value: Seq<char>, more: Seq<char>)
    requires
        !name.contains('='),
        !value.contains('='),
    ensures
        segment_field(name + seq!['='] + value) == (name, value),
        segment_field(name + seq!['='] + value + seq!['='] + more) == (name, value),
        name.len() > 0 && !name.contains('&') ==> !query_well_formed(name),
{
    let s1 = name + seq!['='] + value;
    let s2 = name + seq!['='] + value + seq!['='] + more;
    assert forall|k: int| 0 <= k < name.len() implies s1[k] != '=' && s2[k] != '=' by {
        assert(s1[k] == name[k] && s2[k] == name[k]);
        if name[k] == '=' {
            assert(name.contains('='));
        }
    }
    lemma_first_index(s1, '=', name.len() as int);
    lemma_first_index(s2, '=', name.len() as int);
    assert(before(s1, '=') =~= name);
    assert(before(s2, '=') =~= name);
    assert(after(s1, '=') =~= value);
    assert(after(s2, '=') =~= value + seq!['='] + more);
    lemma_absent(value, '=');
    assert(before(value, '=') =~= value);
    let rest = value + seq!['='] + more;
    assert forall|k: int| 0 <= k < value.len() implies rest[k] != '=' by {
        assert(rest[k] == value[k]);
        if value[k] == '=' {
            assert(value.contains('='));
        }
    }
    lemma_first_index(rest, '=', value.len() as int);
    assert(before(rest, '=') =~= value);
    if name.len() > 0 && !name.contains('&') {
        lemma_absent(name, '&');
        lemma_absent(name, '=');
        assert(before(name, '&') =~= name);
    }
}

/// The fields of a query string, in order: one for each non-empty
/// `&`-separated segment.
pub open spec fn query_fields(q: Seq<char>) -> Seq<FieldView>
    decreases q.len(),
{
    let seg = before(q, '&');
    let rest = if holds(q, '&') {
        query_fields(after(q, '&'))
    } else {
        Seq::empty()
    };
    if seg.len() == 0 {
        rest
    } else {
        seq![segment_field(seg)] + rest
    }
}

/// Whether every non-empty `&`-separated segment of `q` holds an `=`.
pub open spec fn query_well_formed(q: Seq<char>) -> bool
    decreases q.len(),
{
    let seg = before(q, '&');
    &&& (seg.len() > 0 ==> holds(seg, '='))
    &&& (holds(q, '&') ==> query_well_formed(after(q, '&')))
}

/// The first index of `c` in `s` is `j` when `j` is the first place at which
/// `c` stands, or the length of `s` where `c` does not occur.
pub proof fn lemma_first_index(s: Seq<char>, c: char, j: int)
    requires
        0 <= j <= s.len(),
        forall|k: int| 0 <= k < j ==> s[k] != c,
        j < s.len() ==> s[j] == c,
    ensures
        first_index(s, c) == j,
    decreases j,
{
    if j > 0 {
        assert(s[0] != c);
        lemma_first_index(s.drop_first(), c, j - 1);
    }
}

/// The first index in `cs` from `from` on, below `to`, at which `c` stands,
/// or `to` where there is none.
fn find_char(cs: &Vec<char>, from: usize, to: usize, c: char) -> (r: usize)
    requires
        from <= to <= cs.len(),
    ensures
        from <= r <= to,
        forall|k: int| from <= k < r ==> cs@[k] != c,
        r < to ==> cs@[r as int] == c,
{
    let mut i: usize = from;
    while i < to
        invariant
            from <= i <= to,
            to <= cs.len(),
            forall|k: int| from <= k < i ==> cs@[k] != c,
        decreases to - i,
    {
        if cs[i] == c {
            return i;
        }
        i += 1;
    }
    i
}

/// The positions of the segment of `q` that starts at `pos`: its end, and
/// where its field's name and value end.
proof fn lemma_segment(q: Seq<char>, pos: int, end: int)
    requires
        0 <= pos <= end <= q.len(),
        forall|k: int| pos <= k < end ==> q[k] != '&',
        end < q.len() ==> q[end] == '&',
    ensures
        first_index(q.skip(pos), '&') == end - pos,
        before(q.skip(pos), '&') == q.subrange(pos, end),
        end < q.len() ==> holds(q.skip(pos), '&') && after(q.skip(pos), '&') == q.skip(end + 1),
        end == q.len() ==> !holds(q.skip(pos), '&'),
{
    let t = q.skip(pos);
    lemma_first_index(t, '&', end - pos);
    assert(before(t, '&') =~= q.subrange(pos, end));
    if end < q.len() {
        assert(after(t, '&') =~= q.skip(end + 1));
    }
}

proof fn lemma_field(seg: Seq<char>, eq: int, vend: int)
    requires
        0 <= eq < seg.len(),
        eq + 1 <= vend <= seg.len(),
        forall|k: int| 0 <= k < eq ==> seg[k] != '=',
        seg[eq] == '=',
        forall|k: int| eq + 1 <= k < vend ==> seg[k] != '=',
        vend < seg.len() ==> seg[vend] == '=',
    ensures
        holds(seg, '='),
        segment_field(seg) == (seg.subrange(0, eq), seg.subrange(eq + 1, vend)),
{
    lemma_first_index(seg, '=', eq);
    let rest = after(seg, '=');
    assert(rest =~= seg.skip(eq + 1));
    lemma_first_index(rest, '=', vend - eq - 1);
    assert(before(seg, '=') =~= seg.subrange(0, eq));
    assert(before(rest, '=') =~= seg.subrange(eq + 1, vend));
}

/// The fields of the query string `q`, in the order in which they stand.
pub fn parse_query(q: &str) -> (res: Vec<(String, String)>)
    requires
        query_well_formed(q@),
    ensures
        fields_view(res@) == query_fields(q@),
{
    let cs = chars_of(q);
    let n = cs.len();
    let mut out: Vec<(String, String)> = Vec::new();
    let mut pos: usize = 0;
    assert(q@.skip(0) =~= q@);
    loop
        invariant_except_break
            cs@ == q@,
            n == cs.len(),
            pos <= n,
            query_well_formed(q@.skip(pos as int)),
            fields_view(out@) + query_fields(q@.skip(pos as int)) == query_fields(q@),
        ensures
            fields_view(out@) == query_fields(q@),
        decreases n - pos,
    {
        let end = find_char(&cs, pos, n, '&');
        let ghost t = q@.skip(pos as int);
        proof {
            lemma_segment(q@, pos as int, end as int);
        }
        let ghost seg = q@.subrange(pos as int, end as int);
        let ghost rest = if end < n { query_fields(q@.skip(end + 1)) } else { Seq::empty() };
        assert(query_fields(t) == if seg.len() == 0 { rest } else { seq![segment_field(seg)] + rest });
        if end > pos {
            let eq = find_char(&cs, pos, end, '=');
            proof {
                lemma_first_index(seg, '=', eq - pos);
            }
            let vend = find_char(&cs, eq + 1, end, '=');
            proof {
                lemma_field(seg, eq - pos, vend - pos);
                assert(seg.subrange(0, eq - pos) =~= q@.subrange(pos as int, eq as int));
                assert(seg.subrange(eq - pos + 1, vend - pos) =~= q@.subrange(eq + 1, vend as int));
            }
            let name = slice_text(q, pos, eq);
            let value = slice_text(q, eq + 1, vend);
            let ghost before_push = out@;
            out.push((name, value));
            assert(fields_view(out@) =~= fields_view(before_push).push(segment_field(seg)));
            assert(fields_view(out@) + rest =~= fields_view(before_push) + query_fields(t));
        }
        if end == n {
            assert(fields_view(out@) =~= fields_view(out@) + Seq::<FieldView>::empty());
            break;
        }
        pos = end + 1;
    }
    out
}

/// The arguments of the query string `q`: one field per name, in the order
/// in which the names first appear, holding the value of the last field of
/// that name.
pub fn query_args(q: &str) -> (res: Vec<(String, String)>)
    requires
        query_well_formed(q@),
    ensures
        names_distinct(fields_view(res@)),
        fields_map(fields_view(res@)) == fields_map(query_fields(q@)),
        forall|name: Seq<char>|
            has_name(fields_view(res@), name) <==> has_name(query_fields(q@), name),
        in_first_appearance_order(fields_view(res@), query_fields(q@)),
{
    let fields = parse_query(q);
    latest_fields(&fields)
}

/// The query string made of `segments` joined by `&`.
pub open spec fn join_segments(segments: Seq<Seq<char>>) -> Seq<char>
    decreases segments.len(),
{
    if segments.len() == 0 {
        Seq::empty()
    } else if segments.len() == 1 {
        segments[0]
    } else {
        segments[0] + seq!['&'] + join_segments(segments.drop_first())
    }
}

/// The non-empty ones of `segments`, in order.
pub open spec fn nonempty_segments(segments: Seq<Seq<char>>) -> Seq<Seq<char>>
    decreases segments.len(),
{
    if segments.len() == 0 {
        Seq::empty()
    } else if segments[0].len() == 0 {
        nonempty_segments(segments.drop_first())
    } else {
        seq![segments[0]] + nonempty_segments(segments.drop_first())
    }
}

/// The fields of `segments`: one for each non-empty segment, in order.
pub open spec fn segments_fields(segments: Seq<Seq<char>>) -> Seq<FieldView>
    decreases segments.len(),
{
    if segments.len() == 0 {
        Seq::empty()
    } else if segments[0].len() == 0 {
        segments_fields(segments.drop_first())
    } else {
        seq![segment_field(segments[0])] + segments_fields(segments.drop_first())
    }
}

/// Whether every non-empty one of `segments` holds an `=`.
pub open spec fn segments_well_formed(segments: Seq<Seq<char>>) -> bool {
    forall|i: int|
        0 <= i < segments.len() && (#[trigger] segments[i]).len() > 0 ==> holds(segments[i], '=')
}

/// Whether no one of `segments` holds an `&`.
pub open spec fn no_ampersand(segments: Seq<Seq<char>>) -> bool {
    forall|i: int| 0 <= i < segments.len() ==> !(#[trigger] segments[i]).contains('&')
}

/// A query string joined from `&`-free segments has the fields of its
/// non-empty segments, and is well formed when they all hold an `=`.
pub proof fn lemma_query_of_segments(segments: Seq<Seq<char>>)
    requires
        no_ampersand(segments),
    ensures
        query_fields(join_segments(segments)) == segments_fields(segments),
        query_well_formed(join_segments(segments)) == segments_well_formed(segments),
    decreases segments.len(),
{
    let q = join_segments(segments);
    if segments.len() == 0 {
        lemma_first_index(q, '&', 0);
        assert(before(q, '&') =~= q);
    } else {
        let seg = segments[0];
        assert(!seg.contains('&'));
        let rest = segments.drop_first();
        if segments.len() == 1 {
            lemma_absent(seg, '&');
            assert(before(q, '&') =~= seg);
            assert(!holds(q, '&'));
            assert(segments_fields(rest) =~= Seq::<FieldView>::empty());
            assert(query_fields(q) =~= segments_fields(segments));
            lemma_well_formed_step(segments);
        } else {
            assert forall|i: int| 0 <= i < rest.len() implies !(#[trigger] rest[i]).contains('&') by {
                assert(rest[i] == segments[i + 1]);
            }
            lemma_query_of_segments(rest);
            assert(q == seg + seq!['&'] + join_segments(rest));
            assert forall|k: int| 0 <= k < seg.len() implies q[k] != '&' by {
                assert(q[k] == seg[k]);
                if seg[k] == '&' {
                    assert(seg.contains('&'));
                }
            }
            lemma_first_index(q, '&', seg.len() as int);
            assert(before(q, '&') =~= seg);
            assert(after(q, '&') =~= join_segments(rest));
            assert(query_fields(q) =~= segments_fields(segments));
            lemma_well_formed_step(segments);
        }
    }
}

/// The fields and the well-formedness of segments depend only on their
/// non-empty ones.
proof fn lemma_segments_nonempty(segments: Seq<Seq<char>>)
    ensures
        segments_fields(segments) == segments_fields(nonempty_segments(segments)),
        segments_well_formed(segments) == segments_well_formed(nonempty_segments(segments)),
    decreases segments.len(),
{
    if segments.len() > 0 {
        let rest = segments.drop_first();
        let ne = nonempty_segments(segments);
        lemma_segments_nonempty(rest);
        let ne_rest = nonempty_segments(rest);
        lemma_well_formed_step(segments);
        if segments[0].len() > 0 {
            assert(ne == seq![segments[0]] + ne_rest);
            assert(ne.drop_first() =~= ne_rest);
            assert(ne[0] == segments[0]);
            lemma_well_formed_step(ne);
        }
    }
}

proof fn lemma_well_formed_step(segments: Seq<Seq<char>>)
    requires
        segments.len() > 0,
    ensures
        segments_well_formed(segments) == ((segments[0].len() > 0 ==> holds(segments[0], '='))
            && segments_well_formed(segments.drop_first())),
{
    let rest = segments.drop_first();
    if segments_well_formed(segments) {
        assert forall|i: int| 0 <= i < rest.len() && (#[trigger] rest[i]).len() > 0 implies holds(
            rest[i],
            '=',
        ) by {
            assert(rest[i] == segments[i + 1]);
        }
    }
    if (segments[0].len() > 0 ==> holds(segments[0], '=')) && segments_well_formed(rest) {
        assert forall|i: int|
            0 <= i < segments.len() && (#[trigger] segments[i]).len() > 0 implies holds(
            segments[i],
            '=',
        ) by {
            if i > 0 {
                assert(segments[i] == rest[i - 1]);
            }
        }
    }
}

/// Empty `&`-separated pieces do not count: two query strings joined from
/// `&`-free segments with the same non-empty segments in the same order have
/// the same fields, and one is well formed exactly when the other is. So
/// `query_args`, whose result is fixed by the fields, answers them alike.
pub proof fn lemma_empty_pieces_ignored(a: Seq<Seq<char>>, b: Seq<Seq<char>>)
    requires
        no_ampersand(a),
        no_ampersand(b),
        nonempty_segments(a) == nonempty_segments(b),
    ensures
        query_fields(join_segments(a)) == query_fields(join_segments(b)),
        query_well_formed(join_segments(a)) == query_well_formed(join_segments(b)),
{
    lemma_query_of_segments(a);
    lemma_query_of_segments(b);
    lemma_segments_nonempty(a);
    lemma_segments_nonempty(b);
}

/// Whether every non-empty `&`-separated segment of `q` holds an `=`.
pub fn query_is_well_formed(q: &str) -> (res: bool)
    ensures
        res == query_well_formed(q@),
{
    let cs = chars_of(q);
    let n = cs.len();
    let mut pos: usize = 0;
    assert(q@.skip(0) =~= q@);
    loop
        invariant
            cs@ == q@,
            n == cs.len(),
            pos <= n,
            query_well_formed(q@) == query_well_formed(q@.skip(pos as int)),
        decreases n - pos,
    {
        let end = find_char(&cs, pos, n, '&');
        proof {
            lemma_segment(q@, pos as int, end as int);
        }
        let ghost seg = q@.subrange(pos as int, end as int);
        if end > pos {
            let eq = find_char(&cs, pos, end, '=');
            proof {
                lemma_first_index(seg, '=', eq - pos);
            }
            if eq == end {
                return false;
            }
        }
        if end == n {
            return true;
        }
        pos = end + 1;
    }
}

/// The text of one field: its name, `=`, its value.
pub open spec fn render_field(f: FieldView) -> Seq<char> {
    f.0 + seq!['='] + f.1
}

/// The query string that lists `fields` in order, joined by `&`.
pub open spec fn render_query(fields: Seq<FieldView>) -> Seq<char>
    decreases fields.len(),
{
    if fields.len() == 0 {
        Seq::empty()
    } else if fields.len() == 1 {
        render_field(fields[0])
    } else {
        render_field(fields[0]) + seq!['&'] + render_query(fields.drop_first())
    }
}

/// Whether `s` holds neither `&` nor `=`.
pub open spec fn plain_text(s: Seq<char>) -> bool {
    !s.contains('&') && !s.contains('=')
}

proof fn lemma_absent(s: Seq<char>, c: char)
    requires
        !s.contains(c),
    ensures
        first_index(s, c) == s.len(),
{
    assert forall|k: int| 0 <= k < s.len() implies s[k] != c by {
        if s[k] == c {
            assert(s.contains(c));
        }
    }
    lemma_first_index(s, c, s.len() as int);
}

proof fn lemma_render_field(f: FieldView)
    requires
        plain_text(f.0),
        plain_text(f.1),
    ensures
        !render_field(f).contains('&'),
        render_field(f).len() > 0,
        query_well_formed(render_field(f)),
        query_fields(render_field(f)) == seq![f],
        segment_field(render_field(f)) == f,
        holds(render_field(f), '='),
{
    let seg = render_field(f);
    assert forall|k: int| 0 <= k < seg.len() implies seg[k] != '&' by {
        if k < f.0.len() {
            assert(seg[k] == f.0[k]);
            if f.0[k] == '&' {
                assert(f.0.contains('&'));
            }
        } else if k > f.0.len() {
            assert(seg[k] == f.1[k - f.0.len() - 1]);
            if f.1[k - f.0.len() - 1] == '&' {
                assert(f.1.contains('&'));
            }
        }
    }
    assert(!seg.contains('&'));
    lemma_absent(seg, '&');
    assert forall|k: int| 0 <= k < f.0.len() implies seg[k] != '=' by {
        assert(seg[k] == f.0[k]);
        if f.0[k] == '=' {
            assert(f.0.contains('='));
        }
    }
    lemma_first_index(seg, '=', f.0.len() as int);
    assert(before(seg, '=') =~= f.0);
    assert(after(seg, '=') =~= f.1);
    lemma_absent(f.1, '=');
    assert(before(f.1, '=') =~= f.1);
    assert(before(seg, '&') =~= seg);
    assert(query_fields(seg) =~= seq![f]);
}

/// Listing fields whose names and values hold neither `&` nor `=` as a
/// query string, and reading that string back, gives the same fields in the
/// same order; the string is well formed.
pub proof fn lemma_query_round_trip(fields: Seq<FieldView>)
    requires
        forall|i: int|
            0 <= i < fields.len() ==> plain_text((#[trigger] fields[i]).0) && plain_text(fields[i].1),
    ensures
        query_well_formed(render_query(fields)),
        query_fields(render_query(fields)) == fields,
    decreases fields.len(),
{
    if fields.len() == 0 {
        let q = render_query(fields);
        lemma_first_index(q, '&', 0);
        assert(before(q, '&') =~= q);
        assert(query_fields(q) =~= fields);
    } else if fields.len() == 1 {
        assert(plain_text(fields[0].0) && plain_text(fields[0].1));
        lemma_render_field(fields[0]);
        assert(fields =~= seq![fields[0]]);
    } else {
        let f = fields[0];
        let rest = fields.drop_first();
        assert(plain_text(f.0) && plain_text(f.1));
        assert forall|i: int|
            0 <= i < rest.len() implies plain_text((#[trigger] rest[i]).0) && plain_text(
            rest[i].1) by {
            assert(rest[i] == fields[i + 1]);
        }
        lemma_query_round_trip(rest);
        lemma_render_field(f);
        let seg = render_field(f);
        let q = render_query(fields);
        assert(q == seg + seq!['&'] + render_query(rest));
        assert forall|k: int| 0 <= k < seg.len() implies q[k] != '&' by {
            assert(q[k] == seg[k]);
            if seg[k] == '&' {
                assert(seg.contains('&'));
            }
        }
        lemma_first_index(q, '&', seg.len() as int);
        assert(before(q, '&') =~= seg);
        assert(after(q, '&') =~= render_query(rest));
        assert(query_fields(q) =~= seq![f] + rest);
        assert(fields =~= seq![f] + rest);
        assert(holds(q, '&'));
        assert(before(q, '&').len() > 0 ==> holds(before(q, '&'), '='));
    }
}

} // verus!
