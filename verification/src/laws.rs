//! Laws of the query model: the scanner finds leftmost occurrences, and
//! rendering a well-formed query and parsing the text back recovers the
//! query, with the projection carrying the added result-binding suffix.

use vstd::prelude::*;

use crate::parser::blank;
use crate::parser::has_sub;
use crate::parser::has_sub_from;
use crate::parser::occurs_at;
use crate::parser::spec_find;
use crate::parser::spec_parse;
use crate::parser::spec_trim;
use crate::parser::trim_back;
use crate::parser::trim_front;
use crate::parser::Clause;
use crate::parser::ParseError;
use crate::parser::ParsedQuery;
use crate::query::mode_keyword;
use crate::query::spec_render;
use crate::query::NRQLQuery;
use crate::query::QueryType;

verus! {

/// `spec_find` returns the leftmost occurrence at or after `from`, and
/// `None` exactly when there is none.
pub proof fn lemma_find_props(s: Seq<char>, p: Seq<char>, from: int)
    requires
        0 <= from,
    ensures
        match spec_find(s, p, from) {
            Some(i) => from <= i && occurs_at(s, p, i) && (forall|j: int|
                from <= j < i ==> !occurs_at(s, p, j)),
            None => forall|j: int| from <= j ==> !occurs_at(s, p, j),
        },
    decreases s.len() + 1 - from,
{
    if from + p.len() > s.len() {
        assert forall|j: int| from <= j implies !occurs_at(s, p, j) by {
            if occurs_at(s, p, j) {
                assert(j + p.len() <= s.len());
            }
        }
    } else if occurs_at(s, p, from) {
    } else {
        lemma_find_props(s, p, from + 1);
    }
}

/// If `p` occurs at `j` and nowhere between `from` and `j`, the scan from
/// `from` lands exactly on `j`.
pub proof fn lemma_find_exact(s: Seq<char>, p: Seq<char>, from: int, j: int)
    requires
        0 <= from <= j,
        occurs_at(s, p, j),
        forall|k: int| from <= k < j ==> !occurs_at(s, p, k),
    ensures
        spec_find(s, p, from) == Some(j),
    decreases j - from,
{
    if from == j {
    } else {
        lemma_find_exact(s, p, from + 1, j);
    }
}

/// If `p` occurs nowhere at or after `from`, the scan finds nothing.
pub proof fn lemma_find_none(s: Seq<char>, p: Seq<char>, from: int)
    requires
        0 <= from,
        forall|j: int| from <= j ==> !occurs_at(s, p, j),
    ensures
        spec_find(s, p, from) is None,
{
    lemma_find_props(s, p, from);
    if spec_find(s, p, from) is Some {
        let i = spec_find(s, p, from)->Some_0;
        assert(occurs_at(s, p, i));
    }
}

/// A pattern longer than the text occurs nowhere in it.
pub proof fn lemma_no_sub_too_long(s: Seq<char>, p: Seq<char>)
    requires
        p.len() > s.len(),
    ensures
        !has_sub(s, p),
{
    assert forall|i: int| !occurs_at(s, p, i) by {
        if occurs_at(s, p, i) {
            assert(i + p.len() <= s.len());
        }
    }
}

/// A pattern whose first character appears nowhere in the text occurs
/// nowhere in it.
pub proof fn lemma_no_sub_by_first_char(s: Seq<char>, p: Seq<char>)
    requires
        p.len() > 0,
        forall|i: int| 0 <= i < s.len() ==> s[i] != p[0],
    ensures
        !has_sub(s, p),
{
    assert forall|i: int| !occurs_at(s, p, i) by {
        if occurs_at(s, p, i) {
            assert(s.subrange(i, i + p.len() as int)[0] == p[0]);
            assert(s[i] == p[0]);
        }
    }
}

/// A space-free pattern absent from both halves of a concatenation whose
/// seam carries a space is absent from the whole.
pub proof fn lemma_no_sub_concat(a: Seq<char>, b: Seq<char>, p: Seq<char>)
    requires
        !has_sub(a, p),
        !has_sub(b, p),
        p.len() > 0,
        forall|k: int| 0 <= k < p.len() ==> p[k] != ' ',
        b.len() > 0,
        b[0] == ' ' || (a.len() > 0 && a.last() == ' '),
    ensures
        !has_sub(a + b, p),
{
    let s = a + b;
    assert forall|i: int| !occurs_at(s, p, i) by {
        if occurs_at(s, p, i) {
            assert(forall|k: int|
                0 <= k < p.len() ==> s.subrange(i, i + p.len() as int)[k] == p[k]);
            assert(forall|k: int| 0 <= k < p.len() ==> s[i + k] == p[k]);
            if i + p.len() <= a.len() {
                assert(a.subrange(i, i + p.len() as int) =~= s.subrange(
                    i,
                    i + p.len() as int,
                ));
                assert(occurs_at(a, p, i));
            } else if i >= a.len() {
                assert(b.subrange(i - a.len(), i - a.len() + p.len() as int) =~= s.subrange(
                    i,
                    i + p.len() as int,
                ));
                assert(occurs_at(b, p, i - a.len()));
            } else {
                if b[0] == ' ' {
                    let k = a.len() - i;
                    assert(s[i + k] == b[0]);
                    assert(p[k] == ' ');
                } else {
                    let k = a.len() - 1 - i;
                    assert(s[i + k] == a.last());
                    assert(p[k] == ' ');
                }
            }
        }
    }
}

/// Occurrences within a window of the text are occurrences in the window.
pub proof fn lemma_no_sub_in_window(s: Seq<char>, p: Seq<char>, pos: int)
    requires
        0 <= pos <= s.len(),
        !has_sub(s.subrange(pos, s.len() as int), p),
    ensures
        forall|i: int| pos <= i ==> !occurs_at(s, p, i),
{
    let tail = s.subrange(pos, s.len() as int);
    assert forall|i: int| pos <= i implies !occurs_at(s, p, i) by {
        if occurs_at(s, p, i) {
            assert(tail.subrange(i - pos, i - pos + p.len() as int) =~= s.subrange(
                i,
                i + p.len() as int,
            ));
            assert(occurs_at(tail, p, i - pos));
        }
    }
}

/// A field is stored trimmed: it neither starts nor ends with whitespace.
pub open spec fn is_trimmed(x: Seq<char>) -> bool {
    x.len() > 0 ==> (!blank(x[0]) && !blank(x.last()))
}

/// Trimming a trimmed body padded with one space on each side recovers the
/// body.
pub proof fn lemma_trim_padded(x: Seq<char>)
    requires
        is_trimmed(x),
    ensures
        spec_trim(seq![' '] + x + seq![' ']) == x,
{
    let pad = seq![' '] + x + seq![' '];
    assert(blank(pad[0]));
    assert(pad.drop_first() =~= x + seq![' ']);
    if x.len() == 0 {
        let one = x + seq![' '];
        assert(one.len() == 1 && one[0] == ' ');
        assert(one.drop_first() =~= Seq::<char>::empty());
        assert(trim_front(pad) == trim_front(one));
        assert(trim_front(one) == trim_front(Seq::<char>::empty()));
        assert(trim_back(Seq::<char>::empty()) =~= x);
    } else {
        let y = x + seq![' '];
        assert(y[0] == x[0]);
        assert(trim_front(pad) == trim_front(y));
        assert(trim_front(y) == y);
        assert(y.last() == ' ');
        assert(y.drop_last() =~= x);
        assert(trim_back(y) == trim_back(x));
        assert(trim_back(x) == x);
    }
}

/// The scan from `pos` over a space-padded body lands exactly on the
/// keyword that follows the padding.
pub proof fn lemma_find_padded(s: Seq<char>, p: Seq<char>, pos: int, body: Seq<char>, j: int)
    requires
        0 <= pos,
        pos + body.len() + 2 == j,
        j + p.len() <= s.len(),
        s.subrange(pos, j) == seq![' '] + body + seq![' '],
        occurs_at(s, p, j),
        !has_sub(body, p),
        p.len() > 0,
        forall|k: int| 0 <= k < p.len() ==> p[k] != ' ',
    ensures
        spec_find(s, p, pos) == Some(j),
{
    let pad = seq![' '] + body + seq![' '];
    assert(s.subrange(pos, j).len() == j - pos);
    assert forall|i: int| pos <= i < j implies !occurs_at(s, p, i) by {
        if occurs_at(s, p, i) {
            assert(forall|k: int|
                0 <= k < p.len() ==> s.subrange(i, i + p.len() as int)[k] == p[k]);
            assert(forall|k: int| 0 <= k < p.len() ==> s[i + k] == p[k]);
            assert(s[pos] == pad[0]);
            assert(s[j - 1] == pad[j - 1 - pos]);
            assert(pad[j - 1 - pos] == ' ');
            if i == pos {
                assert(p[0] == s[pos]);
            } else if i + p.len() <= j - 1 {
                assert forall|t: int| 0 <= t < body.len() implies s.subrange(
                    pos + 1,
                    j - 1,
                )[t] == body[t] by {
                    assert(s.subrange(pos, j)[t + 1] == pad[t + 1]);
                }
                assert(body =~= s.subrange(pos + 1, j - 1));
                assert(body.subrange(i - pos - 1, i - pos - 1 + p.len() as int) =~= s.subrange(
                    i,
                    i + p.len() as int,
                ));
                assert(occurs_at(body, p, i - pos - 1));
            } else {
                let k = j - 1 - i;
                assert(p[k] == s[j - 1]);
            }
        }
    }
    lemma_find_exact(s, p, pos, j);
}

/// A clause body is clean when no clause keyword of the grammar occurs
/// inside it.
pub open spec fn field_clean(x: Seq<char>) -> bool {
    &&& !has_sub(x, "SELECT"@)
    &&& !has_sub(x, "WHERE"@)
    &&& !has_sub(x, "FACET"@)
    &&& !has_sub(x, "SINCE"@)
    &&& !has_sub(x, "UNTIL"@)
    &&& !has_sub(x, "LIMIT"@)
    &&& !has_sub(x, "TIMESERIES"@)
    &&& !has_sub(x, "TABLE"@)
}

/// A query whose canonical text parses back: every mandatory clause body
/// is non-empty, every body is stored trimmed, and no body contains a
/// clause keyword.
pub open spec fn wf_query(q: NRQLQuery) -> bool {
    &&& q.from@.len() > 0
    &&& q.select@.len() > 0
    &&& q.where_clause@.len() > 0
    &&& q.since@.len() > 0
    &&& q.until@.len() > 0
    &&& q.limit@.len() > 0
    &&& is_trimmed(q.from@) && field_clean(q.from@)
    &&& is_trimmed(q.select@) && field_clean(q.select@)
    &&& is_trimmed(q.where_clause@) && field_clean(q.where_clause@)
    &&& is_trimmed(q.facet@) && field_clean(q.facet@)
    &&& is_trimmed(q.since@) && field_clean(q.since@)
    &&& is_trimmed(q.until@) && field_clean(q.until@)
    &&& is_trimmed(q.limit@) && field_clean(q.limit@)
}

/// Parsing the canonical text of `q` recovers `q`, except that the
/// projection carries the added result-binding suffix.
pub open spec fn round_trip_ok(q: NRQLQuery) -> bool {
    let r = spec_parse(spec_render(q));
    &&& r is Ok
    &&& r->Ok_0.from == q.from@
    &&& r->Ok_0.select == q.select@ + " as value"@
    &&& r->Ok_0.where_clause == q.where_clause@
    &&& r->Ok_0.facet == q.facet@
    &&& r->Ok_0.since == q.since@
    &&& r->Ok_0.until == q.until@
    &&& r->Ok_0.limit == q.limit@
    &&& r->Ok_0.mode == q.mode
}

/// The characters of `SELECT`: no spaces.
proof fn lemma_chars_select()
    ensures
        forall|k: int| 0 <= k < "SELECT"@.len() ==> "SELECT"@[k] != ' ',
{
    reveal_strlit("SELECT");
    assert forall|k: int| 0 <= k < "SELECT"@.len() implies "SELECT"@[k] != ' ' by {
        if k == 0 {
            assert("SELECT"@[0] == 'S');
        } else if k == 1 {
            assert("SELECT"@[1] == 'E');
        } else if k == 2 {
            assert("SELECT"@[2] == 'L');
        } else if k == 3 {
            assert("SELECT"@[3] == 'E');
        } else if k == 4 {
            assert("SELECT"@[4] == 'C');
        } else {
            assert("SELECT"@[5] == 'T');
        }
    }
}

/// The characters of `WHERE`: no spaces.
proof fn lemma_chars_where()
    ensures
        forall|k: int| 0 <= k < "WHERE"@.len() ==> "WHERE"@[k] != ' ',
{
    reveal_strlit("WHERE");
    assert forall|k: int| 0 <= k < "WHERE"@.len() implies "WHERE"@[k] != ' ' by {
        if k == 0 {
            assert("WHERE"@[0] == 'W');
        } else if k == 1 {
            assert("WHERE"@[1] == 'H');
        } else if k == 2 {
            assert("WHERE"@[2] == 'E');
        } else if k == 3 {
            assert("WHERE"@[3] == 'R');
        } else {
            assert("WHERE"@[4] == 'E');
        }
    }
}

/// The characters of `FACET`: no spaces.
proof fn lemma_chars_facet()
    ensures
        forall|k: int| 0 <= k < "FACET"@.len() ==> "FACET"@[k] != ' ',
{
    reveal_strlit("FACET");
    assert forall|k: int| 0 <= k < "FACET"@.len() implies "FACET"@[k] != ' ' by {
        if k == 0 {
            assert("FACET"@[0] == 'F');
        } else if k == 1 {
            assert("FACET"@[1] == 'A');
        } else if k == 2 {
            assert("FACET"@[2] == 'C');
        } else if k == 3 {
            assert("FACET"@[3] == 'E');
        } else {
            assert("FACET"@[4] == 'T');
        }
    }
}

/// The characters of `SINCE`: no spaces and no `F`.
proof fn lemma_chars_since()
    ensures
        forall|k: int|
            0 <= k < "SINCE"@.len() ==> "SINCE"@[k] != ' ' && "SINCE"@[k] != 'F',
{
    reveal_strlit("SINCE");
    assert forall|k: int| 0 <= k < "SINCE"@.len() implies "SINCE"@[k] != ' ' && "SINCE"@[k]
        != 'F' by {
        if k == 0 {
            assert("SINCE"@[0] == 'S');
        } else if k == 1 {
            assert("SINCE"@[1] == 'I');
        } else if k == 2 {
            assert("SINCE"@[2] == 'N');
        } else if k == 3 {
            assert("SINCE"@[3] == 'C');
        } else {
            assert("SINCE"@[4] == 'E');
        }
    }
}

/// The characters of `UNTIL`: no spaces and no `F`.
proof fn lemma_chars_until()
    ensures
        forall|k: int|
            0 <= k < "UNTIL"@.len() ==> "UNTIL"@[k] != ' ' && "UNTIL"@[k] != 'F',
{
    reveal_strlit("UNTIL");
    assert forall|k: int| 0 <= k < "UNTIL"@.len() implies "UNTIL"@[k] != ' ' && "UNTIL"@[k]
        != 'F' by {
        if k == 0 {
            assert("UNTIL"@[0] == 'U');
        } else if k == 1 {
            assert("UNTIL"@[1] == 'N');
        } else if k == 2 {
            assert("UNTIL"@[2] == 'T');
        } else if k == 3 {
            assert("UNTIL"@[3] == 'I');
        } else {
            assert("UNTIL"@[4] == 'L');
        }
    }
}

/// The characters of `LIMIT`: no spaces and no `F`.
proof fn lemma_chars_limit()
    ensures
        forall|k: int|
            0 <= k < "LIMIT"@.len() ==> "LIMIT"@[k] != ' ' && "LIMIT"@[k] != 'F',
{
    reveal_strlit("LIMIT");
    assert forall|k: int| 0 <= k < "LIMIT"@.len() implies "LIMIT"@[k] != ' ' && "LIMIT"@[k]
        != 'F' by {
        if k == 0 {
            assert("LIMIT"@[0] == 'L');
        } else if k == 1 {
            assert("LIMIT"@[1] == 'I');
        } else if k == 2 {
            assert("LIMIT"@[2] == 'M');
        } else if k == 3 {
            assert("LIMIT"@[3] == 'I');
        } else {
            assert("LIMIT"@[4] == 'T');
        }
    }
}

/// The characters of `TIMESERIES`: no spaces and no `F`.
proof fn lemma_chars_timeseries()
    ensures
        forall|k: int|
            0 <= k < "TIMESERIES"@.len() ==> "TIMESERIES"@[k] != ' ' && "TIMESERIES"@[k]
                != 'F',
{
    reveal_strlit("TIMESERIES");
    assert forall|k: int| 0 <= k < "TIMESERIES"@.len() implies "TIMESERIES"@[k] != ' '
        && "TIMESERIES"@[k] != 'F' by {
        if k == 0 {
            assert("TIMESERIES"@[0] == 'T');
        } else if k == 1 {
            assert("TIMESERIES"@[1] == 'I');
        } else if k == 2 {
            assert("TIMESERIES"@[2] == 'M');
        } else if k == 3 {
            assert("TIMESERIES"@[3] == 'E');
        } else if k == 4 {
            assert("TIMESERIES"@[4] == 'S');
        } else if k == 5 {
            assert("TIMESERIES"@[5] == 'E');
        } else if k == 6 {
            assert("TIMESERIES"@[6] == 'R');
        } else if k == 7 {
            assert("TIMESERIES"@[7] == 'I');
        } else if k == 8 {
            assert("TIMESERIES"@[8] == 'E');
        } else {
            assert("TIMESERIES"@[9] == 'S');
        }
    }
}

/// The characters of `TABLE`: no spaces and no `F`.
proof fn lemma_chars_table()
    ensures
        forall|k: int|
            0 <= k < "TABLE"@.len() ==> "TABLE"@[k] != ' ' && "TABLE"@[k] != 'F',
{
    reveal_strlit("TABLE");
    assert forall|k: int| 0 <= k < "TABLE"@.len() implies "TABLE"@[k] != ' ' && "TABLE"@[k]
        != 'F' by {
        if k == 0 {
            assert("TABLE"@[0] == 'T');
        } else if k == 1 {
            assert("TABLE"@[1] == 'A');
        } else if k == 2 {
            assert("TABLE"@[2] == 'B');
        } else if k == 3 {
            assert("TABLE"@[3] == 'L');
        } else {
            assert("TABLE"@[4] == 'E');
        }
    }
}

/// The characters of the result-binding suffix: no `W`.
proof fn lemma_chars_as_value()
    ensures
        forall|k: int| 0 <= k < " as value"@.len() ==> " as value"@[k] != 'W',
{
    reveal_strlit(" as value");
    assert forall|k: int| 0 <= k < " as value"@.len() implies " as value"@[k] != 'W' by {
        if k == 0 {
            assert(" as value"@[0] == ' ');
        } else if k == 1 {
            assert(" as value"@[1] == 'a');
        } else if k == 2 {
            assert(" as value"@[2] == 's');
        } else if k == 3 {
            assert(" as value"@[3] == ' ');
        } else if k == 4 {
            assert(" as value"@[4] == 'v');
        } else if k == 5 {
            assert(" as value"@[5] == 'a');
        } else if k == 6 {
            assert(" as value"@[6] == 'l');
        } else if k == 7 {
            assert(" as value"@[7] == 'u');
        } else {
            assert(" as value"@[8] == 'e');
        }
    }
}

/// The round trip for a query without a facet clause.
#[verifier::rlimit(100)]
#[verifier::spinoff_prover]
proof fn lemma_round_trip_no_facet(q: NRQLQuery)
    requires
        wf_query(q),
        q.facet@.len() == 0,
    ensures
        round_trip_ok(q),
{
    reveal_strlit("FROM");
    reveal_strlit("SELECT");
    reveal_strlit("WHERE");
    reveal_strlit("FACET");
    reveal_strlit("SINCE");
    reveal_strlit("UNTIL");
    reveal_strlit("LIMIT");
    reveal_strlit("TIMESERIES");
    reveal_strlit("TABLE");
    reveal_strlit(" ");
    reveal_strlit(" as value");
    lemma_chars_select();
    lemma_chars_where();
    lemma_chars_facet();
    lemma_chars_since();
    lemma_chars_until();
    lemma_chars_limit();
    lemma_chars_timeseries();
    lemma_chars_table();
    lemma_chars_as_value();

    let s = spec_render(q);
    let f = q.from@;
    let sel = q.select@;
    let w = q.where_clause@;
    let si = q.since@;
    let un = q.until@;
    let li = q.limit@;
    let kw = mode_keyword(q.mode);
    let selav = sel + " as value"@;

    assert(" "@ =~= seq![' ']);
    assert(kw.len() > 0 && (forall|k: int| 0 <= k < kw.len() ==> kw[k] != ' ' && kw[k] != 'F'));

    assert(s.subrange(0, 4) =~= "FROM"@);
    assert(occurs_at(s, "FROM"@, 0));

    let i1: int = f.len() as int + 6;
    assert(s.subrange(i1, i1 + 6) =~= "SELECT"@);
    assert(s.subrange(4, i1) =~= seq![' '] + f + seq![' ']);
    lemma_find_padded(s, "SELECT"@, 4, f, i1);
    lemma_trim_padded(f);

    let p1: int = i1 + 6;
    let i2: int = p1 + selav.len() + 2;
    assert(s.subrange(i2, i2 + 5) =~= "WHERE"@);
    assert(s.subrange(p1, i2) =~= seq![' '] + selav + seq![' ']);
    lemma_no_sub_by_first_char(" as value"@, "WHERE"@);
    lemma_no_sub_concat(sel, " as value"@, "WHERE"@);
    assert(selav[0] == sel[0] && selav.last() == " as value"@[8]);
    lemma_find_padded(s, "WHERE"@, p1, selav, i2);
    lemma_trim_padded(selav);

    let p2: int = i2 + 5;

    let t1 = seq![' '] + w;
    lemma_no_sub_too_long(seq![' '], "FACET"@);
    lemma_no_sub_concat(seq![' '], w, "FACET"@);
    let t2 = t1 + " "@;
    lemma_no_sub_too_long(" "@, "FACET"@);
    lemma_no_sub_concat(t1, " "@, "FACET"@);
    let t3 = t2 + "SINCE"@;
    lemma_no_sub_by_first_char("SINCE"@, "FACET"@);
    assert(t2.last() == ' ');
    lemma_no_sub_concat(t2, "SINCE"@, "FACET"@);
    let t4 = t3 + " "@;
    lemma_no_sub_concat(t3, " "@, "FACET"@);
    let t5 = t4 + si;
    assert(t4.last() == ' ');
    lemma_no_sub_concat(t4, si, "FACET"@);
    let t6 = t5 + " "@;
    lemma_no_sub_concat(t5, " "@, "FACET"@);
    let t7 = t6 + "UNTIL"@;
    lemma_no_sub_by_first_char("UNTIL"@, "FACET"@);
    assert(t6.last() == ' ');
    lemma_no_sub_concat(t6, "UNTIL"@, "FACET"@);
    let t8 = t7 + " "@;
    lemma_no_sub_concat(t7, " "@, "FACET"@);
    let t9 = t8 + un;
    assert(t8.last() == ' ');
    lemma_no_sub_concat(t8, un, "FACET"@);
    let t10 = t9 + " "@;
    lemma_no_sub_concat(t9, " "@, "FACET"@);
    let t11 = t10 + "LIMIT"@;
    lemma_no_sub_by_first_char("LIMIT"@, "FACET"@);
    assert(t10.last() == ' ');
    lemma_no_sub_concat(t10, "LIMIT"@, "FACET"@);
    let t12 = t11 + " "@;
    lemma_no_sub_concat(t11, " "@, "FACET"@);
    let t13 = t12 + li;
    assert(t12.last() == ' ');
    lemma_no_sub_concat(t12, li, "FACET"@);
    let t14 = t13 + " "@;
    lemma_no_sub_concat(t13, " "@, "FACET"@);
    let t15 = t14 + kw;
    lemma_no_sub_by_first_char(kw, "FACET"@);
    assert(t14.last() == ' ');
    lemma_no_sub_concat(t14, kw, "FACET"@);
    assert(s.subrange(p2, s.len() as int) =~= t15);
    lemma_no_sub_in_window(s, "FACET"@, p2);
    lemma_find_none(s, "FACET"@, p2);

    let i4: int = p2 + w.len() + 2;
    assert(s.subrange(i4, i4 + 5) =~= "SINCE"@);
    assert(s.subrange(p2, i4) =~= seq![' '] + w + seq![' ']);
    lemma_find_padded(s, "SINCE"@, p2, w, i4);
    lemma_trim_padded(w);

    let p4: int = i4 + 5;
    let i5: int = p4 + si.len() + 2;
    assert(s.subrange(i5, i5 + 5) =~= "UNTIL"@);
    assert(s.subrange(p4, i5) =~= seq![' '] + si + seq![' ']);
    lemma_find_padded(s, "UNTIL"@, p4, si, i5);
    lemma_trim_padded(si);

    let p5: int = i5 + 5;
    let i6: int = p5 + un.len() + 2;
    assert(s.subrange(i6, i6 + 5) =~= "LIMIT"@);
    assert(s.subrange(p5, i6) =~= seq![' '] + un + seq![' ']);
    lemma_find_padded(s, "LIMIT"@, p5, un, i6);
    lemma_trim_padded(un);

    let p6: int = i6 + 5;
    let i7: int = p6 + li.len() + 2;
    assert(s.subrange(i7, i7 + kw.len() as int) =~= kw);
    assert(s.subrange(p6, i7) =~= seq![' '] + li + seq![' ']);
    lemma_trim_padded(li);
    if q.mode == QueryType::Timeseries {
        lemma_find_padded(s, "TIMESERIES"@, p6, li, i7);
    } else {
        let u1 = seq![' '] + li;
        lemma_no_sub_too_long(seq![' '], "TIMESERIES"@);
        lemma_no_sub_concat(seq![' '], li, "TIMESERIES"@);
        let u2 = u1 + " "@;
        lemma_no_sub_too_long(" "@, "TIMESERIES"@);
        lemma_no_sub_concat(u1, " "@, "TIMESERIES"@);
        let u3 = u2 + "TABLE"@;
        lemma_no_sub_too_long("TABLE"@, "TIMESERIES"@);
        assert(u2.last() == ' ');
        lemma_no_sub_concat(u2, "TABLE"@, "TIMESERIES"@);
        assert(s.subrange(p6, s.len() as int) =~= u3);
        lemma_no_sub_in_window(s, "TIMESERIES"@, p6);
        lemma_find_none(s, "TIMESERIES"@, p6);
        lemma_find_padded(s, "TABLE"@, p6, li, i7);
    }
    assert(q.facet@ =~= Seq::<char>::empty());
}

/// The round trip for a query with a facet clause.
#[verifier::rlimit(100)]
#[verifier::spinoff_prover]
proof fn lemma_round_trip_with_facet(q: NRQLQuery)
    requires
        wf_query(q),
        q.facet@.len() > 0,
    ensures
        round_trip_ok(q),
{
    reveal_strlit("FROM");
    reveal_strlit("SELECT");
    reveal_strlit("WHERE");
    reveal_strlit("FACET");
    reveal_strlit("SINCE");
    reveal_strlit("UNTIL");
    reveal_strlit("LIMIT");
    reveal_strlit("TIMESERIES");
    reveal_strlit("TABLE");
    reveal_strlit(" ");
    reveal_strlit(" as value");
    lemma_chars_select();
    lemma_chars_where();
    lemma_chars_facet();
    lemma_chars_since();
    lemma_chars_until();
    lemma_chars_limit();
    lemma_chars_timeseries();
    lemma_chars_table();
    lemma_chars_as_value();

    let s = spec_render(q);
    let f = q.from@;
    let sel = q.select@;
    let w = q.where_clause@;
    let fc = q.facet@;
    let si = q.since@;
    let un = q.until@;
    let li = q.limit@;
    let kw = mode_keyword(q.mode);
    let selav = sel + " as value"@;

    assert(" "@ =~= seq![' ']);
    assert(kw.len() > 0 && (forall|k: int| 0 <= k < kw.len() ==> kw[k] != ' ' && kw[k] != 'F'));

    assert(s.subrange(0, 4) =~= "FROM"@);
    assert(occurs_at(s, "FROM"@, 0));

    let i1: int = f.len() as int + 6;
    assert(s.subrange(i1, i1 + 6) =~= "SELECT"@);
    assert(s.subrange(4, i1) =~= seq![' '] + f + seq![' ']);
    lemma_find_padded(s, "SELECT"@, 4, f, i1);
    lemma_trim_padded(f);

    let p1: int = i1 + 6;
    let i2: int = p1 + selav.len() + 2;
    assert(s.subrange(i2, i2 + 5) =~= "WHERE"@);
    assert(s.subrange(p1, i2) =~= seq![' '] + selav + seq![' ']);
    lemma_no_sub_by_first_char(" as value"@, "WHERE"@);
    lemma_no_sub_concat(sel, " as value"@, "WHERE"@);
    assert(selav[0] == sel[0] && selav.last() == " as value"@[8]);
    lemma_find_padded(s, "WHERE"@, p1, selav, i2);
    lemma_trim_padded(selav);

    let p2: int = i2 + 5;
    let i3: int = p2 + w.len() + 2;
    assert(s.subrange(i3, i3 + 5) =~= "FACET"@);
    assert(s.subrange(p2, i3) =~= seq![' '] + w + seq![' ']);
    lemma_find_padded(s, "FACET"@, p2, w, i3);
    lemma_trim_padded(w);

    let p3: int = i3 + 5;
    let i4: int = p3 + fc.len() + 2;
    assert(s.subrange(i4, i4 + 5) =~= "SINCE"@);
    assert(s.subrange(p3, i4) =~= seq![' '] + fc + seq![' ']);
    lemma_find_padded(s, "SINCE"@, p3, fc, i4);
    lemma_trim_padded(fc);

    let p4: int = i4 + 5;
    let i5: int = p4 + si.len() + 2;
    assert(s.subrange(i5, i5 + 5) =~= "UNTIL"@);
    assert(s.subrange(p4, i5) =~= seq![' '] + si + seq![' ']);
    lemma_find_padded(s, "UNTIL"@, p4, si, i5);
    lemma_trim_padded(si);

    let p5: int = i5 + 5;
    let i6: int = p5 + un.len() + 2;
    assert(s.subrange(i6, i6 + 5) =~= "LIMIT"@);
    assert(s.subrange(p5, i6) =~= seq![' '] + un + seq![' ']);
    lemma_find_padded(s, "LIMIT"@, p5, un, i6);
    lemma_trim_padded(un);

    let p6: int = i6 + 5;
    let i7: int = p6 + li.len() + 2;
    assert(s.subrange(i7, i7 + kw.len() as int) =~= kw);
    assert(s.subrange(p6, i7) =~= seq![' '] + li + seq![' ']);
    lemma_trim_padded(li);
    if q.mode == QueryType::Timeseries {
        lemma_find_padded(s, "TIMESERIES"@, p6, li, i7);
    } else {
        let u1 = seq![' '] + li;
        lemma_no_sub_too_long(seq![' '], "TIMESERIES"@);
        lemma_no_sub_concat(seq![' '], li, "TIMESERIES"@);
        let u2 = u1 + " "@;
        lemma_no_sub_too_long(" "@, "TIMESERIES"@);
        lemma_no_sub_concat(u1, " "@, "TIMESERIES"@);
        let u3 = u2 + "TABLE"@;
        lemma_no_sub_too_long("TABLE"@, "TIMESERIES"@);
        assert(u2.last() == ' ');
        lemma_no_sub_concat(u2, "TABLE"@, "TIMESERIES"@);
        assert(s.subrange(p6, s.len() as int) =~= u3);
        lemma_no_sub_in_window(s, "TIMESERIES"@, p6);
        lemma_find_none(s, "TIMESERIES"@, p6);
        lemma_find_padded(s, "TABLE"@, p6, li, i7);
    }
}

/// The scan finds nothing at or after `from` exactly when the pattern has
/// no occurrence there.
pub proof fn lemma_find_none_iff(s: Seq<char>, p: Seq<char>, from: int)
    requires
        0 <= from,
    ensures
        spec_find(s, p, from) is None <==> !has_sub_from(s, p, from),
{
    lemma_find_props(s, p, from);
    if spec_find(s, p, from) is Some {
        let i = spec_find(s, p, from)->Some_0;
        assert(from <= i && occurs_at(s, p, i));
    }
}

/// The missing-clause law: a parse fails with `MissingClause` exactly for
/// the first clause in scan order whose introducing keyword is absent from
/// the window where the scan expects it.
pub proof fn lemma_parse_missing_clause(s: Seq<char>)
    ensures
        (spec_parse(s) == Err::<ParsedQuery, ParseError>(
            ParseError::MissingClause(Clause::From),
        )) <==> !occurs_at(s, "FROM"@, 0),
        occurs_at(s, "FROM"@, 0) ==> ((spec_parse(s) == Err::<ParsedQuery, ParseError>(
            ParseError::MissingClause(Clause::Select),
        )) <==> !has_sub_from(s, "SELECT"@, 4)),
        (occurs_at(s, "FROM"@, 0) && spec_find(s, "SELECT"@, 4) is Some) ==> ((spec_parse(s)
            == Err::<ParsedQuery, ParseError>(ParseError::MissingClause(Clause::Where)))
            <==> !has_sub_from(s, "WHERE"@, spec_find(s, "SELECT"@, 4)->Some_0 + 6)),
        (occurs_at(s, "FROM"@, 0) && spec_find(s, "SELECT"@, 4) is Some && spec_find(
            s,
            "WHERE"@,
            spec_find(s, "SELECT"@, 4)->Some_0 + 6,
        ) is Some) ==> ({
            let p2 = spec_find(s, "WHERE"@, spec_find(s, "SELECT"@, 4)->Some_0 + 6)->Some_0
                + 5;
            let since_pos = match spec_find(s, "FACET"@, p2) {
                Some(i3) => i3 + 5,
                None => p2,
            };
            &&& ((spec_parse(s) == Err::<ParsedQuery, ParseError>(
                ParseError::MissingClause(Clause::Since),
            )) <==> !has_sub_from(s, "SINCE"@, since_pos))
            &&& (spec_find(s, "SINCE"@, since_pos) is Some ==> {
                let p4 = spec_find(s, "SINCE"@, since_pos)->Some_0 + 5;
                &&& ((spec_parse(s) == Err::<ParsedQuery, ParseError>(
                    ParseError::MissingClause(Clause::Until),
                )) <==> !has_sub_from(s, "UNTIL"@, p4))
                &&& (spec_find(s, "UNTIL"@, p4) is Some ==> {
                    let p5 = spec_find(s, "UNTIL"@, p4)->Some_0 + 5;
                    &&& ((spec_parse(s) == Err::<ParsedQuery, ParseError>(
                        ParseError::MissingClause(Clause::Limit),
                    )) <==> !has_sub_from(s, "LIMIT"@, p5))
                    &&& (spec_find(s, "LIMIT"@, p5) is Some ==> {
                        let p6 = spec_find(s, "LIMIT"@, p5)->Some_0 + 5;
                        ((spec_parse(s) == Err::<ParsedQuery, ParseError>(
                            ParseError::MissingClause(Clause::Mode),
                        )) <==> (!has_sub_from(s, "TIMESERIES"@, p6) && !has_sub_from(
                            s,
                            "TABLE"@,
                            p6,
                        )))
                    })
                })
            })
        }),
        spec_parse(s) is Err ==> spec_parse(s)->Err_0 != ParseError::MissingClause(
            Clause::Facet,
        ),
{
    reveal_strlit("FROM");
    reveal_strlit("SELECT");
    reveal_strlit("WHERE");
    reveal_strlit("FACET");
    reveal_strlit("SINCE");
    reveal_strlit("UNTIL");
    reveal_strlit("LIMIT");
    reveal_strlit("TIMESERIES");
    reveal_strlit("TABLE");
    if occurs_at(s, "FROM"@, 0) {
        lemma_find_none_iff(s, "SELECT"@, 4);
        match spec_find(s, "SELECT"@, 4) {
            None => {},
            Some(i1) => {
                lemma_find_props(s, "SELECT"@, 4);
                lemma_find_none_iff(s, "WHERE"@, i1 + 6);
                match spec_find(s, "WHERE"@, i1 + 6) {
                    None => {},
                    Some(i2) => {
                        lemma_find_props(s, "WHERE"@, i1 + 6);
                        let p2 = i2 + 5;
                        let since_pos = match spec_find(s, "FACET"@, p2) {
                            Some(i3) => i3 + 5,
                            None => p2,
                        };
                        if spec_find(s, "FACET"@, p2) is Some {
                            lemma_find_props(s, "FACET"@, p2);
                        }
                        lemma_find_none_iff(s, "SINCE"@, since_pos);
                        match spec_find(s, "SINCE"@, since_pos) {
                            None => {},
                            Some(i4) => {
                                lemma_find_props(s, "SINCE"@, since_pos);
                                lemma_find_none_iff(s, "UNTIL"@, i4 + 5);
                                match spec_find(s, "UNTIL"@, i4 + 5) {
                                    None => {},
                                    Some(i5) => {
                                        lemma_find_props(s, "UNTIL"@, i4 + 5);
                                        lemma_find_none_iff(s, "LIMIT"@, i5 + 5);
                                        match spec_find(s, "LIMIT"@, i5 + 5) {
                                            None => {},
                                            Some(i6) => {
                                                lemma_find_props(s, "LIMIT"@, i5 + 5);
                                                lemma_find_none_iff(
                                                    s,
                                                    "TIMESERIES"@,
                                                    i6 + 5,
                                                );
                                                lemma_find_none_iff(s, "TABLE"@, i6 + 5);
                                            },
                                        }
                                    },
                                }
                            },
                        }
                    },
                }
            },
        }
    }
}

/// The round-trip law: rendering a well-formed query and parsing the text
/// back succeeds and recovers every clause body, with the projection
/// carrying the added result-binding suffix.
pub proof fn lemma_parse_render_round_trip(q: NRQLQuery)
    requires
        wf_query(q),
    ensures
        round_trip_ok(q),
{
    if q.facet@.len() == 0 {
        lemma_round_trip_no_facet(q);
    } else {
        lemma_round_trip_with_facet(q);
    }
}

} // verus!
