//! The query-text parser: a fixed-order keyword scanner.
//!
//! The textual form of a query is a strict clause sequence
//! `FROM .. SELECT .. WHERE .. [FACET ..] SINCE .. UNTIL .. LIMIT ..` closed
//! by a mode keyword (`TIMESERIES` or `TABLE`). Each clause body is the text
//! between its introducing keyword and the next expected keyword, trimmed of
//! surrounding whitespace. `FACET` is the only optional clause; every other
//! clause that cannot be located fails the parse with `MissingClause`,
//! naming the first clause missing in scan order.

use vstd::prelude::*;

use crate::query::NRQLQuery;
use crate::query::QueryType;

verus! {

/// The clauses of the fixed grammar, in scan order.
#[derive(Debug, Clone, Copy, PartialEq, Eq, Structural)]
pub enum Clause {
    From,
    Select,
    Where,
    Facet,
    Since,
    Until,
    Limit,
    Mode,
}

/// A parse failure: a mandatory clause keyword was not found where the
/// fixed clause order expects it.
#[derive(Debug, Clone, Copy, PartialEq, Eq, Structural)]
pub enum ParseError {
    MissingClause(Clause),
}

/// The pattern `p` occurs in `s` starting at position `i`.
pub open spec fn occurs_at(s: Seq<char>, p: Seq<char>, i: int) -> bool {
    &&& 0 <= i
    &&& i + p.len() <= s.len()
    &&& s.subrange(i, i + p.len() as int) == p
}

/// The pattern `p` occurs somewhere in `s`.
pub open spec fn has_sub(s: Seq<char>, p: Seq<char>) -> bool {
    exists|i: int| occurs_at(s, p, i)
}

/// The pattern `p` occurs in `s` at or after position `from`.
pub open spec fn has_sub_from(s: Seq<char>, p: Seq<char>, from: int) -> bool {
    exists|i: int| from <= i && occurs_at(s, p, i)
}

/// The position of the leftmost occurrence of `p` in `s` at or after
/// `from`, if any.
pub open spec fn spec_find(s: Seq<char>, p: Seq<char>, from: int) -> Option<int>
    decreases s.len() + 1 - from,
{
    if from + p.len() > s.len() {
        None
    } else if occurs_at(s, p, from) {
        Some(from)
    } else {
        spec_find(s, p, from + 1)
    }
}

/// An ASCII whitespace character, as trimmed from clause bodies.
pub open spec fn blank(c: char) -> bool {
    c == ' ' || c == '\t' || c == '\n' || c == '\r'
}

/// `s` without its leading whitespace.
pub open spec fn trim_front(s: Seq<char>) -> Seq<char>
    decreases s.len(),
{
    if s.len() > 0 && blank(s[0]) {
        trim_front(s.drop_first())
    } else {
        s
    }
}

/// `s` without its trailing whitespace.
pub open spec fn trim_back(s: Seq<char>) -> Seq<char>
    decreases s.len(),
{
    if s.len() > 0 && blank(s.last()) {
        trim_back(s.drop_last())
    } else {
        s
    }
}

/// `s` without surrounding whitespace.
pub open spec fn spec_trim(s: Seq<char>) -> Seq<char> {
    trim_back(trim_front(s))
}

/// The field values recovered by a successful parse, at the level of
/// character sequences.
pub ghost struct ParsedQuery {
    pub from: Seq<char>,
    pub select: Seq<char>,
    pub where_clause: Seq<char>,
    pub facet: Seq<char>,
    pub since: Seq<char>,
    pub until: Seq<char>,
    pub limit: Seq<char>,
    pub mode: QueryType,
}

/// The scan itself: locate each keyword in order, cut the body before it,
/// and fail with the first clause whose keyword cannot be found. `FACET`
/// falls back to an empty body instead of failing.
pub open spec fn spec_parse(s: Seq<char>) -> Result<ParsedQuery, ParseError> {
    if !occurs_at(s, "FROM"@, 0) {
        Err(ParseError::MissingClause(Clause::From))
    } else {
        let p0 = "FROM"@.len() as int;
        match spec_find(s, "SELECT"@, p0) {
            None => Err(ParseError::MissingClause(Clause::Select)),
            Some(i1) => {
                let from = spec_trim(s.subrange(p0, i1));
                let p1 = i1 + "SELECT"@.len();
                match spec_find(s, "WHERE"@, p1) {
                    None => Err(ParseError::MissingClause(Clause::Where)),
                    Some(i2) => {
                        let select = spec_trim(s.subrange(p1, i2));
                        let p2 = i2 + "WHERE"@.len();
                        spec_parse_after_where(s, from, select, p2)
                    },
                }
            },
        }
    }
}

/// The scan from the end of the `WHERE` keyword on: the optional facet
/// clause, then the window, limit and mode clauses.
pub open spec fn spec_parse_after_where(
    s: Seq<char>,
    from: Seq<char>,
    select: Seq<char>,
    p2: int,
) -> Result<ParsedQuery, ParseError> {
    match spec_find(s, "FACET"@, p2) {
        Some(i3) => {
            let where_clause = spec_trim(s.subrange(p2, i3));
            let p3 = i3 + "FACET"@.len();
            match spec_find(s, "SINCE"@, p3) {
                None => Err(ParseError::MissingClause(Clause::Since)),
                Some(i4) => {
                    let facet = spec_trim(s.subrange(p3, i4));
                    let p4 = i4 + "SINCE"@.len();
                    spec_parse_tail(s, from, select, where_clause, facet, p4)
                },
            }
        },
        None => {
            match spec_find(s, "SINCE"@, p2) {
                None => Err(ParseError::MissingClause(Clause::Since)),
                Some(i4) => {
                    let where_clause = spec_trim(s.subrange(p2, i4));
                    let p4 = i4 + "SINCE"@.len();
                    spec_parse_tail(s, from, select, where_clause, Seq::<char>::empty(), p4)
                },
            }
        },
    }
}

/// The scan from the end of the `SINCE` keyword on: the window end, the
/// limit, and the closing mode keyword.
pub open spec fn spec_parse_tail(
    s: Seq<char>,
    from: Seq<char>,
    select: Seq<char>,
    where_clause: Seq<char>,
    facet: Seq<char>,
    p4: int,
) -> Result<ParsedQuery, ParseError> {
    match spec_find(s, "UNTIL"@, p4) {
        None => Err(ParseError::MissingClause(Clause::Until)),
        Some(i5) => {
            let since = spec_trim(s.subrange(p4, i5));
            let p5 = i5 + "UNTIL"@.len();
            match spec_find(s, "LIMIT"@, p5) {
                None => Err(ParseError::MissingClause(Clause::Limit)),
                Some(i6) => {
                    let until = spec_trim(s.subrange(p5, i6));
                    let p6 = i6 + "LIMIT"@.len();
                    match spec_find(s, "TIMESERIES"@, p6) {
                        Some(i7) => Ok(
                            ParsedQuery {
                                from,
                                select,
                                where_clause,
                                facet,
                                since,
                                until,
                                limit: spec_trim(s.subrange(p6, i7)),
                                mode: QueryType::Timeseries,
                            },
                        ),
                        None => match spec_find(s, "TABLE"@, p6) {
                            Some(i7) => Ok(
                                ParsedQuery {
                                    from,
                                    select,
                                    where_clause,
                                    facet,
                                    since,
                                    until,
                                    limit: spec_trim(s.subrange(p6, i7)),
                                    mode: QueryType::Table,
                                },
                            ),
                            None => Err(ParseError::MissingClause(Clause::Mode)),
                        },
                    }
                },
            }
        },
    }
}

/// A successful exec parse agrees with a successful spec parse field by
/// field.
pub open spec fn parsed_matches(out: NRQLQuery, q: ParsedQuery) -> bool {
    &&& out.from@ == q.from
    &&& out.select@ == q.select
    &&& out.where_clause@ == q.where_clause
    &&& out.facet@ == q.facet
    &&& out.since@ == q.since
    &&& out.until@ == q.until
    &&& out.limit@ == q.limit
    &&& out.mode == q.mode
}

/// Whether `p` occurs in `s` at position `i`, by character comparison.
fn occurs_here(s: &str, p: &str, i: usize) -> (b: bool)
    requires
        i + p@.len() <= s@.len(),
    ensures
        b == occurs_at(s@, p@, i as int),
{
    let sn = s.unicode_len();
    let n = p.unicode_len();
    let mut j: usize = 0;
    while j < n
        invariant
            j <= n,
            n == p@.len(),
            sn == s@.len(),
            i + n <= s@.len(),
            forall|k: int| 0 <= k < j ==> s@[i + k] == p@[k],
        decreases n - j,
    {
        if s.get_char(i + j) != p.get_char(j) {
            assert(!occurs_at(s@, p@, i as int)) by {
                if occurs_at(s@, p@, i as int) {
                    assert(s@.subrange(i as int, i + n as int)[j as int] == p@[j as int]);
                }
            }
            return false;
        }
        j += 1;
    }
    assert(s@.subrange(i as int, i + n as int) =~= p@);
    true
}

/// Whether `s` begins with `p`.
fn begins_with(s: &str, p: &str) -> (b: bool)
    ensures
        b == occurs_at(s@, p@, 0),
{
    let n = s.unicode_len();
    let m = p.unicode_len();
    if m > n {
        return false;
    }
    occurs_here(s, p, 0)
}

/// The leftmost occurrence of `p` in `s` at or after `from`, if any.
fn find_at(s: &str, p: &str, from: usize) -> (r: Option<usize>)
    ensures
        match r {
            Some(i) => {
                &&& spec_find(s@, p@, from as int) == Some(i as int)
                &&& from <= i
                &&& i + p@.len() <= s@.len()
            },
            None => spec_find(s@, p@, from as int) is None,
        },
{
    let n = s.unicode_len();
    let m = p.unicode_len();
    if m > n || from > n - m {
        return None;
    }
    let mut i: usize = from;
    loop
        invariant
            from <= i <= n - m,
            m <= n,
            n == s@.len(),
            m == p@.len(),
            spec_find(s@, p@, from as int) == spec_find(s@, p@, i as int),
        ensures
            spec_find(s@, p@, from as int) is None,
        decreases n - m - i,
    {
        if occurs_here(s, p, i) {
            assert(spec_find(s@, p@, i as int) == Some(i as int));
            return Some(i);
        }
        assert(spec_find(s@, p@, i as int) == spec_find(s@, p@, i as int + 1));
        if i == n - m {
            proof {
                assert(spec_find(s@, p@, i as int + 1) is None);
            }
            break;
        }
        i += 1;
    }
    None
}

/// The leftmost occurrence of `p` anywhere in `s`, if any.
pub fn find_in(s: &str, p: &str) -> (r: Option<usize>)
    ensures
        match r {
            Some(i) => spec_find(s@, p@, 0) == Some(i as int),
            None => spec_find(s@, p@, 0) is None,
        },
{
    find_at(s, p, 0)
}

/// `s` with every leftmost occurrence of `p` struck out, scanning once
/// from the left.
pub open spec fn spec_strip(s: Seq<char>, p: Seq<char>) -> Seq<char>
    decreases s.len(),
{
    if p.len() == 0 || s.len() == 0 {
        s
    } else if occurs_at(s, p, 0) {
        spec_strip(s.subrange(p.len() as int, s.len() as int), p)
    } else {
        seq![s[0]] + spec_strip(s.drop_first(), p)
    }
}

/// Relies on std's `String::push`: appends one character.
#[verifier::external_body]
pub(crate) fn push_char(s: &mut String, c: char)
    ensures
        final(s)@ == old(s)@.push(c),
{
    s.push(c)
}

/// Remove every occurrence of `p` from `s`, scanning once from the left.
pub fn strip_all(s: &str, p: &str) -> (r: String)
    ensures
        r@ == spec_strip(s@, p@),
{
    let n = s.unicode_len();
    let plen = p.unicode_len();
    if plen == 0 {
        let r = s.to_owned();
        proof {
            assert(spec_strip(s@, p@) == s@);
        }
        return r;
    }
    let mut out = String::new();
    let mut i: usize = 0;
    proof {
        assert(s@.subrange(0, n as int) =~= s@);
    }
    while i < n
        invariant
            i <= n,
            n == s@.len(),
            plen == p@.len(),
            plen > 0,
            out@ + spec_strip(s@.subrange(i as int, n as int), p@) == spec_strip(s@, p@),
        decreases n - i,
    {
        let ghost tail = s@.subrange(i as int, n as int);
        if plen <= n - i && occurs_here(s, p, i) {
            proof {
                assert(tail.subrange(0, plen as int) =~= s@.subrange(
                    i as int,
                    i + plen,
                ));
                assert(occurs_at(tail, p@, 0));
                assert(tail.subrange(plen as int, tail.len() as int) =~= s@.subrange(
                    i + plen,
                    n as int,
                ));
            }
            i += plen;
        } else {
            proof {
                if occurs_at(tail, p@, 0) {
                    assert(s@.subrange(i as int, i + plen) =~= tail.subrange(
                        0,
                        plen as int,
                    ));
                    assert(occurs_at(s@, p@, i as int));
                }
                assert(tail[0] == s@[i as int]);
                assert(tail.drop_first() =~= s@.subrange(i + 1, n as int));
            }
            let c = s.get_char(i);
            let ghost out_before = out@;
            push_char(&mut out, c);
            proof {
                assert(out@ + spec_strip(s@.subrange(i + 1, n as int), p@) =~= out_before
                    + (seq![c] + spec_strip(s@.subrange(i + 1, n as int), p@)));
            }
            i += 1;
        }
    }
    proof {
        assert(s@.subrange(n as int, n as int) =~= Seq::<char>::empty());
        assert(out@ + Seq::<char>::empty() =~= out@);
    }
    out
}

/// Whether `c` is a whitespace character trimmed from clause bodies.
fn is_blank(c: char) -> (b: bool)
    ensures
        b == blank(c),
{
    c == ' ' || c == '\t' || c == '\n' || c == '\r'
}

/// The text of `s` between `lo` and `hi`, trimmed of surrounding
/// whitespace.
fn trim_range(s: &str, lo: usize, hi: usize) -> (r: String)
    requires
        lo <= hi <= s@.len(),
    ensures
        r@ == spec_trim(s@.subrange(lo as int, hi as int)),
{
    let mut a = lo;
    while a < hi && is_blank(s.get_char(a))
        invariant
            lo <= a <= hi <= s@.len(),
            trim_front(s@.subrange(lo as int, hi as int)) == trim_front(
                s@.subrange(a as int, hi as int),
            ),
        decreases hi - a,
    {
        assert(s@.subrange(a as int, hi as int).drop_first() =~= s@.subrange(
            a + 1,
            hi as int,
        ));
        a += 1;
    }
    assert(trim_front(s@.subrange(a as int, hi as int)) == s@.subrange(a as int, hi as int));
    let mut b = hi;
    while b > a && is_blank(s.get_char(b - 1))
        invariant
            a <= b <= hi <= s@.len(),
            trim_back(s@.subrange(a as int, hi as int)) == trim_back(
                s@.subrange(a as int, b as int),
            ),
        decreases b - a,
    {
        assert(s@.subrange(a as int, b as int).drop_last() =~= s@.subrange(
            a as int,
            b - 1,
        ));
        b -= 1;
    }
    assert(trim_back(s@.subrange(a as int, b as int)) == s@.subrange(a as int, b as int));
    s.substring_char(a, b).to_owned()
}

/// The segments of `s` between newlines, in order; the empty text has one
/// empty segment.
pub open spec fn spec_split_lines(s: Seq<char>) -> Seq<Seq<char>>
    decreases s.len(),
{
    if s.len() == 0 {
        seq![Seq::<char>::empty()]
    } else if s[0] == '\n' {
        seq![Seq::<char>::empty()] + spec_split_lines(s.drop_first())
    } else {
        let rest = spec_split_lines(s.drop_first());
        seq![seq![s[0]] + rest[0]] + rest.drop_first()
    }
}

/// Splitting always yields at least one segment.
pub proof fn lemma_split_lines_len(s: Seq<char>)
    ensures
        spec_split_lines(s).len() >= 1,
    decreases s.len(),
{
    if s.len() == 0 {
    } else {
        lemma_split_lines_len(s.drop_first());
    }
}

/// The mathematical value of a line list.
pub open spec fn lines_model(v: Vec<String>) -> Seq<Seq<char>> {
    Seq::new(v@.len(), |i: int| v@[i]@)
}

/// Split `s` on newlines into its lines, in order.
pub fn split_lines(s: &str) -> (out: Vec<String>)
    ensures
        lines_model(out) == spec_split_lines(s@),
{
    let n = s.unicode_len();
    let mut done: Vec<String> = Vec::new();
    let mut cur = String::new();
    let mut i: usize = 0;
    proof {
        lemma_split_lines_len(s@);
        assert(s@.subrange(0, n as int) =~= s@);
        assert(lines_model(done) =~= Seq::<Seq<char>>::empty());
        assert(cur@ + spec_split_lines(s@)[0] =~= spec_split_lines(s@)[0]);
        assert(spec_split_lines(s@) =~= lines_model(done) + seq![
            cur@ + spec_split_lines(s@.subrange(0, n as int))[0],
        ] + spec_split_lines(s@.subrange(0, n as int)).drop_first());
    }
    while i < n
        invariant
            i <= n,
            n == s@.len(),
            spec_split_lines(s@) == lines_model(done) + seq![
                cur@ + spec_split_lines(s@.subrange(i as int, n as int))[0],
            ] + spec_split_lines(s@.subrange(i as int, n as int)).drop_first(),
        decreases n - i,
    {
        let ghost tail = s@.subrange(i as int, n as int);
        let ghost tail2 = s@.subrange(i as int + 1, n as int);
        proof {
            lemma_split_lines_len(tail2);
            assert(tail[0] == s@[i as int]);
            assert(tail.drop_first() =~= tail2);
        }
        let c = s.get_char(i);
        if c == '\n' {
            let ghost done0 = lines_model(done);
            done.push(cur);
            cur = String::new();
            proof {
                assert(lines_model(done) =~= done0.push(done@.last()@));
                assert(spec_split_lines(tail) == seq![Seq::<char>::empty()]
                    + spec_split_lines(tail2));
                assert(spec_split_lines(tail)[0] =~= Seq::<char>::empty());
                assert(done@.last()@ + spec_split_lines(tail)[0] =~= done@.last()@);
                assert(spec_split_lines(tail).drop_first() =~= spec_split_lines(tail2));
                assert(cur@ + spec_split_lines(tail2)[0] =~= spec_split_lines(tail2)[0]);
                assert(spec_split_lines(s@) =~= lines_model(done) + seq![
                    cur@ + spec_split_lines(tail2)[0],
                ] + spec_split_lines(tail2).drop_first());
            }
        } else {
            let ghost cur0 = cur@;
            push_char(&mut cur, c);
            proof {
                assert(spec_split_lines(tail) == seq![
                    seq![s@[i as int]] + spec_split_lines(tail2)[0],
                ] + spec_split_lines(tail2).drop_first());
                assert(cur@ + spec_split_lines(tail2)[0] =~= cur0 + (seq![s@[i as int]]
                    + spec_split_lines(tail2)[0]));
                assert(spec_split_lines(s@) =~= lines_model(done) + seq![
                    cur@ + spec_split_lines(tail2)[0],
                ] + spec_split_lines(tail2).drop_first());
            }
        }
        i += 1;
    }
    proof {
        let ghost tail = s@.subrange(i as int, n as int);
        assert(tail =~= Seq::<char>::empty());
        assert(spec_split_lines(tail) == seq![Seq::<char>::empty()]);
        assert(cur@ + Seq::<char>::empty() =~= cur@);
    }
    let ghost done0 = lines_model(done);
    done.push(cur);
    proof {
        assert(lines_model(done) =~= done0.push(done@.last()@));
        assert(lines_model(done) =~= spec_split_lines(s@));
    }
    done
}

/// `s` trimmed of surrounding whitespace.
pub fn trim_text(s: &str) -> (r: String)
    ensures
        r@ == spec_trim(s@),
{
    let n = s.unicode_len();
    let r = trim_range(s, 0, n);
    proof {
        assert(s@.subrange(0, n as int) =~= s@);
    }
    r
}

/// Parse a raw query text against the fixed clause grammar.
///
/// Succeeds exactly when every mandatory clause keyword is found in order;
/// fails with `MissingClause` naming the first clause missing in scan
/// order. The facet clause falls back to empty when absent.
#[verifier::rlimit(50)]
pub fn parse_nrql(input: &str) -> (r: Result<NRQLQuery, ParseError>)
    ensures
        match spec_parse(input@) {
            Ok(q) => r is Ok && parsed_matches(r->Ok_0, q),
            Err(e) => r == Err::<NRQLQuery, ParseError>(e),
        },
{
    proof {
        reveal_strlit("FROM");
        reveal_strlit("SELECT");
        reveal_strlit("WHERE");
        reveal_strlit("FACET");
        reveal_strlit("SINCE");
        reveal_strlit("UNTIL");
        reveal_strlit("LIMIT");
        reveal_strlit("TIMESERIES");
        reveal_strlit("TABLE");
    }
    let n = input.unicode_len();
    if !begins_with(input, "FROM") {
        return Err(ParseError::MissingClause(Clause::From));
    }
    let p0: usize = 4;
    let i1 = match find_at(input, "SELECT", p0) {
        Some(i) => i,
        None => {
            return Err(ParseError::MissingClause(Clause::Select));
        },
    };
    let from = trim_range(input, p0, i1);
    let p1 = i1 + 6;
    let i2 = match find_at(input, "WHERE", p1) {
        Some(i) => i,
        None => {
            return Err(ParseError::MissingClause(Clause::Where));
        },
    };
    let select = trim_range(input, p1, i2);
    let p2 = i2 + 5;
    let (where_clause, facet, p4) = match find_at(input, "FACET", p2) {
        Some(i3) => {
            let where_clause = trim_range(input, p2, i3);
            let p3 = i3 + 5;
            let i4 = match find_at(input, "SINCE", p3) {
                Some(i) => i,
                None => {
                    return Err(ParseError::MissingClause(Clause::Since));
                },
            };
            let facet = trim_range(input, p3, i4);
            (where_clause, facet, i4 + 5)
        },
        None => {
            let i4 = match find_at(input, "SINCE", p2) {
                Some(i) => i,
                None => {
                    return Err(ParseError::MissingClause(Clause::Since));
                },
            };
            let where_clause = trim_range(input, p2, i4);
            let empty_facet = String::new();
            proof {
                assert(empty_facet@ =~= spec_trim(Seq::<char>::empty()));
            }
            (where_clause, empty_facet, i4 + 5)
        },
    };
    let i5 = match find_at(input, "UNTIL", p4) {
        Some(i) => i,
        None => {
            return Err(ParseError::MissingClause(Clause::Until));
        },
    };
    let since = trim_range(input, p4, i5);
    let p5 = i5 + 5;
    let i6 = match find_at(input, "LIMIT", p5) {
        Some(i) => i,
        None => {
            return Err(ParseError::MissingClause(Clause::Limit));
        },
    };
    let until = trim_range(input, p5, i6);
    let p6 = i6 + 5;
    let (limit, mode) = match find_at(input, "TIMESERIES", p6) {
        Some(i7) => (trim_range(input, p6, i7), QueryType::Timeseries),
        None => match find_at(input, "TABLE", p6) {
            Some(i7) => (trim_range(input, p6, i7), QueryType::Table),
            None => {
                return Err(ParseError::MissingClause(Clause::Mode));
            },
        },
    };
    Ok(
        NRQLQuery {
            from,
            select,
            where_clause,
            facet,
            since,
            until,
            limit,
            mode,
        },
    )
}

} // verus!
