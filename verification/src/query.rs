//! The structured query model: a fixed-clause query together with its
//! canonical textual form.
//!
//! A query names a source, a projection, a filter, an optional grouping
//! (facet), a time window, a row limit and a display mode. `to_string`
//! renders the canonical text sent to the remote backend; parsing the
//! textual form back is the parser module's job.

use vstd::prelude::*;

verus! {

/// The display mode of a query: a chart over time, or a flat table.
#[derive(Debug, Clone, Copy, PartialEq, Eq, Structural)]
pub enum QueryType {
    Timeseries,
    Table,
}

/// A marker for the result shape a query asks the remote client for; the
/// rows themselves are reduced by the acquisition pipeline.
pub struct NRQLResult {}

/// A structured query. Every clause body is stored trimmed of surrounding
/// whitespace; `facet` is the only clause that may be empty.
#[derive(Debug, Clone)]
pub struct NRQLQuery {
    pub from: String,
    pub select: String,
    pub where_clause: String,
    pub facet: String,
    pub since: String,
    pub until: String,
    pub limit: String,
    pub mode: QueryType,
}

/// The keyword that closes the canonical text of a query in mode `m`.
pub open spec fn mode_keyword(m: QueryType) -> Seq<char> {
    match m {
        QueryType::Timeseries => "TIMESERIES"@,
        QueryType::Table => "TABLE"@,
    }
}

/// The canonical text of a query: clauses in fixed order, single spaces in
/// between, the projection suffixed with the result-binding annotation
/// `as value`, and the facet segment present only when non-empty.
pub open spec fn spec_render(q: NRQLQuery) -> Seq<char> {
    "FROM"@ + " "@ + q.from@ + " "@ + "SELECT"@ + " "@ + q.select@ + " as value"@ + " "@
        + "WHERE"@ + " "@ + q.where_clause@ + (if q.facet@.len() == 0 {
        Seq::<char>::empty()
    } else {
        " "@ + "FACET"@ + " "@ + q.facet@
    }) + " "@ + "SINCE"@ + " "@ + q.since@ + " "@ + "UNTIL"@ + " "@ + q.until@ + " "@
        + "LIMIT"@ + " "@ + q.limit@ + " "@ + mode_keyword(q.mode)
}

impl NRQLQuery {
    /// Render the canonical text of this query.
    pub fn to_string(&self) -> (r: String)
        ensures
            r@ == spec_render(*self),
    {
        let mut out = String::from_str("FROM");
        out.append(" ");
        out.append(self.from.as_str());
        out.append(" ");
        out.append("SELECT");
        out.append(" ");
        out.append(self.select.as_str());
        out.append(" as value");
        out.append(" ");
        out.append("WHERE");
        out.append(" ");
        out.append(self.where_clause.as_str());
        if self.facet.as_str().unicode_len() != 0 {
            out.append(" ");
            out.append("FACET");
            out.append(" ");
            out.append(self.facet.as_str());
        }
        out.append(" ");
        out.append("SINCE");
        out.append(" ");
        out.append(self.since.as_str());
        out.append(" ");
        out.append("UNTIL");
        out.append(" ");
        out.append(self.until.as_str());
        out.append(" ");
        out.append("LIMIT");
        out.append(" ");
        out.append(self.limit.as_str());
        out.append(" ");
        match self.mode {
            QueryType::Timeseries => out.append("TIMESERIES"),
            QueryType::Table => out.append("TABLE"),
        }
        assert(out@ =~= spec_render(*self));
        out
    }
}

/// Anything that can be read as a structured query.
pub trait NRQL {
    /// Parse this value against the fixed clause grammar.
    fn to_nrql(self) -> Result<NRQLQuery, crate::parser::ParseError>;
}

impl NRQL for &str {
    fn to_nrql(self) -> (r: Result<NRQLQuery, crate::parser::ParseError>)
        ensures
            match crate::parser::spec_parse(self@) {
                Ok(q) => r is Ok && crate::parser::parsed_matches(r->Ok_0, q),
                Err(e) => r == Err::<NRQLQuery, crate::parser::ParseError>(e),
            },
    {
        crate::parser::parse_nrql(self)
    }
}

} // verus!
