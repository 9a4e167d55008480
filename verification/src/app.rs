//! The UI state machine: the focus cursor, the per-panel text buffers, and
//! the routing of key events to store mutations and outward actions.
//!
//! The control loop around it polls the terminal, drains the payload
//! channel and performs the actions handed back; every decision it takes
//! is made here.

use vstd::prelude::*;

use crate::backend::assign_facet_colors;
use crate::dataset::clamped_index;
use crate::dataset::DataModel;
use crate::dataset::facets_model;
use crate::dataset::key_tombstoned;
use crate::dataset::next_index;
use crate::dataset::norm_index;
use crate::dataset::prev_index;
use crate::dataset::spec_rename;
use crate::dataset::spec_upsert;
use crate::dataset::Datasets;
use crate::dataset::FacetColors;
use crate::dataset::Logs;
use crate::dataset::Payload;
use crate::parser::parse_nrql;
use crate::parser::push_char;
use crate::parser::spec_parse;
use crate::parser::spec_strip;
use crate::parser::spec_trim;
use crate::parser::strip_all;
use crate::parser::trim_text;
use crate::parser::ParsedQuery;
use crate::query::NRQLQuery;

verus! {

/// The panel that owns the next key event.
#[derive(Debug, Clone, Copy, PartialEq, Eq, Structural)]
pub enum Focus {
    QueryInput,
    Rename,
    Dashboard,
    SessionLoad,
    SessionSave,
    Default,
    Log,
    LogDetail,
    Search,
}

/// Whether keys navigate or type into a text buffer.
#[derive(Debug, Clone, Copy, PartialEq, Eq, Structural)]
pub enum InputMode {
    Normal,
    Input,
}

/// The visible tab.
#[derive(Debug, Clone, Copy, PartialEq, Eq, Structural)]
pub enum Tab {
    Graph,
    Logs,
}

/// The UI cursor: these four fields fully determine event routing and the
/// render target.
#[derive(Debug, Clone, Copy, PartialEq, Eq, Structural)]
pub struct UIFocus {
    pub tab: Tab,
    pub panel: Focus,
    pub input_mode: InputMode,
    pub loading: bool,
}

impl Default for UIFocus {
    /// The state the dashboard starts in: the log tab, no panel focused,
    /// navigation mode, nothing loading.
    fn default() -> (r: UIFocus)
        ensures
            r.tab == Tab::Logs,
            r.panel == Focus::Default,
            r.input_mode == InputMode::Normal,
            !r.loading,
    {
        UIFocus { tab: Tab::Logs, panel: Focus::Default, input_mode: InputMode::Normal, loading: false }
    }
}

/// A key press, reduced to what the routing reads.
#[derive(Debug, Clone, Copy, PartialEq, Eq, Structural)]
pub enum KeyInput {
    Char(char),
    Enter,
    Backspace,
    Esc,
    Left,
    Right,
}

/// What the control loop must do after a routed event.
#[derive(Debug)]
pub enum Action {
    /// Nothing beyond the state change.
    Nothing,
    /// Spawn an acquisition task for this raw query text.
    AddQuery(String),
    /// Cancel the acquisition task of this canonical query text.
    RemoveQuery(String),
    /// Read the session file and hand its entries to `load_session`.
    LoadSession,
    /// Persist the pairs from `save_session`, then exit.
    SaveAndExit,
    /// Exit without persisting.
    Exit,
}

/// One panel's text buffer with its cursor.
pub struct InputBuffer {
    pub text: Vec<char>,
    pub cursor: usize,
}

/// The position of a panel's buffer in the buffer table.
pub open spec fn spec_panel_index(p: Focus) -> int {
    match p {
        Focus::QueryInput => 0,
        Focus::Rename => 1,
        Focus::Dashboard => 2,
        Focus::SessionLoad => 3,
        Focus::SessionSave => 4,
        Focus::Default => 5,
        Focus::Log => 6,
        Focus::LogDetail => 7,
        Focus::Search => 8,
    }
}

fn panel_index(p: Focus) -> (r: usize)
    ensures
        r == spec_panel_index(p),
        r < 9,
{
    match p {
        Focus::QueryInput => 0,
        Focus::Rename => 1,
        Focus::Dashboard => 2,
        Focus::SessionLoad => 3,
        Focus::SessionSave => 4,
        Focus::Default => 5,
        Focus::Log => 6,
        Focus::LogDetail => 7,
        Focus::Search => 8,
    }
}

/// The per-panel text buffers.
pub struct Inputs {
    pub buffers: Vec<InputBuffer>,
}

impl Inputs {
    /// Well-formed: one buffer per panel, each cursor inside its text.
    pub open spec fn wf(self) -> bool {
        &&& self.buffers@.len() == 9
        &&& forall|i: int|
            0 <= i < 9 ==> #[trigger] self.buffers@[i].cursor <= self.buffers@[i].text@.len()
    }

    /// The text of the buffer owned by panel `p`.
    pub open spec fn text_of(self, p: Focus) -> Seq<char> {
        self.buffers@[spec_panel_index(p)].text@
    }

    /// Nine empty buffers.
    pub fn new() -> (r: Inputs)
        ensures
            r.wf(),
            forall|p: Focus| r.text_of(p) =~= Seq::<char>::empty(),
    {
        let mut buffers: Vec<InputBuffer> = Vec::new();
        let mut i: usize = 0;
        while i < 9
            invariant
                i <= 9,
                buffers@.len() == i,
                forall|j: int| 0 <= j < i ==> (#[trigger] buffers@[j]).text@.len() == 0,
                forall|j: int| 0 <= j < i ==> (#[trigger] buffers@[j]).cursor == 0,
            decreases 9 - i,
        {
            buffers.push(InputBuffer { text: Vec::new(), cursor: 0 });
            proof {
                assert(buffers@.last().text@.len() == 0);
                assert(buffers@.last().cursor == 0);
            }
            i += 1;
        }
        let r = Inputs { buffers };
        r
    }

    /// The current text of panel `p`'s buffer.
    pub fn get(&self, p: Focus) -> (r: String)
        requires
            self.wf(),
        ensures
            r@ == self.text_of(p),
    {
        let i = panel_index(p);
        let buf = &self.buffers[i];
        let mut out = String::new();
        let n = buf.text.len();
        let mut j: usize = 0;
        while j < n
            invariant
                j <= n,
                n == buf.text@.len(),
                out@ == buf.text@.subrange(0, j as int),
            decreases n - j,
        {
            push_char(&mut out, buf.text[j]);
            proof {
                assert(buf.text@.subrange(0, j + 1) =~= buf.text@.subrange(0, j as int).push(
                    buf.text@[j as int],
                ));
            }
            j += 1;
        }
        proof {
            assert(buf.text@.subrange(0, n as int) =~= buf.text@);
        }
        out
    }

    /// Insert one character at panel `p`'s cursor and advance it.
    pub fn enter_char(&mut self, p: Focus, c: char)
        requires
            old(self).wf(),
        ensures
            final(self).wf(),
            final(self).text_of(p) == old(self).text_of(p).insert(
                old(self).buffers@[spec_panel_index(p)].cursor as int,
                c,
            ),
            final(self).buffers@[spec_panel_index(p)].cursor == old(self).buffers@[spec_panel_index(
                p,
            )].cursor + 1,
            forall|q: Focus|
                spec_panel_index(q) != spec_panel_index(p) ==> final(self).buffers@[spec_panel_index(
                    q,
                )] == old(self).buffers@[spec_panel_index(q)],
    {
        let i = panel_index(p);
        let mut buf = self.buffers.remove(i);
        buf.text.insert(buf.cursor, c);
        let n2 = buf.text.len();
        proof {
            assert(buf.cursor < n2);
        }
        buf.cursor = buf.cursor + 1;
        self.buffers.insert(i, buf);
        proof {
            assert(final(self).buffers@ =~= old(self).buffers@.update(
                spec_panel_index(p),
                final(self).buffers@[spec_panel_index(p)],
            ));
        }
    }

    /// Delete the character before panel `p`'s cursor, when there is one.
    pub fn delete_char(&mut self, p: Focus)
        requires
            old(self).wf(),
        ensures
            final(self).wf(),
            ({
                let cur = old(self).buffers@[spec_panel_index(p)].cursor;
                if cur == 0 {
                    final(self).buffers@ == old(self).buffers@
                } else {
                    &&& final(self).text_of(p) == old(self).text_of(p).remove(cur - 1)
                    &&& final(self).buffers@[spec_panel_index(p)].cursor == cur - 1
                }
            }),
            forall|q: Focus|
                spec_panel_index(q) != spec_panel_index(p) ==> final(self).buffers@[spec_panel_index(
                    q,
                )] == old(self).buffers@[spec_panel_index(q)],
    {
        let i = panel_index(p);
        if self.buffers[i].cursor == 0 {
            proof {
                assert(final(self).buffers@ =~= old(self).buffers@);
            }
            return ;
        }
        let mut buf = self.buffers.remove(i);
        buf.text.remove(buf.cursor - 1);
        buf.cursor = buf.cursor - 1;
        self.buffers.insert(i, buf);
        proof {
            assert(final(self).buffers@ =~= old(self).buffers@.update(
                spec_panel_index(p),
                final(self).buffers@[spec_panel_index(p)],
            ));
        }
    }

    /// Move panel `p`'s cursor one place left, stopping at the start.
    pub fn move_cursor_left(&mut self, p: Focus)
        requires
            old(self).wf(),
        ensures
            final(self).wf(),
            final(self).text_of(p) == old(self).text_of(p),
            ({
                let cur = old(self).buffers@[spec_panel_index(p)].cursor;
                final(self).buffers@[spec_panel_index(p)].cursor == (if cur == 0 {
                    0usize
                } else {
                    (cur - 1) as usize
                })
            }),
            forall|q: Focus|
                spec_panel_index(q) != spec_panel_index(p) ==> final(self).buffers@[spec_panel_index(
                    q,
                )] == old(self).buffers@[spec_panel_index(q)],
    {
        let i = panel_index(p);
        let mut buf = self.buffers.remove(i);
        if buf.cursor > 0 {
            buf.cursor = buf.cursor - 1;
        }
        self.buffers.insert(i, buf);
        proof {
            assert(final(self).buffers@ =~= old(self).buffers@.update(
                spec_panel_index(p),
                final(self).buffers@[spec_panel_index(p)],
            ));
        }
    }

    /// Move panel `p`'s cursor one place right, stopping at the end.
    pub fn move_cursor_right(&mut self, p: Focus)
        requires
            old(self).wf(),
        ensures
            final(self).wf(),
            final(self).text_of(p) == old(self).text_of(p),
            ({
                let cur = old(self).buffers@[spec_panel_index(p)].cursor;
                let len = old(self).text_of(p).len();
                final(self).buffers@[spec_panel_index(p)].cursor == (if cur < len {
                    (cur + 1) as usize
                } else {
                    cur
                })
            }),
            forall|q: Focus|
                spec_panel_index(q) != spec_panel_index(p) ==> final(self).buffers@[spec_panel_index(
                    q,
                )] == old(self).buffers@[spec_panel_index(q)],
    {
        let i = panel_index(p);
        let mut buf = self.buffers.remove(i);
        if buf.cursor < buf.text.len() {
            buf.cursor = buf.cursor + 1;
        }
        self.buffers.insert(i, buf);
        proof {
            assert(final(self).buffers@ =~= old(self).buffers@.update(
                spec_panel_index(p),
                final(self).buffers@[spec_panel_index(p)],
            ));
        }
    }

    /// Empty panel `p`'s buffer.
    pub fn clear(&mut self, p: Focus)
        requires
            old(self).wf(),
        ensures
            final(self).wf(),
            final(self).text_of(p) == Seq::<char>::empty(),
            forall|q: Focus|
                spec_panel_index(q) != spec_panel_index(p) ==> final(self).buffers@[spec_panel_index(
                    q,
                )] == old(self).buffers@[spec_panel_index(q)],
    {
        let i = panel_index(p);
        let mut buf = self.buffers.remove(i);
        buf.text = Vec::new();
        buf.cursor = 0;
        self.buffers.insert(i, buf);
        proof {
            assert(final(self).text_of(p) =~= Seq::<char>::empty());
            assert(final(self).buffers@ =~= old(self).buffers@.update(
                spec_panel_index(p),
                final(self).buffers@[spec_panel_index(p)],
            ));
        }
    }

    /// Put panel `p`'s cursor back to the start.
    pub fn reset_cursor(&mut self, p: Focus)
        requires
            old(self).wf(),
        ensures
            final(self).wf(),
            final(self).text_of(p) == old(self).text_of(p),
            final(self).buffers@[spec_panel_index(p)].cursor == 0,
            forall|q: Focus|
                spec_panel_index(q) != spec_panel_index(p) ==> final(self).buffers@[spec_panel_index(
                    q,
                )] == old(self).buffers@[spec_panel_index(q)],
    {
        let i = panel_index(p);
        let mut buf = self.buffers.remove(i);
        buf.cursor = 0;
        self.buffers.insert(i, buf);
        proof {
            assert(final(self).buffers@ =~= old(self).buffers@.update(
                spec_panel_index(p),
                final(self).buffers@[spec_panel_index(p)],
            ));
        }
    }
}

/// An ASCII punctuation character, as stripped from a correlation token.
pub open spec fn punct(c: char) -> bool {
    ||| 33 <= c as u32 <= 47
    ||| 58 <= c as u32 <= 64
    ||| 91 <= c as u32 <= 96
    ||| 123 <= c as u32 <= 126
}

fn is_punct(c: char) -> (r: bool)
    ensures
        r == punct(c),
{
    let u = c as u32;
    (33 <= u && u <= 47) || (58 <= u && u <= 64) || (91 <= u && u <= 96) || (123 <= u && u
        <= 126)
}

/// The suffix of `s` after its last space; the whole of `s` when it holds
/// no space.
pub open spec fn after_last_space(s: Seq<char>) -> Seq<char>
    decreases s.len(),
{
    if s.len() == 0 {
        s
    } else if s.last() == ' ' {
        Seq::<char>::empty()
    } else {
        after_last_space(s.drop_last()).push(s.last())
    }
}

/// `s` without its leading punctuation.
pub open spec fn strip_punct_front(s: Seq<char>) -> Seq<char>
    decreases s.len(),
{
    if s.len() > 0 && punct(s[0]) {
        strip_punct_front(s.drop_first())
    } else {
        s
    }
}

/// `s` without its trailing punctuation.
pub open spec fn strip_punct_back(s: Seq<char>) -> Seq<char>
    decreases s.len(),
{
    if s.len() > 0 && punct(s.last()) {
        strip_punct_back(s.drop_last())
    } else {
        s
    }
}

/// The correlation token of a log line: its last whitespace-delimited
/// token, stripped of surrounding punctuation.
pub open spec fn correlation_token(s: Seq<char>) -> Seq<char> {
    strip_punct_back(strip_punct_front(after_last_space(s)))
}

/// The suffix after position `k` is the suffix after the last space, when
/// no space follows `k` and a space (or the start of the text) precedes
/// it.
proof fn lemma_after_last_space(s: Seq<char>, k: int)
    requires
        0 <= k <= s.len(),
        forall|t: int| k <= t < s.len() ==> s[t] != ' ',
        k > 0 ==> s[k - 1] == ' ',
    ensures
        after_last_space(s) == s.subrange(k, s.len() as int),
    decreases s.len(),
{
    if k == s.len() {
        if s.len() == 0 {
            assert(s.subrange(0, 0) =~= s);
        } else {
            assert(s.last() == ' ');
            assert(s.subrange(k, s.len() as int) =~= Seq::<char>::empty());
        }
    } else {
        assert(s.last() != ' ');
        lemma_after_last_space(s.drop_last(), k);
        assert(s.drop_last().subrange(k, s.len() - 1) =~= s.subrange(k, s.len() - 1));
        assert(s.subrange(k, s.len() - 1).push(s.last()) =~= s.subrange(k, s.len() as int));
    }
}

/// The last whitespace-delimited token of `line`, with surrounding
/// punctuation stripped.
fn correlation_token_of(line: &str) -> (r: String)
    ensures
        r@ == correlation_token(line@),
{
    let n = line.unicode_len();
    let mut k: usize = 0;
    let mut j: usize = n;
    loop
        invariant_except_break
            k == 0,
        invariant
            j <= n,
            n == line@.len(),
            forall|t: int| j <= t < n ==> line@[t] != ' ',
        ensures
            k <= n,
            forall|t: int| k <= t < n ==> line@[t] != ' ',
            k > 0 ==> line@[k - 1] == ' ',
        decreases j,
    {
        if j == 0 {
            break ;
        }
        if line.get_char(j - 1) == ' ' {
            k = j;
            break ;
        }
        j -= 1;
    }
    proof {
        lemma_after_last_space(line@, k as int);
    }
    let ghost token = line@.subrange(k as int, n as int);
    let mut a = k;
    while a < n && is_punct(line.get_char(a))
        invariant
            k <= a <= n,
            n == line@.len(),
            strip_punct_front(token) == strip_punct_front(
                line@.subrange(a as int, n as int),
            ),
            token == line@.subrange(k as int, n as int),
        decreases n - a,
    {
        assert(line@.subrange(a as int, n as int).drop_first() =~= line@.subrange(
            a + 1,
            n as int,
        ));
        a += 1;
    }
    assert(strip_punct_front(line@.subrange(a as int, n as int)) == line@.subrange(
        a as int,
        n as int,
    ));
    let mut b = n;
    while b > a && is_punct(line.get_char(b - 1))
        invariant
            a <= b <= n,
            n == line@.len(),
            strip_punct_back(line@.subrange(a as int, n as int)) == strip_punct_back(
                line@.subrange(a as int, b as int),
            ),
        decreases b - a,
    {
        assert(line@.subrange(a as int, b as int).drop_last() =~= line@.subrange(
            a as int,
            b - 1,
        ));
        b -= 1;
    }
    assert(strip_punct_back(line@.subrange(a as int, b as int)) == line@.subrange(
        a as int,
        b as int,
    ));
    line.substring_char(a, b).to_owned()
}

/// The correlation query synthesized from a token taken out of a log
/// line: a free-text search across all columns.
fn build_correlation_query(token: &str) -> (r: String)
    ensures
        r@ == "SELECT * FROM Log WHERE allColumnSearch('"@ + token@
            + "', insensitive: true)"@,
{
    let mut out = String::from_str("SELECT * FROM Log WHERE allColumnSearch('");
    out.append(token);
    out.append("', insensitive: true)");
    out
}

/// The dashboard's whole mutable state: the focus cursor, the text
/// buffers, the dataset store, the log buffer, the colour table, and
/// whether a prior session has been resolved.
pub struct App {
    pub focus: UIFocus,
    pub inputs: Inputs,
    pub datasets: Datasets,
    pub logs: Logs,
    pub facet_colours: FacetColors,
    pub session_loaded: bool,
}

/// The canonical text of a parse result, at the level of character
/// sequences; it matches `spec_render` of the query built from it.
pub open spec fn spec_render_parsed(p: ParsedQuery) -> Seq<char> {
    "FROM"@ + " "@ + p.from + " "@ + "SELECT"@ + " "@ + p.select + " as value"@ + " "@
        + "WHERE"@ + " "@ + p.where_clause + (if p.facet.len() == 0 {
        Seq::<char>::empty()
    } else {
        " "@ + "FACET"@ + " "@ + p.facet
    }) + " "@ + "SINCE"@ + " "@ + p.since + " "@ + "UNTIL"@ + " "@ + p.until + " "@
        + "LIMIT"@ + " "@ + p.limit + " "@ + crate::query::mode_keyword(p.mode)
}

/// The mathematical value of a list of raw query texts.
pub open spec fn texts_model(v: Vec<String>) -> Seq<Seq<char>> {
    Seq::new(v@.len(), |i: int| v@[i]@)
}

/// A stored session text still parses once the result-binding artifacts
/// are stripped and the ends are trimmed.
pub open spec fn entry_imports(query: Seq<char>) -> bool {
    spec_parse(spec_trim(spec_strip(query, "as value"@))) is Ok
}

/// The store model after importing one session entry: when the stored
/// text still parses, the canonical text of the parse result is aliased;
/// otherwise the store is untouched.
pub open spec fn spec_import_entry(
    s: Seq<(Seq<char>, DataModel)>,
    alias: Seq<char>,
    query: Seq<char>,
) -> Seq<(Seq<char>, DataModel)> {
    match spec_parse(spec_trim(spec_strip(query, "as value"@))) {
        Ok(p) => spec_rename(s, spec_render_parsed(p), alias),
        Err(_) => s,
    }
}

/// The store model after importing a whole session, entry by entry in
/// order.
pub open spec fn spec_import(
    s: Seq<(Seq<char>, DataModel)>,
    entries: Seq<(String, String)>,
) -> Seq<(Seq<char>, DataModel)>
    decreases entries.len(),
{
    if entries.len() == 0 {
        s
    } else {
        spec_import_entry(
            spec_import(s, entries.drop_last()),
            entries.last().0@,
            entries.last().1@,
        )
    }
}

/// The raw texts of exactly the session entries that import, in order.
pub open spec fn spec_import_added(entries: Seq<(String, String)>) -> Seq<Seq<char>>
    decreases entries.len(),
{
    if entries.len() == 0 {
        Seq::<Seq<char>>::empty()
    } else {
        let prefix = spec_import_added(entries.drop_last());
        if entry_imports(entries.last().1@) {
            prefix.push(entries.last().1@)
        } else {
            prefix
        }
    }
}

impl App {
    /// Well-formed: the buffer table, the dataset store and the colour
    /// table each satisfy their invariant.
    pub open spec fn wf(self) -> bool {
        &&& self.inputs.wf()
        &&& self.datasets.wf()
        &&& self.facet_colours.wf()
    }

    /// The effect of one forward navigation step: on the graph tab the
    /// dataset cursor advances circularly and remembers the key under it;
    /// on the log tab the line cursor (on the log panel) or the entry
    /// cursor advances; nothing else moves.
    pub open spec fn nav_next_effect(pre: App, post: App) -> bool {
        &&& post.focus == pre.focus
        &&& post.inputs == pre.inputs
        &&& post.facet_colours == pre.facet_colours
        &&& post.session_loaded == pre.session_loaded
        &&& post.datasets.model() == pre.datasets.model()
        &&& post.datasets.tombstones == pre.datasets.tombstones
        &&& post.logs.logs == pre.logs.logs
        &&& post.logs.filters == pre.logs.filters
        &&& (pre.focus.tab == Tab::Graph ==> {
            &&& post.logs == pre.logs
            &&& (pre.datasets.model().len() == 0 ==> post.datasets == pre.datasets)
            &&& (pre.datasets.model().len() > 0 ==> {
                &&& post.datasets.selected_index == Some(
                    next_index(pre.datasets.selected_index, pre.datasets.model().len()),
                )
                &&& post.datasets.selected@ == pre.datasets.model()[next_index(
                    pre.datasets.selected_index,
                    pre.datasets.model().len(),
                ) as int].0
            })
        })
        &&& (pre.focus.tab == Tab::Logs ==> post.datasets == pre.datasets)
        &&& ((pre.focus.tab == Tab::Logs && pre.focus.panel != Focus::Log
            && pre.logs.logs@.len() > 0) ==> post.logs.selected_index == Some(
            next_index(
                norm_index(pre.logs.selected_index, pre.logs.logs@.len()),
                pre.logs.logs@.len(),
            ),
        ))
        &&& ((pre.focus.tab == Tab::Logs && pre.focus.panel == Focus::Log) ==> {
            &&& post.logs.selected_index == pre.logs.selected_index
            &&& match norm_index(pre.logs.selected_index, pre.logs.logs@.len()) {
                None => post.logs.item_index == pre.logs.item_index,
                Some(e) => {
                    let m = pre.logs.logs@[e as int].1@.len();
                    if m == 0 {
                        post.logs.item_index == pre.logs.item_index
                    } else {
                        post.logs.item_index == Some(
                            next_index(norm_index(pre.logs.item_index, m), m),
                        )
                    }
                },
            }
        })
    }

    /// The effect of one backward navigation step; the counterpart of
    /// `nav_next_effect`.
    pub open spec fn nav_prev_effect(pre: App, post: App) -> bool {
        &&& post.focus == pre.focus
        &&& post.inputs == pre.inputs
        &&& post.facet_colours == pre.facet_colours
        &&& post.session_loaded == pre.session_loaded
        &&& post.datasets.model() == pre.datasets.model()
        &&& post.datasets.tombstones == pre.datasets.tombstones
        &&& post.logs.logs == pre.logs.logs
        &&& post.logs.filters == pre.logs.filters
        &&& (pre.focus.tab == Tab::Graph ==> {
            &&& post.logs == pre.logs
            &&& (pre.datasets.model().len() == 0 ==> post.datasets == pre.datasets)
            &&& (pre.datasets.model().len() > 0 ==> {
                &&& post.datasets.selected_index == Some(
                    prev_index(pre.datasets.selected_index, pre.datasets.model().len()),
                )
                &&& post.datasets.selected@ == pre.datasets.model()[prev_index(
                    pre.datasets.selected_index,
                    pre.datasets.model().len(),
                ) as int].0
            })
        })
        &&& (pre.focus.tab == Tab::Logs ==> post.datasets == pre.datasets)
        &&& ((pre.focus.tab == Tab::Logs && pre.focus.panel != Focus::Log
            && pre.logs.logs@.len() > 0) ==> post.logs.selected_index == Some(
            prev_index(
                norm_index(pre.logs.selected_index, pre.logs.logs@.len()),
                pre.logs.logs@.len(),
            ),
        ))
        &&& ((pre.focus.tab == Tab::Logs && pre.focus.panel == Focus::Log) ==> {
            &&& post.logs.selected_index == pre.logs.selected_index
            &&& match norm_index(pre.logs.selected_index, pre.logs.logs@.len()) {
                None => post.logs.item_index == pre.logs.item_index,
                Some(e) => {
                    let m = pre.logs.logs@[e as int].1@.len();
                    if m == 0 {
                        post.logs.item_index == pre.logs.item_index
                    } else {
                        post.logs.item_index == Some(
                            prev_index(norm_index(pre.logs.item_index, m), m),
                        )
                    }
                },
            }
        })
    }

    /// Everything but the focus cursor is unchanged between two states.
    pub open spec fn same_stores(a: App, b: App) -> bool {
        &&& a.inputs == b.inputs
        &&& a.datasets == b.datasets
        &&& a.logs == b.logs
        &&& a.facet_colours == b.facet_colours
        &&& a.session_loaded == b.session_loaded
    }

    /// A fresh dashboard: default focus, empty buffers and stores, no
    /// session resolved yet.
    pub fn new() -> (r: App)
        ensures
            r.wf(),
            r.focus == (UIFocus {
                tab: Tab::Logs,
                panel: Focus::Default,
                input_mode: InputMode::Normal,
                loading: false,
            }),
            r.datasets.model().len() == 0,
            r.datasets.selected_index is None,
            r.logs.logs@.len() == 0,
            r.logs.selected_index is None,
            r.logs.item_index is None,
            r.logs.filters@.len() == 0,
            r.facet_colours.model().len() == 0,
            r.inputs.wf(),
            forall|p: Focus| r.inputs.text_of(p) =~= Seq::<char>::empty(),
            !r.session_loaded,
    {
        App {
            focus: UIFocus::default(),
            inputs: Inputs::new(),
            datasets: Datasets::new(),
            logs: Logs::new(),
            facet_colours: FacetColors::new(),
            session_loaded: false,
        }
    }

    /// Replace the focus cursor.
    pub fn set_focus(&mut self, focus: UIFocus)
        ensures
            final(self).focus == focus,
            App::same_stores(*old(self), *final(self)),
    {
        self.focus = focus;
    }

    /// While no prior session has been resolved, the session-load prompt
    /// takes the focus.
    pub fn force_session_prompt(&mut self)
        ensures
            App::same_stores(*old(self), *final(self)),
            old(self).session_loaded ==> final(self).focus == old(self).focus,
            !old(self).session_loaded ==> final(self).focus == (UIFocus {
                panel: Focus::SessionLoad,
                input_mode: InputMode::Input,
                ..old(self).focus
            }),
    {
        if !self.session_loaded {
            self.focus = UIFocus {
                panel: Focus::SessionLoad,
                input_mode: InputMode::Input,
                ..self.focus
            };
        }
    }

    /// Switch to the next tab. Only the log tab is wired up, so every
    /// switch lands there.
    pub fn next_tab(&mut self)
        ensures
            App::same_stores(*old(self), *final(self)),
            final(self).focus == (UIFocus { tab: Tab::Logs, ..old(self).focus }),
    {
        match self.focus.tab {
            Tab::Graph => {
                self.focus = UIFocus { tab: Tab::Logs, ..self.focus };
            },
            Tab::Logs => {
                self.focus = UIFocus { tab: Tab::Logs, ..self.focus };
            },
        }
    }

    /// Switch to the previous tab; like `next_tab`, it lands on the log
    /// tab.
    pub fn previous_tab(&mut self)
        ensures
            App::same_stores(*old(self), *final(self)),
            final(self).focus == (UIFocus { tab: Tab::Logs, ..old(self).focus }),
    {
        match self.focus.tab {
            Tab::Graph => {
                self.focus = UIFocus { tab: Tab::Logs, ..self.focus };
            },
            Tab::Logs => {
                self.focus = UIFocus { tab: Tab::Logs, ..self.focus };
            },
        }
    }

    /// Move the selection of the visible list forward, circularly: the
    /// dataset list on the graph tab, the log line list inside the
    /// selected entry on the log panel, the log entry list otherwise.
    pub fn next(&mut self)
        requires
            old(self).wf(),
        ensures
            final(self).wf(),
            App::nav_next_effect(*old(self), *final(self)),
    {
        match self.focus.tab {
            Tab::Graph => {
                self.datasets.select_next();
            },
            Tab::Logs => {
                match self.focus.panel {
                    Focus::Log => self.logs.item_next(),
                    _ => self.logs.entry_next(),
                }
            },
        }
    }

    /// Move the selection of the visible list backward, circularly; the
    /// counterpart of `next`.
    pub fn previous(&mut self)
        requires
            old(self).wf(),
        ensures
            final(self).wf(),
            App::nav_prev_effect(*old(self), *final(self)),
    {
        match self.focus.tab {
            Tab::Graph => {
                self.datasets.select_previous();
            },
            Tab::Logs => {
                match self.focus.panel {
                    Focus::Log => self.logs.item_prev(),
                    _ => self.logs.entry_prev(),
                }
            },
        }
    }

    /// Remove the selected dataset entry and hand back its key so the
    /// caller cancels its refresh task; with nothing selected, a no-op.
    pub fn delete_query(&mut self) -> (removed: Option<String>)
        requires
            old(self).wf(),
        ensures
            final(self).wf(),
            final(self).focus == old(self).focus,
            final(self).logs == old(self).logs,
            final(self).inputs == old(self).inputs,
            final(self).facet_colours == old(self).facet_colours,
            final(self).session_loaded == old(self).session_loaded,
            match old(self).datasets.selected_index {
                None => removed is None && final(self).datasets == old(self).datasets,
                Some(i) => {
                    &&& removed is Some
                    &&& removed->Some_0@ == old(self).datasets.model()[i as int].0
                    &&& final(self).datasets.model() == old(self).datasets.model().remove(
                        i as int,
                    )
                    &&& final(self).datasets.selected_index == clamped_index(
                        old(self).datasets.selected_index,
                        (old(self).datasets.model().len() - 1) as nat,
                    )
                    &&& final(self).datasets.tombstones@ == old(
                        self,
                    ).datasets.tombstones@.push(removed->Some_0)
                },
            },
    {
        self.datasets.delete_selected()
    }

    /// Give the entry keyed by `query` a display alias, creating a
    /// placeholder when no data has arrived yet.
    pub fn rename_query(&mut self, query: String, alias: String)
        requires
            old(self).wf(),
        ensures
            final(self).wf(),
            final(self).datasets.model() == spec_rename(
                old(self).datasets.model(),
                query@,
                alias@,
            ),
            final(self).focus == old(self).focus,
            final(self).logs == old(self).logs,
            final(self).inputs == old(self).inputs,
    {
        self.datasets.rename(query, alias);
    }

    /// Narrow the log buffer by one more filter; dropped entries are gone
    /// for good.
    pub fn add_filter(&mut self, filter: String)
        requires
            old(self).wf(),
        ensures
            final(self).wf(),
            final(self).logs.logs@ == old(self).logs.logs@.filter(
                (|e: (String, Vec<String>)| crate::dataset::entry_matches_any(
                    e,
                    old(self).logs.filters@.push(filter),
                )),
            ),
            final(self).logs.filters@ == old(self).logs.filters@.push(filter),
            final(self).logs.selected_index == old(self).logs.selected_index,
            final(self).logs.item_index == old(self).logs.item_index,
            final(self).logs.bounds == old(self).logs.bounds,
            final(self).focus == old(self).focus,
            final(self).datasets == old(self).datasets,
            final(self).inputs == old(self).inputs,
    {
        self.logs.add_filter(filter);
    }

    /// Fold one drained payload into the store: a payload for a removed
    /// (tombstoned) query is dropped whole; otherwise every group key
    /// gains a colour if it lacks one and the entry is upserted.
    pub fn ingest_payload(&mut self, payload: Payload)
        requires
            old(self).wf(),
        ensures
            final(self).wf(),
            final(self).focus == old(self).focus,
            final(self).logs == old(self).logs,
            final(self).inputs == old(self).inputs,
            key_tombstoned(old(self).datasets.tombstones@, payload.query@) ==> {
                &&& final(self).datasets == old(self).datasets
                &&& final(self).facet_colours == old(self).facet_colours
            },
            !key_tombstoned(old(self).datasets.tombstones@, payload.query@) ==> {
                &&& final(self).datasets.model() == spec_upsert(
                    old(self).datasets.model(),
                    payload.query@,
                    facets_model(payload.data),
                    payload.bounds,
                )
                &&& final(self).datasets.selected_index == old(self).datasets.selected_index
                &&& (forall|i: int|
                    0 <= i < old(self).facet_colours.model().len()
                        ==> final(self).facet_colours.model()[i] == old(
                        self,
                    ).facet_colours.model()[i])
                &&& (forall|j: int|
                    0 <= j < payload.facets@.len() ==> final(self).facet_colours.has_key(
                        payload.facets@[j]@,
                    ))
                &&& final(self).facet_colours.model().len() <= old(
                    self,
                ).facet_colours.model().len() + payload.facets@.len()
            },
    {
        if self.datasets.is_tombstoned(&payload.query) {
            return ;
        }
        assign_facet_colors(&mut self.facet_colours, &payload.facets);
        let applied = self.datasets.apply_payload(payload.query, payload.data, payload.bounds);
        proof {
            assert(applied);
        }
    }

    /// Fold one drained log payload into the buffer: the batch replaces
    /// the buffer whole, and the loading flag clears.
    pub fn ingest_log_payload(
        &mut self,
        entries: Vec<(String, String)>,
        chart_data: Vec<(u64, u64)>,
        bounds: crate::dataset::Bounds,
    )
        requires
            old(self).wf(),
        ensures
            final(self).wf(),
            final(self).focus == (UIFocus { loading: false, ..old(self).focus }),
            final(self).datasets == old(self).datasets,
            final(self).facet_colours == old(self).facet_colours,
            final(self).inputs == old(self).inputs,
            final(self).session_loaded == old(self).session_loaded,
            final(self).logs.logs@.len() == entries@.len(),
            forall|i: int|
                0 <= i < entries@.len() ==> {
                    &&& (#[trigger] final(self).logs.logs@[i]).0 == entries@[i].0
                    &&& crate::parser::lines_model(final(self).logs.logs@[i].1)
                        == crate::parser::spec_split_lines(entries@[i].1@)
                },
            final(self).logs.filters@.len() == 0,
            final(self).logs.chart_data == chart_data,
            final(self).logs.bounds == bounds,
    {
        self.logs.replace(entries, chart_data, bounds);
        self.focus = UIFocus { loading: false, ..self.focus };
    }

    /// Import one session entry: strip the result-binding artifacts from
    /// the stored text, parse it, and on success alias its canonical text
    /// and hand the raw text back for acquisition; a text that fails to
    /// parse is skipped.
    pub fn import_entry(&mut self, alias: String, query: String) -> (added: Option<String>)
        requires
            old(self).wf(),
        ensures
            final(self).wf(),
            final(self).focus == old(self).focus,
            final(self).logs == old(self).logs,
            final(self).inputs == old(self).inputs,
            final(self).session_loaded == old(self).session_loaded,
            ({
                let cleaned = spec_trim(spec_strip(query@, "as value"@));
                match spec_parse(cleaned) {
                    Err(_) => added is None && final(self).datasets == old(self).datasets,
                    Ok(p) => {
                        &&& added is Some
                        &&& added->Some_0@ == query@
                        &&& final(self).datasets.model() == spec_rename(
                            old(self).datasets.model(),
                            spec_render_parsed(p),
                            alias@,
                        )
                    },
                }
            }),
    {
        let cleaned = strip_all(query.as_str(), "as value");
        let trimmed = trim_text(cleaned.as_str());
        match parse_nrql(trimmed.as_str()) {
            Ok(q) => {
                let canonical = q.to_string();
                proof {
                    let p = spec_parse(trimmed@)->Ok_0;
                    assert(canonical@ == spec_render_parsed(p));
                }
                self.datasets.rename(canonical, alias);
                Some(query)
            },
            Err(_) => None,
        }
    }

    /// Import a whole session: alias every entry whose stored text still
    /// parses, skip the rest, mark the session resolved, and hand back the
    /// raw texts — exactly those of the entries that parsed, in order — to
    /// start acquisition for.
    pub fn load_session(&mut self, entries: Vec<(String, String)>) -> (to_add: Vec<String>)
        requires
            old(self).wf(),
        ensures
            final(self).wf(),
            final(self).session_loaded,
            final(self).focus == old(self).focus,
            final(self).logs == old(self).logs,
            final(self).inputs == old(self).inputs,
            final(self).datasets.model() == spec_import(old(self).datasets.model(), entries@),
            texts_model(to_add) == spec_import_added(entries@),
    {
        let ghost orig = entries@;
        let ghost total = orig.len();
        let mut to_add: Vec<String> = Vec::new();
        let mut rest = entries;
        proof {
            assert(orig.subrange(0, 0) =~= Seq::<(String, String)>::empty());
            assert(texts_model(to_add) =~= spec_import_added(orig.subrange(0, 0)));
            assert(rest@ =~= orig.subrange(0, total as int));
        }
        while rest.len() > 0
            invariant
                self.wf(),
                self.focus == old(self).focus,
                self.logs == old(self).logs,
                self.inputs == old(self).inputs,
                self.session_loaded == old(self).session_loaded,
                rest@.len() <= total,
                total == orig.len(),
                rest@ == orig.subrange(total - rest@.len(), total as int),
                self.datasets.model() == spec_import(
                    old(self).datasets.model(),
                    orig.subrange(0, total - rest@.len()),
                ),
                texts_model(to_add) == spec_import_added(
                    orig.subrange(0, total - rest@.len()),
                ),
            decreases rest@.len(),
        {
            let ghost k = total - rest@.len();
            let (alias, query) = rest.remove(0);
            proof {
                assert((alias, query) == orig[k]);
                assert(rest@ =~= orig.subrange(k + 1, total as int));
                assert(orig.subrange(0, k + 1).drop_last() =~= orig.subrange(0, k));
                assert(orig.subrange(0, k + 1).last() == orig[k]);
            }
            let ghost added0 = texts_model(to_add);
            let added = self.import_entry(alias, query);
            match added {
                Some(q) => {
                    to_add.push(q);
                    proof {
                        assert(texts_model(to_add) =~= added0.push(to_add@.last()@));
                        assert(to_add@.last()@ == orig[k].1@);
                    }
                },
                None => {},
            }
            proof {
                assert(self.datasets.model() == spec_import(
                    old(self).datasets.model(),
                    orig.subrange(0, k + 1),
                ));
                assert(texts_model(to_add) == spec_import_added(orig.subrange(0, k + 1)));
            }
        }
        proof {
            assert(orig.subrange(0, total as int) =~= orig);
        }
        self.session_loaded = true;
        to_add
    }

    /// Export the session: one pair per entry in visual order, the alias
    /// (or, without one, the query text itself) mapped to the canonical
    /// query text.
    pub fn save_session(&self) -> (pairs: Vec<(String, String)>)
        ensures
            pairs@.len() == self.datasets.model().len(),
            forall|i: int|
                0 <= i < pairs@.len() ==> #[trigger] pairs@[i].1@ == self.datasets.model()[i].0
                    && pairs@[i].0@ == (match self.datasets.model()[i].1.alias {
                    Some(a) => a,
                    None => self.datasets.model()[i].0,
                }),
    {
        let mut pairs: Vec<(String, String)> = Vec::new();
        let n = self.datasets.entries.len();
        let mut i: usize = 0;
        while i < n
            invariant
                i <= n,
                n == self.datasets.entries@.len(),
                pairs@.len() == i,
                forall|j: int|
                    0 <= j < i ==> #[trigger] pairs@[j].1@ == self.datasets.model()[j].0
                        && pairs@[j].0@ == (match self.datasets.model()[j].1.alias {
                        Some(a) => a,
                        None => self.datasets.model()[j].0,
                    }),
            decreases n - i,
        {
            let key = string_copy(&self.datasets.entries[i].0);
            let label = match &self.datasets.entries[i].1.query_alias {
                Some(a) => string_copy(a),
                None => string_copy(&self.datasets.entries[i].0),
            };
            pairs.push((label, key));
            i += 1;
        }
        pairs
    }
}

/// The log line under both log cursors, when both point at something.
pub open spec fn selected_line(logs: Logs) -> Option<Seq<char>> {
    match norm_index(logs.selected_index, logs.logs@.len()) {
        None => None,
        Some(e) => match norm_index(logs.item_index, logs.logs@[e as int].1@.len()) {
            None => None,
            Some(it) => Some(logs.logs@[e as int].1@[it as int]@),
        },
    }
}

impl App {
    /// Route one key press in navigation mode: move cursors, delete the
    /// selected query, open an input panel, toggle views, or synthesize a
    /// correlation query from the selected log line.
    pub fn handle_normal_key(&mut self, key: KeyInput) -> (act: Action)
        requires
            old(self).wf(),
            old(self).focus.input_mode == InputMode::Normal,
        ensures
            final(self).wf(),
            final(self).session_loaded == old(self).session_loaded,
            final(self).facet_colours == old(self).facet_colours,
            final(self).inputs == old(self).inputs,
            key == KeyInput::Char('q') ==> {
                &&& final(self).focus == (UIFocus {
                    panel: Focus::SessionSave,
                    input_mode: InputMode::Input,
                    ..old(self).focus
                })
                &&& act is Nothing
                &&& App::same_stores(*old(self), *final(self))
            },
            key == KeyInput::Char('/') ==> {
                &&& final(self).focus == (UIFocus {
                    panel: Focus::Search,
                    input_mode: InputMode::Input,
                    ..old(self).focus
                })
                &&& act is Nothing
                &&& App::same_stores(*old(self), *final(self))
            },
            key == KeyInput::Char('e') ==> {
                &&& final(self).focus == (UIFocus {
                    panel: Focus::QueryInput,
                    input_mode: InputMode::Input,
                    ..old(self).focus
                })
                &&& act is Nothing
                &&& App::same_stores(*old(self), *final(self))
            },
            key == KeyInput::Char('j') ==> act is Nothing && App::nav_next_effect(
                *old(self),
                *final(self),
            ),
            key == KeyInput::Char('k') ==> act is Nothing && App::nav_prev_effect(
                *old(self),
                *final(self),
            ),
            key == KeyInput::Char('x') ==> {
                &&& final(self).focus == old(self).focus
                &&& final(self).logs == old(self).logs
                &&& match old(self).datasets.selected_index {
                    None => act is Nothing && final(self).datasets == old(self).datasets,
                    Some(i) => {
                        &&& act is RemoveQuery
                        &&& act->RemoveQuery_0@ == old(self).datasets.model()[i as int].0
                        &&& final(self).datasets.model() == old(
                            self,
                        ).datasets.model().remove(i as int)
                        &&& final(self).datasets.selected_index == clamped_index(
                            old(self).datasets.selected_index,
                            (old(self).datasets.model().len() - 1) as nat,
                        )
                    },
                }
            },
            key == KeyInput::Char('r') ==> {
                &&& act is Nothing
                &&& App::same_stores(*old(self), *final(self))
                &&& if old(self).focus.panel != Focus::QueryInput && old(
                    self,
                ).datasets.model().len() > 0 {
                    final(self).focus == (UIFocus {
                        panel: Focus::Rename,
                        input_mode: InputMode::Input,
                        ..old(self).focus
                    })
                } else {
                    final(self).focus == old(self).focus
                }
            },
            key == KeyInput::Char('d') ==> {
                &&& act is Nothing
                &&& App::same_stores(*old(self), *final(self))
                &&& final(self).focus == (UIFocus {
                    panel: if old(self).focus.panel == Focus::Dashboard {
                        Focus::Default
                    } else {
                        Focus::Dashboard
                    },
                    ..old(self).focus
                })
            },
            key == KeyInput::Char('T') ==> {
                &&& act is Nothing
                &&& App::same_stores(*old(self), *final(self))
                &&& final(self).focus == (UIFocus { tab: Tab::Logs, ..old(self).focus })
            },
            key == KeyInput::Esc ==> {
                &&& act is Nothing
                &&& App::same_stores(*old(self), *final(self))
                &&& final(self).focus == (UIFocus {
                    panel: Focus::Default,
                    ..old(self).focus
                })
            },
            key == KeyInput::Enter ==> match old(self).focus.panel {
                Focus::Log => {
                    &&& act is Nothing
                    &&& App::same_stores(*old(self), *final(self))
                    &&& final(self).focus == (UIFocus {
                        panel: Focus::LogDetail,
                        ..old(self).focus
                    })
                },
                Focus::Default => {
                    &&& act is Nothing
                    &&& App::same_stores(*old(self), *final(self))
                    &&& final(self).focus == (UIFocus { panel: Focus::Log, ..old(self).focus })
                },
                Focus::LogDetail => {
                    &&& App::same_stores(*old(self), *final(self))
                    &&& match selected_line(old(self).logs) {
                        None => act is Nothing && final(self).focus == old(self).focus,
                        Some(line) => {
                            &&& act is AddQuery
                            &&& act->AddQuery_0@
                                == "SELECT * FROM Log WHERE allColumnSearch('"@
                                + correlation_token(line) + "', insensitive: true)"@
                            &&& final(self).focus == (UIFocus {
                                panel: Focus::Default,
                                ..old(self).focus
                            })
                        },
                    }
                },
                _ => {
                    &&& act is Nothing
                    &&& App::same_stores(*old(self), *final(self))
                    &&& final(self).focus == old(self).focus
                },
            },
            (key == KeyInput::Backspace || key == KeyInput::Left || key == KeyInput::Right)
                ==> {
                &&& act is Nothing
                &&& App::same_stores(*old(self), *final(self))
                &&& final(self).focus == old(self).focus
            },
    {
        match key {
            KeyInput::Char(c) => {
                if c == 'q' {
                    self.focus = UIFocus {
                        panel: Focus::SessionSave,
                        input_mode: InputMode::Input,
                        ..self.focus
                    };
                    Action::Nothing
                } else if c == '/' {
                    self.focus = UIFocus {
                        panel: Focus::Search,
                        input_mode: InputMode::Input,
                        ..self.focus
                    };
                    Action::Nothing
                } else if c == 'e' {
                    self.focus = UIFocus {
                        panel: Focus::QueryInput,
                        input_mode: InputMode::Input,
                        ..self.focus
                    };
                    Action::Nothing
                } else if c == 'j' {
                    self.next();
                    Action::Nothing
                } else if c == 'k' {
                    self.previous();
                    Action::Nothing
                } else if c == 'x' {
                    match self.delete_query() {
                        Some(k) => Action::RemoveQuery(k),
                        None => Action::Nothing,
                    }
                } else if c == 'r' {
                    match self.focus.panel {
                        Focus::QueryInput => Action::Nothing,
                        _ => {
                            if !self.datasets.is_empty() {
                                self.focus = UIFocus {
                                    panel: Focus::Rename,
                                    input_mode: InputMode::Input,
                                    ..self.focus
                                };
                            }
                            Action::Nothing
                        },
                    }
                } else if c == 'd' {
                    match self.focus.panel {
                        Focus::Dashboard => {
                            self.focus = UIFocus { panel: Focus::Default, ..self.focus };
                        },
                        _ => {
                            self.focus = UIFocus { panel: Focus::Dashboard, ..self.focus };
                        },
                    }
                    Action::Nothing
                } else if c == 'T' {
                    self.next_tab();
                    Action::Nothing
                } else {
                    Action::Nothing
                }
            },
            KeyInput::Esc => {
                self.focus = UIFocus { panel: Focus::Default, ..self.focus };
                Action::Nothing
            },
            KeyInput::Enter => {
                match self.focus.panel {
                    Focus::Log => {
                        self.focus = UIFocus { panel: Focus::LogDetail, ..self.focus };
                        Action::Nothing
                    },
                    Focus::Default => {
                        self.focus = UIFocus { panel: Focus::Log, ..self.focus };
                        Action::Nothing
                    },
                    Focus::LogDetail => {
                        let n = self.logs.logs.len();
                        let e = match self.logs.selected_index {
                            Some(e) => if e < n {
                                e
                            } else {
                                return Action::Nothing;
                            },
                            None => {
                                return Action::Nothing;
                            },
                        };
                        let m = self.logs.logs[e].1.len();
                        let it = match self.logs.item_index {
                            Some(it) => if it < m {
                                it
                            } else {
                                return Action::Nothing;
                            },
                            None => {
                                return Action::Nothing;
                            },
                        };
                        let token = correlation_token_of(self.logs.logs[e].1[it].as_str());
                        let query = build_correlation_query(token.as_str());
                        self.focus = UIFocus { panel: Focus::Default, ..self.focus };
                        Action::AddQuery(query)
                    },
                    _ => Action::Nothing,
                }
            },
            _ => Action::Nothing,
        }
    }

    /// Route one key press in input mode: edit the active panel's buffer,
    /// commit it with enter, or abort with escape — except that the
    /// session-load prompt cannot be escaped.
    pub fn handle_input_key(&mut self, key: KeyInput) -> (act: Action)
        requires
            old(self).wf(),
            old(self).focus.input_mode == InputMode::Input,
        ensures
            final(self).wf(),
            final(self).facet_colours == old(self).facet_colours,
            key matches KeyInput::Char(_) || key == KeyInput::Backspace || key
                == KeyInput::Left || key == KeyInput::Right ==> {
                &&& act is Nothing
                &&& final(self).focus == old(self).focus
                &&& final(self).datasets == old(self).datasets
                &&& final(self).logs == old(self).logs
                &&& final(self).session_loaded == old(self).session_loaded
            },
            key matches KeyInput::Char(c) ==> final(self).inputs.text_of(
                old(self).focus.panel,
            ) == old(self).inputs.text_of(old(self).focus.panel).insert(
                old(self).inputs.buffers@[spec_panel_index(old(self).focus.panel)].cursor
                    as int,
                c,
            ),
            key == KeyInput::Backspace ==> ({
                let cur = old(self).inputs.buffers@[spec_panel_index(
                    old(self).focus.panel,
                )].cursor;
                if cur == 0 {
                    final(self).inputs.buffers@ == old(self).inputs.buffers@
                } else {
                    final(self).inputs.text_of(old(self).focus.panel) == old(
                        self,
                    ).inputs.text_of(old(self).focus.panel).remove(cur - 1)
                }
            }),
            (key == KeyInput::Left || key == KeyInput::Right) ==> final(self).inputs.text_of(
                old(self).focus.panel,
            ) == old(self).inputs.text_of(old(self).focus.panel),
            key == KeyInput::Esc ==> {
                &&& act is Nothing
                &&& App::same_stores(*old(self), *final(self))
                &&& if old(self).focus.panel == Focus::SessionLoad {
                    final(self).focus == old(self).focus
                } else {
                    final(self).focus == (UIFocus {
                        panel: Focus::Default,
                        input_mode: InputMode::Normal,
                        ..old(self).focus
                    })
                }
            },
            key == KeyInput::Enter ==> {
                &&& final(self).focus == (UIFocus {
                    panel: Focus::Default,
                    input_mode: InputMode::Normal,
                    loading: old(self).focus.loading || old(self).focus.panel
                        == Focus::QueryInput,
                    ..old(self).focus
                })
                &&& final(self).inputs.text_of(old(self).focus.panel) == Seq::<char>::empty()
                &&& match old(self).focus.panel {
                    Focus::QueryInput => {
                        &&& act is AddQuery
                        &&& act->AddQuery_0@ == old(self).inputs.text_of(Focus::QueryInput)
                        &&& final(self).datasets == old(self).datasets
                        &&& final(self).logs == old(self).logs
                        &&& final(self).session_loaded == old(self).session_loaded
                    },
                    Focus::Rename => {
                        &&& act is Nothing
                        &&& final(self).datasets.model() == spec_rename(
                            old(self).datasets.model(),
                            old(self).datasets.selected@,
                            old(self).inputs.text_of(Focus::Rename),
                        )
                        &&& final(self).logs == old(self).logs
                        &&& final(self).session_loaded == old(self).session_loaded
                    },
                    Focus::Search => {
                        &&& act is Nothing
                        &&& final(self).logs.filters@.len() == old(
                            self,
                        ).logs.filters@.len() + 1
                        &&& final(self).logs.filters@.last()@ == old(self).inputs.text_of(
                            Focus::Search,
                        )
                        &&& final(self).logs.logs@ == old(self).logs.logs@.filter(
                            (|en: (String, Vec<String>)| crate::dataset::entry_matches_any(
                                en,
                                final(self).logs.filters@,
                            )),
                        )
                        &&& final(self).datasets == old(self).datasets
                        &&& final(self).session_loaded == old(self).session_loaded
                    },
                    Focus::SessionLoad => {
                        &&& final(self).datasets == old(self).datasets
                        &&& final(self).logs == old(self).logs
                        &&& if old(self).inputs.text_of(Focus::SessionLoad) == seq!['y']
                            || old(self).inputs.text_of(Focus::SessionLoad) == seq!['Y'] {
                            act is LoadSession && final(self).session_loaded == old(
                                self,
                            ).session_loaded
                        } else {
                            act is Nothing && final(self).session_loaded
                        }
                    },
                    Focus::SessionSave => {
                        &&& final(self).datasets == old(self).datasets
                        &&& final(self).logs == old(self).logs
                        &&& final(self).session_loaded == old(self).session_loaded
                        &&& if old(self).inputs.text_of(Focus::SessionSave) == seq!['y']
                            || old(self).inputs.text_of(Focus::SessionSave) == seq!['Y'] {
                            act is SaveAndExit
                        } else {
                            act is Exit
                        }
                    },
                    _ => {
                        &&& act is Nothing
                        &&& final(self).datasets == old(self).datasets
                        &&& final(self).logs == old(self).logs
                        &&& final(self).session_loaded == old(self).session_loaded
                    },
                }
            },
    {
        let p = self.focus.panel;
        match key {
            KeyInput::Char(c) => {
                self.inputs.enter_char(p, c);
                Action::Nothing
            },
            KeyInput::Backspace => {
                self.inputs.delete_char(p);
                Action::Nothing
            },
            KeyInput::Left => {
                self.inputs.move_cursor_left(p);
                Action::Nothing
            },
            KeyInput::Right => {
                self.inputs.move_cursor_right(p);
                Action::Nothing
            },
            KeyInput::Esc => {
                match p {
                    Focus::SessionLoad => Action::Nothing,
                    _ => {
                        self.focus = UIFocus {
                            panel: Focus::Default,
                            input_mode: InputMode::Normal,
                            ..self.focus
                        };
                        Action::Nothing
                    },
                }
            },
            KeyInput::Enter => {
                let act = match p {
                    Focus::QueryInput => {
                        let raw = self.inputs.get(Focus::QueryInput);
                        self.focus = UIFocus { loading: true, ..self.focus };
                        Action::AddQuery(raw)
                    },
                    Focus::Rename => {
                        let alias = self.inputs.get(Focus::Rename);
                        let target = string_copy(&self.datasets.selected);
                        self.datasets.rename(target, alias);
                        Action::Nothing
                    },
                    Focus::Search => {
                        let filter = self.inputs.get(Focus::Search);
                        self.logs.add_filter(filter);
                        Action::Nothing
                    },
                    Focus::SessionLoad => {
                        let answer = self.inputs.get(Focus::SessionLoad);
                        if is_yes(&answer) {
                            Action::LoadSession
                        } else {
                            self.session_loaded = true;
                            Action::Nothing
                        }
                    },
                    Focus::SessionSave => {
                        let answer = self.inputs.get(Focus::SessionSave);
                        if is_yes(&answer) {
                            Action::SaveAndExit
                        } else {
                            Action::Exit
                        }
                    },
                    _ => Action::Nothing,
                };
                self.inputs.clear(p);
                self.inputs.reset_cursor(p);
                self.focus = UIFocus {
                    panel: Focus::Default,
                    input_mode: InputMode::Normal,
                    ..self.focus
                };
                act
            },
        }
    }
}

/// A clone of a string, equal to the original.
fn string_copy(s: &String) -> (r: String)
    ensures
        r == *s,
{
    let r = s.clone();
    r
}

/// Whether an answer buffer says yes.
fn is_yes(s: &String) -> (r: bool)
    ensures
        r == (s@ == seq!['y'] || s@ == seq!['Y']),
{
    let t = s.as_str();
    if t.unicode_len() != 1 {
        proof {
            assert(s@.len() != 1);
            assert(seq!['y'].len() == 1 && seq!['Y'].len() == 1);
        }
        return false;
    }
    let c = t.get_char(0);
    if c == 'y' || c == 'Y' {
        proof {
            if c == 'y' {
                assert(s@ =~= seq!['y']);
            } else {
                assert(s@ =~= seq!['Y']);
            }
        }
        true
    } else {
        proof {
            assert(s@[0] != 'y' && s@[0] != 'Y');
            assert(s@ != seq!['y'] && s@ != seq!['Y']);
        }
        false
    }
}

} // verus!
