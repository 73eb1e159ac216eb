use vstd::prelude::*;

use crate::text::{chars_of, same_text, string_of};
use crate::time_range::Timestamp;

verus! {

/// The text form of a range endpoint in a diagnostic: `YYYY-MM-DD HH:MM:SS±HH`.
pub const DATETIME_FORMAT: &'static str = "%Y-%m-%d %H:%M:%S%#z";

/// The key that names the resource in a diagnostic clause.
pub const RESOURCE_KEY: &'static str = "resource_id";

/// The key that names the time range in a diagnostic clause.
pub const TIMESPAN_KEY: &'static str = "timespan";

/// The instant that `text` names when read against `format`, if it reads.
pub uninterp spec fn parsed_utc(text: Seq<char>, format: Seq<char>) -> Option<Timestamp>;

/// Relies on chrono's `DateTime::parse_from_str`: the text is read against the
/// format, and the instant is given as seconds and nanoseconds since the epoch.
#[verifier::external_body]
fn parse_utc(text: &str, format: &str) -> (r: Option<Timestamp>)
    ensures
        r == parsed_utc(text@, format@),
{
    match chrono::DateTime::parse_from_str(text, format) {
        Ok(d) => Some(Timestamp { seconds: d.timestamp(), nanos: d.timestamp_subsec_nanos() as i32 }),
        Err(_) => None,
    }
}

/// The character classes of the diagnostic template.
#[derive(Clone, Copy, Debug, PartialEq, Eq, Structural)]
pub enum CharClass {
    /// Letters, digits, `_` and `-`: keys and resource ids.
    Ident,
    /// Blanks between the parts of a clause.
    Space,
    /// Anything but a closing bracket: the body of a range.
    RangeBody,
}

pub open spec fn in_class(k: CharClass, c: char) -> bool {
    match k {
        CharClass::Ident => ('a' <= c && c <= 'z') || ('A' <= c && c <= 'Z') || ('0' <= c && c <= '9')
            || c == '_' || c == '-',
        CharClass::Space => c == ' ' || c == '\t' || c == '\n' || c == '\r' || c == '\x0B' || c
            == '\x0C',
        CharClass::RangeBody => c != ')' && c != ']',
    }
}

fn is_in_class(k: CharClass, c: char) -> (r: bool)
    ensures
        r == in_class(k, c),
{
    match k {
        CharClass::Ident => ('a' <= c && c <= 'z') || ('A' <= c && c <= 'Z') || ('0' <= c && c
            <= '9') || c == '_' || c == '-',
        CharClass::Space => c == ' ' || c == '\t' || c == '\n' || c == '\r' || c == '\x0B' || c
            == '\x0C',
        CharClass::RangeBody => c != ')' && c != ']',
    }
}

/// Where the longest run of `k` characters that starts at `i` ends.
pub open spec fn run_end(s: Seq<char>, i: int, k: CharClass) -> int
    decreases s.len() - i,
{
    if 0 <= i < s.len() && in_class(k, s[i]) {
        run_end(s, i + 1, k)
    } else {
        i
    }
}

pub proof fn lemma_run_end_bounds(s: Seq<char>, i: int, k: CharClass)
    ensures
        i <= run_end(s, i, k),
        0 <= i <= s.len() ==> run_end(s, i, k) <= s.len(),
    decreases s.len() - i,
{
    if 0 <= i < s.len() && in_class(k, s[i]) {
        lemma_run_end_bounds(s, i + 1, k);
    }
}

fn skip_class(v: &Vec<char>, i: usize, k: CharClass) -> (r: usize)
    requires
        i <= v@.len(),
    ensures
        r == run_end(v@, i as int, k),
        i <= r <= v@.len(),
{
    let mut j: usize = i;
    while j < v.len() && is_in_class(k, v[j])
        invariant
            i <= j <= v@.len(),
            run_end(v@, j as int, k) == run_end(v@, i as int, k),
        decreases v@.len() - j,
    {
        j += 1;
    }
    j
}

/// The four texts of one clause `(k1, k2)=(v1, [v2])`, as `(k1, v1, k2, v2)`.
pub type ClauseText = (Seq<char>, Seq<char>, Seq<char>, Seq<char>);

/// The clause that starts at `i`, with the index just past it. The template is
/// `(` key `,` key `)=(` value `,` open range-body close `)`, with blanks allowed
/// around each comma; open is `[` or `(`, close is `]` or `)`.
pub open spec fn clause_at(s: Seq<char>, i: int) -> Option<(ClauseText, int)> {
    let a = i + 1;
    let b = run_end(s, a, CharClass::Ident);
    let c = run_end(s, b, CharClass::Space);
    let d = run_end(s, c + 1, CharClass::Space);
    let e = run_end(s, d, CharClass::Ident);
    let f = e + 3;
    let g = run_end(s, f, CharClass::Ident);
    let h = run_end(s, g, CharClass::Space);
    let j = run_end(s, h + 1, CharClass::Space);
    let k = run_end(s, j + 1, CharClass::RangeBody);
    if 0 <= i && k + 1 < s.len() && s[i] == '(' && a < b && s[c] == ',' && d < e && s[e] == ')'
        && s[e + 1] == '=' && s[e + 2] == '(' && f < g && s[h] == ',' && (s[j] == '[' || s[j]
        == '(') && j + 1 < k && (s[k] == ']' || s[k] == ')') && s[k + 1] == ')' {
        Some(
            (
                (s.subrange(a, b), s.subrange(f, g), s.subrange(d, e), s.subrange(j + 1, k)),
                k + 2,
            ),
        )
    } else {
        None
    }
}

/// The leftmost clause that starts at or after `i`.
pub open spec fn first_clause_from(s: Seq<char>, i: int) -> Option<(ClauseText, int)>
    decreases s.len() - i,
{
    if i < 0 || i >= s.len() {
        None
    } else if clause_at(s, i) is Some {
        clause_at(s, i)
    } else {
        first_clause_from(s, i + 1)
    }
}

/// The first two clauses of a diagnostic, the second one after the end of the
/// first.
pub open spec fn parsed_clauses(s: Seq<char>) -> Option<(ClauseText, ClauseText)> {
    match first_clause_from(s, 0) {
        None => None,
        Some((c1, e1)) => match first_clause_from(s, e1) {
            None => None,
            Some((c2, _e2)) => Some((c1, c2)),
        },
    }
}

/// Spans of one clause found in a character vector.
struct ClauseSpan {
    k1: (usize, usize),
    v1: (usize, usize),
    k2: (usize, usize),
    v2: (usize, usize),
    end: usize,
}

spec fn span_ok(s: Seq<char>, sp: ClauseSpan, m: (ClauseText, int)) -> bool {
    &&& sp.k1.0 <= sp.k1.1 <= s.len()
    &&& sp.v1.0 <= sp.v1.1 <= s.len()
    &&& sp.k2.0 <= sp.k2.1 <= s.len()
    &&& sp.v2.0 <= sp.v2.1 <= s.len()
    &&& m.0.0 == s.subrange(sp.k1.0 as int, sp.k1.1 as int)
    &&& m.0.1 == s.subrange(sp.v1.0 as int, sp.v1.1 as int)
    &&& m.0.2 == s.subrange(sp.k2.0 as int, sp.k2.1 as int)
    &&& m.0.3 == s.subrange(sp.v2.0 as int, sp.v2.1 as int)
    &&& m.1 == sp.end as int
    &&& sp.end <= s.len()
}

fn match_clause_at(v: &Vec<char>, i: usize) -> (r: Option<ClauseSpan>)
    requires
        i < v@.len(),
    ensures
        r is Some <==> clause_at(v@, i as int) is Some,
        r is Some ==> span_ok(v@, r->0, clause_at(v@, i as int)->0),
{
    let s = Ghost(v@);
    let n = v.len();
    let a = i + 1;
    let b = skip_class(v, a, CharClass::Ident);
    let c = skip_class(v, b, CharClass::Space);
    if c >= n || v[i] != '(' || a >= b || v[c] != ',' {
        proof {
            lemma_template_indices_ascend(s@, i as int);
        }
        return None;
    }
    let d = skip_class(v, c + 1, CharClass::Space);
    let e = skip_class(v, d, CharClass::Ident);
    if n - e < 3 || d >= e || v[e] != ')' || v[e + 1] != '=' || v[e + 2] != '(' {
        proof {
            lemma_template_indices_ascend(s@, i as int);
        }
        return None;
    }
    let f = e + 3;
    let g = skip_class(v, f, CharClass::Ident);
    let h = skip_class(v, g, CharClass::Space);
    if h >= n || f >= g || v[h] != ',' {
        proof {
            lemma_template_indices_ascend(s@, i as int);
        }
        return None;
    }
    let j = skip_class(v, h + 1, CharClass::Space);
    if j >= n || (v[j] != '[' && v[j] != '(') {
        proof {
            lemma_template_indices_ascend(s@, i as int);
        }
        return None;
    }
    let k = skip_class(v, j + 1, CharClass::RangeBody);
    if n - k < 2 || j + 1 >= k || (v[k] != ']' && v[k] != ')') || v[k + 1] != ')' {
        proof {
            lemma_template_indices_ascend(s@, i as int);
        }
        return None;
    }
    Some(ClauseSpan { k1: (a, b), v1: (f, g), k2: (d, e), v2: (j + 1, k), end: k + 2 })
}

/// Each index of the template comes after the one before it, so a clause that
/// ends within the text has all its parts within it.
proof fn lemma_template_indices_ascend(s: Seq<char>, i: int)
    ensures
        ({
            let a = i + 1;
            let b = run_end(s, a, CharClass::Ident);
            let c = run_end(s, b, CharClass::Space);
            let d = run_end(s, c + 1, CharClass::Space);
            let e = run_end(s, d, CharClass::Ident);
            let f = e + 3;
            let g = run_end(s, f, CharClass::Ident);
            let h = run_end(s, g, CharClass::Space);
            let j = run_end(s, h + 1, CharClass::Space);
            let k = run_end(s, j + 1, CharClass::RangeBody);
            a <= b && b <= c && c + 1 <= d && d <= e && f <= g && g <= h && h + 1 <= j && j + 1 <= k
        }),
{
    let a = i + 1;
    let b = run_end(s, a, CharClass::Ident);
    let c = run_end(s, b, CharClass::Space);
    let d = run_end(s, c + 1, CharClass::Space);
    let e = run_end(s, d, CharClass::Ident);
    let f = e + 3;
    let g = run_end(s, f, CharClass::Ident);
    let h = run_end(s, g, CharClass::Space);
    let j = run_end(s, h + 1, CharClass::Space);
    lemma_run_end_bounds(s, a, CharClass::Ident);
    lemma_run_end_bounds(s, b, CharClass::Space);
    lemma_run_end_bounds(s, c + 1, CharClass::Space);
    lemma_run_end_bounds(s, d, CharClass::Ident);
    lemma_run_end_bounds(s, f, CharClass::Ident);
    lemma_run_end_bounds(s, g, CharClass::Space);
    lemma_run_end_bounds(s, h + 1, CharClass::Space);
    lemma_run_end_bounds(s, j + 1, CharClass::RangeBody);
}

fn first_clause_from_exec(v: &Vec<char>, from: usize) -> (r: Option<ClauseSpan>)
    requires
        from <= v@.len(),
    ensures
        r is Some <==> first_clause_from(v@, from as int) is Some,
        r is Some ==> span_ok(v@, r->0, first_clause_from(v@, from as int)->0),
{
    let mut i: usize = from;
    while i < v.len()
        invariant
            from <= i <= v@.len(),
            first_clause_from(v@, i as int) == first_clause_from(v@, from as int),
        decreases v@.len() - i,
    {
        let m = match_clause_at(v, i);
        if m.is_some() {
            return m;
        }
        i += 1;
    }
    None
}

/// One clause of a diagnostic: two keys and the values given for them.
#[derive(Debug, Clone)]
pub struct ParsedClause {
    pub k1: String,
    pub v1: String,
    pub k2: String,
    pub v2: String,
}

impl View for ParsedClause {
    type V = ClauseText;

    open spec fn view(&self) -> ClauseText {
        (self.k1@, self.v1@, self.k2@, self.v2@)
    }
}

/// The value that a clause gives for `key`; the second pair wins when both
/// keys are the same.
pub open spec fn lookup(c: ClauseText, key: Seq<char>) -> Option<Seq<char>> {
    if c.2 == key {
        Some(c.3)
    } else if c.0 == key {
        Some(c.1)
    } else {
        None
    }
}

impl ParsedClause {
    /// The value given for `key`, if the clause names it.
    pub fn get(&self, key: &str) -> (r: Option<String>)
        ensures
            match lookup(self@, key@) {
                Some(t) => r is Some && r->0@ == t,
                None => r is None,
            },
    {
        if same_text(self.k2.as_str(), key) {
            Some(self.v2.clone())
        } else if same_text(self.k1.as_str(), key) {
            Some(self.v1.clone())
        } else {
            None
        }
    }
}

/// The two clauses of a diagnostic: the rejected row first, then the row it
/// collided with.
#[derive(Debug, Clone)]
pub struct ParsedInfo {
    pub new: ParsedClause,
    pub old: ParsedClause,
}

fn clause_from_span(v: &Vec<char>, sp: &ClauseSpan) -> (r: ParsedClause)
    requires
        sp.k1.0 <= sp.k1.1 <= v@.len(),
        sp.v1.0 <= sp.v1.1 <= v@.len(),
        sp.k2.0 <= sp.k2.1 <= v@.len(),
        sp.v2.0 <= sp.v2.1 <= v@.len(),
    ensures
        r@ == (
            v@.subrange(sp.k1.0 as int, sp.k1.1 as int),
            v@.subrange(sp.v1.0 as int, sp.v1.1 as int),
            v@.subrange(sp.k2.0 as int, sp.k2.1 as int),
            v@.subrange(sp.v2.0 as int, sp.v2.1 as int),
        ),
{
    ParsedClause {
        k1: string_of(v, sp.k1.0, sp.k1.1),
        v1: string_of(v, sp.v1.0, sp.v1.1),
        k2: string_of(v, sp.k2.0, sp.k2.1),
        v2: string_of(v, sp.v2.0, sp.v2.1),
    }
}

impl ParsedInfo {
    /// Finds the first two clauses `(key, key)=(value, [range])` of a diagnostic.
    pub fn parse(s: &str) -> (r: Option<ParsedInfo>)
        ensures
            match parsed_clauses(s@) {
                Some((c1, c2)) => r is Some && r->0.new@ == c1 && r->0.old@ == c2,
                None => r is None,
            },
    {
        let v = chars_of(s);
        let first = first_clause_from_exec(&v, 0);
        match first {
            None => None,
            Some(sp1) => {
                let second = first_clause_from_exec(&v, sp1.end);
                match second {
                    None => None,
                    Some(sp2) => Some(
                        ParsedInfo { new: clause_from_span(&v, &sp1), old: clause_from_span(&v, &sp2) },
                    ),
                }
            },
        }
    }
}

/// The first index at or after `i` that holds `ch`, or the length if none does.
pub open spec fn find_char(t: Seq<char>, ch: char, i: int) -> int
    decreases t.len() - i,
{
    if i < 0 || i >= t.len() || t[i] == ch {
        i
    } else {
        find_char(t, ch, i + 1)
    }
}

/// The text without its double quotes.
pub open spec fn strip_quotes(t: Seq<char>) -> Seq<char> {
    t.filter(|ch: char| ch != '"')
}

/// The two endpoints of a range text `start,end`: the text is split at its
/// first comma, and each side, as given, is read as a date and time.
pub open spec fn timespan_bounds(u: Seq<char>) -> Option<(Timestamp, Timestamp)> {
    let p = find_char(u, ',', 0);
    if p < u.len() {
        match (
            parsed_utc(u.subrange(0, p), DATETIME_FORMAT@),
            parsed_utc(u.subrange(p + 1, u.len() as int), DATETIME_FORMAT@),
        ) {
            (Some(a), Some(b)) => Some((a, b)),
            _ => None,
        }
    } else {
        None
    }
}

/// Reads one endpoint `YYYY-MM-DD HH:MM:SS±HH` as an instant.
pub fn parse_datetime(s: &str) -> (r: Option<Timestamp>)
    ensures
        r == parsed_utc(s@, DATETIME_FORMAT@),
{
    parse_utc(s, DATETIME_FORMAT)
}

fn without_quotes(v: &Vec<char>) -> (r: Vec<char>)
    ensures
        r@ == strip_quotes(v@),
{
    let mut out: Vec<char> = Vec::new();
    let mut i: usize = 0;
    while i < v.len()
        invariant
            i <= v@.len(),
            out@ == strip_quotes(v@.subrange(0, i as int)),
        decreases v@.len() - i,
    {
        proof {
            assert(v@.subrange(0, i as int + 1).drop_last() =~= v@.subrange(0, i as int));
            assert(v@.subrange(0, i as int + 1).last() == v@[i as int]);
            reveal(Seq::filter);
        }
        if v[i] != '"' {
            out.push(v[i]);
        }
        i += 1;
    }
    proof {
        assert(v@.subrange(0, v@.len() as int) =~= v@);
    }
    out
}

/// Splits a range text `"start","end"` into its two instants.
pub fn parse_timespan(t: &str) -> (r: Option<(Timestamp, Timestamp)>)
    ensures
        r == timespan_bounds(t@),
{
    let u = chars_of(t);
    let mut p: usize = 0;
    while p < u.len() && u[p] != ','
        invariant
            p <= u@.len(),
            find_char(u@, ',', p as int) == find_char(u@, ',', 0),
        decreases u@.len() - p,
    {
        p += 1;
    }
    if p >= u.len() {
        return None;
    }
    let start = parse_datetime(string_of(&u, 0, p).as_str());
    let end = parse_datetime(string_of(&u, p + 1, u.len()).as_str());
    match (start, end) {
        (Some(a), Some(b)) => Some((a, b)),
        _ => None,
    }
}

/// A window as plain values: the resource and the two endpoints.
pub type WindowView = (Seq<char>, Timestamp, Timestamp);

/// A concrete interval of a resource, as a conflict reports it.
#[derive(Debug, Clone)]
pub struct ReservationWindow {
    pub rid: String,
    pub start: Timestamp,
    pub end: Timestamp,
}

impl View for ReservationWindow {
    type V = WindowView;

    open spec fn view(&self) -> WindowView {
        (self.rid@, self.start, self.end)
    }
}

/// The window that a clause describes, when it names both keys and its range,
/// with its double quotes dropped, reads.
pub open spec fn window_of(c: ClauseText) -> Option<WindowView> {
    match (lookup(c, TIMESPAN_KEY@), lookup(c, RESOURCE_KEY@)) {
        (Some(t), Some(rid)) => match timespan_bounds(strip_quotes(t)) {
            Some((a, b)) => Some((rid, a, b)),
            None => None,
        },
        _ => None,
    }
}

impl ReservationWindow {
    /// The window that a diagnostic clause describes.
    pub fn from_clause(c: &ParsedClause) -> (r: Option<ReservationWindow>)
        ensures
            match window_of(c@) {
                Some(w) => r is Some && r->0@ == w,
                None => r is None,
            },
    {
        let timespan = c.get(TIMESPAN_KEY);
        match timespan {
            None => None,
            Some(t) => {
                let bare = without_quotes(&chars_of(t.as_str()));
                proof {
                    assert(bare@.subrange(0, bare@.len() as int) =~= bare@);
                }
                let bounds = parse_timespan(string_of(&bare, 0, bare.len()).as_str());
                match bounds {
                    None => None,
                    Some((start, end)) => {
                        let rid = c.get(RESOURCE_KEY);
                        match rid {
                            None => None,
                            Some(rid) => Some(ReservationWindow { rid, start, end }),
                        }
                    },
                }
            },
        }
    }
}

/// The attempted window and the existing window that it collided with.
#[derive(Debug, Clone)]
pub struct ReservationConflict {
    pub new: ReservationWindow,
    pub old: ReservationWindow,
}

impl View for ReservationConflict {
    type V = (WindowView, WindowView);

    open spec fn view(&self) -> (WindowView, WindowView) {
        (self.new@, self.old@)
    }
}

/// The conflict that a diagnostic text describes, when it can be read.
pub open spec fn conflict_of(s: Seq<char>) -> Option<(WindowView, WindowView)> {
    match parsed_clauses(s) {
        Some((c1, c2)) => match (window_of(c1), window_of(c2)) {
            (Some(w1), Some(w2)) => Some((w1, w2)),
            _ => None,
        },
        None => None,
    }
}

impl ReservationConflict {
    /// Both windows of the two clauses, when each of them reads.
    pub fn from_info(info: &ParsedInfo) -> (r: Option<ReservationConflict>)
        ensures
            match (window_of(info.new@), window_of(info.old@)) {
                (Some(w1), Some(w2)) => r is Some && r->0@ == (w1, w2),
                _ => r is None,
            },
    {
        let new = ReservationWindow::from_clause(&info.new);
        let old = ReservationWindow::from_clause(&info.old);
        match (new, old) {
            (Some(new), Some(old)) => Some(ReservationConflict { new, old }),
            _ => None,
        }
    }

    /// Reads both windows out of a diagnostic text.
    pub fn parse(s: &str) -> (r: Option<ReservationConflict>)
        ensures
            match conflict_of(s@) {
                Some(c) => r is Some && r->0@ == c,
                None => r is None,
            },
    {
        match ParsedInfo::parse(s) {
            None => None,
            Some(info) => ReservationConflict::from_info(&info),
        }
    }
}

/// A conflict with its windows, or the bare fact that one happened.
#[derive(Debug, Clone)]
pub enum ReservationConflictInfo {
    Parsed(ReservationConflict),
    UnParsed,
}

impl View for ReservationConflictInfo {
    type V = Option<(WindowView, WindowView)>;

    open spec fn view(&self) -> Option<(WindowView, WindowView)> {
        match self {
            ReservationConflictInfo::Parsed(c) => Some(c@),
            ReservationConflictInfo::UnParsed => None,
        }
    }
}

impl ReservationConflictInfo {
    /// Interprets a storage diagnostic. Text that does not read gives
    /// `UnParsed`; this never fails.
    pub fn parse(s: &str) -> (r: ReservationConflictInfo)
        ensures
            r@ == conflict_of(s@),
    {
        match ReservationConflict::parse(s) {
            Some(c) => ReservationConflictInfo::Parsed(c),
            None => ReservationConflictInfo::UnParsed,
        }
    }
}

impl std::str::FromStr for ParsedInfo {
    type Err = ();

    fn from_str(s: &str) -> (r: Result<ParsedInfo, ()>)
        ensures
            match parsed_clauses(s@) {
                Some((c1, c2)) => r is Ok && r->Ok_0.new@ == c1 && r->Ok_0.old@ == c2,
                None => r is Err,
            },
    {
        match ParsedInfo::parse(s) {
            Some(info) => Ok(info),
            None => Err(()),
        }
    }
}

impl std::str::FromStr for ReservationConflict {
    type Err = ();

    fn from_str(s: &str) -> (r: Result<ReservationConflict, ()>)
        ensures
            match conflict_of(s@) {
                Some(c) => r is Ok && r->Ok_0@ == c,
                None => r is Err,
            },
    {
        match ReservationConflict::parse(s) {
            Some(c) => Ok(c),
            None => Err(()),
        }
    }
}

impl std::str::FromStr for ReservationConflictInfo {
    type Err = ();

    fn from_str(s: &str) -> (r: Result<ReservationConflictInfo, ()>)
        ensures
            r is Ok && r->Ok_0@ == conflict_of(s@),
    {
        Ok(ReservationConflictInfo::parse(s))
    }
}

} // verus!
