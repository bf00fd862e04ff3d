//! Read views: smart-list scopes, paging, task summaries and details from
//! stored rows, search hits with highlighting, and HTML escaping of titles.

use vstd::prelude::*;
use crate::command::{LocalDate, LocalTime};
use crate::dto::{id_text, uuid_text};
use crate::ids::EntityId;
use crate::text::{chars_of, parse_int, parse_int_in, split_on, split_ranges, str_eq, string_from_chars};

verus! {

pub const MAX_PAGE_LIMIT: u32 = 200;

/// A task's priority.
#[derive(Clone, Copy, Debug, Default, PartialEq, Eq, Structural, Hash)]
pub enum Priority {
    #[default]
    Unset,
    Low,
    Medium,
    High,
}

#[derive(Clone, Copy, Debug, Default, PartialEq, Eq)]
pub enum ListScope {
    Inbox,
    Today,
    Tomorrow,
    Next7Days,
    Completed,
    List(EntityId),
    #[default]
    All,
}

#[derive(Clone, Copy, Debug, Default, PartialEq, Eq, Structural, Hash)]
pub enum TaskScope {
    #[default]
    Active,
    All,
}

#[derive(Clone, Copy, Debug, Default)]
pub struct TaskQuery {
    pub list: ListScope,
    pub scope: TaskScope,
}

#[derive(Clone, Debug, Default)]
pub struct Page {
    pub cursor: Option<String>,
    pub limit: u32,
}

/// A highlighted span of a title, in code points `[start, end)`.
#[derive(Clone, Copy, Debug, PartialEq, Eq, Structural, Hash)]
pub struct CodePointRange {
    pub start: usize,
    pub end: usize,
}

#[derive(Clone, Copy, Debug, PartialEq, Eq)]
pub struct TrashEntry {
    pub id: EntityId,
    pub deleted: bool,
}

/// The list key a scope queries (a smart-list name, or a user list's id
/// text) and whether only active tasks are listed: every scope but
/// `Completed` lists active tasks only, and `All` follows the task scope.
pub open spec fn filter_of(query: TaskQuery) -> (Seq<char>, bool) {
    match query.list {
        ListScope::Inbox => ("inbox"@, true),
        ListScope::Today => ("today"@, true),
        ListScope::Tomorrow => ("tomorrow"@, true),
        ListScope::Next7Days => ("next7"@, true),
        ListScope::Completed => ("completed"@, false),
        ListScope::List(id) => (uuid_text(id.bits), true),
        ListScope::All => ("all"@, query.scope == TaskScope::Active),
    }
}

/// The filter names the scope it selects: each smart list by its own name
/// and a user list by its id's text. Only the completed view and the
/// unrestricted "all" view take completed tasks in; every other view, and
/// "all" under the active scope, shows active tasks only.
pub proof fn lemma_filter_names_and_activity(query: TaskQuery)
    ensures
        query.list is Inbox ==> filter_of(query).0 == "inbox"@,
        query.list is Today ==> filter_of(query).0 == "today"@,
        query.list is Tomorrow ==> filter_of(query).0 == "tomorrow"@,
        query.list is Next7Days ==> filter_of(query).0 == "next7"@,
        query.list is Completed ==> filter_of(query).0 == "completed"@,
        query.list is All ==> filter_of(query).0 == "all"@,
        query.list matches ListScope::List(id) ==> filter_of(query).0 == uuid_text(id.bits),
        !filter_of(query).1 <==> (query.list is Completed || (query.list is All && query.scope
            == TaskScope::All)),
{
}

/// The list filter of a task query.
pub fn list_filter(query: &TaskQuery) -> (r: (String, bool))
    ensures
        r.0@ == filter_of(*query).0,
        r.1 == filter_of(*query).1,
{
    match query.list {
        ListScope::Inbox => ("inbox".to_string(), true),
        ListScope::Today => ("today".to_string(), true),
        ListScope::Tomorrow => ("tomorrow".to_string(), true),
        ListScope::Next7Days => ("next7".to_string(), true),
        ListScope::Completed => ("completed".to_string(), false),
        ListScope::List(id) => (id_text(&id), true),
        ListScope::All => ("all".to_string(), match query.scope {
            TaskScope::Active => true,
            TaskScope::All => false,
        }),
    }
}

/// The number of rows a page holds: the requested limit, clamped to
/// `[1, MAX_PAGE_LIMIT]`.
pub fn page_limit(requested: u32) -> (limit: u32)
    ensures
        limit == if requested < 1 {
            1
        } else if requested > MAX_PAGE_LIMIT {
            MAX_PAGE_LIMIT
        } else {
            requested
        },
{
    if requested < 1 {
        1
    } else if requested > MAX_PAGE_LIMIT {
        MAX_PAGE_LIMIT
    } else {
        requested
    }
}

/// Where the next page starts: after the last row, when the page came back
/// full; nowhere otherwise.
pub fn next_cursor(returned: usize, limit: u32, last: Option<String>) -> (c: Option<String>)
    ensures
        c == if returned == limit {
            last
        } else {
            None::<String>
        },
{
    if returned == limit as usize {
        last
    } else {
        None
    }
}

/// Every deleted entity, marked as deleted, in the order given.
pub fn trash_entries(ids: &Vec<EntityId>) -> (t: Vec<TrashEntry>)
    ensures
        t@.len() == ids@.len(),
        forall|i: int| 0 <= i < ids@.len() ==> #[trigger] t@[i] == (TrashEntry { id: ids@[i], deleted: true }),
{
    let mut t: Vec<TrashEntry> = Vec::new();
    let mut i: usize = 0;
    while i < ids.len()
        invariant
            i <= ids@.len(),
            t@.len() == i,
            forall|j: int| 0 <= j < i ==> #[trigger] t@[j] == (TrashEntry { id: ids@[j], deleted: true }),
        decreases ids@.len() - i,
    {
        t.push(TrashEntry { id: ids[i], deleted: true });
        i = i + 1;
    }
    t
}

/// The priority a stored label names, if any.
pub open spec fn priority_of(s: Seq<char>) -> Option<Priority> {
    if s == seq!['n', 'o', 'n', 'e'] {
        Some(Priority::Unset)
    } else if s == seq!['l', 'o', 'w'] {
        Some(Priority::Low)
    } else if s == seq!['m', 'e', 'd', 'i', 'u', 'm'] {
        Some(Priority::Medium)
    } else if s == seq!['h', 'i', 'g', 'h'] {
        Some(Priority::High)
    } else {
        None
    }
}

/// Parse a stored priority label.
pub fn parse_priority(s: &str) -> (p: Option<Priority>)
    ensures
        p == priority_of(s@),
{
    proof {
        reveal_strlit("none");
        reveal_strlit("low");
        reveal_strlit("medium");
        reveal_strlit("high");
        assert("none"@ =~= seq!['n', 'o', 'n', 'e']);
        assert("low"@ =~= seq!['l', 'o', 'w']);
        assert("medium"@ =~= seq!['m', 'e', 'd', 'i', 'u', 'm']);
        assert("high"@ =~= seq!['h', 'i', 'g', 'h']);
    }
    if str_eq(s, "none") {
        Some(Priority::Unset)
    } else if str_eq(s, "low") {
        Some(Priority::Low)
    } else if str_eq(s, "medium") {
        Some(Priority::Medium)
    } else if str_eq(s, "high") {
        Some(Priority::High)
    } else {
        None
    }
}

/// The HTML escape of one character.
pub open spec fn escape_char(c: char) -> Seq<char> {
    if c == '<' {
        seq!['&', 'l', 't', ';']
    } else if c == '>' {
        seq!['&', 'g', 't', ';']
    } else if c == '&' {
        seq!['&', 'a', 'm', 'p', ';']
    } else if c == '"' {
        seq!['&', 'q', 'u', 'o', 't', ';']
    } else if c == '\'' {
        seq!['&', '#', '3', '9', ';']
    } else {
        seq![c]
    }
}

/// The HTML escape of a text: each character escaped in turn.
pub open spec fn escape_seq(s: Seq<char>) -> Seq<char>
    decreases s.len(),
{
    if s.len() == 0 {
        Seq::empty()
    } else {
        escape_seq(s.drop_last()) + escape_char(s.last())
    }
}

/// Escape `<`, `>`, `&`, `"` and `'` for HTML.
pub fn html_escape(s: &str) -> (out: String)
    ensures
        out@ == escape_seq(s@),
{
    let cs = chars_of(s);
    let mut out: Vec<char> = Vec::new();
    let mut i: usize = 0;
    while i < cs.len()
        invariant
            cs@ == s@,
            i <= cs@.len(),
            out@ == escape_seq(cs@.take(i as int)),
        decreases cs@.len() - i,
    {
        let c = cs[i];
        let ghost before = out@;
        if c == '<' {
            out.push('&');
            out.push('l');
            out.push('t');
            out.push(';');
        } else if c == '>' {
            out.push('&');
            out.push('g');
            out.push('t');
            out.push(';');
        } else if c == '&' {
            out.push('&');
            out.push('a');
            out.push('m');
            out.push('p');
            out.push(';');
        } else if c == '"' {
            out.push('&');
            out.push('q');
            out.push('u');
            out.push('o');
            out.push('t');
            out.push(';');
        } else if c == '\'' {
            out.push('&');
            out.push('#');
            out.push('3');
            out.push('9');
            out.push(';');
        } else {
            out.push(c);
        }
        assert(cs@.take(i + 1).drop_last() =~= cs@.take(i as int));
        assert(out@ =~= before + escape_char(c));
        i = i + 1;
    }
    assert(cs@.take(cs@.len() as int) =~= cs@);
    string_from_chars(&out)
}

/// The ranges `[k, k + |x|)` for every start `k < n` at which `t` holds `x`,
/// in ascending order.
pub open spec fn hits(t: Seq<char>, x: Seq<char>, n: int) -> Seq<CodePointRange>
    decreases n,
{
    if n <= 0 {
        Seq::empty()
    } else {
        let prev = hits(t, x, n - 1);
        if t.subrange(n - 1, n - 1 + x.len()) == x {
            prev.push(CodePointRange { start: (n - 1) as usize, end: (n - 1 + x.len()) as usize })
        } else {
            prev
        }
    }
}

/// Every occurrence of `x` in `t`, as code-point ranges in ascending order;
/// none for an empty `x` or one longer than `t`.
pub open spec fn highlights_of(t: Seq<char>, x: Seq<char>) -> Seq<CodePointRange> {
    if x.len() == 0 || x.len() > t.len() {
        Seq::empty()
    } else {
        hits(t, x, t.len() - x.len() + 1)
    }
}

/// Each range `hits` lists for starts below `n` is an occurrence of `x` in
/// `t`, starts ascend, and every occurrence starting below `n` is listed.
proof fn lemma_hits_exact(t: Seq<char>, x: Seq<char>, n: int)
    requires
        0 < x.len(),
        0 <= n <= t.len() - x.len() + 1,
        t.len() <= usize::MAX,
    ensures
        forall|i: int|
            0 <= i < hits(t, x, n).len() ==> {
                let r = #[trigger] hits(t, x, n)[i];
                &&& r.start < n
                &&& r.end == r.start + x.len()
                &&& t.subrange(r.start as int, r.end as int) == x
            },
        forall|i: int, j: int|
            0 <= i < j < hits(t, x, n).len() ==> #[trigger] hits(t, x, n)[i].start < #[trigger] hits(
                t,
                x,
                n,
            )[j].start,
        forall|k: int|
            0 <= k < n && #[trigger] t.subrange(k, k + x.len()) == x ==> exists|i: int|
                0 <= i < hits(t, x, n).len() && hits(t, x, n)[i].start == k,
    decreases n,
{
    if n > 0 {
        lemma_hits_exact(t, x, n - 1);
        let prev = hits(t, x, n - 1);
        let cur = hits(t, x, n);
        if t.subrange(n - 1, n - 1 + x.len()) == x {
            assert forall|i: int| 0 <= i < cur.len() implies {
                let r = #[trigger] cur[i];
                &&& r.start < n
                &&& r.end == r.start + x.len()
                &&& t.subrange(r.start as int, r.end as int) == x
            } by {
                if i < prev.len() {
                    assert(cur[i] == prev[i]);
                }
            }
            assert forall|i: int, j: int| 0 <= i < j < cur.len() implies #[trigger] cur[i].start
                < #[trigger] cur[j].start by {
                assert(cur[i] == prev[i]);
                if j < prev.len() {
                    assert(cur[j] == prev[j]);
                }
            }
            assert forall|k: int| 0 <= k < n && #[trigger] t.subrange(k, k + x.len()) == x implies exists|i: int|
                0 <= i < cur.len() && cur[i].start == k by {
                if k < n - 1 {
                    let i = choose|i: int| 0 <= i < prev.len() && prev[i].start == k;
                    assert(cur[i] == prev[i]);
                } else {
                    assert(cur[prev.len() as int].start == k);
                }
            }
        }
    }
}

/// The highlights of a search are exactly the occurrences of the searched
/// text in the title, in ascending order: each range spans one occurrence,
/// every occurrence has its range, and an empty search highlights nothing.
pub proof fn lemma_highlights_are_the_occurrences(t: Seq<char>, x: Seq<char>)
    requires
        t.len() <= usize::MAX,
    ensures
        x.len() == 0 ==> highlights_of(t, x).len() == 0,
        forall|i: int|
            0 <= i < highlights_of(t, x).len() ==> {
                let r = #[trigger] highlights_of(t, x)[i];
                &&& r.end == r.start + x.len()
                &&& r.end <= t.len()
                &&& t.subrange(r.start as int, r.end as int) == x
            },
        forall|i: int, j: int|
            0 <= i < j < highlights_of(t, x).len() ==> #[trigger] highlights_of(t, x)[i].start
                < #[trigger] highlights_of(t, x)[j].start,
        x.len() > 0 ==> forall|k: int|
            0 <= k && k + x.len() <= t.len() && #[trigger] t.subrange(k, k + x.len()) == x ==> exists|i: int|
                0 <= i < highlights_of(t, x).len() && highlights_of(t, x)[i].start == k,
{
    if x.len() > 0 && x.len() <= t.len() {
        let n = t.len() - x.len() + 1;
        lemma_hits_exact(t, x, n);
        assert forall|k: int|
            0 <= k && k + x.len() <= t.len() && #[trigger] t.subrange(k, k + x.len()) == x implies exists|i: int|
                0 <= i < highlights_of(t, x).len() && highlights_of(t, x)[i].start == k by {
            assert(k < n);
            assert(highlights_of(t, x) == hits(t, x, n));
            assert(0 <= k < n && t.subrange(k, k + x.len()) == x);
            let i = choose|i: int| 0 <= i < hits(t, x, n).len() && hits(t, x, n)[i].start == k;
            assert(highlights_of(t, x)[i].start == k);
        }
    }
}

/// An escaped text holds no `<`, `>`, `"` or `'`, and a text without the
/// five special characters is left as it is.
pub proof fn lemma_escape_is_html_safe(s: Seq<char>)
    ensures
        forall|i: int|
            0 <= i < escape_seq(s).len() ==> #[trigger] escape_seq(s)[i] != '<' && escape_seq(s)[i] != '>'
                && escape_seq(s)[i] != '"' && escape_seq(s)[i] != '\'',
        (forall|i: int|
            0 <= i < s.len() ==> #[trigger] s[i] != '<' && s[i] != '>' && s[i] != '&' && s[i] != '"' && s[i]
                != '\'') ==> escape_seq(s) == s,
    decreases s.len(),
{
    if s.len() > 0 {
        lemma_escape_is_html_safe(s.drop_last());
        let a = escape_seq(s.drop_last());
        let b = escape_char(s.last());
        assert forall|i: int| 0 <= i < escape_seq(s).len() implies #[trigger] escape_seq(s)[i] != '<'
            && escape_seq(s)[i] != '>' && escape_seq(s)[i] != '"' && escape_seq(s)[i] != '\'' by {
            if i < a.len() {
                assert(escape_seq(s)[i] == a[i]);
            } else {
                assert(escape_seq(s)[i] == b[i - a.len()]);
            }
        }
        if forall|i: int|
            0 <= i < s.len() ==> #[trigger] s[i] != '<' && s[i] != '>' && s[i] != '&' && s[i] != '"' && s[i]
                != '\'' {
            assert forall|i: int| 0 <= i < s.drop_last().len() implies #[trigger] s.drop_last()[i] != '<'
                && s.drop_last()[i] != '>' && s.drop_last()[i] != '&' && s.drop_last()[i] != '"'
                && s.drop_last()[i] != '\'' by {
                assert(s.drop_last()[i] == s[i]);
            }
            assert(s[s.len() - 1] == s.last());
            assert(s.drop_last().push(s.last()) =~= s);
            assert(a + b =~= s);
        }
    }
}

/// Stored priority labels: "none" and an absent or unknown label leave
/// the priority unset; "low", "medium" and "high" name their priority.
/// An absent stored text reads as empty.
pub proof fn lemma_stored_labels(s: Option<String>)
    ensures
        s matches Some(t) && t@ == "low"@ ==> stored_priority(s) == Priority::Low,
        s matches Some(t) && t@ == "medium"@ ==> stored_priority(s) == Priority::Medium,
        s matches Some(t) && t@ == "high"@ ==> stored_priority(s) == Priority::High,
        (s is None || (s matches Some(t) && t@ != "low"@ && t@ != "medium"@ && t@ != "high"@))
            ==> stored_priority(s) == Priority::Unset,
        s is None ==> text_or_empty(s).len() == 0,
        s matches Some(t) ==> text_or_empty(s) == t@,
{
    reveal_strlit("low");
    reveal_strlit("medium");
    reveal_strlit("high");
    assert("low"@ =~= seq!['l', 'o', 'w']);
    assert("medium"@ =~= seq!['m', 'e', 'd', 'i', 'u', 'm']);
    assert("high"@ =~= seq!['h', 'i', 'g', 'h']);
}

/// Reading a date: no text gives no date; a date read back has the numbers
/// its text spells, and the judge accepted them; numbers the judge refuses
/// give no date.
pub proof fn lemma_date_read_keeps_the_numbers<D: Fn(i32, u8, u8) -> bool>(s: Option<Seq<char>>, ok: D, r: Option<LocalDate>)
    requires
        date_read(s, ok, r),
    ensures
        s is None ==> r is None,
        r matches Some(d) ==> s matches Some(t) && date_parts_of(t) == Some((d.year, d.month, d.day)) && ok.ensures(
            (d.year, d.month, d.day),
            true,
        ),
        s matches Some(t) && date_parts_of(t) is None ==> r is None,
{
}

/// The code-point ranges of `title` that match `text` exactly.
pub fn highlight_ranges(title: &str, text: &str) -> (r: Vec<CodePointRange>)
    ensures
        r@ == highlights_of(title@, text@),
{
    let t = chars_of(title);
    let x = chars_of(text);
    let mut ranges: Vec<CodePointRange> = Vec::new();
    if x.len() == 0 || x.len() > t.len() {
        return ranges;
    }
    let tl = t.len();
    let xl = x.len();
    let last = tl - xl;
    let mut start: usize = 0;
    while start <= last
        invariant
            t@ == title@,
            x@ == text@,
            0 < x@.len() <= t@.len(),
            tl == t@.len(),
            xl == x@.len(),
            last == t@.len() - x@.len(),
            start <= last + 1,
            ranges@ == hits(t@, x@, start as int),
        decreases last + 1 - start,
    {
        let mut k: usize = 0;
        let mut same = true;
        while k < xl
            invariant
                0 < x@.len() <= t@.len(),
                tl == t@.len(),
                xl == x@.len(),
                start <= tl - xl,
                k <= x@.len(),
                same <==> forall|j: int| 0 <= j < k ==> t@[start + j] == x@[j],
            decreases x@.len() - k,
        {
            if t[start + k] != x[k] {
                same = false;
            }
            k = k + 1;
        }
        proof {
            let w = t@.subrange(start as int, start + x@.len());
            if same {
                assert(w =~= x@);
            } else {
                let j = choose|j: int| 0 <= j < x@.len() && t@[start + j] != x@[j];
                assert(w[j] != x@[j]);
            }
        }
        if same {
            ranges.push(CodePointRange { start, end: start + xl });
        }
        start = start + 1;
    }
    ranges
}

/// The `year-month-day` numbers of a stored date: exactly three pieces
/// between `-` signs, each an `i64` as std parses it, narrowed to the
/// year, month and day widths (wrapping, as a cast does). Whether they form
/// a calendar date is for the date type to decide.
pub open spec fn date_parts_of(s: Seq<char>) -> Option<(i32, u8, u8)> {
    let parts = split_on(s, '-');
    if parts.len() != 3 {
        None
    } else {
        match (
            parse_int(parts[0], i64::MIN as int, i64::MAX as int),
            parse_int(parts[1], i64::MIN as int, i64::MAX as int),
            parse_int(parts[2], i64::MIN as int, i64::MAX as int),
        ) {
            (Some(y), Some(m), Some(d)) => Some(((y as i64) as i32, (m as i64) as u8, (d as i64) as u8)),
            _ => None,
        }
    }
}

/// The `hour:minute` numbers of a stored time: exactly two pieces between
/// `:` signs, each an `i64` as std parses it, narrowed to `u8` (wrapping).
pub open spec fn time_parts_of(s: Seq<char>) -> Option<(u8, u8)> {
    let parts = split_on(s, ':');
    if parts.len() != 2 {
        None
    } else {
        match (
            parse_int(parts[0], i64::MIN as int, i64::MAX as int),
            parse_int(parts[1], i64::MIN as int, i64::MAX as int),
        ) {
            (Some(h), Some(m)) => Some(((h as i64) as u8, (m as i64) as u8)),
            _ => None,
        }
    }
}

/// Read the numbers of a stored `year-month-day` date.
pub fn parse_date_parts(s: &str) -> (r: Option<(i32, u8, u8)>)
    ensures
        r == date_parts_of(s@),
{
    let cs = chars_of(s);
    let pieces = split_ranges(&cs, '-');
    if pieces.len() != 3 {
        return None;
    }
    let ghost parts = split_on(s@, '-');
    assert(parts[0] == cs@.subrange(pieces@[0].0 as int, pieces@[0].1 as int));
    assert(parts[1] == cs@.subrange(pieces@[1].0 as int, pieces@[1].1 as int));
    assert(parts[2] == cs@.subrange(pieces@[2].0 as int, pieces@[2].1 as int));
    let y = parse_int_in(&cs, pieces[0].0, pieces[0].1, i64::MIN, i64::MAX);
    let m = parse_int_in(&cs, pieces[1].0, pieces[1].1, i64::MIN, i64::MAX);
    let d = parse_int_in(&cs, pieces[2].0, pieces[2].1, i64::MIN, i64::MAX);
    match (y, m, d) {
        (Some(y), Some(m), Some(d)) => Some((y as i32, m as u8, d as u8)),
        _ => None,
    }
}

/// Read the numbers of a stored `hour:minute` time.
pub fn parse_time_parts(s: &str) -> (r: Option<(u8, u8)>)
    ensures
        r == time_parts_of(s@),
{
    let cs = chars_of(s);
    let pieces = split_ranges(&cs, ':');
    if pieces.len() != 2 {
        return None;
    }
    let ghost parts = split_on(s@, ':');
    assert(parts[0] == cs@.subrange(pieces@[0].0 as int, pieces@[0].1 as int));
    assert(parts[1] == cs@.subrange(pieces@[1].0 as int, pieces@[1].1 as int));
    let h = parse_int_in(&cs, pieces[0].0, pieces[0].1, i64::MIN, i64::MAX);
    let m = parse_int_in(&cs, pieces[1].0, pieces[1].1, i64::MIN, i64::MAX);
    match (h, m) {
        (Some(h), Some(m)) => Some((h as u8, m as u8)),
        _ => None,
    }
}

/// `r` is what reading the optional date text `s` may give, when `ok`
/// judges whether numbers form a calendar date: nothing for no text or
/// unreadable text, else the date its numbers form if `ok` accepted them.
pub open spec fn date_read<D: Fn(i32, u8, u8) -> bool>(s: Option<Seq<char>>, ok: D, r: Option<LocalDate>) -> bool {
    match s {
        None => r is None,
        Some(t) => match date_parts_of(t) {
            None => r is None,
            Some((y, m, d)) => match r {
                Some(ld) => ld == (LocalDate { year: y, month: m, day: d }) && ok.ensures((y, m, d), true),
                None => ok.ensures((y, m, d), false),
            },
        },
    }
}

/// `r` is what reading the optional time text `s` may give, when `ok`
/// judges whether numbers form a time of day.
pub open spec fn time_read<T: Fn(u8, u8) -> bool>(s: Option<Seq<char>>, ok: T, r: Option<LocalTime>) -> bool {
    match s {
        None => r is None,
        Some(t) => match time_parts_of(t) {
            None => r is None,
            Some((h, m)) => match r {
                Some(lt) => lt == (LocalTime { hour: h, minute: m }) && ok.ensures((h, m), true),
                None => ok.ensures((h, m), false),
            },
        },
    }
}

/// Read a stored `year-month-day` date; `ok` judges whether its numbers
/// form a calendar date.
pub fn parse_date<D: Fn(i32, u8, u8) -> bool>(s: &str, ok: &D) -> (r: Option<LocalDate>)
    requires
        forall|y: i32, m: u8, d: u8| ok.requires((y, m, d)),
    ensures
        date_read(Some(s@), *ok, r),
{
    match parse_date_parts(s) {
        None => None,
        Some((y, m, d)) => if ok(y, m, d) {
            Some(LocalDate { year: y, month: m, day: d })
        } else {
            None
        },
    }
}

/// Read a stored `hour:minute` time; `ok` judges whether its numbers form
/// a time of day.
pub fn parse_time<T: Fn(u8, u8) -> bool>(s: &str, ok: &T) -> (r: Option<LocalTime>)
    requires
        forall|h: u8, m: u8| ok.requires((h, m)),
    ensures
        time_read(Some(s@), *ok, r),
{
    match parse_time_parts(s) {
        None => None,
        Some((h, m)) => if ok(h, m) {
            Some(LocalTime { hour: h, minute: m })
        } else {
            None
        },
    }
}

/// A task row as the store returns it, with the paging cursor the store
/// encodes for its position.
#[derive(Clone, Debug)]
pub struct TaskRow {
    pub id: EntityId,
    pub title: Option<String>,
    pub completed: bool,
    pub due_date: Option<String>,
    pub priority: Option<String>,
    pub list_id: Option<EntityId>,
    pub cursor: String,
}

/// A task as a list view shows it.
#[derive(Clone, Debug)]
pub struct TaskSummary {
    pub id: EntityId,
    pub title: String,
    pub completed: bool,
    pub due_date: Option<LocalDate>,
    pub priority: Priority,
    pub list_id: Option<EntityId>,
}

/// One page of a task list, and where the next one starts.
#[derive(Clone, Debug)]
pub struct PagedTasks {
    pub items: Vec<TaskSummary>,
    pub next_cursor: Option<String>,
}

/// The text of an optional stored string, empty when absent.
pub open spec fn text_or_empty(s: Option<String>) -> Seq<char> {
    match s {
        Some(t) => t@,
        None => Seq::empty(),
    }
}

/// The characters of an optional stored string.
pub open spec fn opt_text(s: Option<String>) -> Option<Seq<char>> {
    match s {
        Some(t) => Some(t@),
        None => None,
    }
}

/// The priority a stored label names; unset when absent or unknown.
pub open spec fn stored_priority(s: Option<String>) -> Priority {
    match s {
        Some(t) => match priority_of(t@) {
            Some(p) => p,
            None => Priority::Unset,
        },
        None => Priority::Unset,
    }
}

/// `t` is the summary of `row`, with `ok` judging calendar dates.
pub open spec fn summary_of<D: Fn(i32, u8, u8) -> bool>(row: TaskRow, ok: D, t: TaskSummary) -> bool {
    &&& t.id == row.id
    &&& t.title@ == text_or_empty(row.title)
    &&& t.completed == row.completed
    &&& date_read(opt_text(row.due_date), ok, t.due_date)
    &&& t.priority == stored_priority(row.priority)
    &&& t.list_id == row.list_id
}

fn read_opt_date<D: Fn(i32, u8, u8) -> bool>(s: &Option<String>, ok: &D) -> (r: Option<LocalDate>)
    requires
        forall|y: i32, m: u8, d: u8| ok.requires((y, m, d)),
    ensures
        date_read(opt_text(*s), *ok, r),
{
    match s {
        Some(t) => parse_date(t.as_str(), ok),
        None => None,
    }
}

fn read_opt_time<T: Fn(u8, u8) -> bool>(s: &Option<String>, ok: &T) -> (r: Option<LocalTime>)
    requires
        forall|h: u8, m: u8| ok.requires((h, m)),
    ensures
        time_read(opt_text(*s), *ok, r),
{
    match s {
        Some(t) => parse_time(t.as_str(), ok),
        None => None,
    }
}

fn read_priority(s: &Option<String>) -> (p: Priority)
    ensures
        p == stored_priority(*s),
{
    match s {
        Some(t) => match parse_priority(t.as_str()) {
            Some(p) => p,
            None => Priority::Unset,
        },
        None => Priority::Unset,
    }
}

fn text_or_default(s: &Option<String>) -> (r: String)
    ensures
        r@ == text_or_empty(*s),
{
    match s {
        Some(t) => t.clone(),
        None => String::new(),
    }
}

/// The summary a list view shows for a stored row.
pub fn summarize<D: Fn(i32, u8, u8) -> bool>(row: &TaskRow, ok: &D) -> (t: TaskSummary)
    requires
        forall|y: i32, m: u8, d: u8| ok.requires((y, m, d)),
    ensures
        summary_of(*row, *ok, t),
{
    TaskSummary {
        id: row.id,
        title: text_or_default(&row.title),
        completed: row.completed,
        due_date: read_opt_date(&row.due_date, ok),
        priority: read_priority(&row.priority),
        list_id: row.list_id,
    }
}

/// The page the rows of one query make: a summary per row, in order, and
/// the cursor after the last row when the page came back full.
pub fn page_of<D: Fn(i32, u8, u8) -> bool>(rows: &Vec<TaskRow>, limit: u32, ok: &D) -> (p: PagedTasks)
    requires
        forall|y: i32, m: u8, d: u8| ok.requires((y, m, d)),
    ensures
        p.items@.len() == rows@.len(),
        forall|i: int| 0 <= i < rows@.len() ==> summary_of(rows@[i], *ok, #[trigger] p.items@[i]),
        opt_text(p.next_cursor) == if rows@.len() == limit && rows@.len() > 0 {
            Some(rows@.last().cursor@)
        } else {
            None::<Seq<char>>
        },
{
    let mut items: Vec<TaskSummary> = Vec::new();
    let mut last: Option<String> = None;
    let mut i: usize = 0;
    while i < rows.len()
        invariant
            i <= rows@.len(),
            items@.len() == i,
            forall|k: int| 0 <= k < i ==> summary_of(rows@[k], *ok, #[trigger] items@[k]),
            forall|y: i32, m: u8, d: u8| ok.requires((y, m, d)),
            i == 0 ==> last is None,
            i > 0 ==> opt_text(last) == Some(rows@[i - 1].cursor@),
        decreases rows@.len() - i,
    {
        items.push(summarize(&rows[i], ok));
        last = Some(rows[i].cursor.clone());
        i = i + 1;
    }
    let n = items.len();
    let next_cursor = next_cursor(n, limit, last);
    PagedTasks { items, next_cursor }
}

/// A task's stored fields, as the store returns them.
#[derive(Clone, Debug)]
pub struct DetailsRow {
    pub id: EntityId,
    pub title: Option<String>,
    pub description: Option<String>,
    pub due_date: Option<String>,
    pub due_time: Option<String>,
    pub priority: Option<String>,
    pub completed: bool,
    pub list_id: Option<EntityId>,
}

/// Everything the detail view shows of a task.
#[derive(Clone, Debug)]
pub struct TaskDetails {
    pub id: EntityId,
    pub title: String,
    pub description: String,
    pub due_date: Option<LocalDate>,
    pub due_time: Option<LocalTime>,
    pub priority: Priority,
    pub completed: bool,
    pub list_id: Option<EntityId>,
    pub tags: Vec<EntityId>,
    pub subtasks: Vec<EntityId>,
}

/// The details of a task from its stored row and the ids of its tags and
/// subtasks; `date_ok` and `time_ok` judge dates and times of day.
pub fn details_of<D: Fn(i32, u8, u8) -> bool, T: Fn(u8, u8) -> bool>(
    row: &DetailsRow,
    tags: Vec<EntityId>,
    subtasks: Vec<EntityId>,
    date_ok: &D,
    time_ok: &T,
) -> (t: TaskDetails)
    requires
        forall|y: i32, m: u8, d: u8| date_ok.requires((y, m, d)),
        forall|h: u8, m: u8| time_ok.requires((h, m)),
    ensures
        t.id == row.id,
        t.title@ == text_or_empty(row.title),
        t.description@ == text_or_empty(row.description),
        date_read(opt_text(row.due_date), *date_ok, t.due_date),
        time_read(opt_text(row.due_time), *time_ok, t.due_time),
        t.priority == stored_priority(row.priority),
        t.completed == row.completed,
        t.list_id == row.list_id,
        t.tags@ == tags@,
        t.subtasks@ == subtasks@,
{
    TaskDetails {
        id: row.id,
        title: text_or_default(&row.title),
        description: text_or_default(&row.description),
        due_date: read_opt_date(&row.due_date, date_ok),
        due_time: read_opt_time(&row.due_time, time_ok),
        priority: read_priority(&row.priority),
        completed: row.completed,
        list_id: row.list_id,
        tags,
        subtasks,
    }
}

/// A search result: the task, its title escaped for HTML, and where the
/// searched text occurs in the title.
#[derive(Clone, Debug)]
pub struct SearchHit {
    pub task_id: EntityId,
    pub title: String,
    pub highlights: Vec<CodePointRange>,
}

/// The hit a task with `title` makes for a search of `text`.
pub fn search_hit(task_id: EntityId, title: &str, text: &str) -> (h: SearchHit)
    ensures
        h.task_id == task_id,
        h.title@ == escape_seq(title@),
        h.highlights@ == highlights_of(title@, text@),
{
    let highlights = highlight_ranges(title, text);
    SearchHit { task_id, title: html_escape(title), highlights }
}

} // verus!
