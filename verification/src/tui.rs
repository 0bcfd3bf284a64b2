//! The state of the interactive view: what it shows, and how events from the
//! scan and keys from the user change it. Drawing is left to the caller.
use crate::engine::{gate_for, result_views, EventView, Gate, ScanEvent};
use crate::output::{class_count, count_classes, lemma_class_count_by_status, result_line, status_class, TextFormatter};
use crate::text::{chars_of, contains_seq, decimal, push_char, push_decimal, push_str, str_contains, string_of};
use crate::types::{ResultView, ScanResult, ScanStatus};
use vstd::prelude::*;

verus! {

/// Which pane has the focus.
#[derive(Debug, Clone, Copy, PartialEq, Eq, Structural)]
pub enum Focus {
    Log,
    Stats,
}

/// A key the user pressed, as far as the view tells keys apart.
#[derive(Debug, Clone, Copy, PartialEq, Eq, Structural)]
pub enum Key {
    Char(char),
    Tab,
    Up,
    Down,
    Backspace,
    Enter,
    Esc,
    Other,
}

/// What the caller is asked to do after a key.
#[derive(Debug, Clone, Copy, PartialEq, Eq, Structural)]
pub enum KeyOutcome {
    /// Nothing beyond the change of the view.
    Continue,
    /// Leave the view.
    Quit,
    /// Save the current results to a file.
    Save,
}

/// `s` in lower case (`str::to_lowercase`).
pub uninterp spec fn lowercase(s: Seq<char>) -> Seq<char>;

/// Calls `str::to_lowercase` on `s`. The contract claims that the result is
/// a function of `s` alone; which characters it maps, and to what, is the
/// Unicode case mapping and is left unsaid.
#[verifier::external_body]
fn to_lowercase(s: &str) -> (r: String)
    ensures
        r@ == lowercase(s@),
{
    s.to_lowercase()
}

/// The results of `rs` whose URL contains `q`, both in lower case.
pub open spec fn matching(rs: Seq<ResultView>, q: Seq<char>) -> Seq<ResultView>
    decreases rs.len(),
{
    if rs.len() == 0 {
        Seq::empty()
    } else {
        let rest = matching(rs.drop_last(), q);
        if contains_seq(lowercase(rs.last().url), lowercase(q)) {
            rest.push(rs.last())
        } else {
            rest
        }
    }
}

/// The state that an event leaves: progress replaces the counts, a result
/// is added, a status replaces the status, an error is added.
pub open spec fn after_event(
    e: EventView,
    results: Seq<ResultView>,
    status: ScanStatus,
    completed: usize,
    total: usize,
    errors: Seq<Seq<char>>,
) -> (Seq<ResultView>, ScanStatus, usize, usize, Seq<Seq<char>>) {
    match e {
        EventView::Progress { completed: c, total: t } => (results, status, c, t, errors),
        EventView::Result(r) => (results.push(r), status, completed, total, errors),
        EventView::Status(s) => (results, s, completed, total, errors),
        EventView::Error(m) => (results, status, completed, total, errors.push(m)),
    }
}

/// The status after the pause key: running and paused swap, others stay.
pub open spec fn toggled(s: ScanStatus) -> ScanStatus {
    match s {
        ScanStatus::Running => ScanStatus::Paused,
        ScanStatus::Paused => ScanStatus::Running,
        _ => s,
    }
}

/// The other pane.
pub open spec fn other_pane(f: Focus) -> Focus {
    match f {
        Focus::Log => Focus::Stats,
        Focus::Stats => Focus::Log,
    }
}

/// What a key asks of the caller: outside the filter, `q` quits and `s` saves.
pub open spec fn key_outcome(editing: bool, key: Key) -> KeyOutcome {
    if !editing && key == Key::Char('q') {
        KeyOutcome::Quit
    } else if !editing && key == Key::Char('s') {
        KeyOutcome::Save
    } else {
        KeyOutcome::Continue
    }
}

/// Whether the filter is being edited after a key: `f` opens it, Enter and
/// Esc close it.
pub open spec fn editing_after(editing: bool, key: Key) -> bool {
    if editing {
        !(key == Key::Enter || key == Key::Esc)
    } else {
        key == Key::Char('f')
    }
}

/// The filter text after a key: while editing, a character is added and
/// Backspace removes the last one.
pub open spec fn filter_after(editing: bool, text: Seq<char>, key: Key) -> Seq<char> {
    if editing {
        match key {
            Key::Char(c) => text.push(c),
            Key::Backspace => if text.len() > 0 {
                text.drop_last()
            } else {
                text
            },
            _ => text,
        }
    } else {
        text
    }
}

/// The views of the strings `s`.
pub open spec fn texts(s: Seq<String>) -> Seq<Seq<char>> {
    s.map_values(|x: String| x@)
}

/// What the interactive view shows.
pub struct App {
    pub results: Vec<ScanResult>,
    pub selected_index: usize,
    pub status: ScanStatus,
    pub completed: usize,
    pub total: usize,
    pub errors: Vec<String>,
    pub focus: Focus,
    pub filter_text: String,
    pub scroll_offset: usize,
    pub editing_filter: bool,
    pub recursive: bool,
}

impl App {
    /// The view of a scan of `total` words that has just begun, recursive
    /// or not.
    pub fn new(total: usize, recursive: bool) -> (a: App)
        ensures
            !a.editing_filter,
            a.recursive == recursive,
            a.results@.len() == 0,
            a.selected_index == 0,
            a.status == ScanStatus::Running,
            a.completed == 0,
            a.total == total,
            a.errors@.len() == 0,
            a.focus == Focus::Log,
            a.filter_text@ == Seq::<char>::empty(),
            a.scroll_offset == 0,
    {
        App {
            results: Vec::new(),
            selected_index: 0,
            status: ScanStatus::Running,
            completed: 0,
            total,
            errors: Vec::new(),
            focus: Focus::Log,
            filter_text: String::new(),
            scroll_offset: 0,
            editing_filter: false,
            recursive,
        }
    }

    /// Takes in one event of the scan.
    pub fn update(&mut self, event: ScanEvent)
        ensures
            (result_views(final(self).results@), final(self).status, final(self).completed, final(self).total, texts(final(self).errors@))
                == after_event(
                event@,
                result_views(old(self).results@),
                old(self).status,
                old(self).completed,
                old(self).total,
                texts(old(self).errors@),
            ),
            final(self).selected_index == old(self).selected_index,
            final(self).focus == old(self).focus,
            final(self).filter_text == old(self).filter_text,
            final(self).scroll_offset == old(self).scroll_offset,
            final(self).editing_filter == old(self).editing_filter,
            final(self).recursive == old(self).recursive,
    {
        let ghost e = event@;
        match event {
            ScanEvent::Progress { completed, total } => {
                self.completed = completed;
                self.total = total;
            },
            ScanEvent::Result(result) => {
                self.results.push(result);
                assert(result_views(self.results@) == result_views(old(self).results@).push(e->Result_0));
            },
            ScanEvent::Status(status) => {
                self.status = status;
            },
            ScanEvent::Error(message) => {
                self.errors.push(message);
                assert(texts(self.errors@) == texts(old(self).errors@).push(e->Error_0));
            },
        }
    }

    /// The selected result: the one at the selection, or the last one when the
    /// selection is past the end; none when there are no results.
    pub fn selected_result(&self) -> (r: Option<&ScanResult>)
        ensures
            self.results@.len() == 0 ==> r is None,
            self.results@.len() > 0 ==> r == Some(
                &self.results@[if self.selected_index < self.results@.len() {
                    self.selected_index as int
                } else {
                    self.results@.len() - 1
                }],
            ),
    {
        if self.results.len() == 0 {
            None
        } else {
            let last = self.results.len() - 1;
            let i = if self.selected_index < last {
                self.selected_index
            } else {
                last
            };
            Some(&self.results[i])
        }
    }

    /// How many results are in each status class: 2xx, 3xx, 4xx and the rest.
    pub fn status_counts(&self) -> (c: (usize, usize, usize, usize))
        ensures
            c.0 == class_count(result_views(self.results@), 2),
            c.1 == class_count(result_views(self.results@), 3),
            c.2 == class_count(result_views(self.results@), 4),
            c.3 == class_count(result_views(self.results@), 5),
            c.0 + c.1 + c.2 + c.3 == self.results@.len(),
    {
        count_classes(&self.results)
    }

    /// The results whose URL contains the filter text, ignoring case; all of
    /// them when the filter text is empty.
    pub fn filtered_results(&self) -> (r: Vec<&ScanResult>)
        ensures
            self.filter_text@.len() == 0 ==> r@.map_values(|x: &ScanResult| x@) == result_views(self.results@),
            self.filter_text@.len() > 0 ==> r@.map_values(|x: &ScanResult| x@) == matching(
                result_views(self.results@),
                self.filter_text@,
            ),
    {
        let mut r: Vec<&ScanResult> = Vec::new();
        let empty = self.filter_text.as_str().is_empty();
        let q = to_lowercase(self.filter_text.as_str());
        let ghost rs = result_views(self.results@);
        let mut i: usize = 0;
        while i < self.results.len()
            invariant
                i <= self.results@.len(),
                rs == result_views(self.results@),
                empty == (self.filter_text@.len() == 0),
                q@ == lowercase(self.filter_text@),
                empty ==> r@.map_values(|x: &ScanResult| x@) == rs.take(i as int),
                !empty ==> r@.map_values(|x: &ScanResult| x@) == matching(rs.take(i as int), self.filter_text@),
            decreases self.results@.len() - i,
        {
            assert(rs.take(i + 1).drop_last() == rs.take(i as int));
            let item = &self.results[i];
            let ghost before = r@;
            if empty {
                r.push(item);
                assert(r@.map_values(|x: &ScanResult| x@) == before.map_values(|x: &ScanResult| x@).push(item@));
            } else {
                let u = to_lowercase(item.url.as_str());
                if str_contains(u.as_str(), q.as_str()) {
                    r.push(item);
                    assert(r@.map_values(|x: &ScanResult| x@) == before.map_values(|x: &ScanResult| x@).push(item@));
                }
            }
            i = i + 1;
        }
        assert(rs.take(i as int) == rs);
        r
    }

    /// Acts on a key. While the filter is being edited, a character is added
    /// to the filter text, Backspace removes the last one, and Enter or Esc
    /// closes the filter; other keys do nothing. Otherwise `q` asks to quit,
    /// `s` asks to save the results, `f` opens the filter for editing, `r`
    /// turns recursive scanning on or off, `p` pauses or resumes, Tab moves
    /// the focus, and Up and Down move the selection within the results.
    pub fn on_key(&mut self, key: Key) -> (outcome: KeyOutcome)
        requires
            key == Key::Down && !old(self).editing_filter ==> old(self).selected_index < usize::MAX,
        ensures
            outcome == key_outcome(old(self).editing_filter, key),
            final(self).editing_filter == editing_after(old(self).editing_filter, key),
            final(self).filter_text@ == filter_after(old(self).editing_filter, old(self).filter_text@, key),
            final(self).recursive == if !old(self).editing_filter && key == Key::Char('r') {
                !old(self).recursive
            } else {
                old(self).recursive
            },
            final(self).status == if !old(self).editing_filter && key == Key::Char('p') {
                toggled(old(self).status)
            } else {
                old(self).status
            },
            final(self).focus == if !old(self).editing_filter && key == Key::Tab {
                other_pane(old(self).focus)
            } else {
                old(self).focus
            },
            final(self).selected_index == if !old(self).editing_filter && key == Key::Up
                && old(self).selected_index > 0 {
                (old(self).selected_index - 1) as usize
            } else if !old(self).editing_filter && key == Key::Down && old(self).selected_index + 1
                < old(self).results@.len() {
                (old(self).selected_index + 1) as usize
            } else {
                old(self).selected_index
            },
            final(self).results == old(self).results,
            final(self).completed == old(self).completed,
            final(self).total == old(self).total,
            final(self).errors == old(self).errors,
            final(self).scroll_offset == old(self).scroll_offset,
    {
        if self.editing_filter {
            match key {
                Key::Char(c) => push_char(&mut self.filter_text, c),
                Key::Backspace => {
                    let v = chars_of(self.filter_text.as_str());
                    if v.len() > 0 {
                        self.filter_text = string_of(&v, 0, v.len() - 1);
                        assert(v@.subrange(0, v@.len() - 1) == v@.drop_last());
                    }
                },
                Key::Enter => {
                    self.editing_filter = false;
                },
                Key::Esc => {
                    self.editing_filter = false;
                },
                _ => {},
            }
            return KeyOutcome::Continue;
        }
        match key {
            Key::Char(c) => {
                if c == 'q' {
                    return KeyOutcome::Quit;
                }
                if c == 's' {
                    return KeyOutcome::Save;
                }
                if c == 'f' {
                    self.editing_filter = true;
                }
                if c == 'r' {
                    self.recursive = !self.recursive;
                }
                if c == 'p' {
                    self.status = match self.status {
                        ScanStatus::Running => ScanStatus::Paused,
                        ScanStatus::Paused => ScanStatus::Running,
                        ScanStatus::Completed => ScanStatus::Completed,
                        ScanStatus::Cancelled => ScanStatus::Cancelled,
                    };
                }
            },
            Key::Tab => {
                self.focus = match self.focus {
                    Focus::Log => Focus::Stats,
                    Focus::Stats => Focus::Log,
                };
            },
            Key::Up => {
                if self.selected_index > 0 {
                    self.selected_index = self.selected_index - 1;
                }
            },
            Key::Down => {
                if self.selected_index + 1 < self.results.len() {
                    self.selected_index = self.selected_index + 1;
                }
            },
            _ => {},
        }
        KeyOutcome::Continue
    }
}

/// Pressing the pause key twice leaves the status as it was.
pub proof fn lemma_pause_twice(s: ScanStatus)
    ensures
        toggled(toggled(s)) == s,
{
}

/// The pause key holds back the requests of a running scan and lets those of
/// a paused one go out again.
pub proof fn lemma_pause_key_gates(s: ScanStatus)
    ensures
        s == ScanStatus::Running ==> gate_for(toggled(s)) == Gate::Wait,
        s == ScanStatus::Paused ==> gate_for(toggled(s)) == Gate::Send,
{
}

/// Pressing Tab twice leaves the focus where it was.
pub proof fn lemma_focus_twice(f: Focus)
    ensures
        other_pane(other_pane(f)) == f,
{
}


/// The results the log pane lists: all of them when the filter text is
/// empty, else those whose URL contains it, ignoring case.
pub open spec fn shown_results(app: App) -> Seq<ResultView> {
    if app.filter_text@.len() == 0 {
        result_views(app.results@)
    } else {
        matching(result_views(app.results@), app.filter_text@)
    }
}

/// The part of `rs` that a pane shows: at most `n` of them, from `offset` on.
pub open spec fn visible_window(rs: Seq<ResultView>, offset: int, n: int) -> Seq<ResultView> {
    let start = if offset < rs.len() {
        offset
    } else {
        rs.len() as int
    };
    let end = if start + n < rs.len() {
        start + n
    } else {
        rs.len() as int
    };
    rs.subrange(start, end)
}

/// The rows a pane of `height` rows has inside its border.
pub open spec fn inner_rows(height: u16) -> int {
    if height >= 2 {
        height - 2
    } else {
        0
    }
}

/// The log pane of `height` rows: for each result it shows, from the scroll
/// offset on and as many as fit inside the border, its line without colour
/// codes and its status class (2 to 5), by which it is coloured.
pub fn log_lines(app: &App, height: u16) -> (lines: Vec<(String, u8)>)
    ensures
        lines@.len() == visible_window(shown_results(*app), app.scroll_offset as int, inner_rows(height)).len(),
        forall|i: int|
            0 <= i < lines@.len() ==> {
                let r = visible_window(shown_results(*app), app.scroll_offset as int, inner_rows(height))[i];
                &&& (#[trigger] lines@[i]).0@ == result_line(false, r)
                &&& lines@[i].1 == status_class(r.status)
            },
{
    let shown = app.filtered_results();
    let ghost rs = shown@.map_values(|x: &ScanResult| x@);
    assert(rs == shown_results(*app));
    let rows: usize = if height >= 2 {
        (height - 2) as usize
    } else {
        0
    };
    let start: usize = if app.scroll_offset < shown.len() {
        app.scroll_offset
    } else {
        shown.len()
    };
    let end: usize = if rows < shown.len() - start {
        start + rows
    } else {
        shown.len()
    };
    let ghost w = visible_window(rs, app.scroll_offset as int, inner_rows(height));
    assert(w == rs.subrange(start as int, end as int));
    let fmt = TextFormatter { color: false };
    let mut lines: Vec<(String, u8)> = Vec::new();
    let mut i: usize = start;
    while i < end
        invariant
            start <= i <= end <= shown@.len(),
            rs == shown@.map_values(|x: &ScanResult| x@),
            w == rs.subrange(start as int, end as int),
            fmt.color == false,
            lines@.len() == i - start,
            forall|k: int|
                0 <= k < lines@.len() ==> {
                    &&& (#[trigger] lines@[k]).0@ == result_line(false, w[k])
                    &&& lines@[k].1 == status_class(w[k].status)
                },
        decreases end - i,
    {
        let r: &ScanResult = shown[i];
        assert(r@ == w[i - start]);
        let line = fmt.format_result(r);
        let class: u8 = if 200 <= r.status && r.status <= 299 {
            2
        } else if 300 <= r.status && r.status <= 399 {
            3
        } else if 400 <= r.status && r.status <= 499 {
            4
        } else {
            5
        };
        lines.push((line, class));
        i = i + 1;
    }
    lines
}

/// The label and number of each line of the statistics pane.
pub open spec fn stats_line(label: Seq<char>, n: nat) -> Seq<char> {
    label + decimal(n)
}

/// The statistics pane: words done out of all, the count of results in each
/// status class, and the number of errors.
pub open spec fn stats_texts(app: App) -> Seq<Seq<char>> {
    let rs = result_views(app.results@);
    seq![
        "Total:    "@ + decimal(app.completed as nat) + "/"@ + decimal(app.total as nat),
        stats_line("200-299:  "@, class_count(rs, 2)),
        stats_line("300-399:  "@, class_count(rs, 3)),
        stats_line("400-499:  "@, class_count(rs, 4)),
        stats_line("500+:    "@, class_count(rs, 5)),
        stats_line("Errors:   "@, app.errors@.len()),
    ]
}

/// A line of the statistics pane: `label` followed by `n`.
fn labelled(label: &str, n: usize) -> (s: String)
    ensures
        s@ == stats_line(label@, n as nat),
{
    let mut s = String::new();
    push_str(&mut s, label);
    push_decimal(&mut s, n as u64);
    s
}

/// The lines of the statistics pane, in order.
pub fn stats_lines(app: &App) -> (lines: Vec<String>)
    ensures
        texts(lines@) == stats_texts(*app),
{
    let c = app.status_counts();
    let mut total = String::new();
    push_str(&mut total, "Total:    ");
    push_decimal(&mut total, app.completed as u64);
    push_str(&mut total, "/");
    push_decimal(&mut total, app.total as u64);
    let mut lines: Vec<String> = Vec::new();
    lines.push(total);
    lines.push(labelled("200-299:  ", c.0));
    lines.push(labelled("300-399:  ", c.1));
    lines.push(labelled("400-499:  ", c.2));
    lines.push(labelled("500+:    ", c.3));
    lines.push(labelled("Errors:   ", app.errors.len()));
    assert(texts(lines@) =~= stats_texts(*app));
    lines
}

/// The statistics pane shows, in order: words done out of all, then for each
/// status range the number of results whose status lies in it (200-299,
/// 300-399, 400-499, and every other status under `500+`), then the number
/// of errors.
pub proof fn lemma_stats_show_counts(app: App)
    ensures
        ({
            let rs = result_views(app.results@);
            let t = stats_texts(app);
            &&& t.len() == 6
            &&& t[0] == "Total:    "@ + decimal(app.completed as nat) + "/"@ + decimal(app.total as nat)
            &&& t[1] == "200-299:  "@ + decimal(rs.filter(|r: ResultView| 200 <= r.status <= 299).len())
            &&& t[2] == "300-399:  "@ + decimal(rs.filter(|r: ResultView| 300 <= r.status <= 399).len())
            &&& t[3] == "400-499:  "@ + decimal(rs.filter(|r: ResultView| 400 <= r.status <= 499).len())
            &&& t[4] == "500+:    "@ + decimal(rs.filter(|r: ResultView| r.status < 200 || r.status > 499).len())
            &&& t[5] == "Errors:   "@ + decimal(app.errors@.len())
        }),
{
    lemma_class_count_by_status(result_views(app.results@));
}

/// What the keys ask for: outside the filter, `q` and only it quits and `s`
/// and only it saves, and the filter text stays; `f` opens the filter, Enter
/// and Esc close it; while it is open no key quits or saves, a typed
/// character is added at the end, and Backspace takes it off again.
pub proof fn lemma_key_meanings(editing: bool, text: Seq<char>, key: Key, c: char)
    ensures
        editing ==> key_outcome(editing, key) == KeyOutcome::Continue,
        !editing ==> (key_outcome(editing, key) == KeyOutcome::Quit <==> key == Key::Char('q')),
        !editing ==> (key_outcome(editing, key) == KeyOutcome::Save <==> key == Key::Char('s')),
        !editing ==> filter_after(editing, text, key) == text,
        editing_after(false, Key::Char('f')),
        !editing_after(true, Key::Enter) && !editing_after(true, Key::Esc),
        editing && key != Key::Enter && key != Key::Esc ==> editing_after(editing, key),
        filter_after(true, text, Key::Char(c)).len() == text.len() + 1,
        filter_after(true, text, Key::Char(c)).last() == c,
        filter_after(true, filter_after(true, text, Key::Char(c)), Key::Backspace) == text,
{
    assert(text.push(c).drop_last() =~= text);
}

/// The log pane never lists more lines than fit inside its border, nor more
/// results than are left after the scroll offset.
pub proof fn lemma_log_window_fits(rs: Seq<ResultView>, offset: int, height: u16)
    requires
        offset >= 0,
    ensures
        visible_window(rs, offset, inner_rows(height)).len() <= inner_rows(height),
        visible_window(rs, offset, inner_rows(height)).len() <= if offset < rs.len() {
            rs.len() - offset
        } else {
            0
        },
        forall|i: int|
            0 <= i < visible_window(rs, offset, inner_rows(height)).len() ==> #[trigger] visible_window(
                rs,
                offset,
                inner_rows(height),
            )[i] == rs[offset + i],
{
}

} // verus!
