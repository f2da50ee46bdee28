//! What the window and the engine tell one another, and how the text fields of
//! the window are read.

use crate::config::FilterMode;
use crate::parser;
use crate::parser::collect_filled;
use crate::tables;
use crate::tables::{HeaderTable, NameSet};
use crate::text;
use crate::text::{decimal_text, join, lines, split, split_once, trim};
use vstd::prelude::*;
use vstd::string::*;

verus! {

// ---------------------------------------------------------------------------
// The protocol
// ---------------------------------------------------------------------------

/// What the window asks of the engine.
#[derive(Debug)]
pub enum GuiAction {
    TogglePause,
    TestWebhook,
    SetWebhookConfig { url: String, headers: Vec<(String, String)> },
    SetFilter { mode: FilterMode, allowed: Vec<String> },
    DumpTree,
    TestDetection,
    Quit,
}

/// One recent notification in the history.
#[derive(Debug)]
pub struct RecentItem {
    pub app: String,
    pub title: String,
    pub message: String,
}

/// What a recent notification says.
#[verifier::ext_equal]
pub struct RecentItemView {
    pub app: Seq<char>,
    pub title: Seq<char>,
    pub message: Seq<char>,
}

impl View for RecentItem {
    type V = RecentItemView;

    open spec fn view(&self) -> RecentItemView {
        RecentItemView { app: self.app@, title: self.title@, message: self.message@ }
    }
}

impl Clone for RecentItem {
    fn clone(&self) -> (r: RecentItem)
        ensures
            r@ == self@,
    {
        RecentItem {
            app: self.app.clone(),
            title: self.title.clone(),
            message: self.message.clone(),
        }
    }
}

/// What a history says.
pub open spec fn recent_views(items: Seq<RecentItem>) -> Seq<RecentItemView> {
    items.map_values(|r: RecentItem| r@)
}

/// What the engine shows of itself: labels, history and settings.
#[derive(Debug)]
pub struct GuiStatus {
    pub monitoring: bool,
    pub today: u64,
    pub forwarded: u64,
    pub duplicates: u64,
    pub filtered: u64,
    pub accessibility: String,
    pub needs_permission: bool,
    pub notification_center: String,
    pub webhook: String,
    pub recent: Vec<RecentItem>,
    pub filter_mode: FilterMode,
    pub exiting: bool,
}

/// What a status says.
#[verifier::ext_equal]
pub struct GuiStatusView {
    pub monitoring: bool,
    pub today: u64,
    pub forwarded: u64,
    pub duplicates: u64,
    pub filtered: u64,
    pub accessibility: Seq<char>,
    pub needs_permission: bool,
    pub notification_center: Seq<char>,
    pub webhook: Seq<char>,
    pub recent: Seq<RecentItemView>,
    pub filter_mode: FilterMode,
    pub exiting: bool,
}

impl View for GuiStatus {
    type V = GuiStatusView;

    open spec fn view(&self) -> GuiStatusView {
        GuiStatusView {
            monitoring: self.monitoring,
            today: self.today,
            forwarded: self.forwarded,
            duplicates: self.duplicates,
            filtered: self.filtered,
            accessibility: self.accessibility@,
            needs_permission: self.needs_permission,
            notification_center: self.notification_center@,
            webhook: self.webhook@,
            recent: recent_views(self.recent@),
            filter_mode: self.filter_mode,
            exiting: self.exiting,
        }
    }
}

impl Clone for GuiStatus {
    fn clone(&self) -> (r: GuiStatus)
        ensures
            r@ == self@,
    {
        let mut recent: Vec<RecentItem> = Vec::new();
        let ghost all = recent_views(self.recent@);
        for i in 0..self.recent.len()
            invariant
                all == recent_views(self.recent@),
                recent_views(recent@) == all.take(i as int),
        {
            let ghost before = recent_views(recent@);
            let one = self.recent[i].clone();
            recent.push(one);
            assert(recent_views(recent@) =~= before.push(one@));
            assert(all.take(i + 1) =~= all.take(i as int).push(all[i as int]));
        }
        assert(all.take(self.recent@.len() as int) =~= all);
        GuiStatus {
            monitoring: self.monitoring,
            today: self.today,
            forwarded: self.forwarded,
            duplicates: self.duplicates,
            filtered: self.filtered,
            accessibility: self.accessibility.clone(),
            needs_permission: self.needs_permission,
            notification_center: self.notification_center.clone(),
            webhook: self.webhook.clone(),
            recent,
            filter_mode: self.filter_mode,
            exiting: self.exiting,
        }
    }
}

/// What the engine tells the window.
#[derive(Debug)]
pub enum GuiEvent {
    /// One line for the console.
    Log(String),
    /// Labels and history to show.
    Status(GuiStatus),
}

impl Clone for GuiEvent {
    fn clone(&self) -> (r: GuiEvent)
        ensures
            match *self {
                GuiEvent::Log(line) => r matches GuiEvent::Log(copy) && copy@ == line@,
                GuiEvent::Status(status) => r matches GuiEvent::Status(copy) && copy@ == status@,
            },
    {
        match self {
            GuiEvent::Log(line) => GuiEvent::Log(line.clone()),
            GuiEvent::Status(status) => GuiEvent::Status(status.clone()),
        }
    }
}

// ---------------------------------------------------------------------------
// The header editor
// ---------------------------------------------------------------------------

/// What a line of the header editor says.
pub enum HeaderLine {
    Blank,
    Header(Seq<char>, Seq<char>),
    NoColon,
    NoName,
}

/// Reads a line of the header editor.
pub open spec fn header_line(line: Seq<char>) -> HeaderLine {
    let t = text::trimmed(line);
    if t.len() == 0 {
        HeaderLine::Blank
    } else {
        match text::cut_once(t, ':') {
            None => HeaderLine::NoColon,
            Some((name, value)) => if text::trimmed(name).len() == 0 {
                HeaderLine::NoName
            } else {
                HeaderLine::Header(text::trimmed(name), text::trimmed(value))
            },
        }
    }
}

/// The headers that the lines of the editor say, or what is wrong with the
/// first line that says none. Blank lines say nothing.
pub open spec fn header_lines(lines: Seq<Seq<char>>) -> Result<
    Seq<(Seq<char>, Seq<char>)>,
    Seq<char>,
>
    decreases lines.len(),
{
    if lines.len() == 0 {
        Ok(Seq::empty())
    } else {
        match header_lines(lines.drop_last()) {
            Err(e) => Err(e),
            Ok(before) => match header_line(lines.last()) {
                HeaderLine::Blank => Ok(before),
                HeaderLine::Header(name, value) => Ok(before.push((name, value))),
                HeaderLine::NoColon => Err(
                    "Line "@ + text::decimal(lines.len())
                        + " needs a colon between name and value."@,
                ),
                HeaderLine::NoName => Err(
                    "Line "@ + text::decimal(lines.len()) + " has an empty header name."@,
                ),
            },
        }
    }
}

/// A fault in the first lines is the first fault of all.
proof fn lemma_fault_of_prefix(lines: Seq<Seq<char>>, k: int)
    requires
        0 <= k <= lines.len(),
        header_lines(lines.take(k)) is Err,
    ensures
        header_lines(lines) == header_lines(lines.take(k)),
    decreases lines.len(),
{
    if k < lines.len() {
        assert(lines.drop_last().take(k) =~= lines.take(k));
        lemma_fault_of_prefix(lines.drop_last(), k);
    } else {
        assert(lines.take(k) =~= lines);
    }
}

fn line_fault(line_number: usize, what: &str) -> (r: String)
    ensures
        r@ == "Line "@ + text::decimal(line_number as nat) + what@,
{
    let mut e = "Line ".to_string();
    let number = decimal_text(line_number as u64);
    e.append(number.as_str());
    e.append(what);
    e
}

/// Reads the header editor: one header per line, as `Header-Name: value`.
pub fn parse_header_lines(input: &str) -> (r: Result<Vec<(String, String)>, String>)
    ensures
        match r {
            Ok(headers) => header_lines(text::line_seq(input@)) == Ok::<
                Seq<(Seq<char>, Seq<char>)>,
                Seq<char>,
            >(tables::pair_texts(headers@)),
            Err(e) => header_lines(text::line_seq(input@)) == Err::<
                Seq<(Seq<char>, Seq<char>)>,
                Seq<char>,
            >(e@),
        },
{
    let list = lines(input);
    let ghost all = text::line_seq(input@);
    let mut headers: Vec<(String, String)> = Vec::new();
    assert(tables::pair_texts(headers@) =~= Seq::empty());
    for i in 0..list.len()
        invariant
            all == text::line_seq(input@),
            text::texts(list@) == all,
            header_lines(all.take(i as int)) == Ok::<Seq<(Seq<char>, Seq<char>)>, Seq<char>>(
                tables::pair_texts(headers@),
            ),
    {
        assert(all[i as int] == list@[i as int]@);
        assert(all.take(i + 1).drop_last() =~= all.take(i as int));
        let line = trim(list[i].as_str());
        if !line.as_str().is_empty() {
            match split_once(line.as_str(), ':') {
                None => {
                    proof {
                        lemma_fault_of_prefix(all, i + 1);
                    }
                    return Err(line_fault(i + 1, " needs a colon between name and value."));
                },
                Some((name, value)) => {
                    let name = trim(name.as_str());
                    let value = trim(value.as_str());
                    if name.as_str().is_empty() {
                        proof {
                            lemma_fault_of_prefix(all, i + 1);
                        }
                        return Err(line_fault(i + 1, " has an empty header name."));
                    }
                    let ghost before = tables::pair_texts(headers@);
                    headers.push((name, value));
                    assert(tables::pair_texts(headers@) =~= before.push((name@, value@)));
                },
            }
        }
    }
    assert(all.take(list@.len() as int) =~= all);
    Ok(headers)
}

/// The line that shows a header.
pub open spec fn shown_header(header: (Seq<char>, Seq<char>)) -> Seq<char> {
    header.0 + ": "@ + header.1
}

/// What the header editor shows of these headers.
pub open spec fn shown_headers(headers: Seq<(Seq<char>, Seq<char>)>) -> Seq<char> {
    text::joined(headers.map_values(|h: (Seq<char>, Seq<char>)| shown_header(h)), "\n"@)
}

/// What the header editor shows: a line for each header, in the order of the
/// names.
pub fn header_editor_text(headers: &HeaderTable) -> (r: String)
    ensures
        r@ == shown_headers(headers@),
{
    let entries = headers.entries();
    let ghost all = headers@.map_values(|h: (Seq<char>, Seq<char>)| shown_header(h));
    let mut rows: Vec<String> = Vec::new();
    for i in 0..entries.len()
        invariant
            tables::pair_texts(entries@) == headers@,
            all == headers@.map_values(|h: (Seq<char>, Seq<char>)| shown_header(h)),
            text::texts(rows@) == all.take(i as int),
    {
        let ghost before = text::texts(rows@);
        assert(headers@[i as int] == (entries@[i as int].0@, entries@[i as int].1@));
        let mut row = entries[i].0.clone();
        row.append(": ");
        row.append(entries[i].1.as_str());
        rows.push(row);
        assert(text::texts(rows@) =~= before.push(row@));
        assert(all.take(i + 1) =~= all.take(i as int).push(all[i as int]));
    }
    assert(all.take(entries@.len() as int) =~= all);
    join(&rows, "\n")
}

// ---------------------------------------------------------------------------
// The field of allowed applications
// ---------------------------------------------------------------------------

/// The names in a list with commas between them.
pub open spec fn listed_names(input: Seq<char>) -> Seq<Seq<char>> {
    parser::filled_texts(text::pieces(input, ','))
}

/// Reads the field of allowed applications: names with commas between them.
pub fn parse_allowed_apps(input: &str) -> (r: Vec<String>)
    ensures
        text::texts(r@) == listed_names(input@),
{
    let parts = split(input, ',');
    collect_filled(&parts)
}

/// What the field of allowed applications shows: each name once.
pub fn allowed_apps_text(allowed: &NameSet) -> (r: String)
    ensures
        exists|names: Seq<Seq<char>>|
            names.no_duplicates() && names.to_set() == allowed@ && r@ == #[trigger] text::joined(
                names,
                ", "@,
            ),
{
    join(allowed.names(), ", ")
}

/// The request to filter in this mode, with the names in the field.
pub fn filter_request(mode: FilterMode, allowed_field: &str) -> (r: GuiAction)
    ensures
        r matches GuiAction::SetFilter { mode: m, allowed } && m == mode && text::texts(allowed@)
            == listed_names(allowed_field@),
{
    GuiAction::SetFilter { mode, allowed: parse_allowed_apps(allowed_field) }
}

/// The request to save the webhook settings in the fields, or what is wrong
/// with the headers.
pub fn webhook_request(url_field: &str, headers_field: &str) -> (r: Result<GuiAction, String>)
    ensures
        match header_lines(text::line_seq(headers_field@)) {
            Ok(wanted) => r matches Ok(GuiAction::SetWebhookConfig { url, headers }) && url@
                == url_field@ && tables::pair_texts(headers@) == wanted,
            Err(wrong) => r matches Err(e) && e@ == wrong,
        },
{
    match parse_header_lines(headers_field) {
        Ok(headers) => Ok(GuiAction::SetWebhookConfig { url: url_field.to_string(), headers }),
        Err(e) => Err(e),
    }
}

// ---------------------------------------------------------------------------
// Laws
// ---------------------------------------------------------------------------

/// Whether a header can stand on a line of the editor: a name without a colon,
/// no line break, and no white space around the name or the value.
pub open spec fn editable_header(header: (Seq<char>, Seq<char>)) -> bool {
    &&& header.0.len() > 0
    &&& text::trimmed(header.0) == header.0
    &&& text::trimmed(header.1) == header.1
    &&& !header.0.contains(':')
    &&& !header.0.contains('\n')
    &&& !header.1.contains('\n')
}

proof fn lemma_shown_header(header: (Seq<char>, Seq<char>))
    requires
        editable_header(header),
    ensures
        header_line(shown_header(header)) == HeaderLine::Header(header.0, header.1),
        shown_header(header).len() > 0,
        !shown_header(header).contains('\n'),
        shown_header(header).last() != '\r',
{
    reveal_strlit(": ");
    let (name, value) = header;
    let line = shown_header(header);
    let behind = seq![' '] + value;
    text::lemma_trimmed_is_same(name);
    text::lemma_trimmed_is_same(value);
    assert(line =~= name + seq![':'] + behind);
    assert forall|i: int| 0 <= i < line.len() implies line[i] != '\n' by {
        if i < name.len() {
            assert(name.contains(line[i]));
        } else if i >= name.len() + 2 {
            assert(value.contains(line[i]));
        }
    }
    if value.len() > 0 {
        text::lemma_trimmed_is_same(line);
        text::lemma_cut_once(name, ':', behind);
        assert(behind.drop_first() =~= value);
        assert(text::trimmed_start(behind) == text::trimmed_start(value));
    } else {
        let short = name + seq![':'];
        assert(line.drop_last() =~= short);
        assert(text::trimmed_start(line) == line);
        assert(text::trimmed_end(line) == text::trimmed_end(short));
        assert(text::trimmed_end(short) == short);
        text::lemma_cut_once(name, ':', Seq::empty());
        assert(short =~= name + seq![':'] + Seq::<char>::empty());
        assert(value =~= Seq::<char>::empty());
    }
}

proof fn lemma_header_lines_of_shown(headers: Seq<(Seq<char>, Seq<char>)>)
    requires
        forall|i: int| 0 <= i < headers.len() ==> editable_header(#[trigger] headers[i]),
    ensures
        header_lines(headers.map_values(|h: (Seq<char>, Seq<char>)| shown_header(h))) == Ok::<
            Seq<(Seq<char>, Seq<char>)>,
            Seq<char>,
        >(headers),
    decreases headers.len(),
{
    let rows = headers.map_values(|h: (Seq<char>, Seq<char>)| shown_header(h));
    if headers.len() == 0 {
        assert(headers =~= Seq::empty());
    } else {
        let before = headers.drop_last();
        lemma_header_lines_of_shown(before);
        assert(rows.drop_last() =~= before.map_values(
            |h: (Seq<char>, Seq<char>)| shown_header(h),
        ));
        lemma_shown_header(headers[headers.len() - 1]);
        assert(before.push(headers.last()) =~= headers);
    }
}

/// Saving what the header editor shows changes nothing: reading the lines
/// gives back the headers they were made from.
pub proof fn law_header_editor_round_trip(headers: Seq<(Seq<char>, Seq<char>)>)
    requires
        forall|i: int| 0 <= i < headers.len() ==> editable_header(#[trigger] headers[i]),
    ensures
        header_lines(text::line_seq(shown_headers(headers))) == Ok::<
            Seq<(Seq<char>, Seq<char>)>,
            Seq<char>,
        >(headers),
{
    reveal_strlit("\n");
    assert("\n"@ =~= seq!['\n']);
    let rows = headers.map_values(|h: (Seq<char>, Seq<char>)| shown_header(h));
    assert forall|i: int| 0 <= i < rows.len() implies (#[trigger] rows[i]).len() > 0
        && !rows[i].contains('\n') && rows[i].last() != '\r' by {
        lemma_shown_header(headers[i]);
    }
    text::lemma_lines_undo_join(rows);
    lemma_header_lines_of_shown(headers);
}

proof fn lemma_filter_keeps_all(row: Seq<Seq<char>>, keep: spec_fn(Seq<char>) -> bool)
    requires
        forall|i: int| 0 <= i < row.len() ==> keep(#[trigger] row[i]),
    ensures
        row.filter(keep) == row,
    decreases row.len(),
{
    reveal(Seq::filter);
    if row.len() > 0 {
        assert(keep(row[row.len() - 1]));
        lemma_filter_keeps_all(row.drop_last(), keep);
        assert(row.drop_last().push(row.last()) =~= row);
    }
}

/// The names but for the first with a space before them.
spec fn spaced(names: Seq<Seq<char>>) -> Seq<Seq<char>> {
    Seq::new(
        names.len(),
        |i: int|
            if i == 0 {
                names[0]
            } else {
                seq![' '] + names[i]
            },
    )
}

proof fn lemma_joined_spaced(names: Seq<Seq<char>>)
    ensures
        text::joined(names, seq![',', ' ']) == text::joined(spaced(names), seq![',']),
    decreases names.len(),
{
    if names.len() >= 2 {
        lemma_joined_spaced(names.drop_last());
        assert(spaced(names).drop_last() =~= spaced(names.drop_last()));
        let start = text::joined(names.drop_last(), seq![',', ' ']);
        assert(start + seq![',', ' '] + names.last() =~= start + seq![','] + (seq![' ']
            + names.last()));
    }
}

/// Saving what the field of allowed applications shows changes nothing: names
/// without commas and without white space around them are read back as they
/// were written.
pub proof fn law_allowed_apps_round_trip(names: Seq<Seq<char>>)
    requires
        forall|i: int|
            0 <= i < names.len() ==> (#[trigger] names[i]).len() > 0 && text::trimmed(names[i])
                == names[i] && !names[i].contains(','),
    ensures
        listed_names(text::joined(names, ", "@)) == names,
{
    reveal_strlit(", ");
    reveal(Seq::filter);
    assert(", "@ =~= seq![',', ' ']);
    let keep = |s: Seq<char>| s.len() > 0;
    let trim = |s: Seq<char>| text::trimmed(s);
    let shown = text::joined(names, seq![',', ' ']);
    if names.len() == 0 {
        text::lemma_first_index_is(shown, ',', 0);
        let one = seq![Seq::<char>::empty()];
        assert(text::pieces(shown, ',') =~= one);
        assert(one.map_values(trim) =~= one);
        one.lemma_all_neg_filter_empty(keep);
        assert(names =~= Seq::empty());
    } else {
        let row = spaced(names);
        lemma_joined_spaced(names);
        assert forall|i: int| 0 <= i < row.len() implies !(#[trigger] row[i]).contains(',')
            && text::trimmed(row[i]) == names[i] by {
            assert(!names[i].contains(','));
            if i > 0 {
                assert(row[i].drop_first() =~= names[i]);
                assert forall|j: int| 0 <= j < row[i].len() implies row[i][j] != ',' by {
                    if j > 0 {
                        assert(names[i].contains(row[i][j]));
                    }
                }
            }
        }
        text::lemma_split_undoes_join(row, ',');
        assert(row.map_values(trim) =~= names);
        lemma_filter_keeps_all(names, keep);
    }
}

/// A line of the editor is a name, a colon and a value, with white space around
/// them that does not count. The first colon is the one that parts them.
pub proof fn law_header_lines_are_parted_at_the_first_colon(
    before: Seq<char>,
    name: Seq<char>,
    gap: Seq<char>,
    rest: Seq<char>,
)
    requires
        text::blank(before),
        text::blank(gap),
        text::starts_dense(name),
        text::ends_dense(name),
        !name.contains(':'),
        !gap.contains(':'),
    ensures
        name.len() > 0 ==> header_line(before + name + gap + seq![':'] + rest)
            == HeaderLine::Header(name, text::trimmed(rest)),
        name.len() == 0 ==> header_line(before + name + gap + seq![':'] + rest)
            == HeaderLine::NoName,
{
    let front = name + gap;
    let line = before + name + gap + seq![':'] + rest;
    // Where the name is empty, all that stands before the colon is white space.
    let lead = if name.len() > 0 {
        before
    } else {
        before + gap
    };
    let start = if name.len() > 0 {
        front
    } else {
        Seq::<char>::empty()
    };
    assert(text::blank(lead)) by {
        assert forall|i: int| 0 <= i < lead.len() implies text::is_white_space(
            #[trigger] lead[i],
        ) by {
            if i < before.len() {
                assert(lead[i] == before[i]);
            } else {
                assert(lead[i] == gap[i - before.len()]);
            }
        }
    }
    let s = start + seq![':'] + rest;
    assert(line =~= lead + s);
    assert(!text::is_white_space(':'));
    if name.len() > 0 {
        assert(s[0] == name[0]);
    }
    text::law_trimming_the_start(lead, s);
    let hi = text::lemma_trimmed_end_parts(s);
    let n = start.len() as int;
    if hi <= n {
        assert(s.skip(hi)[n - hi] == s[n]);
    }
    let kept = s.take(hi).skip(n + 1);
    assert(s.take(hi) =~= start + seq![':'] + kept);
    assert forall|i: int| 0 <= i < start.len() implies start[i] != ':' by {
        if i < name.len() {
            assert(name.contains(start[i]));
        } else {
            assert(gap.contains(start[i]));
        }
    }
    text::lemma_cut_once(start, ':', kept);
    // The value is trimmed the same with the white space at the end of the line.
    let tail = s.skip(hi);
    assert(rest =~= kept + tail);
    lemma_trimmed_ignores_tail(kept, tail);
    if name.len() > 0 {
        assert(front =~= Seq::<char>::empty() + name + gap);
        text::law_trimming(Seq::empty(), name, gap);
    } else {
        text::lemma_trimmed_is_same(start);
    }
}

proof fn lemma_trimmed_ignores_tail(s: Seq<char>, tail: Seq<char>)
    requires
        text::blank(tail),
    ensures
        text::trimmed(s + tail) == text::trimmed(s),
{
    let (p, q) = text::law_trimming_takes_white_space_only(s);
    let kept = text::trimmed(s);
    assert(text::blank(q + tail)) by {
        assert forall|i: int| 0 <= i < (q + tail).len() implies text::is_white_space(
            #[trigger] (q + tail)[i],
        ) by {
            if i < q.len() {
                assert((q + tail)[i] == q[i]);
            } else {
                assert((q + tail)[i] == tail[i - q.len()]);
            }
        }
    }
    assert(s + tail =~= p + kept + (q + tail));
    text::law_trimming(p, kept, q + tail);
}

/// A blank line says nothing, and any other line needs a colon.
pub proof fn law_lines_without_a_colon(line: Seq<char>)
    requires
        !line.contains(':'),
    ensures
        text::blank(line) ==> header_line(line) == HeaderLine::Blank,
        !text::blank(line) ==> header_line(line) == HeaderLine::NoColon,
{
    let (p, q) = text::law_trimming_takes_white_space_only(line);
    let t = text::trimmed(line);
    text::lemma_cut_once_parts(t, ':');
    if t.contains(':') {
        let i = choose|i: int| 0 <= i < t.len() && t[i] == ':';
        assert(line[p.len() + i] == ':');
    }
}

/// The headers are read line by line: each line adds its header behind those
/// before it, a blank line adds none, and the first line that is wrong is told
/// by its number, whatever stands behind it.
pub proof fn law_headers_are_read_line_by_line(
    lines: Seq<Seq<char>>,
    next: Seq<char>,
    more: Seq<Seq<char>>,
)
    ensures
        header_lines(Seq::empty()) == Ok::<Seq<(Seq<char>, Seq<char>)>, Seq<char>>(Seq::empty()),
        header_lines(lines) is Err ==> header_lines(lines + more) == header_lines(lines),
        header_lines(lines) matches Ok(before) ==> match header_line(next) {
            HeaderLine::Blank => header_lines(lines.push(next)) == header_lines(lines),
            HeaderLine::Header(name, value) => header_lines(lines.push(next)) == Ok::<
                Seq<(Seq<char>, Seq<char>)>,
                Seq<char>,
            >(before.push((name, value))),
            HeaderLine::NoColon => header_lines(lines.push(next)) == Err::<
                Seq<(Seq<char>, Seq<char>)>,
                Seq<char>,
            >(
                "Line "@ + text::decimal(lines.len() + 1)
                    + " needs a colon between name and value."@,
            ),
            HeaderLine::NoName => header_lines(lines.push(next)) == Err::<
                Seq<(Seq<char>, Seq<char>)>,
                Seq<char>,
            >("Line "@ + text::decimal(lines.len() + 1) + " has an empty header name."@),
        },
{
    assert(lines.push(next).drop_last() =~= lines);
    if header_lines(lines) is Err {
        assert((lines + more).take(lines.len() as int) =~= lines);
        lemma_fault_of_prefix(lines + more, lines.len() as int);
    }
}

/// A list of names is read name by name: what stands between two commas is one,
/// without the white space around it, and where nothing stands there is none.
pub proof fn law_names_are_read_one_by_one(parts: Seq<Seq<char>>)
    requires
        parts.len() > 0,
        forall|i: int| 0 <= i < parts.len() ==> !(#[trigger] parts[i]).contains(','),
    ensures
        listed_names(text::joined(parts, seq![','])) == parser::filled_texts(parts),
{
    text::lemma_split_undoes_join(parts, ',');
}

/// A header is shown as its name, a colon, a space and its value, and the
/// headers one line each in their order.
pub proof fn law_headers_are_shown_line_by_line(
    headers: Seq<(Seq<char>, Seq<char>)>,
    name: Seq<char>,
    value: Seq<char>,
)
    ensures
        shown_headers(Seq::empty()) == Seq::<char>::empty(),
        shown_headers(seq![(name, value)]) == name + ": "@ + value,
        headers.len() > 0 ==> shown_headers(headers.push((name, value))) == shown_headers(headers)
            + "\n"@ + (name + ": "@ + value),
{
    let show = |h: (Seq<char>, Seq<char>)| shown_header(h);
    assert(Seq::<(Seq<char>, Seq<char>)>::empty().map_values(show) =~= Seq::empty());
    assert(seq![(name, value)].map_values(show) =~= seq![name + ": "@ + value]);
    let rows = headers.map_values(show);
    assert(headers.push((name, value)).map_values(show) =~= rows.push(name + ": "@ + value));
    text::law_joining_adds_parts_in_order(rows, name + ": "@ + value, "\n"@);
}

/// What a status says is what each of its fields holds, and its history says
/// what each notification in it says, in their order.
pub proof fn law_statuses_say_what_they_hold(s: GuiStatus, i: int)
    ensures
        (s@.monitoring, s@.needs_permission, s@.exiting) == (
            s.monitoring,
            s.needs_permission,
            s.exiting,
        ),
        (s@.today, s@.forwarded, s@.duplicates, s@.filtered) == (
            s.today,
            s.forwarded,
            s.duplicates,
            s.filtered,
        ),
        s@.accessibility == s.accessibility@,
        s@.notification_center == s.notification_center@,
        s@.webhook == s.webhook@,
        s@.filter_mode == s.filter_mode,
        s@.recent.len() == s.recent@.len(),
        0 <= i < s.recent@.len() ==> {
            &&& s@.recent[i].app == s.recent@[i].app@
            &&& s@.recent[i].title == s.recent@[i].title@
            &&& s@.recent[i].message == s.recent@[i].message@
        },
{
}

} // verus!
