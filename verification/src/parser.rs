//! From the texts of a banner to a notification.
//!
//! Where a field comes from, in order of preference:
//! 1. the texts of the banner's children, in their order
//! 2. the title attribute
//! 3. the description attribute

use crate::model::{Notification, NotificationView};
use crate::tables::copy_texts;
use crate::text;
use crate::text::{
    char_to_lowercase, copy_opt, join, same, split_once, starts_with, trim, trim_start,
};
use crate::time::Timestamp;
use vstd::prelude::*;
use vstd::string::*;

verus! {

/// The raw fields of one banner.
#[derive(Debug)]
pub struct BannerFields {
    /// Identifier of the banner element, if it exposes one.
    pub identifier: Option<String>,
    /// Best guess at the owning application, such as a window title.
    pub app_name_hint: Option<String>,
    /// Title of the banner element.
    pub title_attr: Option<String>,
    /// Description of the banner element.
    pub description_attr: Option<String>,
    /// Texts below the banner element, in their order.
    pub static_texts: Vec<String>,
}

/// What the fields of a banner say.
#[verifier::ext_equal]
pub struct BannerFieldsView {
    pub identifier: Option<Seq<char>>,
    pub app_name_hint: Option<Seq<char>>,
    pub title_attr: Option<Seq<char>>,
    pub description_attr: Option<Seq<char>>,
    pub static_texts: Seq<Seq<char>>,
}

impl View for BannerFields {
    type V = BannerFieldsView;

    open spec fn view(&self) -> BannerFieldsView {
        BannerFieldsView {
            identifier: text::opt_text(self.identifier),
            app_name_hint: text::opt_text(self.app_name_hint),
            title_attr: text::opt_text(self.title_attr),
            description_attr: text::opt_text(self.description_attr),
            static_texts: text::texts(self.static_texts@),
        }
    }
}

impl Default for BannerFields {
    fn default() -> (r: BannerFields)
        ensures
            r@ == (BannerFieldsView {
                identifier: None,
                app_name_hint: None,
                title_attr: None,
                description_attr: None,
                static_texts: Seq::<Seq<char>>::empty(),
            }),
    {
        BannerFields {
            identifier: None,
            app_name_hint: None,
            title_attr: None,
            description_attr: None,
            static_texts: Vec::new(),
        }
    }
}

impl Clone for BannerFields {
    fn clone(&self) -> (r: BannerFields)
        ensures
            r@ == self@,
    {
        BannerFields {
            identifier: copy_opt(&self.identifier),
            app_name_hint: copy_opt(&self.app_name_hint),
            title_attr: copy_opt(&self.title_attr),
            description_attr: copy_opt(&self.description_attr),
            static_texts: copy_texts(&self.static_texts),
        }
    }
}

// ---------------------------------------------------------------------------
// Pieces of text
// ---------------------------------------------------------------------------

/// A text without the white space around it, where anything is left.
pub open spec fn filled(o: Option<Seq<char>>) -> Option<Seq<char>> {
    match o {
        Some(s) => if text::trimmed(s).len() > 0 {
            Some(text::trimmed(s))
        } else {
            None
        },
        None => None,
    }
}

/// The texts without the white space around them, as far as anything is left.
pub open spec fn filled_texts(texts: Seq<Seq<char>>) -> Seq<Seq<char>> {
    texts.map_values(|s: Seq<char>| text::trimmed(s)).filter(|s: Seq<char>| s.len() > 0)
}

/// The letters and digits of a text, in lower case.
pub open spec fn normalized(s: Seq<char>) -> Seq<char>
    decreases s.len(),
{
    if s.len() == 0 {
        Seq::empty()
    } else if text::letter_or_digit(s.last()) {
        normalized(s.drop_last()) + text::lowered_char(s.last())
    } else {
        normalized(s.drop_last())
    }
}

/// Whether the letters and digits of a name, in lower case, are those of the
/// container of all notifications.
pub open spec fn container_name(n: Seq<char>) -> bool {
    ||| n == "notificationcenter"@
    ||| n == "notificationcentre"@
    ||| n == "notifications"@
    ||| n == "notification"@
    ||| n == "controlcenter"@
}

/// Whether a name is that of the container of all notifications, which says
/// nothing about where one comes from.
pub open spec fn generic_name(s: Seq<char>) -> bool {
    container_name(normalized(s))
}

fn is_bidi_mark(c: char) -> (r: bool)
    ensures
        r == text::bidi_mark(c),
{
    let n: u32 = c as u32;
    n == 0x200e || n == 0x200f || 0x202a <= n && n <= 0x202e || 0x2066 <= n && n <= 0x2069 || n
        == 0xfeff
}

/// Whether the letters and digits of a name, in lower case, are those of the
/// container of all notifications.
pub fn is_container_name(normal: &str) -> (r: bool)
    ensures
        r == container_name(normal@),
{
    same(normal, "notificationcenter") || same(normal, "notificationcentre") || same(
        normal,
        "notifications",
    ) || same(normal, "notification") || same(normal, "controlcenter")
}

/// Whether a name is that of the container of all notifications.
pub fn is_generic_app_name(value: &str) -> (r: bool)
    ensures
        r == generic_name(value@),
{
    let mut normal = String::new();
    for c in it: value.chars()
        invariant
            it.seq() == value@,
            normal@ == normalized(value@.take(it.index())),
    {
        assert(value@.take(it.index() + 1).drop_last() =~= value@.take(it.index()));
        if c.is_alphanumeric() {
            let low = char_to_lowercase(c);
            normal.append(low.as_str());
        }
    }
    assert(value@.take(value@.len() as int) =~= value@);
    is_container_name(normal.as_str())
}

fn filled_text(o: &Option<String>) -> (r: Option<String>)
    ensures
        text::opt_text(r) == filled(text::opt_text(*o)),
{
    match o {
        Some(s) => {
            let t = trim(s.as_str());
            if t.as_str().is_empty() {
                None
            } else {
                Some(t)
            }
        },
        None => None,
    }
}

/// The texts without the white space around them, as far as anything is left.
pub(crate) fn collect_filled(list: &Vec<String>) -> (r: Vec<String>)
    ensures
        text::texts(r@) == filled_texts(text::texts(list@)),
{
    let mut out: Vec<String> = Vec::new();
    let ghost all = text::texts(list@).map_values(|s: Seq<char>| text::trimmed(s));
    let ghost keep = |s: Seq<char>| s.len() > 0;
    proof {
        reveal(Seq::filter);
    }
    assert(all.take(0).filter(keep) =~= Seq::empty());
    for i in 0..list.len()
        invariant
            all == text::texts(list@).map_values(|s: Seq<char>| text::trimmed(s)),
            keep == (|s: Seq<char>| s.len() > 0),
            text::texts(out@) == all.take(i as int).filter(keep),
    {
        let t = trim(list[i].as_str());
        proof {
            reveal(Seq::filter);
            assert(all.take(i + 1).drop_last() =~= all.take(i as int));
            assert(all[i as int] == t@);
        }
        if !t.as_str().is_empty() {
            let ghost before = text::texts(out@);
            out.push(t);
            assert(text::texts(out@) =~= before.push(t@));
        }
    }
    assert(all.take(list@.len() as int) =~= all);
    out
}

// ---------------------------------------------------------------------------
// The name of the application
// ---------------------------------------------------------------------------

/// A hint without marks of direction and without white space around it.
pub open spec fn cleaned_hint(hint: Seq<char>) -> Seq<char> {
    text::trimmed(hint.filter(|c: char| !text::bidi_mark(c)))
}

/// The application that a hint names. A spoken summary, such as
/// `WhatsApp, Niles, Hello` on a banner with the text `Niles`, names it before
/// the comma.
pub open spec fn app_from_hint(hint: Seq<char>, texts: Seq<Seq<char>>) -> Option<Seq<char>> {
    let cleaned = cleaned_hint(hint);
    if cleaned.len() == 0 || generic_name(cleaned) {
        None
    } else {
        match text::cut_once(cleaned, ',') {
            Some((start, summary)) => {
                let candidate = text::trimmed(start);
                if texts.len() > 0 && text::begins_with(text::trimmed_start(summary), texts[0])
                    && candidate.len() > 0 && !generic_name(candidate) {
                    Some(candidate)
                } else {
                    Some(cleaned)
                }
            },
            None => Some(cleaned),
        }
    }
}

fn clean_hint(hint: &str) -> (r: String)
    ensures
        r@ == cleaned_hint(hint@),
{
    let mut out = String::new();
    let ghost keep = |c: char| !text::bidi_mark(c);
    proof {
        reveal(Seq::filter);
    }
    for c in it: hint.chars()
        invariant
            it.seq() == hint@,
            keep == (|c: char| !text::bidi_mark(c)),
            out@ == hint@.take(it.index()).filter(keep),
    {
        proof {
            reveal(Seq::filter);
            assert(hint@.take(it.index() + 1).drop_last() =~= hint@.take(it.index()));
        }
        if !is_bidi_mark(c) {
            out.push(c);
        }
    }
    assert(hint@.take(hint@.len() as int) =~= hint@);
    trim(out.as_str())
}

/// The application that a hint names, for a banner with these texts.
pub fn parse_app_name_hint(hint: &str, texts: &Vec<String>) -> (r: Option<String>)
    ensures
        text::opt_text(r) == app_from_hint(hint@, text::texts(texts@)),
{
    let cleaned = clean_hint(hint);
    if cleaned.as_str().is_empty() || is_generic_app_name(cleaned.as_str()) {
        return None;
    }
    if texts.len() > 0 {
        if let Some((start, summary)) = split_once(cleaned.as_str(), ',') {
            let rest = trim_start(summary.as_str());
            if starts_with(rest.as_str(), texts[0].as_str()) {
                let candidate = trim(start.as_str());
                if !candidate.as_str().is_empty() && !is_generic_app_name(candidate.as_str()) {
                    return Some(candidate);
                }
            }
        }
    }
    Some(cleaned)
}

// ---------------------------------------------------------------------------
// The notification
// ---------------------------------------------------------------------------

/// The title, unless the first text turns out to name the application.
pub open spec fn leading_title(f: BannerFieldsView) -> Option<Seq<char>> {
    let texts = filled_texts(f.static_texts);
    if texts.len() > 0 {
        Some(texts[0])
    } else {
        filled(f.title_attr)
    }
}

/// The body that goes with [`leading_title`]. A description that repeats the
/// title is none.
pub open spec fn trailing_message(f: BannerFieldsView) -> Seq<char> {
    let texts = filled_texts(f.static_texts);
    if texts.len() >= 2 {
        text::joined(texts.skip(1), "\n"@)
    } else {
        match filled(f.description_attr) {
            Some(d) => if leading_title(f) == Some(d) {
                Seq::empty()
            } else {
                d
            },
            None => Seq::empty(),
        }
    }
}

/// The application that the hint of a banner names.
pub open spec fn hinted_app(f: BannerFieldsView) -> Option<Seq<char>> {
    match f.app_name_hint {
        Some(hint) => app_from_hint(hint, filled_texts(f.static_texts)),
        None => None,
    }
}

/// What a banner says. Three texts or more without a hint are the application,
/// the title and the body; otherwise the first text is the title.
pub open spec fn parsed(f: BannerFieldsView) -> Option<NotificationView> {
    let texts = filled_texts(f.static_texts);
    match leading_title(f) {
        None => None,
        Some(title) => Some(
            match hinted_app(f) {
                Some(app) => NotificationView {
                    id: filled(f.identifier),
                    app_name: app,
                    title,
                    message: trailing_message(f),
                },
                None => if texts.len() >= 3 {
                    NotificationView {
                        id: filled(f.identifier),
                        app_name: texts[0],
                        title: texts[1],
                        message: text::joined(texts.skip(2), "\n"@),
                    }
                } else {
                    NotificationView {
                        id: filled(f.identifier),
                        app_name: "Unknown"@,
                        title,
                        message: trailing_message(f),
                    }
                },
            },
        ),
    }
}

/// Joins the texts from one on, a line each.
fn join_from(list: &Vec<String>, from: usize) -> (r: String)
    requires
        from <= list@.len(),
    ensures
        r@ == text::joined(text::texts(list@).skip(from as int), "\n"@),
{
    let mut rest: Vec<String> = Vec::new();
    let ghost all = text::texts(list@);
    for i in from..list.len()
        invariant
            from <= list@.len(),
            all == text::texts(list@),
            text::texts(rest@) == all.subrange(from as int, i as int),
    {
        let ghost before = text::texts(rest@);
        let one = list[i].clone();
        rest.push(one);
        assert(text::texts(rest@) =~= before.push(one@));
        assert(all.subrange(from as int, i + 1) =~= all.subrange(from as int, i as int).push(
            all[i as int],
        ));
    }
    assert(all.subrange(from as int, list@.len() as int) =~= all.skip(from as int));
    join(&rest, "\n")
}

/// Every text that is kept has something in it.
proof fn lemma_filled_texts(texts: Seq<Seq<char>>)
    ensures
        forall|i: int|
            0 <= i < filled_texts(texts).len() ==> (#[trigger] filled_texts(texts)[i]).len() > 0,
{
    let keep = |s: Seq<char>| s.len() > 0;
    let all = texts.map_values(|s: Seq<char>| text::trimmed(s));
    assert forall|i: int| 0 <= i < filled_texts(texts).len() implies (#[trigger] filled_texts(
        texts,
    )[i]).len() > 0 by {
        all.lemma_filter_pred(keep, i);
    }
}

/// Turns the fields of a banner that was seen at `timestamp` into a
/// notification. There is none where nothing is worth forwarding.
pub fn parse_banner_fields_at(fields: &BannerFields, timestamp: Timestamp) -> (r: Option<
    Notification,
>)
    ensures
        match r {
            Some(n) => parsed(fields@) == Some(n@) && n.timestamp == timestamp,
            None => parsed(fields@) is None,
        },
{
    let texts = collect_filled(&fields.static_texts);
    let ghost shown = filled_texts(fields@.static_texts);
    proof {
        lemma_filled_texts(fields@.static_texts);
    }
    let title: String;
    if texts.len() > 0 {
        title = texts[0].clone();
    } else {
        match filled_text(&fields.title_attr) {
            Some(t) => {
                title = t;
            },
            None => {
                return None;
            },
        }
    }
    assert(leading_title(fields@) == Some(title@));
    let message: String;
    if texts.len() >= 2 {
        message = join_from(&texts, 1);
    } else {
        match filled_text(&fields.description_attr) {
            Some(d) => {
                message = if same(d.as_str(), title.as_str()) {
                    String::new()
                } else {
                    d
                };
            },
            None => {
                message = String::new();
            },
        }
    }
    assert(message@ =~= trailing_message(fields@));
    let hinted = match &fields.app_name_hint {
        Some(hint) => parse_app_name_hint(hint.as_str(), &texts),
        None => None,
    };
    let notification = match hinted {
        Some(app) => Notification::at(app.as_str(), title.as_str(), message.as_str(), timestamp),
        None => if texts.len() >= 3 {
            let body = join_from(&texts, 2);
            Notification::at(texts[0].as_str(), texts[1].as_str(), body.as_str(), timestamp)
        } else {
            Notification::at("Unknown", title.as_str(), message.as_str(), timestamp)
        },
    };
    match filled_text(&fields.identifier) {
        Some(id) => Some(notification.with_id(id.as_str())),
        None => Some(notification),
    }
}

/// Turns the fields of a banner into a notification, detected now. There is
/// none where nothing is worth forwarding.
pub fn parse_banner_fields(fields: &BannerFields) -> (r: Option<Notification>)
    ensures
        match r {
            Some(n) => parsed(fields@) == Some(n@) && n.timestamp.from_clock(),
            None => parsed(fields@) is None,
        },
{
    parse_banner_fields_at(fields, Timestamp::now())
}

/// A banner without any text and without a title is ignored, and no other one.
pub proof fn law_only_untitled_banners_are_ignored(f: BannerFieldsView)
    ensures
        parsed(f) is None <==> filled_texts(f.static_texts).len() == 0 && filled(
            f.title_attr,
        ) is None,
{
}

/// A notification always names an application and has a title.
pub proof fn law_parsed_fields_are_filled(f: BannerFieldsView)
    ensures
        parsed(f) matches Some(n) ==> {
            &&& n.app_name.len() > 0
            &&& n.title.len() > 0
            &&& n.id matches Some(id) ==> id.len() > 0
        },
{
    lemma_filled_texts(f.static_texts);
    reveal_strlit("Unknown");
}

/// A hint never makes the container of all notifications the application.
pub proof fn law_hint_never_names_the_container(hint: Seq<char>, texts: Seq<Seq<char>>)
    ensures
        app_from_hint(hint, texts) matches Some(app) ==> !generic_name(app) && app.len() > 0,
{
}

/// A banner whose hint names the container comes from `Unknown`, or from the
/// first of its texts where it has three or more.
pub proof fn law_container_hint_is_no_application(f: BannerFieldsView)
    requires
        f.app_name_hint matches Some(hint) && generic_name(cleaned_hint(hint)),
    ensures
        parsed(f) matches Some(n) ==> {
            let texts = filled_texts(f.static_texts);
            n.app_name == (if texts.len() >= 3 {
                texts[0]
            } else {
                "Unknown"@
            })
        },
{
}

/// A character that is no letter and no digit does not count at the start of a
/// name.
proof fn lemma_normalized_drop_first(s: Seq<char>)
    requires
        s.len() > 0,
        !text::letter_or_digit(s[0]),
    ensures
        normalized(s) == normalized(s.drop_first()),
    decreases s.len(),
{
    if s.len() > 1 {
        lemma_normalized_drop_first(s.drop_last());
        assert(s.drop_first().drop_last() =~= s.drop_last().drop_first());
    } else {
        assert(s.drop_last() =~= Seq::empty());
        assert(s.drop_first() =~= Seq::empty());
    }
}

proof fn lemma_normalized_trimmed_start(s: Seq<char>)
    ensures
        normalized(text::trimmed_start(s)) == normalized(s),
    decreases s.len(),
{
    if s.len() > 0 && text::is_white_space(s[0]) {
        lemma_normalized_drop_first(s);
        lemma_normalized_trimmed_start(s.drop_first());
    }
}

proof fn lemma_normalized_trimmed_end(s: Seq<char>)
    ensures
        normalized(text::trimmed_end(s)) == normalized(s),
    decreases s.len(),
{
    if s.len() > 0 && text::is_white_space(s.last()) {
        lemma_normalized_trimmed_end(s.drop_last());
    }
}

proof fn lemma_normalized_unmarked(s: Seq<char>)
    ensures
        normalized(s.filter(|c: char| !text::bidi_mark(c))) == normalized(s),
    decreases s.len(),
{
    reveal(Seq::filter);
    let keep = |c: char| !text::bidi_mark(c);
    if s.len() > 0 {
        lemma_normalized_unmarked(s.drop_last());
        let before = s.drop_last().filter(keep);
        if keep(s.last()) {
            assert(before.push(s.last()).drop_last() =~= before);
        }
    }
}

/// Cleaning a hint does not change which name it is.
proof fn lemma_cleaned_hint_is_as_generic(hint: Seq<char>)
    ensures
        generic_name(cleaned_hint(hint)) == generic_name(hint),
{
    let unmarked = hint.filter(|c: char| !text::bidi_mark(c));
    lemma_normalized_unmarked(hint);
    lemma_normalized_trimmed_start(unmarked);
    lemma_normalized_trimmed_end(text::trimmed_start(unmarked));
}

/// Whether a text is white space alone.
spec fn blank(s: Seq<char>) -> bool {
    forall|i: int| 0 <= i < s.len() ==> text::is_white_space(#[trigger] s[i])
}

proof fn lemma_blank_trimmed_start(s: Seq<char>)
    ensures
        text::trimmed_start(s).len() == 0 <==> blank(s),
        text::trimmed_start(s).len() > 0 ==> !text::is_white_space(text::trimmed_start(s)[0]),
    decreases s.len(),
{
    if s.len() > 0 && text::is_white_space(s[0]) {
        let rest = s.drop_first();
        lemma_blank_trimmed_start(rest);
        if blank(rest) {
            assert forall|i: int| 0 <= i < s.len() implies text::is_white_space(
                #[trigger] s[i],
            ) by {
                if i > 0 {
                    assert(s[i] == rest[i - 1]);
                }
            }
        }
        if blank(s) {
            assert forall|i: int| 0 <= i < rest.len() implies text::is_white_space(
                #[trigger] rest[i],
            ) by {
                assert(rest[i] == s[i + 1]);
            }
        }
    }
}

proof fn lemma_trimmed_end_keeps(s: Seq<char>)
    requires
        s.len() > 0,
        !text::is_white_space(s[0]),
    ensures
        text::trimmed_end(s).len() > 0,
    decreases s.len(),
{
    if text::is_white_space(s.last()) {
        lemma_trimmed_end_keeps(s.drop_last());
    }
}

/// Nothing is left of a text exactly where it is white space alone.
proof fn lemma_blank_trimmed(s: Seq<char>)
    ensures
        text::trimmed(s).len() == 0 <==> blank(s),
{
    lemma_blank_trimmed_start(s);
    if !blank(s) {
        lemma_trimmed_end_keeps(text::trimmed_start(s));
    }
}

proof fn lemma_blank_unmarked(s: Seq<char>)
    requires
        blank(s),
    ensures
        blank(s.filter(|c: char| !text::bidi_mark(c))),
    decreases s.len(),
{
    reveal(Seq::filter);
    if s.len() > 0 {
        assert(text::is_white_space(s[s.len() - 1]));
        lemma_blank_unmarked(s.drop_last());
    }
}

/// A hint that is blank, or that names the container of all notifications,
/// counts as no hint: the banner says what it says without it. Marks of
/// direction and white space in the hint make no difference to that.
pub proof fn law_blank_or_container_hint_counts_as_none(f: BannerFieldsView, hint: Seq<char>)
    requires
        f.app_name_hint == Some(hint),
        text::trimmed(hint).len() == 0 || cleaned_hint(hint).len() == 0 || generic_name(hint)
            || generic_name(cleaned_hint(hint)),
    ensures
        parsed(f) == parsed(BannerFieldsView { app_name_hint: None, ..f }),
{
    lemma_cleaned_hint_is_as_generic(hint);
    if text::trimmed(hint).len() == 0 {
        lemma_blank_trimmed(hint);
        lemma_blank_unmarked(hint);
        lemma_blank_trimmed(hint.filter(|c: char| !text::bidi_mark(c)));
    }
}

/// The body never just repeats the title that a banner has from its
/// attributes.
pub proof fn law_description_does_not_repeat_title(f: BannerFieldsView)
    requires
        filled_texts(f.static_texts).len() < 2,
    ensures
        parsed(f) matches Some(n) ==> n.message != n.title,
{
    lemma_filled_texts(f.static_texts);
}

// ---------------------------------------------------------------------------
// Where each field comes from
// ---------------------------------------------------------------------------

/// A text counts without the white space around it, and not at all where it is
/// white space alone.
pub proof fn law_filled_drops_white_space_only(
    before: Seq<char>,
    kept: Seq<char>,
    behind: Seq<char>,
)
    requires
        text::blank(before),
        text::blank(behind),
        text::starts_dense(kept),
        text::ends_dense(kept),
    ensures
        filled(None) is None,
        kept.len() > 0 ==> filled(Some(before + kept + behind)) == Some(kept),
        kept.len() == 0 ==> filled(Some(before + kept + behind)) is None,
{
    text::law_trimming(before, kept, behind);
}

proof fn lemma_filled_texts_push(texts: Seq<Seq<char>>, one: Seq<char>)
    ensures
        filled_texts(texts.push(one)) == (if text::trimmed(one).len() > 0 {
            filled_texts(texts).push(text::trimmed(one))
        } else {
            filled_texts(texts)
        }),
{
    reveal(Seq::filter);
    let trim = |s: Seq<char>| text::trimmed(s);
    assert(texts.push(one).map_values(trim).drop_last() =~= texts.map_values(trim));
    assert(texts.push(one).map_values(trim).last() == text::trimmed(one));
}

/// The texts of a banner count in their order, each without the white space
/// around it. One that is white space alone does not count, wherever it stands.
pub proof fn law_texts_count_in_their_order(
    texts: Seq<Seq<char>>,
    before: Seq<char>,
    kept: Seq<char>,
    behind: Seq<char>,
)
    requires
        text::blank(before),
        text::blank(behind),
        text::starts_dense(kept),
        text::ends_dense(kept),
    ensures
        filled_texts(Seq::empty()) == Seq::<Seq<char>>::empty(),
        kept.len() > 0 ==> filled_texts(texts.push(before + kept + behind)) == filled_texts(
            texts,
        ).push(kept),
        kept.len() == 0 ==> filled_texts(texts.push(before + kept + behind)) == filled_texts(texts),
{
    text::law_trimming(before, kept, behind);
    lemma_filled_texts_push(texts, before + kept + behind);
    reveal(Seq::filter);
    assert(filled_texts(Seq::empty()) =~= Seq::<Seq<char>>::empty());
}

/// The title attribute is never looked at where a text is there.
pub proof fn law_texts_come_before_the_title_attribute(
    f: BannerFieldsView,
    other: Option<Seq<char>>,
)
    requires
        filled_texts(f.static_texts).len() > 0,
    ensures
        parsed(f) == parsed(BannerFieldsView { title_attr: other, ..f }),
{
}

/// The description is never looked at where two texts or more are there.
pub proof fn law_texts_come_before_the_description(f: BannerFieldsView, other: Option<Seq<char>>)
    requires
        filled_texts(f.static_texts).len() >= 2,
    ensures
        parsed(f) == parsed(BannerFieldsView { description_attr: other, ..f }),
{
}

/// The identifier of a banner is that of its notification and tells nothing
/// else about it.
pub proof fn law_identifier_is_only_an_identifier(f: BannerFieldsView, other: Option<Seq<char>>)
    ensures
        match (parsed(f), parsed(BannerFieldsView { identifier: other, ..f })) {
            (Some(n), Some(m)) => n.id == filled(f.identifier) && m.id == filled(other) && m == (
            NotificationView { id: m.id, ..n }),
            (None, None) => true,
            _ => false,
        },
{
}

/// Where the hint names the application, the texts are the title and the body:
/// the notification shows them all, in their order, and nothing else of them.
pub proof fn law_hinted_banner_shows_every_text(f: BannerFieldsView)
    requires
        f.app_name_hint matches Some(hint) && app_from_hint(
            hint,
            filled_texts(f.static_texts),
        ) is Some,
        filled_texts(f.static_texts).len() >= 2,
    ensures
        parsed(f) matches Some(n) && {
            &&& f.app_name_hint matches Some(hint) && app_from_hint(
                hint,
                filled_texts(f.static_texts),
            ) == Some(n.app_name)
            &&& n.title == filled_texts(f.static_texts)[0]
            &&& n.title + "\n"@ + n.message == text::joined(filled_texts(f.static_texts), "\n"@)
        },
{
    let texts = filled_texts(f.static_texts);
    text::lemma_joined_front(texts, "\n"@);
    assert(texts.skip(1) =~= texts.drop_first());
}

/// Without a hint that names it, the first of three texts or more is the
/// application, the second the title, and the rest the body: nothing is lost.
pub proof fn law_unhinted_banner_shows_every_text(f: BannerFieldsView)
    requires
        f.app_name_hint matches Some(hint) ==> app_from_hint(
            hint,
            filled_texts(f.static_texts),
        ) is None,
        filled_texts(f.static_texts).len() >= 3,
    ensures
        parsed(f) matches Some(n) && {
            &&& n.app_name == filled_texts(f.static_texts)[0]
            &&& n.title == filled_texts(f.static_texts)[1]
            &&& n.app_name + "\n"@ + (n.title + "\n"@ + n.message) == text::joined(
                filled_texts(f.static_texts),
                "\n"@,
            )
        },
{
    let texts = filled_texts(f.static_texts);
    text::lemma_joined_front(texts, "\n"@);
    text::lemma_joined_front(texts.drop_first(), "\n"@);
    assert(texts.skip(2) =~= texts.drop_first().drop_first());
}

/// Without a hint that names it and with fewer than three texts, the
/// application is unknown.
pub proof fn law_application_is_unknown_without_hint_or_texts(f: BannerFieldsView)
    requires
        f.app_name_hint matches Some(hint) ==> app_from_hint(
            hint,
            filled_texts(f.static_texts),
        ) is None,
        filled_texts(f.static_texts).len() < 3,
    ensures
        parsed(f) matches Some(n) ==> n.app_name == "Unknown"@,
{
}

/// With fewer than three texts the application takes none of them: the first
/// is the title, and a second one is the body.
pub proof fn law_few_texts_are_title_and_body(f: BannerFieldsView)
    requires
        0 < filled_texts(f.static_texts).len() < 3,
    ensures
        parsed(f) matches Some(n) && {
            &&& n.title == filled_texts(f.static_texts)[0]
            &&& filled_texts(f.static_texts).len() == 2 ==> n.message == filled_texts(
                f.static_texts,
            )[1]
        },
{
    let texts = filled_texts(f.static_texts);
    if texts.len() == 2 {
        assert(texts.skip(1) =~= seq![texts[1]]);
        text::law_joining_adds_parts_in_order(texts, texts[1], "\n"@);
    }
}

/// Without any text the title attribute is the title. With one text or none
/// the description is the body, unless it just repeats the title or is blank,
/// and then there is no body.
pub proof fn law_attributes_stand_in_for_missing_texts(f: BannerFieldsView)
    requires
        filled_texts(f.static_texts).len() < 2,
    ensures
        parsed(f) matches Some(n) ==> {
            &&& filled_texts(f.static_texts).len() == 0 ==> filled(f.title_attr) == Some(n.title)
            &&& n.message.len() > 0 ==> filled(f.description_attr) == Some(n.message)
            &&& n.message.len() == 0 ==> filled(f.description_attr) is None || filled(
                f.description_attr,
            ) == Some(n.title)
        },
{
}

// ---------------------------------------------------------------------------
// What a hint says
// ---------------------------------------------------------------------------

/// Of the texts of a banner only the first has a say in what a hint names.
pub proof fn law_first_text_alone_guides_the_hint(
    hint: Seq<char>,
    first: Seq<char>,
    rest: Seq<Seq<char>>,
)
    ensures
        app_from_hint(hint, seq![first] + rest) == app_from_hint(hint, seq![first]),
{
    assert((seq![first] + rest)[0] == first);
}

/// Whether a hint is clean: no marks of direction, no white space at its ends.
pub open spec fn clean(hint: Seq<char>) -> bool {
    &&& forall|i: int| 0 <= i < hint.len() ==> !text::bidi_mark(#[trigger] hint[i])
    &&& text::starts_dense(hint)
    &&& text::ends_dense(hint)
}

proof fn lemma_filter_keeps_all(s: Seq<char>)
    requires
        forall|i: int| 0 <= i < s.len() ==> !text::bidi_mark(#[trigger] s[i]),
    ensures
        s.filter(|c: char| !text::bidi_mark(c)) == s,
    decreases s.len(),
{
    reveal(Seq::filter);
    if s.len() > 0 {
        let front = s.drop_last();
        assert forall|i: int| 0 <= i < front.len() implies !text::bidi_mark(
            #[trigger] front[i],
        ) by {
            assert(front[i] == s[i]);
        }
        lemma_filter_keeps_all(front);
        assert(!text::bidi_mark(s[s.len() - 1]));
        assert(front.push(s.last()) =~= s);
    } else {
        assert(s.filter(|c: char| !text::bidi_mark(c)) =~= s);
    }
}

proof fn lemma_clean_hint_stays(hint: Seq<char>)
    requires
        clean(hint),
    ensures
        cleaned_hint(hint) == hint,
{
    lemma_filter_keeps_all(hint);
    text::lemma_trimmed_is_same(hint);
}

/// A clean hint without a comma names the application itself, whatever the
/// texts of the banner are, unless it is empty or the container's name.
pub proof fn law_plain_hint_is_the_application(hint: Seq<char>, texts: Seq<Seq<char>>)
    requires
        clean(hint),
        hint.len() > 0,
        !generic_name(hint),
        !hint.contains(','),
    ensures
        app_from_hint(hint, texts) == Some(hint),
{
    lemma_clean_hint_stays(hint);
    text::lemma_cut_once_parts(hint, ',');
}

/// A spoken summary, the application, a comma and the first text of the banner
/// with anything behind it, names the application before the comma.
pub proof fn law_summary_names_the_application(
    app: Seq<char>,
    gap: Seq<char>,
    texts: Seq<Seq<char>>,
    behind: Seq<char>,
)
    requires
        texts.len() > 0,
        texts[0].len() > 0,
        text::starts_dense(texts[0]),
        text::blank(gap),
        app.len() > 0,
        text::ends_dense(app),
        !app.contains(','),
        !generic_name(app),
        clean(app + seq![','] + (gap + (texts[0] + behind))),
        !generic_name(app + seq![','] + (gap + (texts[0] + behind))),
    ensures
        app_from_hint(app + seq![','] + (gap + (texts[0] + behind)), texts) == Some(app),
{
    let shown = texts[0] + behind;
    let hint = app + seq![','] + (gap + shown);
    lemma_clean_hint_stays(hint);
    text::lemma_cut_once(app, ',', gap + shown);
    assert(hint[0] == app[0]);
    assert(shown[0] == texts[0][0]);
    text::law_trimming_the_start(gap, shown);
    text::law_found_text_is_surrounded(Seq::empty(), texts[0], behind);
    text::lemma_trimmed_is_same(app);
}

/// A hint with a comma is a name like any other where the first text of the
/// banner does not follow the comma, or where there is no text, or where no
/// application stands before the comma.
pub proof fn law_other_commas_stay(app: Seq<char>, summary: Seq<char>, texts: Seq<Seq<char>>)
    requires
        !app.contains(','),
        clean(app + seq![','] + summary),
        !generic_name(app + seq![','] + summary),
        texts.len() == 0 || !text::begins_with(text::trimmed_start(summary), texts[0])
            || text::blank(app) || generic_name(app),
    ensures
        app_from_hint(app + seq![','] + summary, texts) == Some(app + seq![','] + summary),
{
    let hint = app + seq![','] + summary;
    lemma_clean_hint_stays(hint);
    text::lemma_cut_once(app, ',', summary);
    let _ = text::law_trimming_takes_white_space_only(app);
    lemma_normalized_trimmed_start(app);
    lemma_normalized_trimmed_end(text::trimmed_start(app));
}

proof fn lemma_mark_is_filtered(a: Seq<char>, mark: char, b: Seq<char>)
    requires
        text::bidi_mark(mark),
    ensures
        (a.push(mark) + b).filter(|c: char| !text::bidi_mark(c)) == (a + b).filter(
            |c: char| !text::bidi_mark(c),
        ),
    decreases b.len(),
{
    reveal(Seq::filter);
    if b.len() == 0 {
        assert(a.push(mark) + b =~= a.push(mark));
        assert(a + b =~= a);
        assert(a.push(mark).drop_last() =~= a);
    } else {
        lemma_mark_is_filtered(a, mark, b.drop_last());
        assert((a.push(mark) + b).drop_last() =~= a.push(mark) + b.drop_last());
        assert((a + b).drop_last() =~= a + b.drop_last());
        assert((a.push(mark) + b).last() == b.last());
        assert((a + b).last() == b.last());
    }
}

/// A mark of direction makes no difference, wherever in a hint it stands: the
/// two marks of one character, the embeddings and overrides, the isolates, and
/// the byte order mark.
pub proof fn law_marks_of_direction_make_no_difference(
    a: Seq<char>,
    mark: char,
    b: Seq<char>,
    texts: Seq<Seq<char>>,
)
    requires
        mark == '\u{200e}' || mark == '\u{200f}' || '\u{202a}' <= mark <= '\u{202e}' || '\u{2066}'
            <= mark <= '\u{2069}' || mark == '\u{feff}',
    ensures
        app_from_hint(a.push(mark) + b, texts) == app_from_hint(a + b, texts),
{
    lemma_mark_is_filtered(a, mark, b);
}

proof fn lemma_filter_of_sum(a: Seq<char>, b: Seq<char>)
    ensures
        (a + b).filter(|c: char| !text::bidi_mark(c)) == a.filter(|c: char| !text::bidi_mark(c))
            + b.filter(|c: char| !text::bidi_mark(c)),
    decreases b.len(),
{
    reveal(Seq::filter);
    let keep = |c: char| !text::bidi_mark(c);
    if b.len() == 0 {
        assert(a + b =~= a);
        assert(a.filter(keep) + b.filter(keep) =~= a.filter(keep));
    } else {
        lemma_filter_of_sum(a, b.drop_last());
        assert((a + b).drop_last() =~= a + b.drop_last());
        assert((a + b).last() == b.last());
        if keep(b.last()) {
            assert(a.filter(keep) + b.drop_last().filter(keep).push(b.last()) =~= (a.filter(keep)
                + b.drop_last().filter(keep)).push(b.last()));
        }
    }
}

/// White space around a hint makes no difference.
pub proof fn law_white_space_around_a_hint_makes_no_difference(
    before: Seq<char>,
    hint: Seq<char>,
    behind: Seq<char>,
    texts: Seq<Seq<char>>,
)
    requires
        text::blank(before),
        text::blank(behind),
    ensures
        app_from_hint(before + hint + behind, texts) == app_from_hint(hint, texts),
{
    let keep = |c: char| !text::bidi_mark(c);
    lemma_filter_of_sum(before + hint, behind);
    lemma_filter_of_sum(before, hint);
    lemma_blank_unmarked(before);
    lemma_blank_unmarked(behind);
    let (b, m, e) = (before.filter(keep), hint.filter(keep), behind.filter(keep));
    let (p, q) = text::law_trimming_takes_white_space_only(m);
    let kept = text::trimmed(m);
    assert(text::blank(b + p)) by {
        assert forall|i: int| 0 <= i < (b + p).len() implies text::is_white_space(
            #[trigger] (b + p)[i],
        ) by {
            if i < b.len() {
                assert((b + p)[i] == b[i]);
            } else {
                assert((b + p)[i] == p[i - b.len()]);
            }
        }
    }
    assert(text::blank(q + e)) by {
        assert forall|i: int| 0 <= i < (q + e).len() implies text::is_white_space(
            #[trigger] (q + e)[i],
        ) by {
            if i < q.len() {
                assert((q + e)[i] == q[i]);
            } else {
                assert((q + e)[i] == e[i - q.len()]);
            }
        }
    }
    assert(b + m + e =~= (b + p) + kept + (q + e));
    text::law_trimming(b + p, kept, q + e);
}

proof fn lemma_normalized_skips(a: Seq<char>, c: char, b: Seq<char>)
    requires
        !text::letter_or_digit(c),
    ensures
        normalized(a.push(c) + b) == normalized(a + b),
    decreases b.len(),
{
    if b.len() == 0 {
        assert(a.push(c) + b =~= a.push(c));
        assert(a + b =~= a);
        assert(a.push(c).drop_last() =~= a);
    } else {
        lemma_normalized_skips(a, c, b.drop_last());
        assert((a.push(c) + b).drop_last() =~= a.push(c) + b.drop_last());
        assert((a + b).drop_last() =~= a + b.drop_last());
        assert((a.push(c) + b).last() == b.last());
        assert((a + b).last() == b.last());
    }
}

proof fn lemma_normalized_swaps(a: Seq<char>, c: char, d: char, b: Seq<char>)
    requires
        text::letter_or_digit(c),
        text::letter_or_digit(d),
        text::lowered_char(c) == text::lowered_char(d),
    ensures
        normalized(a.push(c) + b) == normalized(a.push(d) + b),
    decreases b.len(),
{
    if b.len() == 0 {
        assert(a.push(c) + b =~= a.push(c));
        assert(a.push(d) + b =~= a.push(d));
        assert(a.push(c).drop_last() =~= a);
        assert(a.push(d).drop_last() =~= a);
    } else {
        lemma_normalized_swaps(a, c, d, b.drop_last());
        assert((a.push(c) + b).drop_last() =~= a.push(c) + b.drop_last());
        assert((a.push(d) + b).drop_last() =~= a.push(d) + b.drop_last());
        assert((a.push(c) + b).last() == b.last());
        assert((a.push(d) + b).last() == b.last());
    }
}

/// Spaces, signs and other characters that are neither letters nor digits make
/// no difference to which name it is, and neither does the case of an ASCII
/// letter.
pub proof fn law_container_name_in_any_writing(a: Seq<char>, c: char, b: Seq<char>)
    ensures
        !text::letter_or_digit(c) ==> generic_name(a.push(c) + b) == generic_name(a + b),
        'A' <= c <= 'Z' ==> generic_name(a.push(c) + b) == generic_name(
            a.push(((c as u32) + 32) as char) + b,
        ),
{
    if !text::letter_or_digit(c) {
        lemma_normalized_skips(a, c, b);
    }
    if 'A' <= c <= 'Z' {
        lemma_normalized_swaps(a, c, ((c as u32) + 32) as char, b);
    }
}

proof fn lemma_normalized_lowercase(s: Seq<char>)
    requires
        forall|i: int| 0 <= i < s.len() ==> 'a' <= #[trigger] s[i] <= 'z' || '0' <= s[i] <= '9',
    ensures
        normalized(s) == s,
    decreases s.len(),
{
    if s.len() > 0 {
        let front = s.drop_last();
        assert forall|i: int| 0 <= i < front.len() implies 'a' <= #[trigger] front[i] <= 'z'
            || '0' <= front[i] <= '9' by {
            assert(front[i] == s[i]);
        }
        lemma_normalized_lowercase(front);
        let c = s[s.len() - 1];
        assert(text::lowered_char(c) =~= seq![c]);
        assert(front + seq![c] =~= s);
    } else {
        assert(normalized(s) =~= s);
    }
}

/// Among the names of small letters and digits the container has these five, and
/// no other: in particular, no other application is taken for it.
pub proof fn law_container_has_five_names(s: Seq<char>)
    requires
        forall|i: int| 0 <= i < s.len() ==> 'a' <= #[trigger] s[i] <= 'z' || '0' <= s[i] <= '9',
    ensures
        generic_name(s) <==> {
            ||| s == "notificationcenter"@
            ||| s == "notificationcentre"@
            ||| s == "notifications"@
            ||| s == "notification"@
            ||| s == "controlcenter"@
        },
{
    lemma_normalized_lowercase(s);
}

/// The letters and digits of a text are those of its parts, in their order, each
/// in lower case; nothing else of it counts.
pub proof fn law_letters_and_digits_add_up(a: Seq<char>, b: Seq<char>, c: char)
    ensures
        normalized(a + b) == normalized(a) + normalized(b),
        text::letter_or_digit(c) ==> normalized(seq![c]) == text::lowered_char(c),
        !text::letter_or_digit(c) ==> normalized(seq![c]) == Seq::<char>::empty(),
    decreases b.len(),
{
    assert(seq![c].drop_last() =~= Seq::empty());
    assert(normalized(seq![c].drop_last()) =~= Seq::<char>::empty());
    assert(Seq::<char>::empty() + text::lowered_char(c) =~= text::lowered_char(c));
    if b.len() == 0 {
        assert(a + b =~= a);
        assert(normalized(a) + normalized(b) =~= normalized(a));
    } else {
        law_letters_and_digits_add_up(a, b.drop_last(), c);
        assert((a + b).drop_last() =~= a + b.drop_last());
        assert((a + b).last() == b.last());
        assert(normalized(a + b) =~= normalized(a) + normalized(b));
    }
}

/// What the fields of a banner say is what each of them holds.
pub proof fn law_fields_say_what_they_hold(f: BannerFields)
    ensures
        f@.identifier == text::opt_text(f.identifier),
        f@.app_name_hint == text::opt_text(f.app_name_hint),
        f@.title_attr == text::opt_text(f.title_attr),
        f@.description_attr == text::opt_text(f.description_attr),
        f@.static_texts == text::texts(f.static_texts@),
{
}

} // verus!
