//! Finding banners in the hierarchy of Notification Center.
//!
//! A banner shows by its subrole. On macOS versions without that subrole, a
//! group or row with an identifier that speaks of a banner or a notification
//! counts as one too.

use crate::element;
use crate::element::{collect_texts, get_string, holds, AxElement};
use crate::parser;
use crate::parser::{is_generic_app_name, BannerFields, BannerFieldsView};
use crate::rows;
use crate::tables::copy_texts;
use crate::text;
use crate::text::{contains, copy_opt};
use vstd::prelude::*;
use vstd::string::*;

verus! {

/// One banner as it was found.
#[derive(Debug)]
pub struct BannerSnapshot {
    /// Identifier of the element, if it exposes one. It may repeat from scan to
    /// scan and does not identify the notification.
    pub ax_id: Option<String>,
    /// Best guess at the owning application, from what is around the banner.
    pub app_name_hint: Option<String>,
    pub title_attr: Option<String>,
    pub description_attr: Option<String>,
    /// Texts inside the banner, in their order.
    pub static_texts: Vec<String>,
}

impl View for BannerSnapshot {
    type V = BannerFieldsView;

    open spec fn view(&self) -> BannerFieldsView {
        BannerFieldsView {
            identifier: text::opt_text(self.ax_id),
            app_name_hint: text::opt_text(self.app_name_hint),
            title_attr: text::opt_text(self.title_attr),
            description_attr: text::opt_text(self.description_attr),
            static_texts: text::texts(self.static_texts@),
        }
    }
}

impl Clone for BannerSnapshot {
    fn clone(&self) -> (r: BannerSnapshot)
        ensures
            r@ == self@,
    {
        BannerSnapshot {
            ax_id: copy_opt(&self.ax_id),
            app_name_hint: copy_opt(&self.app_name_hint),
            title_attr: copy_opt(&self.title_attr),
            description_attr: copy_opt(&self.description_attr),
            static_texts: copy_texts(&self.static_texts),
        }
    }
}

impl BannerSnapshot {
    /// The fields to parse.
    pub fn into_fields(self) -> (r: BannerFields)
        ensures
            r@ == self@,
    {
        BannerFields {
            identifier: self.ax_id,
            app_name_hint: self.app_name_hint,
            title_attr: self.title_attr,
            description_attr: self.description_attr,
            static_texts: self.static_texts,
        }
    }
}

/// What a list of banners says.
pub open spec fn banner_views(banners: Seq<BannerSnapshot>) -> Seq<BannerFieldsView> {
    banners.map_values(|b: BannerSnapshot| b@)
}

// ---------------------------------------------------------------------------
// The walk
// ---------------------------------------------------------------------------

/// How deep a scan goes.
pub const SCAN_DEPTH: usize = 14;

/// How many children of one element a scan looks at.
pub const SCAN_CHILDREN: usize = 60;

/// How many elements a scan looks at.
pub const MAX_SCAN_NODES: usize = 801;

/// How many banners a scan finds.
pub const MAX_BANNERS: usize = 50;

/// How deep in a banner its texts are looked for.
pub const BANNER_TEXT_DEPTH: usize = 4;

/// How deep an element must lie to count as a banner without the subrole.
pub const FALLBACK_DEPTH: usize = 3;

/// The hint at the owning application that holds at an element and below it:
/// the one from above, else the title or description of a window or group. The
/// name of the container of all notifications is none.
pub open spec fn hint_at(element: AxElement, above: Option<Seq<char>>) -> Option<Seq<char>> {
    let kept = match above {
        Some(hint) => if parser::generic_name(hint) {
            None
        } else {
            Some(hint)
        },
        None => None,
    };
    let role = element::attribute(element, "AXRole"@);
    if kept is None && (role == Some("AXWindow"@) || role == Some("AXGroup"@)) {
        let candidate = match element::attribute(element, "AXTitle"@) {
            Some(title) => Some(title),
            None => element::attribute(element, "AXDescription"@),
        };
        match candidate {
            Some(name) => if parser::generic_name(name) {
                None
            } else {
                Some(name)
            },
            None => None,
        }
    } else {
        kept
    }
}

/// An element that a scan comes to.
pub struct Visit {
    pub element: AxElement,
    pub depth: nat,
    pub hint: Option<Seq<char>>,
}

/// The elements that a scan comes to from an element on, each before its
/// children.
pub open spec fn visits(element: AxElement, depth: nat, above: Option<Seq<char>>) -> Seq<Visit>
    decreases element, 0nat,
{
    if depth > SCAN_DEPTH {
        Seq::empty()
    } else {
        let hint = hint_at(element, above);
        let here = Visit { element, depth, hint };
        match element.children {
            None => seq![here],
            Some(children) => seq![here] + visits_of(
                children@,
                if children@.len() < SCAN_CHILDREN {
                    children@.len()
                } else {
                    SCAN_CHILDREN as nat
                },
                depth + 1,
                hint,
            ),
        }
    }
}

/// The same for the first `count` elements, one after another.
pub open spec fn visits_of(
    elements: Seq<AxElement>,
    count: nat,
    depth: nat,
    above: Option<Seq<char>>,
) -> Seq<Visit>
    decreases elements, count,
{
    if count == 0 || count > elements.len() {
        Seq::empty()
    } else {
        visits_of(elements, (count - 1) as nat, depth, above) + visits(
            elements[count - 1],
            depth,
            above,
        )
    }
}

/// Whether an identifier, in lower case, speaks of a banner or a notification.
pub open spec fn banner_word(identifier: Seq<char>) -> bool {
    text::occurs_in("banner"@, identifier) || text::occurs_in("notification"@, identifier)
}

/// Whether an element without the banner subrole looks like a banner.
pub open spec fn fallback_banner(element: AxElement) -> bool {
    let role = element::attribute(element, "AXRole"@);
    &&& element::attribute(element, "AXIdentifier"@) matches Some(id) && banner_word(
        text::lowered(id),
    )
    &&& role is None || role == Some("AXGroup"@) || role == Some("AXRow"@)
}

/// Whether an element is a banner.
pub open spec fn is_banner(visit: Visit) -> bool {
    ||| element::attribute(visit.element, "AXSubrole"@) == Some("AXNotificationCenterBanner"@)
    ||| visit.depth >= FALLBACK_DEPTH && fallback_banner(visit.element)
}

/// What is kept of a banner.
pub open spec fn snapshot(visit: Visit) -> BannerFieldsView {
    BannerFieldsView {
        identifier: element::attribute(visit.element, "AXIdentifier"@),
        app_name_hint: visit.hint,
        title_attr: element::attribute(visit.element, "AXTitle"@),
        description_attr: element::attribute(visit.element, "AXDescription"@),
        static_texts: element::texts_below(visit.element, BANNER_TEXT_DEPTH as nat),
    }
}

/// The banners among the elements that a scan comes to.
pub open spec fn found(visits: Seq<Visit>) -> Seq<BannerFieldsView>
    decreases visits.len(),
{
    if visits.len() == 0 {
        Seq::empty()
    } else if is_banner(visits.last()) {
        found(visits.drop_last()).push(snapshot(visits.last()))
    } else {
        found(visits.drop_last())
    }
}

/// What a scan finds below an element.
pub open spec fn scanned(app: AxElement) -> Seq<BannerFieldsView> {
    rows::first(
        found(rows::first(visits(app, 0, None), MAX_SCAN_NODES as nat)),
        MAX_BANNERS as nat,
    )
}

/// Elements that come later change nothing about the banners found so far.
proof fn lemma_found_is_prefix(a: Seq<Visit>, b: Seq<Visit>)
    ensures
        found(a).len() <= found(a + b).len(),
        found(a) == found(a + b).take(found(a).len() as int),
    decreases b.len(),
{
    if b.len() == 0 {
        assert(a + b =~= a);
        assert(found(a).take(found(a).len() as int) =~= found(a));
    } else {
        lemma_found_is_prefix(a, b.drop_last());
        assert((a + b).drop_last() =~= a + b.drop_last());
        assert(found(a + b).take(found(a).len() as int) =~= found(a + b.drop_last()).take(
            found(a).len() as int,
        ));
    }
}

/// Once there are as many banners as a scan finds, what follows adds none.
proof fn lemma_found_enough(a: Seq<Visit>, b: Seq<Visit>)
    requires
        a.len() <= MAX_SCAN_NODES,
        found(a).len() >= MAX_BANNERS,
    ensures
        rows::first(
            found(rows::first(a + b, MAX_SCAN_NODES as nat)),
            MAX_BANNERS as nat,
        ) == rows::first(found(a), MAX_BANNERS as nat),
{
    let all = rows::first(a + b, MAX_SCAN_NODES as nat);
    let rest = all.skip(a.len() as int);
    assert(all =~= a + rest);
    lemma_found_is_prefix(a, rest);
    assert(rows::first(found(all), MAX_BANNERS as nat) =~= rows::first(
        found(a),
        MAX_BANNERS as nat,
    ));
}

// ---------------------------------------------------------------------------
// The scan
// ---------------------------------------------------------------------------

/// Whether a name is that of the container of all notifications, which is no
/// hint at an application.
pub fn is_generic_app_hint(value: &str) -> (r: bool)
    ensures
        r == parser::generic_name(value@),
{
    is_generic_app_name(value)
}

fn find_hint(element: &AxElement, role: &Option<String>, above: &Option<String>) -> (r: Option<
    String,
>)
    requires
        text::opt_text(*role) == element::attribute(*element, "AXRole"@),
    ensures
        text::opt_text(r) == hint_at(*element, text::opt_text(*above)),
{
    if let Some(hint) = above {
        if !is_generic_app_hint(hint.as_str()) {
            return Some(hint.clone());
        }
    }
    if holds(role, "AXWindow") || holds(role, "AXGroup") {
        let candidate = match get_string(element, "AXTitle") {
            Some(title) => Some(title),
            None => get_string(element, "AXDescription"),
        };
        if let Some(name) = candidate {
            if !is_generic_app_hint(name.as_str()) {
                return Some(name);
            }
        }
    }
    None
}

/// Whether an identifier, in lower case, speaks of a banner or a notification.
pub fn speaks_of_banner(identifier: &str) -> (r: bool)
    ensures
        r == banner_word(identifier@),
{
    contains(identifier, "banner") || contains(identifier, "notification")
}

fn is_fallback_banner(element: &AxElement, role: &Option<String>) -> (r: bool)
    requires
        text::opt_text(*role) == element::attribute(*element, "AXRole"@),
    ensures
        r == fallback_banner(*element),
{
    let looks_like_banner = match get_string(element, "AXIdentifier") {
        Some(id) => {
            let lowered = id.as_str().to_lowercase();
            speaks_of_banner(lowered.as_str())
        },
        None => false,
    };
    looks_like_banner && (role.is_none() || holds(role, "AXGroup") || holds(role, "AXRow"))
}

fn snapshot_banner(element: &AxElement, app_hint: Option<String>, Ghost(depth): Ghost<nat>) -> (r:
    BannerSnapshot)
    ensures
        r@ == snapshot(Visit { element: *element, depth, hint: text::opt_text(app_hint) }),
{
    BannerSnapshot {
        ax_id: get_string(element, "AXIdentifier"),
        app_name_hint: app_hint,
        title_attr: get_string(element, "AXTitle"),
        description_attr: get_string(element, "AXDescription"),
        static_texts: collect_texts(element, BANNER_TEXT_DEPTH),
    }
}

/// Whether an element that lies this deep is a banner, by its own attributes.
pub fn is_banner_at(element: &AxElement, depth: usize) -> (r: bool)
    ensures
        forall|hint: Option<Seq<char>>|
            r == #[trigger] is_banner(Visit { element: *element, depth: depth as nat, hint }),
{
    let subrole = get_string(element, "AXSubrole");
    let role = get_string(element, "AXRole");
    holds(&subrole, "AXNotificationCenterBanner") || depth >= FALLBACK_DEPTH && is_fallback_banner(
        element,
        &role,
    )
}

/// Whether `banners` and `visited` are what a scan has after these elements.
spec fn scan_state(seen: Seq<Visit>, banners: Seq<BannerSnapshot>, visited: usize) -> bool {
    &&& seen.len() <= MAX_SCAN_NODES
    &&& visited <= MAX_SCAN_NODES
    &&& banner_views(banners) == rows::first(found(seen), MAX_BANNERS as nat)
    &&& banners.len() < MAX_BANNERS ==> visited == seen.len()
}

fn scan_inner(
    element: &AxElement,
    depth: usize,
    banners: &mut Vec<BannerSnapshot>,
    visited: &mut usize,
    app_hint: &Option<String>,
    Ghost(seen): Ghost<Seq<Visit>>,
)
    requires
        depth <= SCAN_DEPTH,
        scan_state(seen, old(banners)@, *old(visited)),
    ensures
        scan_state(
            rows::first(
                seen + visits(*element, depth as nat, text::opt_text(*app_hint)),
                MAX_SCAN_NODES as nat,
            ),
            final(banners)@,
            *final(visited),
        ),
    decreases SCAN_DEPTH - depth,
{
    let ghost d = depth as nat;
    let ghost above = text::opt_text(*app_hint);
    let ghost walk = visits(*element, d, above);
    if banners.len() >= MAX_BANNERS {
        proof {
            lemma_found_enough(seen, walk);
        }
        return;
    }
    if *visited >= MAX_SCAN_NODES {
        assert(rows::first(seen + walk, MAX_SCAN_NODES as nat) =~= seen);
        return;
    }
    *visited = *visited + 1;
    let role = get_string(element, "AXRole");
    let hint = find_hint(element, &role, app_hint);
    let ghost visit = Visit { element: *element, depth: d, hint: text::opt_text(hint) };
    let ghost here = seen.push(visit);
    assert(here.drop_last() =~= seen);
    let banner = is_banner_at(element, depth);
    assert(banner == is_banner(visit));
    if banner {
        let ghost before = banner_views(banners@);
        let one = snapshot_banner(element, copy_opt(&hint), Ghost(d));
        banners.push(one);
        assert(banner_views(banners@) =~= before.push(one@));
    }
    assert(scan_state(here, banners@, *visited));
    match &element.children {
        None => {
            assert(seen + walk =~= here);
        },
        Some(children) => {
            let count: usize = if children.len() < SCAN_CHILDREN {
                children.len()
            } else {
                SCAN_CHILDREN
            };
            let ghost mut now = here;
            assert(here =~= rows::first(
                here + visits_of(children@, 0, d + 1, visit.hint),
                MAX_SCAN_NODES as nat,
            ));
            for i in 0..count
                invariant
                    depth <= SCAN_DEPTH,
                    d == depth,
                    visit.hint == text::opt_text(hint),
                    count <= children@.len(),
                    now == rows::first(
                        here + visits_of(children@, i as nat, d + 1, visit.hint),
                        MAX_SCAN_NODES as nat,
                    ),
                    scan_state(now, banners@, *visited),
            {
                let ghost below = visits(children@[i as int], d + 1, visit.hint);
                let ghost next = rows::first(now + below, MAX_SCAN_NODES as nat);
                if depth < SCAN_DEPTH {
                    scan_inner(&children[i], depth + 1, banners, visited, &hint, Ghost(now));
                } else {
                    assert(next =~= now);
                }
                proof {
                    let sofar = here + visits_of(children@, i as nat, d + 1, visit.hint);
                    rows::lemma_first_of_sum(sofar, below, MAX_SCAN_NODES as nat);
                    assert(sofar + below =~= here + visits_of(
                        children@,
                        (i + 1) as nat,
                        d + 1,
                        visit.hint,
                    ));
                    now = next;
                }
            }
            assert(seen + walk =~= here + visits_of(children@, count as nat, d + 1, visit.hint));
        },
    }
}

/// Looks for banners below the element of Notification Center.
pub fn scan_for_banners(app: &AxElement) -> (r: Vec<BannerSnapshot>)
    ensures
        banner_views(r@) == scanned(*app),
{
    let mut banners: Vec<BannerSnapshot> = Vec::new();
    let mut visited: usize = 0;
    assert(banner_views(banners@) =~= Seq::empty());
    scan_inner(app, 0, &mut banners, &mut visited, &None, Ghost(Seq::<Visit>::empty()));
    assert(Seq::<Visit>::empty() + visits(*app, 0, None) =~= visits(*app, 0, None));
    banners
}

// ---------------------------------------------------------------------------
// Laws
// ---------------------------------------------------------------------------

/// A hint is never the name of the container of all notifications.
pub proof fn law_hints_never_name_the_container(element: AxElement, above: Option<Seq<char>>)
    ensures
        hint_at(element, above) matches Some(hint) ==> !parser::generic_name(hint),
{
}

/// The nearest name from above holds: a hint that is there is never replaced
/// further down.
pub proof fn law_outer_hint_holds(element: AxElement, above: Seq<char>)
    requires
        !parser::generic_name(above),
    ensures
        hint_at(element, Some(above)) == Some(above),
{
}

proof fn lemma_hints_in_visits(element: AxElement, depth: nat, above: Option<Seq<char>>)
    ensures
        forall|i: int|
            0 <= i < visits(element, depth, above).len() ==> (#[trigger] visits(
                element,
                depth,
                above,
            )[i].hint matches Some(hint) ==> !parser::generic_name(hint)),
    decreases element, 0nat,
{
    if depth <= SCAN_DEPTH {
        if let Some(children) = element.children {
            let count = if children@.len() < SCAN_CHILDREN {
                children@.len()
            } else {
                SCAN_CHILDREN as nat
            };
            lemma_hints_in_visits_of(children@, count, depth + 1, hint_at(element, above));
        }
    }
}

proof fn lemma_hints_in_visits_of(
    elements: Seq<AxElement>,
    count: nat,
    depth: nat,
    above: Option<Seq<char>>,
)
    ensures
        forall|i: int|
            0 <= i < visits_of(elements, count, depth, above).len() ==> (#[trigger] visits_of(
                elements,
                count,
                depth,
                above,
            )[i].hint matches Some(hint) ==> !parser::generic_name(hint)),
    decreases elements, count,
{
    if 0 < count <= elements.len() {
        lemma_hints_in_visits_of(elements, (count - 1) as nat, depth, above);
        lemma_hints_in_visits(elements[count - 1], depth, above);
    }
}

proof fn lemma_hints_in_found(visits: Seq<Visit>)
    requires
        forall|i: int|
            0 <= i < visits.len() ==> (#[trigger] visits[i].hint matches Some(hint)
                ==> !parser::generic_name(hint)),
    ensures
        forall|i: int|
            0 <= i < found(visits).len() ==> (#[trigger] found(
                visits,
            )[i].app_name_hint matches Some(hint) ==> !parser::generic_name(hint)),
    decreases visits.len(),
{
    if visits.len() > 0 {
        assert(visits[visits.len() - 1] == visits.last());
        lemma_hints_in_found(visits.drop_last());
    }
}

/// A scan finds at most fifty banners, and none of them is taken to come from
/// the container of all notifications.
pub proof fn law_scans_are_bounded_and_hints_specific(app: AxElement)
    ensures
        scanned(app).len() <= MAX_BANNERS,
        forall|i: int|
            0 <= i < scanned(app).len() ==> (#[trigger] scanned(app)[i].app_name_hint matches Some(
                hint,
            ) ==> !parser::generic_name(hint)),
{
    lemma_hints_in_visits(app, 0, None);
    lemma_hints_in_found(rows::first(visits(app, 0, None), MAX_SCAN_NODES as nat));
}

/// Whether the attributes of an element mark it as a banner where it lies this
/// deep: by the subrole of banners, or, three levels down or more, by an
/// identifier that speaks of a banner or a notification on a group, a row or an
/// element without a role.
pub open spec fn marked(element: AxElement, depth: int) -> bool {
    let attributes = element.attributes@;
    ||| element::says(attributes, "AXSubrole"@, Some("AXNotificationCenterBanner"@))
    ||| {
        &&& depth >= 3
        &&& exists|id: Seq<char>| #[trigger]
            element::says(attributes, "AXIdentifier"@, Some(id)) && (text::occurs_in(
                "banner"@,
                text::lowered(id),
            ) || text::occurs_in("notification"@, text::lowered(id)))
        &&& {
            ||| element::says(attributes, "AXRole"@, None)
            ||| element::says(attributes, "AXRole"@, Some("AXGroup"@))
            ||| element::says(attributes, "AXRole"@, Some("AXRow"@))
        }
    }
}

/// The name that an element gives to what is below it: a window or a group by
/// its title, or by its description where it has none. The name of the
/// container of all notifications is none.
pub open spec fn given_name(element: AxElement, name: Seq<char>) -> bool {
    let attributes = element.attributes@;
    &&& element::says(attributes, "AXRole"@, Some("AXWindow"@)) || element::says(
        attributes,
        "AXRole"@,
        Some("AXGroup"@),
    )
    &&& element::says(attributes, "AXTitle"@, Some(name)) || element::says(
        attributes,
        "AXTitle"@,
        None,
    ) && element::says(attributes, "AXDescription"@, Some(name))
    &&& !parser::generic_name(name)
}

/// Whether a name, or none, is the outermost one that is given on a way down.
pub open spec fn outermost(element: AxElement, way: Seq<int>, name: Option<Seq<char>>) -> bool
    decreases way.len(),
{
    ||| name matches Some(n) && given_name(element, n)
    ||| {
        &&& forall|n: Seq<char>| !#[trigger] given_name(element, n)
        &&& if way.len() == 0 {
            name is None
        } else {
            element.children matches Some(children) && 0 <= way[0] < children@.len() && outermost(
                children@[way[0]],
                way.drop_first(),
                name,
            )
        }
    }
}

/// Whether a banner is what the element at the end of a way down shows: a marked
/// element, with what its own attributes say, the outermost name on the way to
/// it, and the texts of what it holds.
pub open spec fn shown_at(app: AxElement, way: Seq<int>, banner: BannerFieldsView) -> bool {
    &&& way.len() <= 14
    &&& element::narrow(way, 60)
    &&& element::at(app, way) matches Some(e) && {
        &&& marked(e, way.len() as int)
        &&& element::says(e.attributes@, "AXIdentifier"@, banner.identifier)
        &&& element::says(e.attributes@, "AXTitle"@, banner.title_attr)
        &&& element::says(e.attributes@, "AXDescription"@, banner.description_attr)
        &&& banner.static_texts == element::texts_below(e, 4)
    }
    &&& outermost(app, way, banner.app_name_hint)
}

proof fn lemma_marked(element: AxElement, depth: nat, hint: Option<Seq<char>>)
    ensures
        is_banner(Visit { element, depth, hint }) == marked(element, depth as int),
{
    let attributes = element.attributes@;
    let subrole = element::attribute(element, "AXSubrole"@);
    let role = element::attribute(element, "AXRole"@);
    let id = element::attribute(element, "AXIdentifier"@);
    element::law_attributes_are_read_off_the_list(element, "AXSubrole"@);
    element::law_attributes_are_read_off_the_list(element, "AXRole"@);
    element::law_attributes_are_read_off_the_list(element, "AXIdentifier"@);
    if marked(element, depth as int) {
        let wanted = Some("AXNotificationCenterBanner"@);
        if element::says(attributes, "AXSubrole"@, wanted) {
            element::law_a_list_says_one_thing(attributes, "AXSubrole"@, subrole, wanted);
        } else {
            let said = choose|said: Seq<char>| #[trigger]
                element::says(attributes, "AXIdentifier"@, Some(said)) && (text::occurs_in(
                    "banner"@,
                    text::lowered(said),
                ) || text::occurs_in("notification"@, text::lowered(said)));
            element::law_a_list_says_one_thing(attributes, "AXIdentifier"@, id, Some(said));
            if element::says(attributes, "AXRole"@, None) {
                element::law_a_list_says_one_thing(attributes, "AXRole"@, role, None);
            } else if element::says(attributes, "AXRole"@, Some("AXGroup"@)) {
                element::law_a_list_says_one_thing(
                    attributes,
                    "AXRole"@,
                    role,
                    Some("AXGroup"@),
                );
            } else {
                element::law_a_list_says_one_thing(attributes, "AXRole"@, role, Some("AXRow"@));
            }
        }
    }
}

proof fn lemma_given_name(element: AxElement, above: Option<Seq<char>>)
    requires
        above matches Some(hint) ==> parser::generic_name(hint),
    ensures
        match hint_at(element, above) {
            Some(name) => given_name(element, name),
            None => forall|name: Seq<char>| !#[trigger] given_name(element, name),
        },
{
    let attributes = element.attributes@;
    let role = element::attribute(element, "AXRole"@);
    let title = element::attribute(element, "AXTitle"@);
    let description = element::attribute(element, "AXDescription"@);
    element::law_attributes_are_read_off_the_list(element, "AXRole"@);
    element::law_attributes_are_read_off_the_list(element, "AXTitle"@);
    element::law_attributes_are_read_off_the_list(element, "AXDescription"@);
    assert forall|name: Seq<char>| #[trigger] given_name(element, name) implies hint_at(
        element,
        above,
    ) is Some by {
        if element::says(attributes, "AXRole"@, Some("AXWindow"@)) {
            element::law_a_list_says_one_thing(attributes, "AXRole"@, role, Some("AXWindow"@));
        } else {
            element::law_a_list_says_one_thing(attributes, "AXRole"@, role, Some("AXGroup"@));
        }
        if element::says(attributes, "AXTitle"@, Some(name)) {
            element::law_a_list_says_one_thing(attributes, "AXTitle"@, title, Some(name));
        } else {
            element::law_a_list_says_one_thing(attributes, "AXTitle"@, title, None);
            element::law_a_list_says_one_thing(
                attributes,
                "AXDescription"@,
                description,
                Some(name),
            );
        }
    }
}

/// Whether a hint is the one from above where there is one, and otherwise the
/// outermost name on the way.
spec fn hint_fits(
    element: AxElement,
    way: Seq<int>,
    above: Option<Seq<char>>,
    hint: Option<Seq<char>>,
) -> bool {
    match above {
        Some(name) => hint == Some(name),
        None => outermost(element, way, hint),
    }
}

proof fn lemma_visit_way(element: AxElement, depth: nat, above: Option<Seq<char>>, i: int) -> (way:
    Seq<int>)
    requires
        0 <= i < visits(element, depth, above).len(),
        above matches Some(hint) ==> !parser::generic_name(hint),
    ensures
        element::at(element, way) == Some(visits(element, depth, above)[i].element),
        visits(element, depth, above)[i].depth == depth + way.len(),
        depth + way.len() <= SCAN_DEPTH,
        element::narrow(way, SCAN_CHILDREN as int),
        hint_fits(element, way, above, visits(element, depth, above)[i].hint),
    decreases element, 0nat,
{
    let hint = hint_at(element, above);
    if above is None {
        lemma_given_name(element, above);
    }
    if i == 0 {
        Seq::empty()
    } else {
        let children = element.children->0;
        let count = if children@.len() < SCAN_CHILDREN {
            children@.len()
        } else {
            SCAN_CHILDREN as nat
        };
        let (k, rest) = lemma_visit_of_way(children@, count, depth + 1, hint, i - 1);
        element::lemma_narrow_longer(k, rest, SCAN_CHILDREN as int);
        seq![k] + rest
    }
}

proof fn lemma_visit_of_way(
    elements: Seq<AxElement>,
    count: nat,
    depth: nat,
    above: Option<Seq<char>>,
    i: int,
) -> (r: (int, Seq<int>))
    requires
        count <= SCAN_CHILDREN,
        0 <= i < visits_of(elements, count, depth, above).len(),
        above matches Some(hint) ==> !parser::generic_name(hint),
    ensures
        0 <= r.0 < count,
        r.0 < elements.len(),
        element::at(elements[r.0], r.1) == Some(
            visits_of(elements, count, depth, above)[i].element,
        ),
        visits_of(elements, count, depth, above)[i].depth == depth + r.1.len(),
        depth + r.1.len() <= SCAN_DEPTH,
        element::narrow(r.1, SCAN_CHILDREN as int),
        hint_fits(elements[r.0], r.1, above, visits_of(elements, count, depth, above)[i].hint),
    decreases elements, count,
{
    let before = visits_of(elements, (count - 1) as nat, depth, above);
    if i < before.len() {
        lemma_visit_of_way(elements, (count - 1) as nat, depth, above, i)
    } else {
        let way = lemma_visit_way(elements[count - 1], depth, above, i - before.len());
        (count - 1, way)
    }
}

proof fn lemma_visits_of_have(
    elements: Seq<AxElement>,
    count: nat,
    depth: nat,
    above: Option<Seq<char>>,
    k: int,
    j: int,
) -> (i: int)
    requires
        0 <= k < count <= elements.len(),
        0 <= j < visits(elements[k], depth, above).len(),
    ensures
        0 <= i < visits_of(elements, count, depth, above).len(),
        visits_of(elements, count, depth, above)[i] == visits(elements[k], depth, above)[j],
    decreases count,
{
    let before = visits_of(elements, (count - 1) as nat, depth, above);
    if k == count - 1 {
        before.len() + j
    } else {
        lemma_visits_of_have(elements, (count - 1) as nat, depth, above, k, j)
    }
}

proof fn lemma_visits_have(
    element: AxElement,
    depth: nat,
    above: Option<Seq<char>>,
    way: Seq<int>,
) -> (i: int)
    requires
        element::at(element, way) is Some,
        depth + way.len() <= SCAN_DEPTH,
        element::narrow(way, SCAN_CHILDREN as int),
        above matches Some(hint) ==> !parser::generic_name(hint),
    ensures
        0 <= i < visits(element, depth, above).len(),
        element::at(element, way) == Some(visits(element, depth, above)[i].element),
        visits(element, depth, above)[i].depth == depth + way.len(),
        hint_fits(element, way, above, visits(element, depth, above)[i].hint),
    decreases way.len(),
{
    let hint = hint_at(element, above);
    if above is None {
        lemma_given_name(element, above);
    }
    if way.len() == 0 {
        0
    } else {
        let children = element.children->0;
        let count = if children@.len() < SCAN_CHILDREN {
            children@.len()
        } else {
            SCAN_CHILDREN as nat
        };
        element::lemma_narrow_tail(way, SCAN_CHILDREN as int);
        let j = lemma_visits_have(children@[way[0]], depth + 1, hint, way.drop_first());
        let i = lemma_visits_of_have(children@, count, depth + 1, hint, way[0], j);
        i + 1
    }
}

proof fn lemma_found_from(visits: Seq<Visit>, k: int) -> (i: int)
    requires
        0 <= k < found(visits).len(),
    ensures
        0 <= i < visits.len(),
        is_banner(visits[i]),
        found(visits)[k] == snapshot(visits[i]),
    decreases visits.len(),
{
    let before = found(visits.drop_last());
    if k < before.len() {
        lemma_found_from(visits.drop_last(), k)
    } else {
        visits.len() - 1
    }
}

proof fn lemma_found_has(visits: Seq<Visit>, i: int) -> (k: int)
    requires
        0 <= i < visits.len(),
        is_banner(visits[i]),
    ensures
        0 <= k < found(visits).len(),
        found(visits)[k] == snapshot(visits[i]),
    decreases visits.len(),
{
    if i == visits.len() - 1 {
        found(visits.drop_last()).len() as int
    } else {
        lemma_found_has(visits.drop_last(), i)
    }
}

proof fn lemma_snapshot_shown(app: AxElement, way: Seq<int>, visit: Visit)
    requires
        way.len() <= SCAN_DEPTH,
        element::narrow(way, SCAN_CHILDREN as int),
        element::at(app, way) == Some(visit.element),
        visit.depth == way.len(),
        hint_fits(app, way, None, visit.hint),
        is_banner(visit),
    ensures
        shown_at(app, way, snapshot(visit)),
{
    let e = visit.element;
    lemma_marked(e, visit.depth, visit.hint);
    element::law_attributes_are_read_off_the_list(e, "AXIdentifier"@);
    element::law_attributes_are_read_off_the_list(e, "AXTitle"@);
    element::law_attributes_are_read_off_the_list(e, "AXDescription"@);
}

/// Every banner that a scan finds is shown by an element on some way down. Its
/// identifier, title and description are what the attributes of that element
/// say, there exactly where the attribute is there and not blank.
pub proof fn law_found_banners_are_in_the_tree(app: AxElement, k: int) -> (way: Seq<int>)
    requires
        0 <= k < scanned(app).len(),
    ensures
        shown_at(app, way, scanned(app)[k]),
{
    let all = visits(app, 0, None);
    let seen = rows::first(all, MAX_SCAN_NODES as nat);
    let i = lemma_found_from(seen, k);
    assert(seen[i] == all[i]);
    let way = lemma_visit_way(app, 0, None, i);
    lemma_snapshot_shown(app, way, all[i]);
    way
}

/// Every marked element is found, unless there are more than eight hundred and
/// one elements or more than fifty banners.
pub proof fn law_marked_elements_are_found(app: AxElement, way: Seq<int>) -> (k: int)
    requires
        way.len() <= 14,
        element::narrow(way, 60),
        element::at(app, way) matches Some(e) && marked(e, way.len() as int),
        visits(app, 0, None).len() <= 801,
        found(visits(app, 0, None)).len() <= 50,
    ensures
        0 <= k < scanned(app).len(),
        shown_at(app, way, scanned(app)[k]),
{
    let all = visits(app, 0, None);
    let i = lemma_visits_have(app, 0, None, way);
    lemma_marked(all[i].element, all[i].depth, all[i].hint);
    lemma_snapshot_shown(app, way, all[i]);
    lemma_found_has(all, i)
}

/// A scan looks at the first eight hundred and one elements and stops at fifty
/// banners: what it finds is the start of what a scan without limits finds.
pub proof fn law_limits_only_cut_off(app: AxElement)
    ensures
        scanned(app).len() <= 50,
        scanned(app).len() <= found(visits(app, 0, None)).len(),
        scanned(app) == found(visits(app, 0, None)).take(scanned(app).len() as int),
        visits(app, 0, None).len() <= 801 && found(visits(app, 0, None)).len() <= 50 ==> scanned(
            app,
        ) == found(visits(app, 0, None)),
        visits(app, 0, None).len() > 801 && scanned(app).len() < 50 ==> scanned(app) == found(
            visits(app, 0, None).take(801),
        ),
{
    let all = visits(app, 0, None);
    let seen = rows::first(all, MAX_SCAN_NODES as nat);
    let rest = all.skip(seen.len() as int);
    assert(all =~= seen + rest);
    lemma_found_is_prefix(seen, rest);
    assert(scanned(app) =~= found(all).take(scanned(app).len() as int));
}

/// Banners come in the order of the elements that show them: those among later
/// elements stand behind those among earlier ones.
pub proof fn law_banners_come_in_order(a: Seq<Visit>, b: Seq<Visit>)
    ensures
        found(a + b) == found(a) + found(b),
    decreases b.len(),
{
    if b.len() == 0 {
        assert(a + b =~= a);
        assert(found(a) + found(b) =~= found(a));
    } else {
        law_banners_come_in_order(a, b.drop_last());
        assert((a + b).drop_last() =~= a + b.drop_last());
        assert((a + b).last() == b.last());
        assert(found(a + b) =~= found(a) + found(b));
    }
}

/// A scan comes to an element before what is below it, and to what is below one
/// child before the next child.
pub proof fn law_elements_are_visited_in_order(
    element: AxElement,
    depth: nat,
    above: Option<Seq<char>>,
    elements: Seq<AxElement>,
    count: nat,
)
    requires
        0 < count <= elements.len(),
        depth <= 14,
    ensures
        visits(element, depth, above).len() > 0,
        visits(element, depth, above).first().element == element,
        visits(element, depth, above).first().depth == depth,
        visits_of(elements, count, depth, above) == visits_of(
            elements,
            (count - 1) as nat,
            depth,
            above,
        ) + visits(elements[count - 1], depth, above),
{
}

/// What a banner that was found says is what each of its fields holds, and a row
/// of them says what each says, in their order.
pub proof fn law_banners_say_what_they_hold(b: BannerSnapshot, row: Seq<BannerSnapshot>)
    ensures
        b@.identifier == text::opt_text(b.ax_id),
        b@.app_name_hint == text::opt_text(b.app_name_hint),
        b@.title_attr == text::opt_text(b.title_attr),
        b@.description_attr == text::opt_text(b.description_attr),
        b@.static_texts == text::texts(b.static_texts@),
        banner_views(row).len() == row.len(),
        forall|i: int| 0 <= i < row.len() ==> #[trigger] banner_views(row)[i] == row[i]@,
{
}

} // verus!
