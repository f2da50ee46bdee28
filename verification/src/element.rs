//! Accessibility elements: their attributes, the texts below them, and a
//! printed tree for diagnostics.
//!
//! The structure that Notification Center exposes differs between macOS
//! versions, so a missing attribute is `None`, never an error.

use crate::rows;
use crate::text;
use crate::text::{chars_of, join, repeat, same, string_of, trim};
use vstd::prelude::*;
use vstd::string::*;

verus! {

/// An accessibility element with what is below it.
#[derive(Debug)]
pub struct AxElement {
    /// The string attributes that could be read, by name.
    pub attributes: Vec<(String, String)>,
    /// The children, unless they could not be read.
    pub children: Option<Vec<AxElement>>,
}

// ---------------------------------------------------------------------------
// Attributes
// ---------------------------------------------------------------------------

/// The value of the first attribute with this name among the attributes from
/// one on.
pub open spec fn value_from(
    attributes: Seq<(String, String)>,
    name: Seq<char>,
    from: int,
) -> Option<Seq<char>>
    decreases attributes.len() - from,
{
    if from < 0 || from >= attributes.len() {
        None
    } else if attributes[from].0@ == name {
        Some(attributes[from].1@)
    } else {
        value_from(attributes, name, from + 1)
    }
}

/// The value of an attribute without the white space around it, where
/// anything is left.
pub open spec fn attribute(element: AxElement, name: Seq<char>) -> Option<Seq<char>> {
    match value_from(element.attributes@, name, 0) {
        Some(value) => if text::trimmed(value).len() > 0 {
            Some(text::trimmed(value))
        } else {
            None
        },
        None => None,
    }
}

/// Reads a string attribute, without the white space around it. An attribute
/// that is missing or blank is `None`.
pub fn get_string(element: &AxElement, attribute: &str) -> (r: Option<String>)
    ensures
        text::opt_text(r) == self::attribute(*element, attribute@),
{
    let mut i: usize = 0;
    while i < element.attributes.len()
        invariant
            i <= element.attributes@.len(),
            value_from(element.attributes@, attribute@, 0) == value_from(
                element.attributes@,
                attribute@,
                i as int,
            ),
        decreases element.attributes@.len() - i,
    {
        if same(element.attributes[i].0.as_str(), attribute) {
            let value = trim(element.attributes[i].1.as_str());
            return if value.as_str().is_empty() {
                None
            } else {
                Some(value)
            };
        }
        i = i + 1;
    }
    None
}

/// Whether an optional string is there and holds this text.
pub fn holds(value: &Option<String>, wanted: &str) -> (r: bool)
    ensures
        r == (text::opt_text(*value) == Some(wanted@)),
{
    match value {
        Some(s) => same(s.as_str(), wanted),
        None => false,
    }
}

// ---------------------------------------------------------------------------
// Texts
// ---------------------------------------------------------------------------

/// The element and those below it down to `max_depth`, each before its
/// children, with no more than `width` children of one element.
pub open spec fn preorder(
    element: AxElement,
    depth: nat,
    max_depth: nat,
    width: nat,
) -> Seq<AxElement>
    decreases element, 0nat,
{
    if depth > max_depth {
        Seq::empty()
    } else {
        match element.children {
            None => seq![element],
            Some(children) => seq![element] + preorder_of(
                children@,
                if children@.len() < width {
                    children@.len()
                } else {
                    width
                },
                depth + 1,
                max_depth,
                width,
            ),
        }
    }
}

/// The first `count` elements and those below them, in the order of
/// [`preorder`].
pub open spec fn preorder_of(
    elements: Seq<AxElement>,
    count: nat,
    depth: nat,
    max_depth: nat,
    width: nat,
) -> Seq<AxElement>
    decreases elements, count,
{
    if count == 0 || count > elements.len() {
        Seq::empty()
    } else {
        preorder_of(elements, (count - 1) as nat, depth, max_depth, width) + preorder(
            elements[count - 1],
            depth,
            max_depth,
            width,
        )
    }
}

/// The text that an element shows, if it is one that shows text: its value,
/// else its title, else its description.
pub open spec fn own_text(element: AxElement) -> Option<Seq<char>> {
    let role = attribute(element, "AXRole"@);
    if role == Some("AXStaticText"@) || role == Some("AXTextField"@) || role == Some("AXHeading"@) {
        match attribute(element, "AXValue"@) {
            Some(t) => Some(t),
            None => match attribute(element, "AXTitle"@) {
                Some(t) => Some(t),
                None => attribute(element, "AXDescription"@),
            },
        }
    } else {
        None
    }
}

/// The texts that elements show, in order, each once.
pub open spec fn shown_texts(elements: Seq<AxElement>) -> Seq<Seq<char>>
    decreases elements.len(),
{
    if elements.len() == 0 {
        Seq::empty()
    } else {
        let before = shown_texts(elements.drop_last());
        match own_text(elements.last()) {
            Some(t) => if before.contains(t) {
                before
            } else {
                before.push(t)
            },
            None => before,
        }
    }
}

/// How many elements are looked at for texts.
pub const MAX_TEXT_NODES: usize = 501;

/// How many children of one element are looked at for texts.
pub const TEXT_CHILDREN: usize = 50;

/// The texts below an element.
pub open spec fn texts_below(element: AxElement, max_depth: nat) -> Seq<Seq<char>> {
    shown_texts(
        rows::first(preorder(element, 0, max_depth, TEXT_CHILDREN as nat), MAX_TEXT_NODES as nat),
    )
}

fn shown_text(element: &AxElement) -> (r: Option<String>)
    ensures
        text::opt_text(r) == own_text(*element),
{
    let role = get_string(element, "AXRole");
    if holds(&role, "AXStaticText") || holds(&role, "AXTextField") || holds(&role, "AXHeading") {
        match get_string(element, "AXValue") {
            Some(t) => Some(t),
            None => match get_string(element, "AXTitle") {
                Some(t) => Some(t),
                None => get_string(element, "AXDescription"),
            },
        }
    } else {
        None
    }
}

fn has_text(list: &Vec<String>, wanted: &str) -> (r: bool)
    ensures
        r == text::texts(list@).contains(wanted@),
{
    let ghost all = text::texts(list@);
    for i in 0..list.len()
        invariant
            all == text::texts(list@),
            forall|j: int| 0 <= j < i ==> all[j] != wanted@,
    {
        assert(all[i as int] == list@[i as int]@);
        if same(list[i].as_str(), wanted) {
            return true;
        }
    }
    false
}

fn collect_texts_inner(
    element: &AxElement,
    depth: usize,
    max_depth: usize,
    out: &mut Vec<String>,
    visited: &mut usize,
    Ghost(seen): Ghost<Seq<AxElement>>,
)
    requires
        depth <= max_depth,
        *old(visited) == seen.len(),
        seen.len() <= MAX_TEXT_NODES,
        text::texts(old(out)@) == shown_texts(seen),
    ensures
        ({
            let now = rows::first(
                seen + preorder(*element, depth as nat, max_depth as nat, TEXT_CHILDREN as nat),
                MAX_TEXT_NODES as nat,
            );
            *final(visited) == now.len() && text::texts(final(out)@) == shown_texts(now)
        }),
    decreases max_depth - depth,
{
    let ghost (d, m, w) = (depth as nat, max_depth as nat, TEXT_CHILDREN as nat);
    if *visited >= MAX_TEXT_NODES {
        assert(rows::first(seen + preorder(*element, d, m, w), MAX_TEXT_NODES as nat) =~= seen);
        return;
    }
    *visited = *visited + 1;
    let ghost here = seen.push(*element);
    assert(here.drop_last() =~= seen);
    if let Some(t) = shown_text(element) {
        if !has_text(out, t.as_str()) {
            let ghost before = text::texts(out@);
            out.push(t);
            assert(text::texts(out@) =~= before.push(t@));
        }
    }
    match &element.children {
        None => {
            assert(seen + preorder(*element, d, m, w) =~= here);
        },
        Some(children) => {
            let count: usize = if children.len() < TEXT_CHILDREN {
                children.len()
            } else {
                TEXT_CHILDREN
            };
            let ghost mut now = here;
            assert(here =~= rows::first(
                here + preorder_of(children@, 0, d + 1, m, w),
                MAX_TEXT_NODES as nat,
            ));
            for i in 0..count
                invariant
                    depth <= max_depth,
                    d == depth,
                    m == max_depth,
                    w == TEXT_CHILDREN,
                    count <= children@.len(),
                    now == rows::first(
                        here + preorder_of(children@, i as nat, d + 1, m, w),
                        MAX_TEXT_NODES as nat,
                    ),
                    *visited == now.len(),
                    text::texts(out@) == shown_texts(now),
            {
                let ghost below = preorder(children@[i as int], d + 1, m, w);
                let ghost next = rows::first(now + below, MAX_TEXT_NODES as nat);
                if depth < max_depth {
                    collect_texts_inner(
                        &children[i],
                        depth + 1,
                        max_depth,
                        out,
                        visited,
                        Ghost(now),
                    );
                } else {
                    assert(next =~= now);
                }
                proof {
                    let sofar = here + preorder_of(children@, i as nat, d + 1, m, w);
                    rows::lemma_first_of_sum(sofar, below, MAX_TEXT_NODES as nat);
                    assert(sofar + below =~= here + preorder_of(
                        children@,
                        (i + 1) as nat,
                        d + 1,
                        m,
                        w,
                    ));
                    now = next;
                }
            }
            assert(seen + preorder(*element, d, m, w) =~= here + preorder_of(
                children@,
                count as nat,
                d + 1,
                m,
                w,
            ));
        },
    }
}

/// Collects the visible texts of an element and of those below it, in order
/// and each once. The walk is bounded in depth, width and number of elements.
pub fn collect_texts(element: &AxElement, max_depth: usize) -> (r: Vec<String>)
    ensures
        text::texts(r@) == texts_below(*element, max_depth as nat),
{
    let mut out: Vec<String> = Vec::new();
    let mut visited: usize = 0;
    assert(text::texts(out@) =~= Seq::empty());
    collect_texts_inner(
        element,
        0,
        max_depth,
        &mut out,
        &mut visited,
        Ghost(Seq::<AxElement>::empty()),
    );
    proof {
        let all = preorder(*element, 0, max_depth as nat, TEXT_CHILDREN as nat);
        assert(Seq::<AxElement>::empty() + all =~= all);
    }
    out
}

/// No text is collected twice, and none that is blank.
pub proof fn law_texts_are_collected_once(elements: Seq<AxElement>)
    ensures
        shown_texts(elements).no_duplicates(),
        forall|i: int|
            0 <= i < shown_texts(elements).len() ==> (#[trigger] shown_texts(elements)[i]).len()
                > 0,
        shown_texts(elements).len() <= elements.len(),
    decreases elements.len(),
{
    if elements.len() > 0 {
        let before = shown_texts(elements.drop_last());
        law_texts_are_collected_once(elements.drop_last());
        if let Some(t) = own_text(elements.last()) {
            assert forall|i: int, j: int|
                0 <= i < shown_texts(elements).len() && 0 <= j < shown_texts(elements).len() && i
                    != j implies shown_texts(elements)[i] != shown_texts(elements)[j] by {
                if i < before.len() {
                    assert(before.contains(before[i]));
                }
                if j < before.len() {
                    assert(before.contains(before[j]));
                }
            }
        }
    }
}

// ---------------------------------------------------------------------------
// The printed tree
// ---------------------------------------------------------------------------

/// A text in double quotes, with what needs it escaped: the result of
/// formatting a string with `{:?}`.
pub uninterp spec fn quoted(s: Seq<char>) -> Seq<char>;

/// `format!("{:?}", s)` on a string. The text depends on the string alone.
#[verifier::external_body]
fn quote(s: &str) -> (r: String)
    ensures
        r@ == quoted(s@),
{
    format!("{:?}", s)
}

/// How many elements are printed.
pub const MAX_DUMP_NODES: usize = 301;

/// How many children of one element are printed.
pub const DUMP_CHILDREN: usize = 30;

/// What stands before an element.
pub open spec fn dump_indent(depth: nat) -> Seq<char> {
    if depth == 0 {
        Seq::empty()
    } else {
        text::repeated("    "@, (depth - 1) as nat) + "└── "@
    }
}

/// What is printed of an attribute, if it is there.
pub open spec fn dump_extra(label: Seq<char>, value: Option<Seq<char>>) -> Seq<Seq<char>> {
    match value {
        Some(v) => seq![label + v],
        None => Seq::empty(),
    }
}

/// What is printed behind the role of an element: its subrole, its identifier,
/// and the first sixty characters of its title.
pub open spec fn dump_extras(element: AxElement) -> Seq<Seq<char>> {
    let title = match attribute(element, "AXTitle"@) {
        Some(t) => Some(quoted(rows::first(t, 60))),
        None => None,
    };
    dump_extra("subrole="@, attribute(element, "AXSubrole"@)) + dump_extra(
        "id="@,
        attribute(element, "AXIdentifier"@),
    ) + dump_extra("title="@, title)
}

/// The line for an element.
pub open spec fn dump_line(element: AxElement, depth: nat) -> Seq<char> {
    let role = match attribute(element, "AXRole"@) {
        Some(role) => role,
        None => "?"@,
    };
    let extras = dump_extras(element);
    let suffix = if extras.len() == 0 {
        Seq::empty()
    } else {
        " ["@ + text::joined(extras, " "@) + "]"@
    };
    dump_indent(depth) + role + suffix + "\n"@
}

/// The line that stands for an element beyond the limit.
pub open spec fn dump_cut(depth: nat) -> Seq<char> {
    text::repeated(
        "    "@,
        if depth < 8 {
            depth
        } else {
            8
        },
    ) + "… (truncated at 300 nodes)\n"@
}

/// What has been printed, and how many elements, once an element and those
/// below it have been printed as well. Beyond the limit an element is one line
/// that says so, and what is below it is left out.
pub open spec fn dumped(
    element: AxElement,
    depth: nat,
    max_depth: nat,
    state: (Seq<char>, nat),
) -> (Seq<char>, nat)
    decreases element, 0nat,
{
    if state.1 >= MAX_DUMP_NODES {
        (state.0 + dump_cut(depth), state.1)
    } else if depth > max_depth {
        state
    } else {
        let here = (state.0 + dump_line(element, depth), state.1 + 1);
        match element.children {
            None => here,
            Some(children) => dumped_all(
                children@,
                if children@.len() < DUMP_CHILDREN {
                    children@.len()
                } else {
                    DUMP_CHILDREN as nat
                },
                depth + 1,
                max_depth,
                here,
            ),
        }
    }
}

/// The same for the first `count` elements, one after another.
pub open spec fn dumped_all(
    elements: Seq<AxElement>,
    count: nat,
    depth: nat,
    max_depth: nat,
    state: (Seq<char>, nat),
) -> (Seq<char>, nat)
    decreases elements, count,
{
    if count == 0 || count > elements.len() {
        state
    } else {
        dumped(
            elements[count - 1],
            depth,
            max_depth,
            dumped_all(elements, (count - 1) as nat, depth, max_depth, state),
        )
    }
}

/// The printed tree of an element.
pub open spec fn dump_text(element: AxElement, max_depth: nat) -> Seq<char> {
    dumped(element, 0, max_depth, (Seq::empty(), 0)).0
}

fn first_chars(s: &str, limit: usize) -> (r: String)
    ensures
        r@ == rows::first(s@, limit as nat),
{
    let chars = chars_of(s);
    let n: usize = if chars.len() < limit {
        chars.len()
    } else {
        limit
    };
    assert(rows::first(s@, limit as nat) =~= chars@.subrange(0, n as int));
    string_of(&chars, 0, n)
}

fn push_extra(extras: &mut Vec<String>, label: &str, value: Option<String>)
    ensures
        text::texts(final(extras)@) == text::texts(old(extras)@) + dump_extra(
            label@,
            text::opt_text(value),
        ),
{
    let ghost before = text::texts(extras@);
    if let Some(v) = value {
        let mut one = label.to_string();
        one.append(v.as_str());
        extras.push(one);
        assert(text::texts(extras@) =~= before + seq![label@ + v@]);
    } else {
        assert(text::texts(extras@) =~= before + Seq::empty());
    }
}

fn describe_extras(element: &AxElement) -> (r: String)
    ensures
        r@ == (if dump_extras(*element).len() == 0 {
            Seq::empty()
        } else {
            " ["@ + text::joined(dump_extras(*element), " "@) + "]"@
        }),
{
    let mut extras: Vec<String> = Vec::new();
    assert(text::texts(extras@) =~= Seq::empty());
    push_extra(&mut extras, "subrole=", get_string(element, "AXSubrole"));
    push_extra(&mut extras, "id=", get_string(element, "AXIdentifier"));
    let title = match get_string(element, "AXTitle") {
        Some(title) => {
            let short = first_chars(title.as_str(), 60);
            Some(quote(short.as_str()))
        },
        None => None,
    };
    push_extra(&mut extras, "title=", title);
    assert(text::texts(extras@) =~= dump_extras(*element));
    let mut out = String::new();
    if extras.len() > 0 {
        let list = join(&extras, " ");
        out = " [".to_string();
        out.append(list.as_str());
        out.append("]");
    }
    out
}

fn describe_element(element: &AxElement, depth: usize) -> (r: String)
    ensures
        r@ == dump_line(*element, depth as nat),
{
    let mut line = String::new();
    if depth > 0 {
        line = repeat("    ", depth - 1);
        line.append("└── ");
    }
    match get_string(element, "AXRole") {
        Some(role) => {
            line.append(role.as_str());
        },
        None => {
            line.append("?");
        },
    }
    let suffix = describe_extras(element);
    line.append(suffix.as_str());
    line.append("\n");
    line
}

fn describe_cut(depth: usize) -> (r: String)
    ensures
        r@ == dump_cut(depth as nat),
{
    let mut line = repeat(
        "    ",
        if depth < 8 {
            depth
        } else {
            8
        },
    );
    line.append("… (truncated at 300 nodes)\n");
    line
}

fn dump_tree_inner(
    element: &AxElement,
    depth: usize,
    max_depth: usize,
    out: &mut String,
    visited: &mut usize,
)
    requires
        depth <= max_depth,
        *old(visited) <= MAX_DUMP_NODES,
    ensures
        (final(out)@, *final(visited) as nat) == dumped(
            *element,
            depth as nat,
            max_depth as nat,
            (old(out)@, *old(visited) as nat),
        ),
        *final(visited) <= MAX_DUMP_NODES,
    decreases max_depth - depth,
{
    if *visited >= MAX_DUMP_NODES {
        let line = describe_cut(depth);
        out.append(line.as_str());
        return;
    }
    let ghost (d, m) = (depth as nat, max_depth as nat);
    *visited = *visited + 1;
    let line = describe_element(element, depth);
    out.append(line.as_str());
    let ghost here = (out@, *visited as nat);
    if let Some(children) = &element.children {
        let count: usize = if children.len() < DUMP_CHILDREN {
            children.len()
        } else {
            DUMP_CHILDREN
        };
        for i in 0..count
            invariant
                depth <= max_depth,
                d == depth,
                m == max_depth,
                count <= children@.len(),
                *visited <= MAX_DUMP_NODES,
                (out@, *visited as nat) == dumped_all(children@, i as nat, d + 1, m, here),
        {
            assert(dumped_all(children@, (i + 1) as nat, d + 1, m, here) == dumped(
                children@[i as int],
                d + 1,
                m,
                dumped_all(children@, i as nat, d + 1, m, here),
            ));
            if depth < max_depth {
                dump_tree_inner(&children[i], depth + 1, max_depth, out, visited);
            } else if *visited >= MAX_DUMP_NODES {
                let cut_depth: usize = if depth < 8 {
                    depth + 1
                } else {
                    8
                };
                let line = describe_cut(cut_depth);
                out.append(line.as_str());
            }
        }
    }
}

/// Prints an element and those below it as an indented tree.
///
/// ```text
/// AXApplication
/// └── AXWindow
///     └── AXGroup
///         └── AXNotificationCenterBanner
/// ```
pub fn dump_tree(element: &AxElement, max_depth: usize) -> (r: String)
    ensures
        r@ == dump_text(*element, max_depth as nat),
{
    let mut out = String::new();
    let mut visited: usize = 0;
    dump_tree_inner(element, 0, max_depth, &mut out, &mut visited);
    out
}

/// The lines for an element and those below it, each before its children.
pub open spec fn listing(element: AxElement, depth: nat, max_depth: nat) -> Seq<char>
    decreases element, 0nat,
{
    if depth > max_depth {
        Seq::empty()
    } else {
        match element.children {
            None => dump_line(element, depth),
            Some(children) => dump_line(element, depth) + listing_of(
                children@,
                if children@.len() < DUMP_CHILDREN {
                    children@.len()
                } else {
                    DUMP_CHILDREN as nat
                },
                depth + 1,
                max_depth,
            ),
        }
    }
}

/// The lines for the first `count` elements and those below them.
pub open spec fn listing_of(
    elements: Seq<AxElement>,
    count: nat,
    depth: nat,
    max_depth: nat,
) -> Seq<char>
    decreases elements, count,
{
    if count == 0 || count > elements.len() {
        Seq::empty()
    } else {
        listing_of(elements, (count - 1) as nat, depth, max_depth) + listing(
            elements[count - 1],
            depth,
            max_depth,
        )
    }
}

proof fn lemma_dumped_whole(
    element: AxElement,
    depth: nat,
    max_depth: nat,
    state: (Seq<char>, nat),
)
    requires
        state.1 + preorder(element, depth, max_depth, DUMP_CHILDREN as nat).len() < MAX_DUMP_NODES,
    ensures
        dumped(element, depth, max_depth, state) == (
            state.0 + listing(element, depth, max_depth),
            state.1 + preorder(element, depth, max_depth, DUMP_CHILDREN as nat).len(),
        ),
    decreases element, 0nat,
{
    if depth > max_depth {
        assert(state.0 + Seq::<char>::empty() =~= state.0);
    } else if let Some(children) = element.children {
        let count = if children@.len() < DUMP_CHILDREN {
            children@.len()
        } else {
            DUMP_CHILDREN as nat
        };
        let here = (state.0 + dump_line(element, depth), state.1 + 1);
        lemma_dumped_all_whole(children@, count, depth + 1, max_depth, here);
        assert(here.0 + listing_of(children@, count, depth + 1, max_depth) =~= state.0 + listing(
            element,
            depth,
            max_depth,
        ));
    }
}

proof fn lemma_dumped_all_whole(
    elements: Seq<AxElement>,
    count: nat,
    depth: nat,
    max_depth: nat,
    state: (Seq<char>, nat),
)
    requires
        count <= elements.len(),
        state.1 + preorder_of(elements, count, depth, max_depth, DUMP_CHILDREN as nat).len()
            < MAX_DUMP_NODES,
    ensures
        dumped_all(elements, count, depth, max_depth, state) == (
            state.0 + listing_of(elements, count, depth, max_depth),
            state.1 + preorder_of(elements, count, depth, max_depth, DUMP_CHILDREN as nat).len(),
        ),
    decreases elements, count,
{
    if count == 0 {
        assert(state.0 + Seq::<char>::empty() =~= state.0);
    } else {
        let less = (count - 1) as nat;
        lemma_dumped_all_whole(elements, less, depth, max_depth, state);
        let before = dumped_all(elements, less, depth, max_depth, state);
        lemma_dumped_whole(elements[count - 1], depth, max_depth, before);
        assert(before.0 + listing(elements[count - 1], depth, max_depth) =~= state.0 + listing_of(
            elements,
            count,
            depth,
            max_depth,
        ));
    }
}

/// A tree of at most three hundred elements is printed whole: a line for each
/// element, in order, and nothing else.
pub proof fn law_small_trees_are_printed_whole(element: AxElement, max_depth: nat)
    requires
        preorder(element, 0, max_depth, 30).len() <= 300,
    ensures
        dump_text(element, max_depth) == listing(element, 0, max_depth),
{
    lemma_dumped_whole(element, 0, max_depth, (Seq::empty(), 0));
    assert(Seq::<char>::empty() + listing(element, 0, max_depth) =~= listing(
        element,
        0,
        max_depth,
    ));
}

// ---------------------------------------------------------------------------
// Attributes and texts, by the lists that hold them
// ---------------------------------------------------------------------------

/// Whether an attribute is the first of its name in a list.
pub open spec fn first_named(attributes: Seq<(String, String)>, name: Seq<char>, i: int) -> bool {
    &&& 0 <= i < attributes.len()
    &&& attributes[i].0@ == name
    &&& forall|j: int| 0 <= j < i ==> (#[trigger] attributes[j]).0@ != name
}

/// Whether a list of attributes says `value` under a name: the first attribute
/// of that name holds it, with nothing but white space around it. It says
/// nothing where there is no such attribute or where that one is blank.
pub open spec fn says(
    attributes: Seq<(String, String)>,
    name: Seq<char>,
    value: Option<Seq<char>>,
) -> bool {
    match value {
        Some(v) => v.len() > 0 && exists|i: int|
            #[trigger] first_named(attributes, name, i) && text::trimmed(attributes[i].1@) == v,
        None => forall|i: int| #[trigger]
            first_named(attributes, name, i) ==> text::blank(attributes[i].1@),
    }
}

proof fn lemma_value_from(attributes: Seq<(String, String)>, name: Seq<char>, from: int)
    requires
        0 <= from <= attributes.len(),
        forall|j: int| 0 <= j < from ==> (#[trigger] attributes[j]).0@ != name,
    ensures
        match value_from(attributes, name, from) {
            Some(v) => exists|i: int| #[trigger]
                first_named(attributes, name, i) && attributes[i].1@ == v,
            None => forall|i: int| !#[trigger] first_named(attributes, name, i),
        },
    decreases attributes.len() - from,
{
    if from < attributes.len() {
        if attributes[from].0@ == name {
            assert(first_named(attributes, name, from));
        } else {
            lemma_value_from(attributes, name, from + 1);
        }
    }
}

/// An attribute is read off the list: it is what the first attribute of its
/// name holds, without the white space around it. It is there exactly where
/// that one is there and not blank.
pub proof fn law_attributes_are_read_off_the_list(element: AxElement, name: Seq<char>)
    ensures
        says(element.attributes@, name, attribute(element, name)),
{
    let attributes = element.attributes@;
    lemma_value_from(attributes, name, 0);
    if let Some(v) = value_from(attributes, name, 0) {
        let _ = text::law_trimming_takes_white_space_only(v);
        let i = choose|i: int| #[trigger]
            first_named(attributes, name, i) && attributes[i].1@ == v;
        assert forall|k: int| #[trigger] first_named(attributes, name, k) implies k == i by {
            if k < i {
                assert(attributes[k].0@ != name);
            } else if i < k {
                assert(attributes[i].0@ != name);
            }
        }
    }
}

/// A list says one thing at most under a name.
pub proof fn law_a_list_says_one_thing(
    attributes: Seq<(String, String)>,
    name: Seq<char>,
    a: Option<Seq<char>>,
    b: Option<Seq<char>>,
)
    requires
        says(attributes, name, a),
        says(attributes, name, b),
    ensures
        a == b,
{
    assert forall|i: int, k: int| #[trigger]
        first_named(attributes, name, k) && #[trigger] first_named(
            attributes,
            name,
            i,
        ) implies k == i by {
        if k < i {
            assert(attributes[k].0@ != name);
        } else if i < k {
            assert(attributes[i].0@ != name);
        }
    }
    if let Some(v) = a {
        let i = choose|i: int|
            #[trigger] first_named(attributes, name, i) && text::trimmed(attributes[i].1@) == v;
        let _ = text::law_trimming_takes_white_space_only(attributes[i].1@);
    }
    if let Some(v) = b {
        let i = choose|i: int|
            #[trigger] first_named(attributes, name, i) && text::trimmed(attributes[i].1@) == v;
        let _ = text::law_trimming_takes_white_space_only(attributes[i].1@);
    }
}

/// The element that a way down leads to: at each step, the child to go to.
pub open spec fn at(element: AxElement, way: Seq<int>) -> Option<AxElement>
    decreases way.len(),
{
    if way.len() == 0 {
        Some(element)
    } else {
        match element.children {
            None => None,
            Some(children) => if 0 <= way[0] < children@.len() {
                at(children@[way[0]], way.drop_first())
            } else {
                None
            },
        }
    }
}

/// Whether a way takes one of the first `width` children at each step.
pub open spec fn narrow(way: Seq<int>, width: int) -> bool {
    forall|i: int| 0 <= i < way.len() ==> 0 <= #[trigger] way[i] < width
}

/// What is left of a narrow way after its first step is narrow.
pub proof fn lemma_narrow_tail(way: Seq<int>, width: int)
    requires
        way.len() > 0,
        narrow(way, width),
    ensures
        narrow(way.drop_first(), width),
{
    assert forall|i: int| 0 <= i < way.drop_first().len() implies 0
        <= #[trigger] way.drop_first()[i] < width by {
        assert(way.drop_first()[i] == way[i + 1]);
    }
}

/// A narrow way with one more step at its start is narrow.
pub proof fn lemma_narrow_longer(step: int, way: Seq<int>, width: int)
    requires
        0 <= step < width,
        narrow(way, width),
    ensures
        narrow(seq![step] + way, width),
        (seq![step] + way).drop_first() == way,
{
    let longer = seq![step] + way;
    assert(longer.drop_first() =~= way);
    assert forall|i: int| 0 <= i < longer.len() implies 0 <= #[trigger] longer[i] < width by {
        if i > 0 {
            assert(longer[i] == way[i - 1]);
        }
    }
}

proof fn lemma_preorder_way(element: AxElement, depth: nat, max_depth: nat, width: nat, i: int) -> (
    way: Seq<int>)
    requires
        0 <= i < preorder(element, depth, max_depth, width).len(),
    ensures
        at(element, way) == Some(preorder(element, depth, max_depth, width)[i]),
        depth + way.len() <= max_depth,
        narrow(way, width as int),
    decreases element, 0nat,
{
    if i == 0 {
        Seq::empty()
    } else {
        let children = element.children->0;
        let count = if children@.len() < width {
            children@.len()
        } else {
            width
        };
        let (k, rest) = lemma_preorder_of_way(children@, count, depth + 1, max_depth, width, i - 1);
        lemma_narrow_longer(k, rest, width as int);
        seq![k] + rest
    }
}

proof fn lemma_preorder_of_way(
    elements: Seq<AxElement>,
    count: nat,
    depth: nat,
    max_depth: nat,
    width: nat,
    i: int,
) -> (r: (int, Seq<int>))
    requires
        count <= width,
        0 <= i < preorder_of(elements, count, depth, max_depth, width).len(),
    ensures
        0 <= r.0 < count,
        r.0 < elements.len(),
        at(elements[r.0], r.1) == Some(
            preorder_of(elements, count, depth, max_depth, width)[i],
        ),
        depth + r.1.len() <= max_depth,
        narrow(r.1, width as int),
    decreases elements, count,
{
    let before = preorder_of(elements, (count - 1) as nat, depth, max_depth, width);
    if i < before.len() {
        lemma_preorder_of_way(elements, (count - 1) as nat, depth, max_depth, width, i)
    } else {
        let way = lemma_preorder_way(
            elements[count - 1],
            depth,
            max_depth,
            width,
            i - before.len(),
        );
        (count - 1, way)
    }
}

proof fn lemma_preorder_of_has(
    elements: Seq<AxElement>,
    count: nat,
    depth: nat,
    max_depth: nat,
    width: nat,
    k: int,
    j: int,
) -> (i: int)
    requires
        0 <= k < count <= elements.len(),
        0 <= j < preorder(elements[k], depth, max_depth, width).len(),
    ensures
        0 <= i < preorder_of(elements, count, depth, max_depth, width).len(),
        preorder_of(elements, count, depth, max_depth, width)[i] == preorder(
            elements[k],
            depth,
            max_depth,
            width,
        )[j],
    decreases count,
{
    let before = preorder_of(elements, (count - 1) as nat, depth, max_depth, width);
    if k == count - 1 {
        before.len() + j
    } else {
        lemma_preorder_of_has(elements, (count - 1) as nat, depth, max_depth, width, k, j)
    }
}

proof fn lemma_preorder_has(
    element: AxElement,
    depth: nat,
    max_depth: nat,
    width: nat,
    way: Seq<int>,
) -> (i: int)
    requires
        at(element, way) is Some,
        depth + way.len() <= max_depth,
        narrow(way, width as int),
    ensures
        0 <= i < preorder(element, depth, max_depth, width).len(),
        at(element, way) == Some(preorder(element, depth, max_depth, width)[i]),
    decreases way.len(),
{
    if way.len() == 0 {
        0
    } else {
        let children = element.children->0;
        let count = if children@.len() < width {
            children@.len()
        } else {
            width
        };
        let k = way[0];
        lemma_narrow_tail(way, width as int);
        let j = lemma_preorder_has(
            children@[k],
            depth + 1,
            max_depth,
            width,
            way.drop_first(),
        );
        let i = lemma_preorder_of_has(children@, count, depth + 1, max_depth, width, k, j);
        i + 1
    }
}

/// Whether an element shows a text: it is a static text, a text field or a
/// heading, and the text is its value, or its title where it says no value, or
/// its description where it says neither.
pub open spec fn shows(element: AxElement, shown: Seq<char>) -> bool {
    let attributes = element.attributes@;
    &&& {
        ||| says(attributes, "AXRole"@, Some("AXStaticText"@))
        ||| says(attributes, "AXRole"@, Some("AXTextField"@))
        ||| says(attributes, "AXRole"@, Some("AXHeading"@))
    }
    &&& {
        ||| says(attributes, "AXValue"@, Some(shown))
        ||| says(attributes, "AXValue"@, None) && says(attributes, "AXTitle"@, Some(shown))
        ||| says(attributes, "AXValue"@, None) && says(attributes, "AXTitle"@, None) && says(
            attributes,
            "AXDescription"@,
            Some(shown),
        )
    }
}

/// An element shows what its attributes say, and nothing else.
pub proof fn law_elements_show_what_they_say(element: AxElement, shown: Seq<char>)
    ensures
        own_text(element) == Some(shown) <==> shows(element, shown),
{
    let attributes = element.attributes@;
    law_attributes_are_read_off_the_list(element, "AXRole"@);
    law_attributes_are_read_off_the_list(element, "AXValue"@);
    law_attributes_are_read_off_the_list(element, "AXTitle"@);
    law_attributes_are_read_off_the_list(element, "AXDescription"@);
    if shows(element, shown) {
        let role = attribute(element, "AXRole"@);
        if says(attributes, "AXRole"@, Some("AXStaticText"@)) {
            law_a_list_says_one_thing(attributes, "AXRole"@, role, Some("AXStaticText"@));
        } else if says(attributes, "AXRole"@, Some("AXTextField"@)) {
            law_a_list_says_one_thing(attributes, "AXRole"@, role, Some("AXTextField"@));
        } else {
            law_a_list_says_one_thing(attributes, "AXRole"@, role, Some("AXHeading"@));
        }
        let value = attribute(element, "AXValue"@);
        if says(attributes, "AXValue"@, Some(shown)) {
            law_a_list_says_one_thing(attributes, "AXValue"@, value, Some(shown));
        } else {
            law_a_list_says_one_thing(attributes, "AXValue"@, value, None);
            let title = attribute(element, "AXTitle"@);
            if says(attributes, "AXTitle"@, Some(shown)) {
                law_a_list_says_one_thing(attributes, "AXTitle"@, title, Some(shown));
            } else {
                law_a_list_says_one_thing(attributes, "AXTitle"@, title, None);
                let description = attribute(element, "AXDescription"@);
                law_a_list_says_one_thing(
                    attributes,
                    "AXDescription"@,
                    description,
                    Some(shown),
                );
            }
        }
    }
}

proof fn lemma_shown_texts_from(elements: Seq<AxElement>, k: int) -> (i: int)
    requires
        0 <= k < shown_texts(elements).len(),
    ensures
        0 <= i < elements.len(),
        own_text(elements[i]) == Some(shown_texts(elements)[k]),
    decreases elements.len(),
{
    let before = shown_texts(elements.drop_last());
    if k < before.len() {
        lemma_shown_texts_from(elements.drop_last(), k)
    } else {
        elements.len() - 1
    }
}

proof fn lemma_shown_texts_have(elements: Seq<AxElement>, i: int)
    requires
        0 <= i < elements.len(),
        own_text(elements[i]) is Some,
    ensures
        shown_texts(elements).contains(own_text(elements[i])->0),
    decreases elements.len(),
{
    let before = shown_texts(elements.drop_last());
    if i < elements.len() - 1 {
        lemma_shown_texts_have(elements.drop_last(), i);
        let t = own_text(elements[i])->0;
        let k = choose|k: int| 0 <= k < before.len() && before[k] == t;
        assert(shown_texts(elements)[k] == t);
    } else {
        let t = own_text(elements.last())->0;
        if !before.contains(t) {
            assert(before.push(t)[before.len() as int] == t);
        }
    }
}

/// Each text that is collected is shown by an element on some way down, no
/// further than the depth and by the first fifty children at each step.
pub proof fn law_collected_texts_are_shown_below(element: AxElement, max_depth: nat, k: int) -> (
    way: Seq<int>)
    requires
        0 <= k < texts_below(element, max_depth).len(),
    ensures
        way.len() <= max_depth,
        narrow(way, 50),
        at(element, way) matches Some(e) && shows(e, texts_below(element, max_depth)[k]),
{
    let all = preorder(element, 0, max_depth, TEXT_CHILDREN as nat);
    let seen = rows::first(all, MAX_TEXT_NODES as nat);
    let i = lemma_shown_texts_from(seen, k);
    assert(seen[i] == all[i]);
    law_elements_show_what_they_say(all[i], texts_below(element, max_depth)[k]);
    lemma_preorder_way(element, 0, max_depth, TEXT_CHILDREN as nat, i)
}

/// Each text that an element on such a way shows is collected, unless there are
/// more than five hundred and one elements.
pub proof fn law_shown_texts_are_collected(
    element: AxElement,
    max_depth: nat,
    way: Seq<int>,
    shown: Seq<char>,
)
    requires
        way.len() <= max_depth,
        narrow(way, 50),
        at(element, way) matches Some(e) && shows(e, shown),
        preorder(element, 0, max_depth, 50).len() <= 501,
    ensures
        texts_below(element, max_depth).contains(shown),
{
    let i = lemma_preorder_has(element, 0, max_depth, TEXT_CHILDREN as nat, way);
    let all = preorder(element, 0, max_depth, TEXT_CHILDREN as nat);
    law_elements_show_what_they_say(all[i], shown);
    lemma_shown_texts_have(all, i);
}

/// The texts of elements come before those of elements behind them: what was
/// collected stays where it is, and only texts that are new are added to it.
pub proof fn law_texts_are_collected_in_order(elements: Seq<AxElement>, next: AxElement)
    ensures
        shown_texts(Seq::empty()) == Seq::<Seq<char>>::empty(),
        forall|t: Seq<char>| #[trigger]
            shows(next, t) && !shown_texts(elements).contains(t) ==> shown_texts(
                elements.push(next),
            ) == shown_texts(elements).push(t),
        (forall|t: Seq<char>| #[trigger] shows(next, t) ==> shown_texts(elements).contains(t))
            ==> shown_texts(elements.push(next)) == shown_texts(elements),
{
    assert(elements.push(next).drop_last() =~= elements);
    assert forall|t: Seq<char>| #[trigger] shows(next, t) implies own_text(next) == Some(t) by {
        law_elements_show_what_they_say(next, t);
    }
    if let Some(t) = own_text(next) {
        law_elements_show_what_they_say(next, t);
    }
}

/// An element comes before what is below it, and what is below one child before
/// the next child.
pub proof fn law_elements_come_before_those_below(
    element: AxElement,
    max_depth: nat,
    width: nat,
    elements: Seq<AxElement>,
    count: nat,
    depth: nat,
)
    requires
        0 < count <= elements.len(),
    ensures
        preorder(element, 0, max_depth, width).first() == element,
        preorder_of(elements, count, depth, max_depth, width) == preorder_of(
            elements,
            (count - 1) as nat,
            depth,
            max_depth,
            width,
        ) + preorder(elements[count - 1], depth, max_depth, width),
{
}

// ---------------------------------------------------------------------------
// The lines of the printed tree
// ---------------------------------------------------------------------------

/// A line more deeply nested is indented by four more spaces and otherwise the
/// same.
pub proof fn law_lines_are_indented_by_depth(element: AxElement, depth: nat)
    requires
        depth > 0,
    ensures
        dump_line(element, depth + 1) == "    "@ + dump_line(element, depth),
        dump_line(element, 1) == "└── "@ + dump_line(element, 0),
{
    let unit = "    "@;
    text::law_repetitions_add_up(unit, 1, (depth - 1) as nat);
    assert(dump_indent(depth + 1) =~= unit + dump_indent(depth));
    assert(dump_line(element, depth + 1) =~= unit + dump_line(element, depth));
    assert(text::repeated(unit, 0) =~= Seq::empty());
    assert(dump_line(element, 1) =~= "└── "@ + dump_line(element, 0));
}

/// A line begins with what the element says of its role, or with a question
/// mark, and ends with a line feed.
pub proof fn law_lines_tell_the_role(element: AxElement, role: Option<Seq<char>>)
    requires
        says(element.attributes@, "AXRole"@, role),
    ensures
        role matches Some(r) ==> text::begins_with(dump_line(element, 0), r),
        role is None ==> text::begins_with(dump_line(element, 0), "?"@),
        dump_line(element, 0).last() == '\n',
{
    reveal_strlit("\n");
    law_attributes_are_read_off_the_list(element, "AXRole"@);
    law_a_list_says_one_thing(
        element.attributes@,
        "AXRole"@,
        role,
        attribute(element, "AXRole"@),
    );
    let line = dump_line(element, 0);
    let start = match role {
        Some(r) => r,
        None => "?"@,
    };
    let rest = line.skip(start.len() as int);
    assert(line =~= start + rest);
    text::law_found_text_is_surrounded(Seq::empty(), start, rest);
}

/// Behind the role stand the subrole, the identifier and the start of the title,
/// each exactly where the element says it, in this order and in one pair of
/// brackets.
pub proof fn law_lines_tell_what_else_is_there(
    element: AxElement,
    role: Seq<char>,
    subrole: Option<Seq<char>>,
    id: Option<Seq<char>>,
    title: Option<Seq<char>>,
)
    requires
        says(element.attributes@, "AXRole"@, Some(role)),
        says(element.attributes@, "AXSubrole"@, subrole),
        says(element.attributes@, "AXIdentifier"@, id),
        says(element.attributes@, "AXTitle"@, title),
    ensures
        ({
            let line = dump_line(element, 0);
            let short = |t: Seq<char>|
                if t.len() <= 60 {
                    quoted(t)
                } else {
                    quoted(t.take(60))
                };
            match (subrole, id, title) {
                (None, None, None) => line == role + "\n"@,
                (None, None, Some(t)) => line == role + (" ["@ + ("title="@ + short(t)) + "]"@) + "\n"@,
                (None, Some(i), None) => line == role + (" ["@ + ("id="@ + i) + "]"@) + "\n"@,
                (None, Some(i), Some(t)) => line == role + (" ["@ + (("id="@ + i) + " "@ + ("title="@ + short(t))) + "]"@) + "\n"@,
                (Some(s), None, None) => line == role + (" ["@ + ("subrole="@ + s) + "]"@) + "\n"@,
                (Some(s), None, Some(t)) => line == role + (" ["@ + (("subrole="@ + s) + " "@ + ("title="@ + short(t))) + "]"@) + "\n"@,
                (Some(s), Some(i), None) => line == role + (" ["@ + (("subrole="@ + s) + " "@ + ("id="@ + i)) + "]"@) + "\n"@,
                (Some(s), Some(i), Some(t)) => line == role + (" ["@ + (("subrole="@ + s) + " "@ + ("id="@ + i) + " "@ + ("title="@ + short(t))) + "]"@) + "\n"@,
            }
        }),
{
    let attributes = element.attributes@;
    law_attributes_are_read_off_the_list(element, "AXRole"@);
    law_attributes_are_read_off_the_list(element, "AXSubrole"@);
    law_attributes_are_read_off_the_list(element, "AXIdentifier"@);
    law_attributes_are_read_off_the_list(element, "AXTitle"@);
    law_a_list_says_one_thing(
        attributes,
        "AXRole"@,
        Some(role),
        attribute(element, "AXRole"@),
    );
    law_a_list_says_one_thing(
        attributes,
        "AXSubrole"@,
        subrole,
        attribute(element, "AXSubrole"@),
    );
    law_a_list_says_one_thing(
        attributes,
        "AXIdentifier"@,
        id,
        attribute(element, "AXIdentifier"@),
    );
    law_a_list_says_one_thing(attributes, "AXTitle"@, title, attribute(element, "AXTitle"@));
    let extras = dump_extras(element);
    lemma_joined_few(extras);
    assert(dump_indent(0) + role =~= role);
    let short = |t: Seq<char>|
        if t.len() <= 60 {
            quoted(t)
        } else {
            quoted(t.take(60))
        };
    match (subrole, id, title) {
        (None, None, None) => {
            assert(extras.len() == 0);
            assert(role + Seq::<char>::empty() =~= role);
        },
        (None, None, Some(t)) => {
            assert(extras =~= seq!["title="@ + short(t)]);
        },
        (None, Some(i), None) => {
            assert(extras =~= seq!["id="@ + i]);
        },
        (None, Some(i), Some(t)) => {
            assert(extras =~= seq!["id="@ + i, "title="@ + short(t)]);
        },
        (Some(s), None, None) => {
            assert(extras =~= seq!["subrole="@ + s]);
        },
        (Some(s), None, Some(t)) => {
            assert(extras =~= seq!["subrole="@ + s, "title="@ + short(t)]);
        },
        (Some(s), Some(i), None) => {
            assert(extras =~= seq!["subrole="@ + s, "id="@ + i]);
        },
        (Some(s), Some(i), Some(t)) => {
            assert(extras =~= seq!["subrole="@ + s, "id="@ + i, "title="@ + short(t)]);
        },
    }
}

proof fn lemma_joined_few(parts: Seq<Seq<char>>)
    ensures
        parts.len() == 1 ==> text::joined(parts, " "@) == parts[0],
        parts.len() == 2 ==> text::joined(parts, " "@) == parts[0] + " "@ + parts[1],
        parts.len() == 3 ==> text::joined(parts, " "@) == parts[0] + " "@ + parts[1] + " "@
            + parts[2],
{
    if parts.len() == 2 {
        assert(parts.drop_last()[0] == parts[0]);
        assert(text::joined(parts.drop_last(), " "@) == parts[0]);
    } else if parts.len() == 3 {
        let two = parts.drop_last();
        assert(two.drop_last()[0] == parts[0]);
        assert(text::joined(two.drop_last(), " "@) == parts[0]);
        assert(text::joined(two, " "@) == parts[0] + " "@ + parts[1]);
    }
}

/// The line that stands for what is left out is indented like the elements are,
/// but no further than eight levels.
pub proof fn law_cuts_are_indented_by_depth(depth: nat)
    ensures
        dump_cut(0) == "… (truncated at 300 nodes)\n"@,
        depth < 8 ==> dump_cut(depth + 1) == "    "@ + dump_cut(depth),
        depth >= 8 ==> dump_cut(depth) == dump_cut(8),
{
    let unit = "    "@;
    let note = "… (truncated at 300 nodes)\n"@;
    assert(text::repeated(unit, 0) + note =~= note);
    text::law_repetitions_add_up(unit, 1, depth);
    if depth < 8 {
        assert((unit + text::repeated(unit, depth)) + note =~= unit + (text::repeated(unit, depth)
            + note));
    }
}

proof fn lemma_dumped_extends(
    element: AxElement,
    depth: nat,
    max_depth: nat,
    state: (Seq<char>, nat),
)
    requires
        state.1 <= MAX_DUMP_NODES,
    ensures
        text::begins_with(dumped(element, depth, max_depth, state).0, state.0),
        state.1 <= dumped(element, depth, max_depth, state).1 <= MAX_DUMP_NODES,
    decreases element, 0nat,
{
    if state.1 >= MAX_DUMP_NODES {
        text::law_found_text_is_surrounded(Seq::empty(), state.0, dump_cut(depth));
    } else if depth > max_depth {
        assert(state.0.take(state.0.len() as int) =~= state.0);
    } else {
        let here = (state.0 + dump_line(element, depth), state.1 + 1);
        text::law_found_text_is_surrounded(Seq::empty(), state.0, dump_line(element, depth));
        if let Some(children) = element.children {
            let count = if children@.len() < DUMP_CHILDREN {
                children@.len()
            } else {
                DUMP_CHILDREN as nat
            };
            lemma_dumped_all_extends(children@, count, depth + 1, max_depth, here);
            let all = dumped_all(children@, count, depth + 1, max_depth, here).0;
            assert(all.take(state.0.len() as int) =~= all.take(here.0.len() as int).take(
                state.0.len() as int,
            ));
        }
    }
}

proof fn lemma_dumped_all_extends(
    elements: Seq<AxElement>,
    count: nat,
    depth: nat,
    max_depth: nat,
    state: (Seq<char>, nat),
)
    requires
        state.1 <= MAX_DUMP_NODES,
    ensures
        text::begins_with(dumped_all(elements, count, depth, max_depth, state).0, state.0),
        state.1 <= dumped_all(elements, count, depth, max_depth, state).1 <= MAX_DUMP_NODES,
    decreases elements, count,
{
    if count == 0 || count > elements.len() {
        assert(state.0.take(state.0.len() as int) =~= state.0);
    } else {
        let less = (count - 1) as nat;
        lemma_dumped_all_extends(elements, less, depth, max_depth, state);
        let before = dumped_all(elements, less, depth, max_depth, state);
        lemma_dumped_extends(elements[count - 1], depth, max_depth, before);
        let all = dumped(elements[count - 1], depth, max_depth, before).0;
        assert(all.take(state.0.len() as int) =~= all.take(before.0.len() as int).take(
            state.0.len() as int,
        ));
    }
}

/// A printed tree begins with the line for its root, whatever its size, and
/// never has lines for more than three hundred and one elements.
pub proof fn law_printed_trees_begin_with_the_root(element: AxElement, max_depth: nat)
    ensures
        text::begins_with(dump_text(element, max_depth), dump_line(element, 0)),
        dumped(element, 0, max_depth, (Seq::empty(), 0)).1 <= 301,
{
    let start: (Seq<char>, nat) = (Seq::empty(), 0);
    lemma_dumped_extends(element, 0, max_depth, start);
    let here = (start.0 + dump_line(element, 0), 1nat);
    assert(here.0 =~= dump_line(element, 0));
    if let Some(children) = element.children {
        let count = if children@.len() < DUMP_CHILDREN {
            children@.len()
        } else {
            DUMP_CHILDREN as nat
        };
        lemma_dumped_all_extends(children@, count, 1, max_depth, here);
    } else {
        assert(here.0.take(here.0.len() as int) =~= here.0);
    }
}

/// Of a larger tree the first five hundred and one elements are looked at for
/// texts, and no other one.
pub proof fn law_texts_of_large_trees_are_cut_off(element: AxElement, max_depth: nat)
    ensures
        ({
            let all = preorder(element, 0, max_depth, 50);
            &&& all.len() <= 501 ==> texts_below(element, max_depth) == shown_texts(all)
            &&& all.len() > 501 ==> texts_below(element, max_depth) == shown_texts(all.take(501))
        }),
{
}

} // verus!
