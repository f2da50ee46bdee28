use notification_forwarder::element::{collect_texts, dump_tree, get_string, holds, AxElement};
use notification_forwarder::observer::scan_once;
use notification_forwarder::scanner::{is_banner_at, is_generic_app_hint, scan_for_banners};

fn node(attributes: &[(&str, &str)], children: Vec<AxElement>) -> AxElement {
    AxElement {
        attributes: attributes.iter().map(|(n, v)| (n.to_string(), v.to_string())).collect(),
        children: Some(children),
    }
}

fn label(value: &str) -> AxElement {
    node(&[("AXRole", "AXStaticText"), ("AXValue", value)], vec![])
}

fn group(children: Vec<AxElement>) -> AxElement {
    node(&[("AXRole", "AXGroup")], children)
}

fn banner(id: &str, texts: &[&str]) -> AxElement {
    node(
        &[
            ("AXRole", "AXGroup"),
            ("AXSubrole", "AXNotificationCenterBanner"),
            ("AXIdentifier", id),
        ],
        texts.iter().map(|t| label(t)).collect(),
    )
}

#[test]
fn rejects_system_container_as_app_hint() {
    assert!(is_generic_app_hint("Notification Center"));
    assert!(is_generic_app_hint("NotificationCenter"));
    assert!(!is_generic_app_hint("Booking"));
    assert!(!is_generic_app_hint("Jago"));
}

#[test]
fn attributes_are_trimmed_and_blank_ones_missing() {
    let e = node(&[("A", "  x "), ("A", "y"), ("B", " \n")], vec![]);
    assert_eq!(get_string(&e, "A"), Some("x".to_string()));
    assert_eq!(get_string(&e, "B"), None);
    assert_eq!(get_string(&e, "C"), None);
    assert!(holds(&Some("a".to_string()), "a"));
    assert!(!holds(&Some("a".to_string()), "b"));
    assert!(!holds(&None, ""));
}

#[test]
fn texts_are_collected_in_order_and_once() {
    let tree = group(vec![
        label("one"),
        group(vec![label("two"), label("one")]),
        node(&[("AXRole", "AXHeading"), ("AXTitle", "three"), ("AXDescription", "no")], vec![]),
        node(&[("AXRole", "AXTextField"), ("AXDescription", "four")], vec![]),
        node(&[("AXRole", "AXButton"), ("AXTitle", "button")], vec![]),
        label("  "),
    ]);
    assert_eq!(collect_texts(&tree, 9), vec!["one", "two", "three", "four"]);
}

#[test]
fn texts_are_looked_for_down_to_a_depth() {
    let tree = group(vec![group(vec![label("deep")]), label("near")]);
    assert_eq!(collect_texts(&tree, 0), Vec::<String>::new());
    assert_eq!(collect_texts(&tree, 1), vec!["near"]);
    assert_eq!(collect_texts(&tree, 2), vec!["deep", "near"]);
    assert_eq!(collect_texts(&tree, usize::MAX), vec!["deep", "near"]);
    assert_eq!(collect_texts(&label("self"), 0), vec!["self"]);
}

#[test]
fn no_more_than_fifty_children_are_looked_at_for_texts() {
    let tree = group((0..60).map(|i| label(&i.to_string())).collect());
    let texts = collect_texts(&tree, 1);
    assert_eq!(texts.len(), 50);
    assert_eq!(texts[49], "49");
}

#[test]
fn no_more_than_a_number_of_elements_is_looked_at_for_texts() {
    let tree = group(
        (0..20)
            .map(|i| group((0..50).map(|j| label(&format!("{i}-{j}"))).collect()))
            .collect(),
    );
    // The root, ten groups with their labels, and before the last of them 501
    // elements are reached.
    let texts = collect_texts(&tree, 5);
    assert_eq!(texts.len(), 490);
    assert_eq!(texts[489], "9-39");
}

#[test]
fn unreadable_children_are_none() {
    let mut e = label("self");
    e.children = None;
    assert_eq!(collect_texts(&e, 3), vec!["self"]);
    assert_eq!(dump_tree(&e, 3), "AXStaticText\n");
    assert_eq!(scan_for_banners(&e).len(), 0);
}

#[test]
fn the_tree_is_printed_with_its_indentation() {
    let tree = node(
        &[("AXRole", "AXApplication"), ("AXTitle", "Notification \"Center\"")],
        vec![node(
            &[("AXRole", "AXWindow"), ("AXSubrole", "AXDialog")],
            vec![banner("id-1", &["x"]), node(&[], vec![])],
        )],
    );
    assert_eq!(
        dump_tree(&tree, 10),
        "AXApplication [title=\"Notification \\\"Center\\\"\"]\n\
         └── AXWindow [subrole=AXDialog]\n    \
             └── AXGroup [subrole=AXNotificationCenterBanner id=id-1]\n        \
                 └── AXStaticText\n    \
             └── ?\n"
    );
    assert_eq!(dump_tree(&tree, 0), "AXApplication [title=\"Notification \\\"Center\\\"\"]\n");
}

#[test]
fn long_titles_are_cut() {
    let e = node(&[("AXTitle", &"é".repeat(61))], vec![]);
    assert_eq!(dump_tree(&e, 1), format!("? [title=\"{}\"]\n", "é".repeat(60)));
}

#[test]
fn large_trees_are_cut() {
    let tree = group((0..11).map(|_| group((0..30).map(|_| group(vec![])).collect())).collect());
    let text = dump_tree(&tree, 10);
    let lines: Vec<&str> = text.lines().collect();
    // 301 elements; then what is left on each level is one line each.
    let cut: Vec<&&str> = lines.iter().filter(|l| l.contains("truncated at 300 nodes")).collect();
    assert_eq!(lines.len() - cut.len(), 301);
    assert_eq!(cut.len(), 11);
    assert_eq!(*cut[0], "        … (truncated at 300 nodes)");
    assert_eq!(*cut[10], "    … (truncated at 300 nodes)");
}

#[test]
fn only_thirty_children_are_printed() {
    let tree = group((0..31).map(|_| group(vec![])).collect());
    assert_eq!(dump_tree(&tree, 10).lines().count(), 31);
}

#[test]
fn banners_are_found_by_their_subrole() {
    let tree = node(
        &[("AXRole", "AXApplication")],
        vec![node(
            &[("AXRole", "AXWindow"), ("AXTitle", "Notification Center")],
            vec![node(
                &[("AXRole", "AXGroup"), ("AXDescription", "WhatsApp")],
                vec![banner("b1", &["Niles", "AAA"])],
            )],
        )],
    );
    let found = scan_for_banners(&tree);
    assert_eq!(found.len(), 1);
    let b = &found[0];
    assert_eq!(b.ax_id, Some("b1".to_string()));
    assert_eq!(b.app_name_hint, Some("WhatsApp".to_string()));
    assert_eq!(b.title_attr, None);
    assert_eq!(b.description_attr, None);
    assert_eq!(b.static_texts, vec!["Niles", "AAA"]);
    let fields = b.clone().into_fields();
    assert_eq!(fields.identifier, Some("b1".to_string()));
    assert_eq!(fields.static_texts, vec!["Niles", "AAA"]);
}

#[test]
fn the_container_is_no_hint() {
    let tree = node(
        &[("AXRole", "AXWindow"), ("AXTitle", "Notification Center")],
        vec![banner("b1", &["x"])],
    );
    assert_eq!(scan_for_banners(&tree)[0].app_name_hint, None);
}

#[test]
fn the_outer_hint_holds() {
    let tree = node(
        &[("AXRole", "AXWindow"), ("AXTitle", "Outer")],
        vec![node(&[("AXRole", "AXGroup"), ("AXTitle", "Inner")], vec![banner("b", &[])])],
    );
    assert_eq!(scan_for_banners(&tree)[0].app_name_hint, Some("Outer".to_string()));
}

#[test]
fn a_banner_can_be_its_own_hint() {
    let mut b = banner("b", &[]);
    b.attributes.push(("AXTitle".to_string(), "Mail".to_string()));
    let found = scan_for_banners(&b);
    assert_eq!(found[0].app_name_hint, Some("Mail".to_string()));
    assert_eq!(found[0].title_attr, Some("Mail".to_string()));
}

#[test]
fn without_the_subrole_the_identifier_counts() {
    let row = |id: &str, role: &str| node(&[("AXRole", role), ("AXIdentifier", id)], vec![]);
    let at_depth = |depth: usize, leaf: AxElement| {
        (0..depth).fold(leaf, |below, _| group(vec![below]))
    };
    for (id, role, expected) in [
        ("my-BANNER-1", "AXGroup", 1),
        ("UserNotification", "AXRow", 1),
        ("banner", "", 1),
        ("banner", "AXButton", 0),
        ("alert", "AXGroup", 0),
        ("", "AXGroup", 0),
    ] {
        let found = scan_for_banners(&at_depth(3, row(id, role)));
        assert_eq!(found.len(), expected, "{id} {role}");
    }
    assert_eq!(scan_for_banners(&at_depth(2, row("banner", "AXGroup"))).len(), 0);
}

#[test]
fn stacked_banners_are_found_too() {
    let mut outer = banner("outer", &["a"]);
    outer.children.as_mut().unwrap().push(banner("inner", &["b"]));
    let ids: Vec<Option<String>> =
        scan_for_banners(&outer).into_iter().map(|b| b.ax_id).collect();
    assert_eq!(ids, vec![Some("outer".to_string()), Some("inner".to_string())]);
}

#[test]
fn a_scan_is_bounded() {
    // No more than fifty banners.
    let tree = group((0..60).map(|i| banner(&i.to_string(), &[])).collect());
    let found = scan_for_banners(&tree);
    assert_eq!(found.len(), 50);
    assert_eq!(found[49].ax_id, Some("49".to_string()));
    // No more than sixty children.
    let mut children: Vec<AxElement> = (0..60).map(|_| group(vec![])).collect();
    children.push(banner("late", &[]));
    assert_eq!(scan_for_banners(&group(children)).len(), 0);
    // No deeper than fourteen levels.
    let deep = |n: usize| (0..n).fold(banner("deep", &[]), |below, _| group(vec![below]));
    assert_eq!(scan_for_banners(&deep(14)).len(), 1);
    assert_eq!(scan_for_banners(&deep(15)).len(), 0);
    // No more than 801 elements.
    let wide = |last: usize| {
        let mut groups: Vec<AxElement> =
            (0..15).map(|_| group((0..52).map(|_| group(vec![])).collect())).collect();
        groups.push(group((0..last).map(|_| group(vec![])).collect()));
        groups.push(banner("end", &[]));
        group(groups)
    };
    // 1 + 15 * 53 + 1 elements come before the banner, and those of the last group.
    assert_eq!(scan_for_banners(&wide(3)).len(), 1);
    assert_eq!(scan_for_banners(&wide(4)).len(), 0);
}

#[test]
fn one_scan_or_what_is_in_its_way() {
    let app = Some(banner("b", &["x"]));
    assert_eq!(
        scan_once(false, None, &None).unwrap_err(),
        "accessibility permission not granted"
    );
    assert_eq!(scan_once(true, None, &app).unwrap_err(), "Notification Center not found");
    assert_eq!(
        scan_once(true, Some(5), &None).unwrap_err(),
        "failed to create AXUIElement for Notification Center"
    );
    assert_eq!(scan_once(true, Some(5), &app).unwrap().len(), 1);
}

#[test]
fn an_element_is_a_banner_by_its_own_attributes() {
    let mut by_name = node(&[("AXRole", "AXRow"), ("AXIdentifier", "Banner-1")], vec![]);
    by_name.children = None;
    assert!(!is_banner_at(&by_name, 2));
    assert!(is_banner_at(&by_name, 3));
    assert!(is_banner_at(&banner("b", &[]), 0));
    assert!(!is_banner_at(&label("x"), 5));
}
