use tabify::transform::{process, tabify, transform, untabify, Mode};

#[test]
fn tabify_test() {
    assert_eq!("  2 leading spaces", tabify("  2 leading spaces", 4));
    assert_eq!("\t4 leading spaces", tabify("    4 leading spaces", 4));
    assert_eq!(
        "\t   7 leading spaces",
        tabify("       7 leading spaces", 4)
    );
    assert_eq!(
        "\tspaces    in middle",
        tabify("    spaces    in middle", 4)
    );
}

#[test]
fn untabify_test() {
    assert_eq!("    1 leading tab", untabify("\t1 leading tab", 4));
    assert_eq!("        2 leading tabs", untabify("\t\t2 leading tabs", 4));
    assert_eq!(
        "        \ttab spaces tab",
        untabify("\t    \ttab spaces tab", 4)
    );
}

#[test]
fn round_trip_is_identity_with_leftover_spaces() {
    let original = "       7 leading spaces";
    let back = untabify(&tabify(original, 4), 4);
    assert_eq!(original, back);
}

#[test]
fn round_trip_preserves_leading_columns() {
    // Four spaces, a tab, a space: 4 + 4 + 1 = 9 columns at width 4.
    let original = "    \t x";
    let tabified = tabify(original, 4);
    assert_eq!("\t\t x", tabified);
    let back = untabify(&tabified, 4);
    assert_eq!("         x", back);
}

#[test]
fn tabify_whitespace_only_line_keeps_full_groups_only() {
    // A line of spaces alone never reaches a character that would flush the
    // leftover spaces, so only the full groups are kept.
    assert_eq!("\t", tabify("      ", 4));
    assert_eq!("\t\t", tabify("        ", 4));
}

#[test]
fn tabify_leaves_line_after_first_non_space_untouched() {
    assert_eq!("x\t y  z", tabify("x\t y  z", 4));
    assert_eq!("\tx    \t", tabify("    x    \t", 4));
}

#[test]
fn untabify_leaves_line_after_first_non_tab_untouched() {
    assert_eq!("x\ty", untabify("x\ty", 4));
    assert_eq!("    a\tb", untabify("\ta\tb", 4));
}

#[test]
fn untabify_expands_every_leading_tab() {
    assert_eq!("      ", untabify("\t\t", 3));
    assert_eq!("", untabify("", 4));
    assert_eq!("", tabify("", 4));
}

#[test]
fn width_one_swaps_single_characters() {
    assert_eq!("\tx", tabify(" x", 1));
    assert_eq!(" x", untabify("\tx", 1));
}

#[test]
fn transform_dispatches_on_mode() {
    assert_eq!("\tx", transform("    x", 4, &Mode::Tabify));
    assert_eq!("    x", transform("\tx", 4, &Mode::Untabify));
}

#[test]
fn process_transforms_each_line_independently() {
    let lines = vec![
        String::from("    a"),
        String::from("b    c"),
        String::from(""),
        String::from("        d"),
    ];
    let out = process(&lines, &Mode::Tabify, 4);
    assert_eq!(
        vec![
            String::from("\ta"),
            String::from("b    c"),
            String::from(""),
            String::from("\t\td"),
        ],
        out
    );
    let back = process(&out, &Mode::Untabify, 4);
    assert_eq!(
        vec![
            String::from("    a"),
            String::from("b    c"),
            String::from(""),
            String::from("        d"),
        ],
        back
    );
}
