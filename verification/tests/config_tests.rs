use cascade_wm::{Config, DuplicateLayout, KeyboardLayout};

fn layout(layout: &str, variant: &str) -> KeyboardLayout {
    KeyboardLayout { layout: layout.to_string(), variant: variant.to_string() }
}

#[test]
fn validate_accepts_distinct_layouts() {
    let config = Config {
        keyboard_layouts: vec![layout("us", ""), layout("de", ""), layout("us", "dvorak")],
    };
    assert_eq!(config.validate(), Ok(()));
}

#[test]
fn validate_accepts_an_empty_list() {
    let config = Config { keyboard_layouts: vec![] };
    assert_eq!(config.validate(), Ok(()));
}

#[test]
fn validate_reports_an_adjacent_duplicate() {
    let config = Config { keyboard_layouts: vec![layout("us", ""), layout("us", "")] };
    assert_eq!(config.validate(), Err(DuplicateLayout { first: 0, second: 1 }));
}

#[test]
fn validate_reports_the_first_duplicated_pair() {
    let config = Config {
        keyboard_layouts: vec![
            layout("us", ""),
            layout("de", ""),
            layout("fr", ""),
            layout("de", ""),
        ],
    };
    assert_eq!(config.validate(), Err(DuplicateLayout { first: 1, second: 3 }));
}

#[test]
fn validate_prefers_the_smallest_first_index() {
    let config = Config {
        keyboard_layouts: vec![
            layout("us", ""),
            layout("de", ""),
            layout("de", ""),
            layout("us", ""),
        ],
    };
    assert_eq!(config.validate(), Err(DuplicateLayout { first: 0, second: 3 }));
}

#[test]
fn variant_distinguishes_layouts() {
    let config = Config {
        keyboard_layouts: vec![layout("us", "dvorak"), layout("us", "colemak")],
    };
    assert_eq!(config.validate(), Ok(()));
    assert!(!layout("us", "dvorak").matches(&layout("us", "colemak")));
    assert!(layout("us", "dvorak").matches(&layout("us", "dvorak")));
}
