use im_select::error::SwitchError;
use im_select::pattern::Pattern;
use im_select::probe::{
    get_input_method_mspy, probe_read, ProbeLocator, ProbeOutcome, UiContainer, UiItem,
};

fn item(is_indicator: bool, label: &str) -> UiItem {
    UiItem { is_indicator, label: label.to_string() }
}

fn container(name: &str, items: Vec<UiItem>) -> UiContainer {
    UiContainer { name: name.to_string(), items }
}

#[test]
fn extraction_captures_token_after_literal() {
    // The pattern captures the run of non-whitespace after "Indicator".
    let p = Pattern::compile("Indicator").unwrap();
    assert_eq!(p.capture("Input Indicator ZH"), Some("ZH".to_string()));
}

#[test]
fn extraction_requires_whitespace_then_token() {
    let p = Pattern::compile("Indicator").unwrap();
    assert_eq!(p.capture("Indicator"), None); // nothing after the literal
    assert_eq!(p.capture("IndicatorZH"), None); // no whitespace after the literal
    assert_eq!(p.capture("Indicator   "), None); // whitespace but no token
    assert_eq!(p.capture("Indicator   EN "), Some("EN".to_string()));
}

#[test]
fn extraction_alternatives_first_wins() {
    let p = Pattern::compile("托盘输入指示器|输入指示器|Input Indicator").unwrap();
    assert_eq!(p.capture("托盘输入指示器 中"), Some("中".to_string()));
    assert_eq!(p.capture("输入指示器 英"), Some("英".to_string()));
    assert_eq!(p.capture("Input Indicator JA"), Some("JA".to_string()));
    assert_eq!(p.capture("no status here"), None);
}

#[test]
fn extraction_takes_the_leftmost_occurrence() {
    let p = Pattern::compile("Indicator").unwrap();
    assert_eq!(
        p.capture("some Indicator A and Indicator B"),
        Some("A".to_string())
    );
}

#[test]
fn pattern_with_empty_alternative_fails_to_compile() {
    assert_eq!(Pattern::compile("").unwrap_err(), SwitchError::BadPattern);
    assert_eq!(Pattern::compile("a||b").unwrap_err(), SwitchError::BadPattern);
    assert_eq!(Pattern::compile("a|b|").unwrap_err(), SwitchError::BadPattern);
    assert!(Pattern::compile("a|b").is_ok());
}

#[test]
fn probe_skips_non_matching_candidates() {
    // A candidate whose label the pattern does not match is passed over,
    // and the next one is tried.
    let children = vec![container(
        "taskbar",
        vec![
            item(true, "Clock 12:00"),
            item(false, "Input Indicator XX"), // wrong shape: passed over
            item(true, "Input Indicator ZH"),
            item(true, "Input Indicator EN"), // later match: first one wins
        ],
    )];
    let p = Pattern::compile("Input Indicator").unwrap();
    let r = probe_read(&children, "taskbar", &p);
    assert_eq!(r, ProbeOutcome::Token("ZH".to_string()));
}

#[test]
fn probe_reports_not_found_without_matching_label() {
    let children = vec![container("taskbar", vec![item(true, "Clock 12:00")])];
    let p = Pattern::compile("Input Indicator").unwrap();
    assert_eq!(probe_read(&children, "taskbar", &p), ProbeOutcome::NotFound);
}

#[test]
fn probe_fails_without_the_container() {
    let children = vec![container("dock", vec![item(true, "Input Indicator ZH")])];
    let p = Pattern::compile("Input Indicator").unwrap();
    assert_eq!(probe_read(&children, "taskbar", &p), ProbeOutcome::Failed);
}

#[test]
fn probe_takes_first_container_of_the_name() {
    let children = vec![
        container("taskbar", vec![]),
        container("taskbar", vec![item(true, "Input Indicator ZH")]),
    ];
    let p = Pattern::compile("Input Indicator").unwrap();
    // The first container of that name wins, even though it has no items.
    assert_eq!(probe_read(&children, "taskbar", &p), ProbeOutcome::NotFound);
}

#[test]
fn locator_compiles_at_configuration_time() {
    assert_eq!(
        ProbeLocator::new("taskbar".to_string(), "a||b").unwrap_err(),
        SwitchError::BadPattern
    );
    let loc = ProbeLocator::new("taskbar".to_string(), "Input Indicator").unwrap();
    let children = vec![container("taskbar", vec![item(true, "Input Indicator ZH")])];
    assert_eq!(loc.read(&children), ProbeOutcome::Token("ZH".to_string()));
}

#[test]
fn query_returns_the_token() {
    let children = vec![container("任务栏", vec![item(true, "托盘输入指示器 中")])];
    let r = get_input_method_mspy(&children, "任务栏", "托盘输入指示器|Input Indicator");
    assert_eq!(r, Ok("中".to_string()));
}

#[test]
fn query_maps_probe_outcomes_to_errors() {
    let p = "Input Indicator";
    let no_container: Vec<UiContainer> = vec![];
    assert_eq!(
        get_input_method_mspy(&no_container, "taskbar", p),
        Err(SwitchError::ContainerNotFound)
    );
    let no_match = vec![container("taskbar", vec![item(true, "Clock")])];
    assert_eq!(
        get_input_method_mspy(&no_match, "taskbar", p),
        Err(SwitchError::StatusNotFound)
    );
    let children = vec![container("taskbar", vec![item(true, "Input Indicator ZH")])];
    assert_eq!(
        get_input_method_mspy(&children, "taskbar", "bad||pattern"),
        Err(SwitchError::BadPattern)
    );
}
