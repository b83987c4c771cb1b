use systemd_services::filter::{matches_status_filter, needle, passes, FilterState, StatusFilter};
use systemd_services::systemd::ServiceInfo;
use systemd_services::text::{chars_of, trim_text};

fn service(name: &str, active: &str, sub: &str) -> ServiceInfo {
    ServiceInfo {
        name: name.to_string(),
        description: String::new(),
        load_state: String::new(),
        active_state: active.to_string(),
        sub_state: sub.to_string(),
        unit_file_state: String::new(),
        followed_by: Vec::new(),
    }
}

fn filter(name: &str, status: Option<StatusFilter>) -> FilterState {
    FilterState { name: name.to_string(), status }
}

#[test]
fn categories_of_an_active_running_service() {
    let s = service("a.service", "active", "running");
    assert!(matches_status_filter(&s, StatusFilter::Running));
    assert!(!matches_status_filter(&s, StatusFilter::Dead));
    assert!(matches_status_filter(&s, StatusFilter::Active));
    assert!(!matches_status_filter(&s, StatusFilter::Inactive));
    assert!(!matches_status_filter(&s, StatusFilter::Exited));
}

#[test]
fn categories_of_other_services() {
    let dead = service("b.service", "inactive", "dead");
    assert!(matches_status_filter(&dead, StatusFilter::Dead));
    assert!(matches_status_filter(&dead, StatusFilter::Inactive));
    assert!(!matches_status_filter(&dead, StatusFilter::Active));
    let exited = service("c.service", "active", "exited");
    assert!(matches_status_filter(&exited, StatusFilter::Exited));
    assert!(!matches_status_filter(&exited, StatusFilter::Running));
}

#[test]
fn categories_ignore_case() {
    let s = service("a.service", "ACTIVE", "Running");
    assert!(matches_status_filter(&s, StatusFilter::Running));
    assert!(matches_status_filter(&s, StatusFilter::Active));
    let s = service("a.service", "InActive", "DEAD");
    assert!(matches_status_filter(&s, StatusFilter::Dead));
    assert!(matches_status_filter(&s, StatusFilter::Inactive));
    assert!(!matches_status_filter(&s, StatusFilter::Active));
}

#[test]
fn categories_compare_the_whole_state() {
    let s = service("a.service", "activ", "running ");
    assert!(!matches_status_filter(&s, StatusFilter::Active));
    assert!(!matches_status_filter(&s, StatusFilter::Running));
    let s = service("a.service", "reactive", "");
    assert!(!matches_status_filter(&s, StatusFilter::Active));
    assert!(!matches_status_filter(&s, StatusFilter::Inactive));
}

#[test]
fn empty_filter_lets_everything_pass() {
    let empty = FilterState::new();
    assert_eq!(empty, filter("", None));
    assert!(empty.matches(&service("a.service", "active", "running")));
    assert!(empty.matches(&service("", "", "")));
    assert!(empty.matches(&service("\u{e9}t\u{e9}.service", "failed", "failed")));
}

#[test]
fn name_fragment_is_searched_without_regard_to_case() {
    let s = service("NetworkManager.service", "active", "running");
    assert!(filter("network", None).matches(&s));
    assert!(filter("MANAGER", None).matches(&s));
    assert!(filter("kManager.S", None).matches(&s));
    assert!(filter(".service", None).matches(&s));
    assert!(!filter("networkd", None).matches(&s));
    assert!(!filter("manager network", None).matches(&s));
}

#[test]
fn name_fragment_is_trimmed() {
    let s = service("cron.service", "active", "running");
    assert!(filter("  cron ", None).matches(&s));
    assert!(filter("\tCRON\n", None).matches(&s));
    assert!(filter("   ", None).matches(&s));
    assert!(!filter(" c ron ", None).matches(&s));
}

#[test]
fn only_ascii_letters_are_folded() {
    let s = service("\u{c9}t\u{e9}.service", "active", "running");
    assert!(filter("\u{c9}T", None).matches(&s));
    assert!(!filter("\u{e9}t\u{e9}", None).matches(&s));
    assert!(filter("T\u{e9}", None).matches(&s));
}

#[test]
fn both_clauses_must_hold() {
    let s = service("a.service", "active", "running");
    assert!(filter("a", Some(StatusFilter::Running)).matches(&s));
    assert!(!filter("b", Some(StatusFilter::Running)).matches(&s));
    assert!(!filter("a", Some(StatusFilter::Dead)).matches(&s));
    assert!(!filter("b", None).matches(&s));
    assert!(filter("", Some(StatusFilter::Active)).matches(&s));
}

#[test]
fn needle_is_trimmed_and_lowered() {
    assert_eq!(needle("  SSH.Service \n"), "ssh.service");
    assert_eq!(needle(""), "");
    assert_eq!(needle(" \t "), "");
    assert_eq!(needle("a  B"), "a  b");
}

#[test]
fn prepared_fragment_is_taken_as_it_is() {
    let s = service("Cron.service", "active", "running");
    assert!(passes(&s, "cron", None));
    assert!(!passes(&s, "Cron", None));
    assert!(passes(&s, "", Some(StatusFilter::Running)));
    assert!(!passes(&s, "", Some(StatusFilter::Exited)));
}

#[test]
fn toggling_selects_replaces_and_clears() {
    let mut f = FilterState::new();
    f.toggle_status(StatusFilter::Running);
    assert_eq!(f.status, Some(StatusFilter::Running));
    assert!(f.is_selected(StatusFilter::Running));
    assert!(!f.is_selected(StatusFilter::Dead));
    f.toggle_status(StatusFilter::Dead);
    assert_eq!(f.status, Some(StatusFilter::Dead));
    f.toggle_status(StatusFilter::Dead);
    assert_eq!(f.status, None);
    assert!(!f.is_selected(StatusFilter::Dead));
    f.set_name("x".to_string());
    f.toggle_status(StatusFilter::Active);
    assert_eq!(f, filter("x", Some(StatusFilter::Active)));
    f.set_name("y".to_string());
    assert_eq!(f, filter("y", Some(StatusFilter::Active)));
}

#[test]
fn trimming_removes_white_space_at_both_ends_only() {
    assert_eq!(trim_text("  a b  "), "a b");
    assert_eq!(trim_text("\n Hello\tworld\t\n"), "Hello\tworld");
    assert_eq!(trim_text("\u{a0}x\u{3000}"), "x");
    assert_eq!(trim_text(""), "");
    assert_eq!(trim_text(" \r\n"), "");
    assert_eq!(trim_text("x"), "x");
}

#[test]
fn characters_of_a_text() {
    assert_eq!(chars_of("a\u{e9}\u{1f600}"), vec!['a', '\u{e9}', '\u{1f600}']);
    assert_eq!(chars_of(""), Vec::<char>::new());
}

fn has_white_space_property(c: char) -> bool {
    matches!(
        c as u32,
        0x0009..=0x000D
            | 0x0020
            | 0x0085
            | 0x00A0
            | 0x1680
            | 0x2000..=0x200A
            | 0x2028
            | 0x2029
            | 0x202F
            | 0x205F
            | 0x3000
    )
}

#[test]
fn trimming_removes_the_white_space_characters_and_no_others() {
    let mut text = String::new();
    for code in 0..=0x10FFFFu32 {
        if let Some(c) = char::from_u32(code) {
            text.clear();
            text.push(c);
            text.push('x');
            text.push(c);
            let trimmed = trim_text(&text);
            if has_white_space_property(c) {
                assert_eq!(trimmed, "x", "U+{:04X}", code);
            } else {
                assert_eq!(trimmed, text, "U+{:04X}", code);
            }
        }
    }
}
