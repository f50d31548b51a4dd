use markup_browser::document::{fallback_page, LoadError, Page};
use markup_browser::navigation::Navigator;
use markup_browser::style::Styles;

fn page(title: &str) -> Page {
    Page { title: title.to_string(), body: vec![], styles: Styles::default(), script: String::new() }
}

#[test]
fn starts_idle_at_home() {
    let nav = Navigator::new("home.yaml".to_string(), page("Home"));
    assert_eq!(nav.current(), "home.yaml");
    assert!(!nav.can_go_back());
    assert!(!nav.can_go_forward());
    assert!(!nav.is_loading());
    assert_eq!(nav.page().title, "Home");
}

#[test]
fn navigate_back_forward() {
    let mut nav = Navigator::new("a.yaml".to_string(), page("A"));
    let req = nav.navigate("b.yaml".to_string());
    assert_eq!(req.location, "b.yaml");
    assert!(nav.is_loading());
    assert!(nav.load_completed(req.id, Ok(page("B"))));
    let req = nav.back().unwrap();
    assert_eq!(req.location, "a.yaml");
    assert_eq!(nav.current(), "a.yaml");
    assert_eq!(nav.forward_history(), &vec!["b.yaml".to_string()]);
    assert!(nav.back_history().is_empty());
    let req = nav.forward().unwrap();
    assert_eq!(req.location, "b.yaml");
    assert_eq!(nav.current(), "b.yaml");
    assert!(nav.forward_history().is_empty());
    assert_eq!(nav.back_history(), &vec!["a.yaml".to_string()]);
}

#[test]
fn back_and_forward_without_history_do_nothing() {
    let mut nav = Navigator::new("a.yaml".to_string(), page("A"));
    assert!(nav.back().is_none());
    assert!(nav.forward().is_none());
    assert!(!nav.is_loading());
    assert_eq!(nav.current(), "a.yaml");
}

#[test]
fn navigate_clears_forward() {
    let mut nav = Navigator::new("a.yaml".to_string(), page("A"));
    nav.navigate("b.yaml".to_string());
    nav.back();
    assert!(nav.can_go_forward());
    nav.navigate("c.yaml".to_string());
    assert!(!nav.can_go_forward());
    assert_eq!(nav.back_history(), &vec!["a.yaml".to_string()]);
}

#[test]
fn superseded_load_is_dropped() {
    let mut nav = Navigator::new("a.yaml".to_string(), page("A"));
    let b = nav.navigate("b.yaml".to_string());
    let c = nav.navigate("c.yaml".to_string());
    assert_ne!(b.id, c.id);
    assert!(nav.load_completed(c.id, Ok(page("C"))));
    assert!(!nav.load_completed(b.id, Ok(page("B"))));
    assert_eq!(nav.page().title, "C");
    assert_eq!(nav.current(), "c.yaml");
}

#[test]
fn stale_load_arriving_first_is_dropped() {
    let mut nav = Navigator::new("a.yaml".to_string(), page("A"));
    let b = nav.navigate("b.yaml".to_string());
    let c = nav.navigate("c.yaml".to_string());
    assert!(!nav.load_completed(b.id, Ok(page("B"))));
    assert_eq!(nav.page().title, "A");
    assert!(nav.is_loading());
    assert!(nav.load_completed(c.id, Ok(page("C"))));
    assert_eq!(nav.page().title, "C");
}

#[test]
fn reload_keeps_history() {
    let mut nav = Navigator::new("a.yaml".to_string(), page("A"));
    nav.navigate("b.yaml".to_string());
    let r = nav.reload();
    assert_eq!(r.location, "b.yaml");
    assert_eq!(nav.back_history(), &vec!["a.yaml".to_string()]);
    assert!(nav.forward_history().is_empty());
}

#[test]
fn failed_load_keeps_page() {
    let mut nav = Navigator::new("a.yaml".to_string(), page("A"));
    let b = nav.navigate("b.yaml".to_string());
    assert!(!nav.load_completed(b.id, Err(LoadError::Transport)));
    assert_eq!(nav.page().title, "A");
    assert_eq!(nav.failure(), Some(LoadError::Transport));
    assert!(!nav.is_loading());
    let r = nav.reload();
    assert!(nav.load_completed(r.id, Ok(fallback_page())));
    assert_eq!(nav.failure(), None);
    assert_eq!(nav.page().title, "Erm what?");
}

#[test]
fn page_mut_changes_only_the_page() {
    let mut nav = Navigator::new("a.yaml".to_string(), page("A"));
    nav.page_mut().title = "Edited".to_string();
    assert_eq!(nav.page().title, "Edited");
    assert_eq!(nav.current(), "a.yaml");
    assert!(!nav.is_loading());
}
