//! Element queries, error remapping, and the small command decisions.

use fantoccini::error::{CmdError, ErrorStatus, WebDriver as WdError};
use thirtyfour::common::clickable;
use thirtyfour::error::{map_cmd_error, map_find_error, WebDriverError};
use thirtyfour::webelement::{html_from_property, presence_from_tag_name};
use thirtyfour::{By, LocatorKind};

#[test]
fn selector_of_direct_strategies() {
    let (k, s) = By::Id("button1".to_string()).selector();
    assert_eq!(k, LocatorKind::Id);
    assert_eq!(s, "button1");
    let (k, s) = By::XPath("//div[2]".to_string()).selector();
    assert_eq!(k, LocatorKind::XPath);
    assert_eq!(s, "//div[2]");
    let (k, s) = By::LinkText("next page".to_string()).selector();
    assert_eq!(k, LocatorKind::LinkText);
    assert_eq!(s, "next page");
    let (k, s) = By::Css("div > p".to_string()).selector();
    assert_eq!(k, LocatorKind::Css);
    assert_eq!(s, "div > p");
}

#[test]
fn selector_of_css_conveniences() {
    let (k, s) = By::Name("input2".to_string()).selector();
    assert_eq!(k, LocatorKind::Css);
    assert_eq!(s, "[name=\"input2\"]");
    let (k, s) = By::Tag("button".to_string()).selector();
    assert_eq!(k, LocatorKind::Css);
    assert_eq!(s, "button");
    let (k, s) = By::ClassName("pure-button".to_string()).selector();
    assert_eq!(k, LocatorKind::Css);
    assert_eq!(s, ".pure-button");
}

#[test]
fn descriptions() {
    assert_eq!(By::Id("x".to_string()).description(), "Id(x)");
    assert_eq!(By::XPath("//a".to_string()).description(), "XPath(//a)");
    assert_eq!(By::LinkText("go".to_string()).description(), "LinkText(go)");
    assert_eq!(By::Name("n".to_string()).description(), "Name(n)");
    assert_eq!(By::Tag("p".to_string()).description(), "Tag(p)");
    assert_eq!(By::ClassName("c".to_string()).description(), "ClassName(c)");
    assert_eq!(By::Css("a b".to_string()).description(), "Css(a b)");
}

fn no_such_element() -> CmdError {
    CmdError::Standard(WdError::new(ErrorStatus::NoSuchElement, "not found"))
}

#[test]
fn find_error_when_nothing_matched() {
    let by = By::Id("button1".to_string());
    match map_find_error(no_such_element(), &by) {
        WebDriverError::NoSuchElement(d) => assert_eq!(d, "Id(button1)"),
        _ => panic!("expected NoSuchElement"),
    }
}

#[test]
fn find_error_passes_others_through() {
    let by = By::Id("button1".to_string());
    match map_find_error(CmdError::WaitTimeout, &by) {
        WebDriverError::CmdError(CmdError::WaitTimeout) => {}
        _ => panic!("expected the command error back"),
    }
}

#[test]
fn command_error_when_nothing_matched() {
    match map_cmd_error(no_such_element()) {
        WebDriverError::NoSuchElement(_) => {}
        _ => panic!("expected NoSuchElement"),
    }
}

#[test]
fn command_error_passes_others_through() {
    let stale = CmdError::Standard(WdError::new(ErrorStatus::StaleElementReference, "gone"));
    match map_cmd_error(stale) {
        WebDriverError::CmdError(CmdError::Standard(w)) => {
            assert_eq!(w.error, ErrorStatus::StaleElementReference);
        }
        _ => panic!("expected the command error back"),
    }
}

#[test]
fn clickable_needs_both() {
    assert!(clickable(true, true));
    assert!(!clickable(true, false));
    assert!(!clickable(false, true));
    assert!(!clickable(false, false));
}

#[test]
fn presence_follows_tag_name_outcome() {
    assert!(matches!(presence_from_tag_name(Ok("button".to_string())), Ok(true)));
    assert!(matches!(
        presence_from_tag_name(Err(WebDriverError::NoSuchElement("Id(x)".to_string()))),
        Ok(false)
    ));
    match presence_from_tag_name(Err(WebDriverError::Decode("null".to_string()))) {
        Err(WebDriverError::Decode(d)) => assert_eq!(d, "null"),
        _ => panic!("expected the error back"),
    }
}

#[test]
fn html_reads_missing_property_as_empty() {
    assert_eq!(html_from_property(Some("<p>hi</p>".to_string())), "<p>hi</p>");
    assert_eq!(html_from_property(None), "");
}
