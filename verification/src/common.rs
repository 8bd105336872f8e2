//! Element query types: how a caller names the element it wants, and what
//! selector the wire protocol is handed for it.

use vstd::prelude::*;

verus! {

/// The locator strategies the wire protocol accepts.
#[derive(Clone, Copy, Debug, PartialEq, Eq, Structural)]
pub enum LocatorKind {
    Css,
    Id,
    LinkText,
    XPath,
}

/// An element query. The name, tag and class forms are conveniences that
/// turn into CSS selectors; the rest map to a protocol strategy directly.
#[derive(Clone, Debug)]
pub enum By {
    /// Select by the `id` attribute.
    Id(String),
    /// Select by an XPath expression.
    XPath(String),
    /// Select a link by its exact link text.
    LinkText(String),
    /// Select by the `name` attribute.
    Name(String),
    /// Select by the tag name.
    Tag(String),
    /// Select by a class name.
    ClassName(String),
    /// Select by a CSS selector.
    Css(String),
}

impl By {
    /// The protocol strategy this query uses.
    pub open spec fn spec_selector_kind(&self) -> LocatorKind {
        match self {
            By::Id(_) => LocatorKind::Id,
            By::XPath(_) => LocatorKind::XPath,
            By::LinkText(_) => LocatorKind::LinkText,
            By::Name(_) => LocatorKind::Css,
            By::Tag(_) => LocatorKind::Css,
            By::ClassName(_) => LocatorKind::Css,
            By::Css(_) => LocatorKind::Css,
        }
    }

    /// The selector text handed to the protocol: a name query becomes an
    /// attribute selector, a class name gets its leading dot, the rest pass
    /// through.
    pub open spec fn spec_selector_text(&self) -> Seq<char> {
        match self {
            By::Id(s) => s@,
            By::XPath(s) => s@,
            By::LinkText(s) => s@,
            By::Name(s) => "[name=\""@ + s@ + "\"]"@,
            By::Tag(s) => s@,
            By::ClassName(s) => "."@ + s@,
            By::Css(s) => s@,
        }
    }

    /// How the query prints in error messages.
    pub open spec fn spec_description(&self) -> Seq<char> {
        match self {
            By::Id(s) => "Id("@ + s@ + ")"@,
            By::XPath(s) => "XPath("@ + s@ + ")"@,
            By::LinkText(s) => "LinkText("@ + s@ + ")"@,
            By::Name(s) => "Name("@ + s@ + ")"@,
            By::Tag(s) => "Tag("@ + s@ + ")"@,
            By::ClassName(s) => "ClassName("@ + s@ + ")"@,
            By::Css(s) => "Css("@ + s@ + ")"@,
        }
    }

    /// The protocol strategy and selector text for this query.
    pub fn selector(&self) -> (r: (LocatorKind, String))
        ensures
            r.0 == self.spec_selector_kind(),
            r.1@ == self.spec_selector_text(),
    {
        match self {
            By::Id(s) => (LocatorKind::Id, s.clone()),
            By::XPath(s) => (LocatorKind::XPath, s.clone()),
            By::LinkText(s) => (LocatorKind::LinkText, s.clone()),
            By::Name(s) => {
                let mut t = String::from_str("[name=\"");
                t.append(s.as_str());
                t.append("\"]");
                (LocatorKind::Css, t)
            },
            By::Tag(s) => (LocatorKind::Css, s.clone()),
            By::ClassName(s) => {
                let mut t = String::from_str(".");
                t.append(s.as_str());
                (LocatorKind::Css, t)
            },
            By::Css(s) => (LocatorKind::Css, s.clone()),
        }
    }

    /// Renders the query for error messages, e.g. `Id(button1)`.
    pub fn description(&self) -> (r: String)
        ensures
            r@ == self.spec_description(),
    {
        match self {
            By::Id(s) => {
                let mut t = String::from_str("Id(");
                t.append(s.as_str());
                t.append(")");
                t
            },
            By::XPath(s) => {
                let mut t = String::from_str("XPath(");
                t.append(s.as_str());
                t.append(")");
                t
            },
            By::LinkText(s) => {
                let mut t = String::from_str("LinkText(");
                t.append(s.as_str());
                t.append(")");
                t
            },
            By::Name(s) => {
                let mut t = String::from_str("Name(");
                t.append(s.as_str());
                t.append(")");
                t
            },
            By::Tag(s) => {
                let mut t = String::from_str("Tag(");
                t.append(s.as_str());
                t.append(")");
                t
            },
            By::ClassName(s) => {
                let mut t = String::from_str("ClassName(");
                t.append(s.as_str());
                t.append(")");
                t
            },
            By::Css(s) => {
                let mut t = String::from_str("Css(");
                t.append(s.as_str());
                t.append(")");
                t
            },
        }
    }
}

/// Decision behind `WebElement::is_clickable`: an element is clickable
/// when it is both displayed and enabled.
pub fn clickable(displayed: bool, enabled: bool) -> (r: bool)
    ensures
        r == (displayed && enabled),
{
    displayed && enabled
}

} // verus!
