//! A convenience layer over an async WebDriver protocol client: typed
//! element queries, error remapping, and the value-level logic of crossing
//! the JSON boundary, each stated and proved. The wire-level protocol work
//! stays with the wrapped client; the session's async calls live with the
//! embedding application.

pub mod common;
pub mod error;
pub mod json;
pub mod session;
pub mod webdriver;
pub mod webelement;

pub use common::By;
pub use common::LocatorKind;
pub use error::WebDriverError;
pub use error::WebDriverResult;
pub use session::handle::SessionHandle;
pub use session::scriptret::ScriptRet;
pub use webdriver::WebDriver;
pub use webelement::WebElement;
