//! Values returned by the Safari operations.
use vstd::prelude::*;

verus! {

/// One Safari tab, as the tab-listing scripts report it.
#[derive(Debug, Clone, PartialEq, Eq)]
pub struct SafariTab {
    pub window_id: i64,
    pub window_name: String,
    pub profile: Option<String>,
    pub index: usize,
    pub title: String,
    pub url: String,
    pub active: bool,
}

/// The mathematical value of a [`SafariTab`].
pub struct SafariTabView {
    pub window_id: i64,
    pub window_name: Seq<char>,
    pub profile: Option<Seq<char>>,
    pub index: usize,
    pub title: Seq<char>,
    pub url: Seq<char>,
    pub active: bool,
}

/// The view of an optional string.
pub open spec fn opt_string(o: Option<String>) -> Option<Seq<char>> {
    match o {
        Some(s) => Some(s@),
        None => None,
    }
}

/// The view of an optional string slice.
pub open spec fn opt_view(o: Option<&str>) -> Option<Seq<char>> {
    match o {
        Some(s) => Some(s@),
        None => None,
    }
}

impl View for SafariTab {
    type V = SafariTabView;

    open spec fn view(&self) -> SafariTabView {
        SafariTabView {
            window_id: self.window_id,
            window_name: self.window_name@,
            profile: opt_string(self.profile),
            index: self.index,
            title: self.title@,
            url: self.url@,
            active: self.active,
        }
    }
}

impl SafariTab {
    /// A copy of this tab.
    pub fn clone_tab(&self) -> (r: SafariTab)
        ensures
            r@ == self@,
    {
        let profile = match &self.profile {
            Some(p) => Some(p.clone()),
            None => None,
        };
        SafariTab {
            window_id: self.window_id,
            window_name: self.window_name.clone(),
            profile,
            index: self.index,
            title: self.title.clone(),
            url: self.url.clone(),
            active: self.active,
        }
    }
}

/// The views of a sequence of tabs.
pub open spec fn tab_views(tabs: Seq<SafariTab>) -> Seq<SafariTabView> {
    tabs.map_values(|t: SafariTab| t@)
}

/// The result of evaluating JavaScript in a tab: the JSON text of the value and
/// its JavaScript type.
#[derive(Debug, Clone, PartialEq, Eq)]
pub struct SafariEvalResult {
    pub result: String,
    pub value_type: String,
}

#[derive(Debug, Clone, PartialEq, Eq)]
pub struct SafariReadResult {
    pub selector: Option<String>,
    pub content: String,
}

#[derive(Debug, Clone, PartialEq, Eq)]
pub struct SafariScrollReadChunk {
    pub iteration: u64,
    pub content: String,
}

#[derive(Debug, Clone, PartialEq, Eq)]
pub struct SafariScrollReadResult {
    pub selector: Option<String>,
    pub times: u64,
    pub chunks: Vec<SafariScrollReadChunk>,
}

#[derive(Debug, Clone, PartialEq, Eq)]
pub struct SafariSourceResult {
    pub html: String,
}

#[derive(Debug, Clone, PartialEq, Eq)]
pub struct SafariCloseResult {
    pub closed: bool,
    pub index: Option<usize>,
}

#[derive(Debug, Clone, PartialEq, Eq)]
pub struct SafariClickResult {
    pub clicked: bool,
    pub selector: String,
}

#[derive(Debug, Clone, PartialEq, Eq)]
pub struct SafariFillResult {
    pub filled: bool,
    pub selector: String,
    pub text: String,
}

#[derive(Debug, Clone, PartialEq, Eq)]
pub struct SafariWaitResult {
    pub found: bool,
    pub selector: Option<String>,
    pub condition: String,
    pub timeout_seconds: u64,
}

#[derive(Debug, Clone, PartialEq, Eq)]
pub struct SafariScrollResult {
    pub scroll_x: i64,
    pub scroll_y: i64,
}

/// What the scroll-and-read poll script reports about the page.
#[derive(Debug, Clone, PartialEq, Eq)]
pub struct SafariScrollReadSnapshot {
    pub item_count: usize,
    pub content: String,
    pub blocks: Vec<String>,
}

} // verus!
