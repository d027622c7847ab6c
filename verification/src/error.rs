//! The error type shared by the library.
use vstd::prelude::*;

verus! {

/// An error reported by an adapter operation.
#[derive(Debug, Clone, PartialEq, Eq)]
pub enum MacosError {
    /// A failure described by its message.
    Other(String),
    /// macOS refused access to a resource.
    PermissionDenied(String),
    /// The requested item does not exist.
    NotFound(String),
}

/// The mathematical value of a [`MacosError`].
pub enum MacosErrorView {
    Other(Seq<char>),
    PermissionDenied(Seq<char>),
    NotFound(Seq<char>),
}

impl View for MacosError {
    type V = MacosErrorView;

    open spec fn view(&self) -> MacosErrorView {
        match self {
            MacosError::Other(m) => MacosErrorView::Other(m@),
            MacosError::PermissionDenied(m) => MacosErrorView::PermissionDenied(m@),
            MacosError::NotFound(m) => MacosErrorView::NotFound(m@),
        }
    }
}

/// The view of a result whose value has a view.
pub open spec fn result_view<T: View>(r: Result<T, MacosError>) -> Result<T::V, MacosErrorView> {
    match r {
        Ok(v) => Ok(v@),
        Err(e) => Err(e@),
    }
}

impl MacosError {
    /// The text a user sees for this error.
    pub open spec fn spec_text(&self) -> Seq<char> {
        match self {
            MacosError::Other(m) => m@,
            MacosError::PermissionDenied(m) => "permission denied: "@ + m@,
            MacosError::NotFound(m) => m@,
        }
    }

    /// The text a user sees for this error.
    pub fn to_string(&self) -> (r: String)
        ensures
            r@ == self.spec_text(),
    {
        match self {
            MacosError::Other(m) => m.clone(),
            MacosError::PermissionDenied(m) => {
                let mut s = String::from_str("permission denied: ");
                s.append(m.as_str());
                s
            },
            MacosError::NotFound(m) => m.clone(),
        }
    }
}

} // verus!
