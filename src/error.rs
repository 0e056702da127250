use vstd::prelude::*;

verus! {

/// What a key press can fail with. The session records it and goes on.
#[derive(Debug, Clone, PartialEq, Eq)]
pub enum DotViewerError {
    /// A node that a jump names is not among the view's nodes.
    NotFound(String),
    /// A filter or an extraction yields no node.
    NoMatch(String),
    /// A tab operation that the stack forbids, such as closing the root tab.
    TabBoundary,
    /// No binding for the key in the current mode and focus.
    KeyUnhandled(crate::app::Key),
    /// A command line that names no command or lacks its argument.
    CommandError(String),
    /// The graph description could not be read.
    ParseFailure(String),
    /// Export or viewer launch failed.
    IOFailure(String),
}

pub type DotViewerResult<T> = Result<T, DotViewerError>;

} // verus!
