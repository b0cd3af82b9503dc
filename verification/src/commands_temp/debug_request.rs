//! The requests that the command line hands to the debugger.
use vstd::prelude::*;

verus! {

/// A request for the debugger, read from a command line.
#[derive(Debug, Clone)]
pub enum DebugRequest {
    Exit,
    Continue,
    Step,
    Halt,
    SetBinary { path: String },
}

/// A [`DebugRequest`] with its path taken as characters.
pub enum DebugRequestView {
    Exit,
    Continue,
    Step,
    Halt,
    SetBinary { path: Seq<char> },
}

impl View for DebugRequest {
    type V = DebugRequestView;

    open spec fn view(&self) -> DebugRequestView {
        match self {
            DebugRequest::Exit => DebugRequestView::Exit,
            DebugRequest::Continue => DebugRequestView::Continue,
            DebugRequest::Step => DebugRequestView::Step,
            DebugRequest::Halt => DebugRequestView::Halt,
            DebugRequest::SetBinary { path } => DebugRequestView::SetBinary { path: path@ },
        }
    }
}

} // verus!
