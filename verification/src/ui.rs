use vstd::prelude::*;

verus! {

/// The screens of the interactive front end.  The front end itself (terminal
/// drawing, key handling) lives outside the library; only the screen
/// vocabulary is part of the model.
#[derive(Debug, Clone, Copy, PartialEq, Eq, Structural)]
pub enum Screen {
    Menu,
    Running,
    Results,
}

} // verus!
