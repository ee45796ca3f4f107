//! The life of an image element's background load.

use vstd::prelude::*;

verus! {

/// Where the load of an element's image stands.
pub enum LoadState<T> {
    NotStarted,
    Loading,
    Loaded(T),
    Failed,
}

/// What painting the element does.
#[derive(Debug, Clone, Copy, PartialEq, Eq, Structural)]
pub enum PaintAction {
    /// Paint the loaded image.
    Paint,
    /// Ask for another frame: the load is still running.
    Refresh,
    /// Paint nothing.
    Nothing,
}

/// The paint action for a state.
pub open spec fn paint_action_of<T>(s: LoadState<T>) -> PaintAction {
    match s {
        LoadState::Loaded(_) => PaintAction::Paint,
        LoadState::Loading => PaintAction::Refresh,
        _ => PaintAction::Nothing,
    }
}

impl<T> LoadState<T> {
    /// Nothing started yet.
    pub fn new() -> (s: Self)
        ensures
            s is NotStarted,
    {
        LoadState::NotStarted
    }

    /// Called on each render. The first call moves to `Loading` and returns `true`: the
    /// caller then starts the load. Later calls change nothing and return `false`.
    pub fn begin(&mut self) -> (start: bool)
        ensures
            start == (*old(self) is NotStarted),
            *final(self) == begun(*old(self)),
    {
        if let LoadState::NotStarted = self {
            *self = LoadState::Loading;
            true
        } else {
            false
        }
    }

    /// Called when the load ends: the image, or `None` when it could not be loaded.
    pub fn finish(&mut self, result: Option<T>)
        ensures
            *final(self) == finished(result),
    {
        *self = match result {
            Some(x) => LoadState::Loaded(x),
            None => LoadState::Failed,
        };
    }

    /// What painting does in this state.
    pub fn paint_action(&self) -> (a: PaintAction)
        ensures
            a == paint_action_of(*self),
    {
        match self {
            LoadState::Loaded(_) => PaintAction::Paint,
            LoadState::Loading => PaintAction::Refresh,
            _ => PaintAction::Nothing,
        }
    }

    /// The loaded image, if there is one.
    pub fn image(&self) -> (img: Option<&T>)
        ensures
            match *self {
                LoadState::Loaded(x) => img == Some(&x),
                _ => img is None,
            },
    {
        match self {
            LoadState::Loaded(x) => Some(x),
            _ => None,
        }
    }
}

/// The state after a render's `begin`.
pub open spec fn begun<T>(s: LoadState<T>) -> LoadState<T> {
    if s is NotStarted {
        LoadState::Loading
    } else {
        s
    }
}

/// The state after `finish` with a load's result.
pub open spec fn finished<T>(result: Option<T>) -> LoadState<T> {
    match result {
        Some(x) => LoadState::Loaded(x),
        None => LoadState::Failed,
    }
}

/// A load is started at most once: renders after the first change nothing, and a
/// finished load stays as it finished however often the element renders.
pub proof fn lemma_load_starts_once<T>(s: LoadState<T>, result: Option<T>)
    ensures
        begun(begun(s)) == begun(s),
        !(begun(s) is NotStarted),
        begun(finished(result)) == finished(result),
{
}

} // verus!
