//! The navigation controller: browser history over asynchronous page loads,
//! where only the most recently started load may change the live page.
use vstd::prelude::*;
use crate::document::{LoadError, Page};

verus! {

/// A load that the controller asks to be run: fetch and read `location`,
/// then report the outcome under `id`.
#[derive(Debug)]
pub struct LoadRequest {
    pub id: u64,
    pub location: String,
}

/// The controller's state as mathematics.
pub struct NavState {
    pub current: String,
    pub back: Seq<String>,
    pub forward: Seq<String>,
    pub pending: Option<u64>,
    pub next_id: u64,
    pub page: Page,
    pub failure: Option<LoadError>,
}

/// The navigation controller.
pub struct Navigator {
    current: String,
    back: Vec<String>,
    forward: Vec<String>,
    pending: Option<u64>,
    next_id: u64,
    page: Page,
    failure: Option<LoadError>,
}

impl View for Navigator {
    type V = NavState;

    closed spec fn view(&self) -> NavState {
        NavState {
            current: self.current,
            back: self.back@,
            forward: self.forward@,
            pending: self.pending,
            next_id: self.next_id,
            page: self.page,
            failure: self.failure,
        }
    }
}

/// The identifier that follows `id`; after the largest one it starts over.
pub open spec fn next_of(id: u64) -> u64 {
    if id == u64::MAX {
        0
    } else {
        (id + 1) as u64
    }
}

/// The state after a load of the current location is started: it becomes
/// the single pending load, superseding any other.
pub open spec fn started(s: NavState) -> NavState {
    NavState { pending: Some(s.next_id), next_id: next_of(s.next_id), ..s }
}

/// The state after a direct navigation to `target`.
pub open spec fn navigated(s: NavState, target: String) -> NavState {
    started(NavState { current: target, back: s.back.push(s.current), forward: Seq::empty(), ..s })
}

/// The state after going back one step; with no history it is unchanged.
pub open spec fn went_back(s: NavState) -> NavState {
    if s.back.len() == 0 {
        s
    } else {
        started(
            NavState {
                current: s.back.last(),
                back: s.back.drop_last(),
                forward: s.forward.push(s.current),
                ..s
            },
        )
    }
}

/// The state after going forward one step; with nothing undone it is
/// unchanged.
pub open spec fn went_forward(s: NavState) -> NavState {
    if s.forward.len() == 0 {
        s
    } else {
        started(
            NavState {
                current: s.forward.last(),
                back: s.back.push(s.current),
                forward: s.forward.drop_last(),
                ..s
            },
        )
    }
}

/// The state after the load `id` reports its outcome: only the pending load
/// is heard; a page it produced becomes the live page, an error is kept for
/// display while the live page stays.
pub open spec fn completed(s: NavState, id: u64, result: Result<Page, LoadError>) -> NavState {
    if s.pending == Some(id) {
        match result {
            Ok(page) => NavState { pending: None, page, failure: None, ..s },
            Err(e) => NavState { pending: None, failure: Some(e), ..s },
        }
    } else {
        s
    }
}

/// Going to a new location and then back returns to where one was, with the
/// new location as the only step forward; going forward again returns to the
/// new location with nothing left to undo, and the back history as it was
/// after the first step.
pub proof fn lemma_navigate_back_forward(s: NavState, target: String)
    ensures
        went_back(navigated(s, target)).current == s.current,
        went_back(navigated(s, target)).back == s.back,
        went_back(navigated(s, target)).forward == seq![target],
        went_forward(went_back(navigated(s, target))).current == target,
        went_forward(went_back(navigated(s, target))).forward.len() == 0,
        went_forward(went_back(navigated(s, target))).back == s.back.push(s.current),
{
    let a = navigated(s, target);
    assert(a.back.drop_last() =~= s.back);
    let b = went_back(a);
    assert(b.forward =~= seq![target]);
    assert(went_forward(b).forward =~= Seq::<String>::empty());
}

/// Only the most recently started load is heard: after going to one location
/// and then at once to another, the outcome of the first load is dropped
/// whenever it arrives, and the page that the second load produced stays
/// live.
pub proof fn lemma_superseded_load_dropped(
    s: NavState,
    first: String,
    second: String,
    first_result: Result<Page, LoadError>,
    second_page: Page,
)
    ensures
        ({
            let a = navigated(s, first);
            let b = navigated(a, second);
            let first_id = s.next_id;
            let second_id = a.next_id;
            &&& first_id != second_id
            &&& completed(b, first_id, first_result) == b
            &&& completed(completed(b, second_id, Ok(second_page)), first_id, first_result).page
                == second_page
            &&& completed(completed(b, first_id, first_result), second_id, Ok(second_page)).page
                == second_page
        }),
{
}

impl Navigator {
    /// A controller at `home`, whose page is already loaded.
    pub fn new(home: String, page: Page) -> (r: Navigator)
        ensures
            r@ == (NavState {
                current: home,
                back: Seq::empty(),
                forward: Seq::empty(),
                pending: None,
                next_id: 0,
                page,
                failure: None,
            }),
    {
        Navigator {
            current: home,
            back: Vec::new(),
            forward: Vec::new(),
            pending: None,
            next_id: 0,
            page,
            failure: None,
        }
    }

    fn start(&mut self) -> (r: LoadRequest)
        ensures
            final(self)@ == started(old(self)@),
            r.id == old(self)@.next_id,
            r.location == old(self)@.current,
    {
        let id = self.next_id;
        self.next_id = if id == u64::MAX {
            0
        } else {
            id + 1
        };
        self.pending = Some(id);
        LoadRequest { id, location: self.current.clone() }
    }

    /// Goes to `target`: the current location joins the back history, the
    /// forward history is cleared, and a load of `target` is started.
    pub fn navigate(&mut self, target: String) -> (r: LoadRequest)
        ensures
            final(self)@ == navigated(old(self)@, target),
            r.id == old(self)@.next_id,
            r.location == target,
    {
        let previous = self.current.clone();
        self.current = target;
        self.back.push(previous);
        self.forward.clear();
        self.start()
    }

    /// Goes back one step, if there is history to go back to.
    pub fn back(&mut self) -> (r: Option<LoadRequest>)
        ensures
            final(self)@ == went_back(old(self)@),
            old(self)@.back.len() == 0 <==> r is None,
            r matches Some(req) ==> req.id == old(self)@.next_id && req.location
                == old(self)@.back.last(),
    {
        match self.back.pop() {
            Some(target) => {
                let previous = self.current.clone();
                self.current = target;
                self.forward.push(previous);
                Some(self.start())
            },
            None => None,
        }
    }

    /// Goes forward one step, if a step back can be undone.
    pub fn forward(&mut self) -> (r: Option<LoadRequest>)
        ensures
            final(self)@ == went_forward(old(self)@),
            old(self)@.forward.len() == 0 <==> r is None,
            r matches Some(req) ==> req.id == old(self)@.next_id && req.location
                == old(self)@.forward.last(),
    {
        match self.forward.pop() {
            Some(target) => {
                let previous = self.current.clone();
                self.current = target;
                self.back.push(previous);
                Some(self.start())
            },
            None => None,
        }
    }

    /// Loads the current location again; the history stays as it is.
    pub fn reload(&mut self) -> (r: LoadRequest)
        ensures
            final(self)@ == started(old(self)@),
            r.id == old(self)@.next_id,
            r.location == old(self)@.current,
    {
        self.start()
    }

    /// Hears the outcome of the load `id`. Returns whether a new page became
    /// live, in which case its script is to be run afresh.
    pub fn load_completed(&mut self, id: u64, result: Result<Page, LoadError>) -> (r: bool)
        ensures
            final(self)@ == completed(old(self)@, id, result),
            r == (old(self)@.pending == Some(id) && result is Ok),
    {
        if self.pending == Some(id) {
            self.pending = None;
            match result {
                Ok(page) => {
                    self.page = page;
                    self.failure = None;
                    true
                },
                Err(e) => {
                    self.failure = Some(e);
                    false
                },
            }
        } else {
            false
        }
    }

    pub fn current(&self) -> (r: &String)
        ensures
            *r == self@.current,
    {
        &self.current
    }

    pub fn page(&self) -> (r: &Page)
        ensures
            *r == self@.page,
    {
        &self.page
    }

    /// The live page, for the view to change the state of its widgets in
    /// place; the rest of the controller stays as it is.
    pub fn page_mut(&mut self) -> (r: &mut Page)
        ensures
            *r == old(self)@.page,
            final(self)@ == (NavState { page: *final(r), ..old(self)@ }),
    {
        &mut self.page
    }

    pub fn back_history(&self) -> (r: &Vec<String>)
        ensures
            r@ == self@.back,
    {
        &self.back
    }

    pub fn forward_history(&self) -> (r: &Vec<String>)
        ensures
            r@ == self@.forward,
    {
        &self.forward
    }

    /// Whether going back is possible.
    pub fn can_go_back(&self) -> (r: bool)
        ensures
            r == (self@.back.len() > 0),
    {
        self.back.len() > 0
    }

    /// Whether going forward is possible.
    pub fn can_go_forward(&self) -> (r: bool)
        ensures
            r == (self@.forward.len() > 0),
    {
        self.forward.len() > 0
    }

    /// Whether a load is in flight.
    pub fn is_loading(&self) -> (r: bool)
        ensures
            r == (self@.pending is Some),
    {
        self.pending.is_some()
    }

    /// The error of the last load heard, if it failed.
    pub fn failure(&self) -> (r: Option<LoadError>)
        ensures
            r == self@.failure,
    {
        self.failure
    }
}

} // verus!
