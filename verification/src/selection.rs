//! A cut selection belongs to exactly one request and one source window.

use vstd::prelude::*;

verus! {

/// Text that was cut out of a source window for one translation request.
#[derive(Clone, Debug)]
pub struct Selection {
    pub request_id: u64,
    pub text: String,
    pub source: usize,
}

/// The at most one selection that has not yet been restored or replaced.
pub struct PendingSelection(Option<Selection>);

impl View for PendingSelection {
    type V = Option<Selection>;

    closed spec fn view(&self) -> Option<Selection> {
        self.0
    }
}

impl Default for PendingSelection {
    fn default() -> (r: Self)
        ensures
            r@ is None,
    {
        PendingSelection(None)
    }
}

/// The selection that `request_id` may act on: the pending one, if it belongs to that request.
pub open spec fn selection_for(pending: Option<Selection>, request_id: u64) -> Option<Selection> {
    match pending {
        Some(s) => if s.request_id == request_id {
            Some(s)
        } else {
            None
        },
        None => None,
    }
}

impl PendingSelection {
    /// The outstanding selection, whatever request it belongs to.
    pub fn current(&self) -> (r: Option<&Selection>)
        ensures
            r is Some <==> self@ is Some,
            r is Some ==> self@ == Some(*r->0),
    {
        self.0.as_ref()
    }

    /// Stores a new selection; an outstanding one is never overwritten.
    pub fn begin(&mut self, selection: Selection)
        requires
            old(self)@ is None,
        ensures
            final(self)@ == Some(selection),
    {
        self.0 = Some(selection);
    }

    /// The outstanding selection if it belongs to `request_id`.
    pub fn get(&self, request_id: u64) -> (r: Option<&Selection>)
        ensures
            r is Some <==> selection_for(self@, request_id) is Some,
            r is Some ==> selection_for(self@, request_id) == Some(*r->0),
    {
        match &self.0 {
            Some(s) => if s.request_id == request_id {
                Some(s)
            } else {
                None
            },
            None => None,
        }
    }

    /// Consumes the outstanding selection if it belongs to `request_id`;
    /// otherwise nothing changes.
    pub fn take(&mut self, request_id: u64) -> (r: Option<Selection>)
        ensures
            r == selection_for(old(self)@, request_id),
            r is Some ==> final(self)@ is None,
            r is None ==> final(self)@ == old(self)@,
    {
        let matches = match &self.0 {
            Some(s) => s.request_id == request_id,
            None => false,
        };
        if matches {
            self.0.take()
        } else {
            None
        }
    }

    /// Moves the outstanding selection of `request_id` to `next_id`, keeping
    /// its text and source, and returns a copy of it.
    pub fn retry(&mut self, request_id: u64, next_id: u64) -> (r: Option<Selection>)
        ensures
            selection_for(old(self)@, request_id) is None ==> r is None && final(self)@ == old(self)@,
            selection_for(old(self)@, request_id) matches Some(s) ==> {
                &&& r == Some(Selection { request_id: next_id, ..s })
                &&& final(self)@ == r
            },
    {
        match &mut self.0 {
            Some(s) => {
                if s.request_id == request_id {
                    s.request_id = next_id;
                    Some(Selection { request_id: next_id, text: s.text.clone(), source: s.source })
                } else {
                    None
                }
            },
            None => None,
        }
    }
}

/// Whether the foreground window is the known source window. An unknown
/// source or foreground (`0`) never counts as a match.
pub fn focus_matches(source: usize, foreground: usize) -> (r: bool)
    ensures
        r <==> (source != 0 && foreground == source),
{
    source != 0 && foreground == source
}

/// What a capture yields from the outcomes of its three steps: the first
/// failure, or else what the read returned.
pub open spec fn capture_outcome(
    clear: Result<(), String>,
    cut: Result<(), String>,
    read: Result<String, String>,
) -> Result<String, String> {
    match clear {
        Err(e) => Err(e),
        Ok(()) => match cut {
            Err(e) => Err(e),
            Ok(()) => read,
        },
    }
}

/// Clears the clipboard, cuts the selection, then reads the clipboard. A
/// failed clear or cut must never fall through to reading old clipboard data:
/// `cut` runs only after `clear` succeeded and `read` only after both did.
/// The `requires` say so: `cut` may be called only once `clear` gave `Ok`,
/// and `read` only once `cut` did too.
pub fn capture(
    clear: impl FnOnce() -> Result<(), String>,
    cut: impl FnOnce() -> Result<(), String>,
    read: impl FnOnce() -> Result<String, String>,
) -> (r: Result<String, String>)
    requires
        clear.requires(()),
        forall|c: Result<(), String>| clear.ensures((), c) && c is Ok ==> cut.requires(()),
        forall|c: Result<(), String>, x: Result<(), String>|
            clear.ensures((), c) && c is Ok && cut.ensures((), x) && x is Ok ==> read.requires(()),
    ensures
        exists|c: Result<(), String>, x: Result<(), String>, t: Result<String, String>|
            #![trigger capture_outcome(c, x, t)]
            {
                &&& clear.ensures((), c)
                &&& c is Ok ==> cut.ensures((), x)
                &&& (c is Ok && x is Ok) ==> read.ensures((), t)
                &&& r == capture_outcome(c, x, t)
            },
{
    let c = clear();
    let ghost gc = c;
    match c {
        Err(e) => {
            let ghost t: Result<String, String> = Err(e);
            assert(capture_outcome(gc, Ok(()), t) == Err::<String, String>(e));
            Err(e)
        },
        Ok(()) => {
            let x = cut();
            let ghost gx = x;
            match x {
                Err(e) => {
                    let ghost t: Result<String, String> = Err(e);
                    assert(capture_outcome(gc, gx, t) == Err::<String, String>(e));
                    Err(e)
                },
                Ok(()) => {
                    let t = read();
                    assert(capture_outcome(gc, gx, t) == t);
                    t
                },
            }
        },
    }
}

} // verus!
