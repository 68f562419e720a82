//! The requests that run at one time.

use crate::text_map::TextMap;
use vstd::prelude::*;

verus! {

/// The requests that run at one time, each with a handle by which it can be
/// stopped.
pub struct ActiveRequests<T> {
    requests: TextMap<T>,
}

impl<T> View for ActiveRequests<T> {
    type V = Map<Seq<char>, T>;

    closed spec fn view(&self) -> Map<Seq<char>, T> {
        self.requests@
    }
}

/// The requests that run once another was to be entered, and whether it was.
pub open spec fn entered<T>(
    active: Map<Seq<char>, T>,
    request_id: Seq<char>,
    request: T,
) -> (Map<Seq<char>, T>, bool) {
    if active.dom().contains(request_id) {
        (active, false)
    } else {
        (active.insert(request_id, request), true)
    }
}

/// The requests that run once one is taken out.
pub open spec fn taken_out<T>(active: Map<Seq<char>, T>, request_id: Seq<char>) -> Map<
    Seq<char>,
    T,
> {
    active.remove(request_id)
}

/// The request that is stopped where one is cancelled.
pub open spec fn cancelled<T>(active: Map<Seq<char>, T>, request_id: Seq<char>) -> Option<T> {
    if active.dom().contains(request_id) {
        Some(active[request_id])
    } else {
        None
    }
}

impl<T> ActiveRequests<T> {
    /// No identifier stands twice.
    pub closed spec fn wf(&self) -> bool {
        self.requests.wf()
    }

    /// No request runs.
    pub fn new() -> (active: Self)
        ensures
            active.wf(),
            active@ == Map::<Seq<char>, T>::empty(),
    {
        ActiveRequests { requests: TextMap::new() }
    }

    /// How many requests run.
    pub fn len(&self) -> (n: usize)
        requires
            self.wf(),
        ensures
            self@.dom().finite(),
            n == self@.dom().len(),
    {
        self.requests.len()
    }

    /// Enters a request, unless one with its identifier runs. Whether it was
    /// entered is the result.
    pub fn register(&mut self, request_id: &str, request: T) -> (entered: bool)
        requires
            old(self).wf(),
        ensures
            final(self).wf(),
            entered == !old(self)@.dom().contains(request_id@),
            final(self)@ == if entered {
                old(self)@.insert(request_id@, request)
            } else {
                old(self)@
            },
            (final(self)@, entered) == self::entered(old(self)@, request_id@, request),
    {
        if self.requests.contains_key(request_id) {
            false
        } else {
            self.requests.insert(request_id.to_string(), request);
            true
        }
    }

    /// Takes a request out.
    pub fn remove(&mut self, request_id: &str)
        requires
            old(self).wf(),
        ensures
            final(self).wf(),
            final(self)@ == old(self)@.remove(request_id@),
            final(self)@ == taken_out(old(self)@, request_id@),
    {
        let _ = self.requests.remove(request_id);
    }

    /// The request to stop where one is cancelled; none where no request with
    /// that identifier runs. It stays entered until it has ended.
    pub fn cancel_request(&self, request_id: &str) -> (request: Option<&T>)
        ensures
            match request {
                Some(request) => self@.dom().contains(request_id@) && self@[request_id@]
                    == *request,
                None => !self@.dom().contains(request_id@),
            },
            match request {
                Some(request) => cancelled(self@, request_id@) == Some(*request),
                None => cancelled(self@, request_id@) is None,
            },
    {
        self.requests.get(request_id)
    }

    /// The requests to stop where all are cancelled: each that runs, once.
    pub fn cancel_all_requests(&self) -> (requests: Vec<&T>)
        requires
            self.wf(),
        ensures
            exists|ids: Seq<Seq<char>>|
                {
                    &&& #[trigger] ids.to_set() == self@.dom()
                    &&& ids.no_duplicates()
                    &&& ids.len() == requests@.len()
                    &&& forall|i: int|
                        0 <= i < ids.len() ==> *(#[trigger] requests@[i]) == self@[ids[i]]
                },
    {
        let requests = self.requests.values();
        proof {
            let ids = self.requests.keys();
            assert(ids.to_set() == self@.dom());
        }
        requests
    }
}

/// A request that was entered can be cancelled until it is taken out, by its
/// identifier and no other; and once it is out, its identifier is free.
pub proof fn entered_until_taken_out<T>(
    active: Map<Seq<char>, T>,
    request_id: Seq<char>,
    request: T,
    other: Seq<char>,
)
    requires
        !active.dom().contains(request_id),
        other != request_id,
    ensures
        ({
            let entered = active.insert(request_id, request);
            let after = entered.remove(request_id);
            &&& entered.dom().contains(request_id) && entered[request_id] == request
            &&& entered.dom().contains(other) == active.dom().contains(other)
            &&& entered.dom().contains(other) ==> entered[other] == active[other]
            &&& after == active
        }),
{
    assert(active.insert(request_id, request).remove(request_id) =~= active);
}

/// A request is entered exactly where none of its identifier runs; it can then be
/// cancelled by that identifier until it is taken out. What else runs is not
/// touched by either, and a request that is refused takes nobody's place.
pub proof fn requests_come_and_go<T>(
    active: Map<Seq<char>, T>,
    request_id: Seq<char>,
    request: T,
    other: Seq<char>,
)
    requires
        other != request_id,
    ensures
        ({
            let (after, taken) = entered(active, request_id, request);
            &&& taken <==> cancelled(active, request_id) is None
            &&& taken ==> cancelled(after, request_id) == Some(request)
            &&& !taken ==> cancelled(after, request_id) == cancelled(active, request_id)
            &&& cancelled(after, other) == cancelled(active, other)
            &&& cancelled(taken_out(after, request_id), request_id) is None
            &&& cancelled(taken_out(after, request_id), other) == cancelled(active, other)
            &&& taken ==> taken_out(after, request_id) == active
        }),
        cancelled(Map::<Seq<char>, T>::empty(), request_id) is None,
{
    assert(active.insert(request_id, request).remove(request_id) =~= active || active.dom().contains(
        request_id,
    ));
}

} // verus!
