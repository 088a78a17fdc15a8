//! What a registry holds after a run of requests: which names are in it,
//! which handle each of them has, and how many there are.

use crate::request::{replay, RequestView};
use vstd::prelude::*;

verus! {

/// Whether the request at `i` registers `name`.
pub open spec fn registers<H>(requests: Seq<RequestView<H>>, name: Seq<char>, i: int) -> bool {
    0 <= i < requests.len() && requests[i] is Register && requests[i].subject() == name
}

/// Whether the request at `i` unregisters `name`.
pub open spec fn unregisters<H>(requests: Seq<RequestView<H>>, name: Seq<char>, i: int) -> bool {
    0 <= i < requests.len() && requests[i] is Unregister && requests[i].subject() == name
}

/// Whether the request at `i` registers `name` and no later one unregisters
/// it.
pub open spec fn registered_at<H>(requests: Seq<RequestView<H>>, name: Seq<char>, i: int) -> bool {
    &&& registers(requests, name, i)
    &&& forall|j: int| i < j ==> !#[trigger] unregisters(requests, name, j)
}

/// Whether `requests` leave `name` registered: some request registers it and
/// none after that one unregisters it.
pub open spec fn live<H>(requests: Seq<RequestView<H>>, name: Seq<char>) -> bool {
    exists|i: int| registered_at(requests, name, i)
}

/// Whether no request in `requests` unregisters `name`.
pub open spec fn never_unregistered<H>(requests: Seq<RequestView<H>>, name: Seq<char>) -> bool {
    forall|j: int| !#[trigger] unregisters(requests, name, j)
}

/// After any run of requests, a name is in the registry exactly if the run
/// leaves it registered, or if it was there at the start and the run never
/// unregisters it.
pub proof fn lemma_replay_holds_the_live_names<H>(
    start: Map<Seq<char>, H>,
    requests: Seq<RequestView<H>>,
    name: Seq<char>,
)
    ensures
        replay(start, requests).contains_key(name) <==> live(requests, name)
            || (start.contains_key(name) && never_unregistered(requests, name)),
    decreases requests.len(),
{
    if requests.len() > 0 {
        let earlier = requests.drop_last();
        let end = requests.len() - 1;
        lemma_replay_holds_the_live_names(start, earlier, name);
        assert forall|j: int| j < end implies unregisters(earlier, name, j) == unregisters(
            requests,
            name,
            j,
        ) by {}
        assert forall|j: int| j >= end implies !unregisters(earlier, name, j) by {}
        if registers(requests, name, end) {
            assert(registered_at(requests, name, end));
        } else if unregisters(requests, name, end) {
            assert forall|i: int| !registered_at(requests, name, i) by {
                if i < end {
                    assert(unregisters(requests, name, end));
                }
            }
        } else {
            assert forall|i: int| registered_at(requests, name, i) == registered_at(
                earlier,
                name,
                i,
            ) by {
                if i < end {
                    assert(registers(requests, name, i) == registers(earlier, name, i));
                }
            }
            if live(requests, name) {
                let i = choose|i: int| registered_at(requests, name, i);
                assert(registered_at(earlier, name, i));
            }
            if live(earlier, name) {
                let i = choose|i: int| registered_at(earlier, name, i);
                assert(registered_at(requests, name, i));
            }
        }
        if never_unregistered(requests, name) {
            assert(!unregisters(requests, name, end));
        }
    }
}

/// A registry that starts empty holds, after any run of requests, exactly the
/// names that the run leaves registered: those that some request registers
/// and no later request unregisters.
pub proof fn lemma_registry_holds_exactly_the_live_names<H>(
    requests: Seq<RequestView<H>>,
    name: Seq<char>,
)
    ensures
        replay(Map::<Seq<char>, H>::empty(), requests).contains_key(name) <==> live(requests, name),
{
    lemma_replay_holds_the_live_names(Map::<Seq<char>, H>::empty(), requests, name);
}

/// The last registration wins: where the request at `i` registers `name` and
/// no later request speaks of `name`, the registry holds that request's
/// handle under `name`, whatever was registered under it before.
pub proof fn lemma_last_registration_wins<H>(
    start: Map<Seq<char>, H>,
    requests: Seq<RequestView<H>>,
    name: Seq<char>,
    i: int,
)
    requires
        registers(requests, name, i),
        forall|j: int| i < j < requests.len() ==> (#[trigger] requests[j]).subject() != name,
    ensures
        replay(start, requests).contains_key(name),
        replay(start, requests)[name] == requests[i]->Register_handle,
    decreases requests.len(),
{
    let earlier = requests.drop_last();
    let end = requests.len() - 1;
    if i < end {
        assert(requests[end].subject() != name);
        assert(earlier[i] == requests[i]);
        assert forall|j: int| i < j < earlier.len() implies (#[trigger] earlier[j]).subject()
            != name by {
            assert(earlier[j] == requests[j]);
        }
        lemma_last_registration_wins(start, earlier, name, i);
    }
}

/// By how much a request changes the number of names in the registry
/// `before`: one more where a name that is not there is registered, one less
/// where a name that is there is unregistered, nothing otherwise.
pub open spec fn size_change<H>(before: Map<Seq<char>, H>, request: RequestView<H>) -> int {
    match request {
        RequestView::Register { name, .. } => if before.contains_key(name) { 0 } else { 1 },
        RequestView::Unregister { name } => if before.contains_key(name) { -1 } else { 0 },
    }
}

/// The number of names after one request is the number before it and the
/// request's change. So to register a name again, or to unregister a name
/// that is not there, leaves the number as it was.
pub proof fn lemma_size_after_request<H>(before: Map<Seq<char>, H>, request: RequestView<H>)
    requires
        before.dom().finite(),
    ensures
        request.apply(before).dom().finite(),
        request.apply(before).len() == before.len() + size_change(before, request),
{
}

/// A run of requests leaves a finite registry when it found one, with no
/// more names than it found and was asked to register.
pub proof fn lemma_replay_is_finite<H>(start: Map<Seq<char>, H>, requests: Seq<RequestView<H>>)
    requires
        start.dom().finite(),
    ensures
        replay(start, requests).dom().finite(),
        replay(start, requests).len() <= start.len() + requests.len(),
    decreases requests.len(),
{
    if requests.len() > 0 {
        lemma_replay_is_finite(start, requests.drop_last());
    }
}

} // verus!
