//! What a registry is asked to do, and what it reports.
//!
//! A registry serves its requests one at a time, in the order in which they
//! arrived, and answers each with a [`Notice`]. [`replay`] is the registry
//! that a run of requests leaves behind.

use crate::decimal::{decimal, push_decimal};
use crate::name::Name;
use vstd::prelude::*;

verus! {

/// What a registry can be asked to do. A handle is whatever the runtime uses
/// to reach a worker.
pub enum Request<H> {
    /// Store `handle` under `name`, replacing what was stored under it.
    Register { name: Name, handle: H },
    /// Take `name` out, if it is there.
    Unregister { name: Name },
}

/// A request as a mathematical value: the name as its text.
pub enum RequestView<H> {
    Register { name: Seq<char>, handle: H },
    Unregister { name: Seq<char> },
}

impl<H> View for Request<H> {
    type V = RequestView<H>;

    open spec fn view(&self) -> RequestView<H> {
        match *self {
            Request::Register { name, handle } => RequestView::Register { name: name@, handle },
            Request::Unregister { name } => RequestView::Unregister { name: name@ },
        }
    }
}

impl<H> RequestView<H> {
    /// The name that the request speaks of.
    pub open spec fn subject(self) -> Seq<char> {
        match self {
            RequestView::Register { name, .. } => name,
            RequestView::Unregister { name } => name,
        }
    }

    /// What the request makes of the registry `before`.
    pub open spec fn apply(self, before: Map<Seq<char>, H>) -> Map<Seq<char>, H> {
        match self {
            RequestView::Register { name, handle } => before.insert(name, handle),
            RequestView::Unregister { name } => before.remove(name),
        }
    }

    /// What is reported of the request.
    pub open spec fn change(self) -> Change {
        match self {
            RequestView::Register { .. } => Change::Registered,
            RequestView::Unregister { .. } => Change::Removed,
        }
    }
}

/// The views of a sequence of requests.
pub open spec fn request_views<H>(requests: Seq<Request<H>>) -> Seq<RequestView<H>> {
    requests.map_values(|r: Request<H>| r@)
}

/// The registry that `requests`, served in order, make of `start`.
pub open spec fn replay<H>(start: Map<Seq<char>, H>, requests: Seq<RequestView<H>>) -> Map<
    Seq<char>,
    H,
>
    decreases requests.len(),
{
    if requests.len() == 0 {
        start
    } else {
        requests.last().apply(replay(start, requests.drop_last()))
    }
}

/// One more request: the registry is what the request makes of the registry
/// so far.
pub proof fn lemma_replay_one_more<H>(
    start: Map<Seq<char>, H>,
    requests: Seq<RequestView<H>>,
    request: RequestView<H>,
)
    ensures
        replay(start, requests.push(request)) == request.apply(replay(start, requests)),
{
    assert(requests.push(request).drop_last() =~= requests);
}

/// The two things that are reported of a registry.
#[derive(Clone, Copy, Debug, PartialEq, Eq, Structural)]
pub enum Change {
    Registered,
    Removed,
}

/// The report of one request served: what was asked, of which name, and how
/// many names the registry held once it was done.
#[derive(Debug)]
pub struct Notice {
    pub change: Change,
    pub name: Name,
    pub size: usize,
}

impl PartialEq for Notice {
    fn eq(&self, other: &Self) -> (same: bool) {
        self.change == other.change && self.name == other.name && self.size == other.size
    }
}

impl Eq for Notice {

}

impl vstd::std_specs::cmp::PartialEqSpecImpl for Notice {
    open spec fn obeys_eq_spec() -> bool {
        true
    }

    open spec fn eq_spec(&self, other: &Self) -> bool {
        self.change == other.change && self.name@ == other.name@ && self.size == other.size
    }
}

/// The line that reports a change: what was done, to which name, and the
/// number of names in the registry afterwards.
pub open spec fn notice_line(change: Change, name: Seq<char>, size: nat) -> Seq<char> {
    match change {
        Change::Registered => "registering "@ + name + " in the phone book, up to "@ + decimal(
            size,
        ),
        Change::Removed => "removing "@ + name + " in the phone book, down to "@ + decimal(size),
    }
}

impl Notice {
    /// The notice as one line of text, without a line end.
    pub fn line(&self) -> (text: String)
        ensures
            text@ == notice_line(self.change, self.name@, self.size as nat),
    {
        let mut text = String::new();
        match self.change {
            Change::Registered => {
                text.append("registering ");
                text.append(self.name.as_str());
                text.append(" in the phone book, up to ");
            },
            Change::Removed => {
                text.append("removing ");
                text.append(self.name.as_str());
                text.append(" in the phone book, down to ");
            },
        }
        push_decimal(&mut text, self.size as u64);
        assert(text@ =~= notice_line(self.change, self.name@, self.size as nat));
        text
    }
}

} // verus!
