use vstd::prelude::*;

use crate::error::{error_code, from_status, to_status, status_result, Error};

verus! {

/// A live registration with the channel, named by the channel's handle.
/// A handle of `0` means that no registration is held.
///
/// A `Subscription` cannot be copied: closing it through
/// [`Registry::close`] consumes it, so it is closed at most once.
#[derive(Debug)]
pub struct Subscription {
    handle: u32,
}

impl Subscription {
    /// The channel's handle for this registration; `0` for none.
    pub closed spec fn id(&self) -> u32 {
        self.handle
    }

    /// The channel's handle for this registration; `0` for none.
    pub fn handle(&self) -> (r: u32)
        ensures
            r == self.id(),
    {
        self.handle
    }

    /// The subscription holds a registration.
    pub fn is_active(&self) -> (r: bool)
        ensures
            r == (self.id() != 0),
    {
        self.handle != 0
    }
}

impl Default for Subscription {
    /// A subscription that holds no registration.
    fn default() -> (r: Subscription)
        ensures
            r.id() == 0,
    {
        Subscription { handle: 0 }
    }
}

/// Some entry of `s` is registered under the handle `h`.
pub open spec fn holds<C>(s: Seq<(u32, C)>, h: u32) -> bool {
    exists|i: int| 0 <= i < s.len() && (#[trigger] s[i]).0 == h
}

/// Handles are not zero and each names one entry at most.
pub open spec fn distinct_handles<C>(s: Seq<(u32, C)>) -> bool {
    &&& forall|i: int| 0 <= i < s.len() ==> (#[trigger] s[i]).0 != 0
    &&& forall|i: int, j: int|
        0 <= i < s.len() && 0 <= j < s.len() && i != j ==> (#[trigger] s[i]).0 != (#[trigger] s[j]).0
}

/// The position of the entry registered under `h`.
pub open spec fn slot<C>(s: Seq<(u32, C)>, h: u32) -> int {
    choose|i: int| 0 <= i < s.len() && (#[trigger] s[i]).0 == h
}

/// The registry after the channel answered a registration with `outcome`,
/// and what the caller gets: a new non-zero handle stores the context under
/// it; a refusal stores nothing (the context is released there and then);
/// a zero or already used handle is a failure of the channel and stores
/// nothing either.
pub open spec fn register_spec<C>(s: Seq<(u32, C)>, ctx: C, outcome: Result<u32, Error>) -> (
    Seq<(u32, C)>,
    Result<u32, Error>,
) {
    match outcome {
        Ok(h) => if h != 0 && !holds(s, h) {
            (s.push((h, ctx)), Ok(h))
        } else {
            (s, Err(Error::Failure))
        },
        Err(e) => (s, Err(e)),
    }
}

/// The registry after closing the subscription with handle `h`, and what the
/// caller gets: the native handle to tear down and the context to release
/// after it, or nothing when `h` holds no registration.
pub open spec fn close_spec<C>(s: Seq<(u32, C)>, h: u32) -> (Seq<(u32, C)>, Option<(u32, C)>) {
    if h != 0 && holds(s, h) {
        (s.remove(slot(s, h)), Some(s[slot(s, h)]))
    } else {
        (s, None)
    }
}

/// What the channel's answer to a registration means: the new handle, or
/// the error of the status it refused with (a refusal that carries the
/// success status is a general failure).
pub open spec fn registration_spec(answer: Result<u32, u32>) -> Result<u32, Error> {
    match answer {
        Ok(h) => Ok(h),
        Err(code) => match status_result(code) {
            Err(e) => Err(e),
            Ok(()) => Err(Error::Failure),
        },
    }
}

/// Reads the channel's answer to a registration: a handle, or a status code.
pub fn registration_outcome(answer: Result<u32, u32>) -> (r: Result<u32, Error>)
    ensures
        r == registration_spec(answer),
{
    match answer {
        Ok(h) => Ok(h),
        Err(code) => match from_status(code) {
            Err(e) => Err(e),
            Ok(()) => Err(Error::Failure),
        },
    }
}

/// Where an event for a subscription goes: to the context at `position`
/// when the handle is registered and the event reads; otherwise the status
/// to report back, `Failure` for an unknown handle and `Utf8` for an event
/// that does not read as text.
pub open spec fn route_spec(position: Option<usize>, reads: bool) -> Result<usize, u32> {
    match position {
        None => Err(error_code(Error::Failure)),
        Some(i) => if reads {
            Ok(i)
        } else {
            Err(error_code(Error::Utf8))
        },
    }
}

/// Decides where an event for a subscription goes, as [`route_spec`] says.
pub fn event_route(position: Option<usize>, reads: bool) -> (r: Result<usize, u32>)
    ensures
        r == route_spec(position, reads),
{
    match position {
        None => Err(to_status(&Err(Error::Failure))),
        Some(i) => if reads {
            Ok(i)
        } else {
            Err(to_status(&Err(Error::Utf8)))
        },
    }
}

/// The contexts of live subscriptions, each under its channel handle.
pub struct Registry<C> {
    entries: Vec<(u32, C)>,
}

impl<C> View for Registry<C> {
    type V = Seq<(u32, C)>;

    closed spec fn view(&self) -> Seq<(u32, C)> {
        self.entries@
    }
}

impl<C> Registry<C> {
    /// The registry is consistent: handles are distinct and not zero.
    pub open spec fn wf(&self) -> bool {
        distinct_handles(self@)
    }

    /// An empty registry.
    pub fn new() -> (r: Registry<C>)
        ensures
            r.wf(),
            r@ == Seq::<(u32, C)>::empty(),
    {
        Registry { entries: Vec::new() }
    }

    /// Number of live subscriptions.
    pub fn len(&self) -> (r: usize)
        ensures
            r == self@.len(),
    {
        self.entries.len()
    }

    /// Finds the entry registered under `handle`.
    pub fn position(&self, handle: u32) -> (r: Option<usize>)
        ensures
            r matches Some(i) ==> i < self@.len() && self@[i as int].0 == handle,
            r is None <==> !holds(self@, handle),
    {
        let mut i: usize = 0;
        while i < self.entries.len()
            invariant
                i <= self@.len(),
                self@ == self.entries@,
                forall|j: int| 0 <= j < i ==> (#[trigger] self@[j]).0 != handle,
            decreases self@.len() - i,
        {
            if self.entries[i].0 == handle {
                return Some(i);
            }
            i = i + 1;
        }
        None
    }

    /// Lends the context at position `i` for one invocation; it stays in the
    /// registry.
    pub fn context_at(&mut self, i: usize) -> (r: &mut C)
        requires
            i < old(self)@.len(),
        ensures
            *r == old(self)@[i as int].1,
            final(self)@ == old(self)@.update(i as int, (old(self)@[i as int].0, *final(r))),
    {
        &mut self.entries[i].1
    }

    /// Records the channel's answer to a registration of `ctx`. On success
    /// the registry owns the context until the subscription is closed; on
    /// failure the context is dropped here, once.
    pub fn register(&mut self, ctx: C, outcome: Result<u32, Error>) -> (r: Result<
        Subscription,
        Error,
    >)
        requires
            old(self).wf(),
        ensures
            final(self).wf(),
            final(self)@ == register_spec(old(self)@, ctx, outcome).0,
            match r {
                Ok(sub) => register_spec(old(self)@, ctx, outcome).1 == Ok::<u32, Error>(sub.id()),
                Err(e) => register_spec(old(self)@, ctx, outcome).1 == Err::<u32, Error>(e),
            },
    {
        match outcome {
            Ok(h) => {
                if h == 0 {
                    return Err(Error::Failure);
                }
                match self.position(h) {
                    Some(_) => Err(Error::Failure),
                    None => {
                        self.entries.push((h, ctx));
                        Ok(Subscription { handle: h })
                    },
                }
            },
            Err(e) => Err(e),
        }
    }

    /// Closes a subscription: hands back the native handle to tear down and
    /// then the context to release, each once. A subscription that holds no
    /// registration gives nothing.
    pub fn close(&mut self, sub: Subscription) -> (r: Option<(u32, C)>)
        requires
            old(self).wf(),
        ensures
            final(self).wf(),
            final(self)@ == close_spec(old(self)@, sub.id()).0,
            r == close_spec(old(self)@, sub.id()).1,
    {
        if sub.handle == 0 {
            return None;
        }
        match self.position(sub.handle) {
            Some(i) => {
                proof {
                    let s = old(self)@;
                    let k = slot(s, sub.handle);
                    assert(s[i as int].0 == sub.handle);
                    assert(k == i);
                }
                let entry = self.entries.remove(i);
                Some(entry)
            },
            None => None,
        }
    }
}

/// Registering a context that the channel accepts and then closing the
/// subscription tears the native handle down once, releases that context
/// once, and leaves the registry as it was, so a second close finds nothing.
/// A registration that the channel refuses stores nothing, and closing what
/// it left (a subscription without registration) tears nothing down.
pub proof fn lemma_register_then_close<C>(s: Seq<(u32, C)>, ctx: C, outcome: Result<u32, Error>)
    requires
        distinct_handles(s),
    ensures
        match outcome {
            Ok(h) => h != 0 && !holds(s, h) ==> {
                let after = register_spec(s, ctx, outcome).0;
                &&& register_spec(s, ctx, outcome).1 == Ok::<u32, Error>(h)
                &&& close_spec(after, h).1 == Some((h, ctx))
                &&& close_spec(after, h).0 == s
                &&& close_spec(close_spec(after, h).0, h).1 is None
            },
            Err(e) => {
                &&& register_spec(s, ctx, outcome).0 == s
                &&& register_spec(s, ctx, outcome).1 == Err::<u32, Error>(e)
                &&& close_spec(s, 0).1 is None
            },
        },
{
    match outcome {
        Ok(h) => {
            if h != 0 && !holds(s, h) {
                let after = s.push((h, ctx));
                let n = s.len() as int;
                assert(after[n].0 == h);
                let k = slot(after, h);
                assert(k == n);
                assert(after.remove(n) =~= s);
            }
        },
        Err(e) => {},
    }
}

} // verus!
