//! Interceptors and the order they run in.
//!
//! A chain runs its interceptors in priority order outbound, and in reverse
//! order inbound. That symmetry is what lets a transforming pair work: what
//! compresses on the way out must be the last to touch the payload outbound and
//! the first to touch it inbound.

use crate::plugin_api::error::{Error, Problem, Result};
use vstd::prelude::*;

verus! {

/// What an interceptor decided about a payload.
#[derive(Debug, Clone, Copy, PartialEq, Eq, Hash, Structural)]
#[non_exhaustive]
pub enum Action {
    /// Pass the payload to the next interceptor.
    Continue,
    /// Drop the payload; no further interceptor runs.
    Drop,
}

impl Action {
    /// Returns `true` if processing should continue.
    pub fn is_continue(self) -> (r: bool)
        ensures
            r == (self is Continue),
    {
        match self {
            Action::Continue => true,
            Action::Drop => false,
        }
    }
}

/// What an interceptor may make of a payload.
pub type Verdict = std::result::Result<Action, Problem>;

/// Observes or transforms payloads on the data path.
///
/// What an interceptor does with a payload is its own affair: `may_send` and
/// `may_receive` say what it allows itself, so that the chain can say what
/// becomes of a payload that passes through several. An interceptor that does
/// not say allows itself everything.
pub trait Interceptor: Send + Sync + 'static {
    /// The name for diagnostics.
    open spec fn label(&self) -> Seq<char> {
        arbitrary()
    }

    /// The ordering priority.
    open spec fn rank(&self) -> int {
        arbitrary()
    }

    /// On the way out, `before` may become `after`, with this verdict.
    open spec fn may_send(&self, before: Seq<u8>, after: Seq<u8>, v: Verdict) -> bool {
        true
    }

    /// On the way in, `before` may become `after`, with this verdict.
    open spec fn may_receive(&self, before: Seq<u8>, after: Seq<u8>, v: Verdict) -> bool {
        true
    }

    /// Returns a name for diagnostics.
    fn name(&self) -> (n: &str)
        ensures
            n@ == self.label(),
    ;

    /// Returns the ordering priority; lower runs earlier outbound.
    fn priority(&self) -> (p: i32)
        ensures
            p == self.rank(),
    ;

    /// Processes a payload on its way out. An error aborts the send and
    /// propagates to the caller.
    fn on_outbound(&self, payload: &mut Vec<u8>) -> (r: Result<Action>)
        ensures
            self.may_send(old(payload)@, final(payload)@, crate::plugin_api::error::outcome(r)),
    ;

    /// Processes a payload on its way in. An error aborts delivery of that
    /// payload.
    fn on_inbound(&self, payload: &mut Vec<u8>) -> (r: Result<Action>)
        ensures
            self.may_receive(old(payload)@, final(payload)@, crate::plugin_api::error::outcome(r)),
    ;
}

/// An interceptor that is installed in a chain.
pub struct Link {
    /// The interceptor.
    pub interceptor: Box<dyn Interceptor>,
}

impl Link {
    /// The name for diagnostics.
    pub open spec fn label(self) -> Seq<char> {
        self.interceptor.label()
    }

    /// The ordering priority.
    pub open spec fn rank(self) -> int {
        self.interceptor.rank()
    }

    /// On the way out, `before` may become `after`, with this verdict.
    pub open spec fn may_send(self, before: Seq<u8>, after: Seq<u8>, v: Verdict) -> bool {
        self.interceptor.may_send(before, after, v)
    }

    /// On the way in, `before` may become `after`, with this verdict.
    pub open spec fn may_receive(self, before: Seq<u8>, after: Seq<u8>, v: Verdict) -> bool {
        self.interceptor.may_receive(before, after, v)
    }
}

/// The verdict of a chain on which `link` gave the verdict `v`: an error names
/// the interceptor responsible.
pub open spec fn attributed(link: Link, v: Verdict) -> Verdict {
    match v {
        Ok(a) => Ok(a),
        Err(p) => Err(Problem::Interceptor(link.label(), p.text())),
    }
}

/// Sent through `links` from the first to the last, `before` may become `after`,
/// with this verdict. The first interceptor that drops the payload or fails ends
/// the run.
pub open spec fn may_send(
    links: Seq<Link>,
    before: Seq<u8>,
    after: Seq<u8>,
    v: Verdict,
) -> bool
    decreases links.len(),
{
    if links.len() == 0 {
        after == before && v == Ok::<Action, Problem>(Action::Continue)
    } else {
        exists|mid: Seq<u8>, own: Verdict| #[trigger]
            links[0].may_send(before, mid, own) && if own == Ok::<Action, Problem>(
                Action::Continue,
            ) {
                may_send(links.drop_first(), mid, after, v)
            } else {
                after == mid && v == attributed(links[0], own)
            }
    }
}

/// Received through `links` from the last to the first, `before` may become
/// `after`, with this verdict. The first interceptor that drops the payload or
/// fails ends the run.
pub open spec fn may_receive(
    links: Seq<Link>,
    before: Seq<u8>,
    after: Seq<u8>,
    v: Verdict,
) -> bool
    decreases links.len(),
{
    if links.len() == 0 {
        after == before && v == Ok::<Action, Problem>(Action::Continue)
    } else {
        exists|mid: Seq<u8>, own: Verdict| #[trigger]
            links.last().may_receive(before, mid, own) && if own == Ok::<Action, Problem>(
                Action::Continue,
            ) {
                may_receive(links.drop_last(), mid, after, v)
            } else {
                after == mid && v == attributed(links.last(), own)
            }
    }
}

/// The interceptors stand in the order of their priorities.
pub open spec fn prioritised(links: Seq<Link>) -> bool {
    forall|i: int, j: int|
        0 <= i < j < links.len() ==> (#[trigger] links[i]).rank() <= (#[trigger] links[j]).rank()
}

/// The interceptor takes back on the way in whatever it passed on outbound.
pub open spec fn undoes_itself(link: Link) -> bool {
    forall|plain: Seq<u8>, sent: Seq<u8>, back: Seq<u8>, v: Verdict| #[trigger]
        link.may_send(plain, sent, Ok(Action::Continue)) && #[trigger] link.may_receive(
            sent,
            back,
            v,
        ) ==> back == plain && v == Ok::<Action, Problem>(Action::Continue)
}

/// `longer` is `links` with `link` at position `p`, behind every
/// interceptor of its own priority or a lower one and before every other.
pub open spec fn joined_at(links: Seq<Link>, link: Link, longer: Seq<Link>, p: int) -> bool {
    &&& 0 <= p <= links.len()
    &&& longer == links.insert(p, link)
    &&& forall|j: int| 0 <= j < p ==> (#[trigger] links[j]).rank() <= link.rank()
    &&& forall|j: int| p <= j < links.len() ==> link.rank() < (#[trigger] links[j]).rank()
}

/// `link` joins `links` behind every interceptor of its own priority or a
/// lower one, and before every other; the rest keep their order.
pub open spec fn joined(links: Seq<Link>, link: Link, longer: Seq<Link>) -> bool {
    exists|p: int| #[trigger] joined_at(links, link, longer, p)
}

proof fn joining_keeps_the_order(links: Seq<Link>, link: Link, longer: Seq<Link>, p: int)
    requires
        prioritised(links),
        joined_at(links, link, longer, p),
    ensures
        prioritised(longer),
{
    assert forall|i: int, j: int| 0 <= i < j < longer.len() implies (#[trigger] longer[i]).rank()
        <= (#[trigger] longer[j]).rank() by {
        if i != p {
            assert(longer[i] == links[if i < p { i } else { i - 1 }]);
        }
        if j != p {
            assert(longer[j] == links[if j < p { j } else { j - 1 }]);
        }
    }
}

/// An ordered pipeline of interceptors.
pub struct InterceptorChain {
    interceptors: Vec<Link>,
}

impl InterceptorChain {
    /// The interceptors, in outbound order.
    pub closed spec fn links(&self) -> Seq<Link> {
        self.interceptors@
    }

    /// The interceptors stand in the order of their priorities.
    pub open spec fn wf(&self) -> bool {
        prioritised(self.links())
    }

    /// Creates an empty chain.
    pub fn new() -> (c: InterceptorChain)
        ensures
            c.wf(),
            c.links() == Seq::<Link>::empty(),
    {
        InterceptorChain { interceptors: Vec::new() }
    }

    /// Adds an interceptor, keeping the chain ordered by priority.
    ///
    /// Ties keep insertion order, so a caller registering two interceptors at
    /// the same priority gets a predictable result.
    pub fn add(&mut self, interceptor: Box<dyn Interceptor>)
        requires
            old(self).wf(),
        ensures
            final(self).wf(),
            joined(old(self).links(), (Link { interceptor }), final(self).links()),
    {
        self.add_link(Link { interceptor });
    }

    /// Adds an interceptor that is wrapped already, in the same way.
    pub fn add_link(&mut self, link: Link)
        requires
            old(self).wf(),
        ensures
            final(self).wf(),
            joined(old(self).links(), link, final(self).links()),
    {
        let ghost before = self.links();
        let priority: i32 = link.interceptor.priority();
        let mut position: usize = 0;
        while position < self.interceptors.len() && self.interceptors[position].interceptor.priority()
            <= priority
            invariant
                position <= self.interceptors@.len(),
                self.interceptors@ == before,
                priority == link.rank(),
                forall|j: int| 0 <= j < position ==> (#[trigger] before[j]).rank() <= priority,
            ensures
                position < before.len() ==> priority < before[position as int].rank(),
            decreases self.interceptors@.len() - position,
        {
            position += 1;
        }
        self.interceptors.insert(position, link);
        proof {
            let p = position as int;
            let longer = self.links();
            assert(joined_at(before, link, longer, p));
            joining_keeps_the_order(before, link, longer, p);
        }
    }

    /// Returns how many interceptors are installed.
    pub fn len(&self) -> (n: usize)
        ensures
            n == self.links().len(),
    {
        self.interceptors.len()
    }

    /// Returns `true` if the chain is empty.
    pub fn is_empty(&self) -> (r: bool)
        ensures
            r == (self.links().len() == 0),
    {
        self.interceptors.len() == 0
    }

    /// Returns the installed names, in outbound order.
    pub fn names(&self) -> (names: Vec<&str>)
        ensures
            names@.len() == self.links().len(),
            forall|i: int|
                0 <= i < names@.len() ==> (#[trigger] names@[i])@ == self.links()[i].label(),
    {
        let mut names: Vec<&str> = Vec::new();
        let mut i: usize = 0;
        while i < self.interceptors.len()
            invariant
                i <= self.interceptors@.len(),
                names@.len() == i,
                forall|j: int|
                    0 <= j < i ==> (#[trigger] names@[j])@ == self.interceptors@[j].label(),
            decreases self.interceptors@.len() - i,
        {
            names.push(self.interceptors[i].interceptor.name());
            i += 1;
        }
        names
    }

    /// Runs the chain over an outbound payload, in priority order. The error of
    /// an interceptor comes back with the name of the interceptor.
    pub fn outbound(&self, payload: &mut Vec<u8>) -> (r: Result<Action>)
        ensures
            may_send(
                self.links(),
                old(payload)@,
                final(payload)@,
                crate::plugin_api::error::outcome(r),
            ),
    {
        let ghost links = self.links();
        let ghost start = payload@;
        let mut i: usize = 0;
        assert(links.skip(0) =~= links);
        while i < self.interceptors.len()
            invariant
                links == self.interceptors@,
                i <= links.len(),
                start == old(payload)@,
                forall|after: Seq<u8>, v: Verdict| #[trigger]
                    may_send(links.skip(i as int), payload@, after, v) ==> may_send(
                        links,
                        start,
                        after,
                        v,
                    ),
            decreases links.len() - i,
        {
            let ghost here = payload@;
            let own = self.interceptors[i].interceptor.on_outbound(payload);
            let ghost rest = links.skip(i as int);
            let ghost verdict = crate::plugin_api::error::outcome(own);
            assert(rest[0].may_send(here, payload@, verdict));
            assert(rest.drop_first() =~= links.skip(i as int + 1));
            match settled(self.interceptors[i].interceptor.name(), own) {
                None => {
                    assert forall|after: Seq<u8>, v: Verdict| #[trigger]
                        may_send(links.skip(i as int + 1), payload@, after, v) implies may_send(
                        links,
                        start,
                        after,
                        v,
                    ) by {
                        assert(may_send(rest, here, after, v));
                    }
                },
                Some(r) => {
                    assert(may_send(rest, here, payload@, crate::plugin_api::error::outcome(r)));
                    return r;
                },
            }
            i += 1;
        }
        assert(may_send(links.skip(i as int), payload@, payload@, Ok(Action::Continue)));
        Ok(Action::Continue)
    }

    /// Runs the chain over an inbound payload, in reverse priority order. The
    /// error of an interceptor comes back with the name of the interceptor.
    pub fn inbound(&self, payload: &mut Vec<u8>) -> (r: Result<Action>)
        ensures
            may_receive(
                self.links(),
                old(payload)@,
                final(payload)@,
                crate::plugin_api::error::outcome(r),
            ),
    {
        let ghost links = self.links();
        let ghost start = payload@;
        let mut i: usize = self.interceptors.len();
        assert(links.take(i as int) =~= links);
        while i > 0
            invariant
                links == self.interceptors@,
                i <= links.len(),
                start == old(payload)@,
                forall|after: Seq<u8>, v: Verdict| #[trigger]
                    may_receive(links.take(i as int), payload@, after, v) ==> may_receive(
                        links,
                        start,
                        after,
                        v,
                    ),
            decreases i,
        {
            let ghost here = payload@;
            let ghost rest = links.take(i as int);
            i -= 1;
            let own = self.interceptors[i].interceptor.on_inbound(payload);
            let ghost verdict = crate::plugin_api::error::outcome(own);
            assert(rest.last().may_receive(here, payload@, verdict));
            assert(rest.drop_last() =~= links.take(i as int));
            match settled(self.interceptors[i].interceptor.name(), own) {
                None => {
                    assert forall|after: Seq<u8>, v: Verdict| #[trigger]
                        may_receive(links.take(i as int), payload@, after, v) implies may_receive(
                        links,
                        start,
                        after,
                        v,
                    ) by {
                        assert(may_receive(rest, here, after, v));
                    }
                },
                Some(r) => {
                    assert(may_receive(
                        rest,
                        here,
                        payload@,
                        crate::plugin_api::error::outcome(r),
                    ));
                    return r;
                },
            }
        }
        assert(may_receive(links.take(i as int), payload@, payload@, Ok(Action::Continue)));
        Ok(Action::Continue)
    }

    /// Removes every interceptor.
    pub fn clear(&mut self)
        ensures
            final(self).wf(),
            final(self).links() == Seq::<Link>::empty(),
    {
        self.interceptors.clear();
    }
}

impl Default for InterceptorChain {
    fn default() -> (c: InterceptorChain)
        ensures
            c.wf(),
            c.links() == Seq::<Link>::empty(),
    {
        InterceptorChain::new()
    }
}

/// Decides whether what an interceptor made of a payload ends the run, and how:
/// nothing does but a drop and an error, which is put down to the interceptor.
pub fn settled(name: &str, own: Result<Action>) -> (r: Option<Result<Action>>)
    ensures
        match own {
            Ok(Action::Continue) => r is None,
            Ok(Action::Drop) => r == Some(Ok::<Action, Error>(Action::Drop)),
            Err(source) => (r matches Some(Err(e)) && e@ == Problem::Interceptor(
                name@,
                source@.text(),
            )),
        },
{
    match own {
        Ok(Action::Continue) => None,
        Ok(Action::Drop) => Some(Ok(Action::Drop)),
        Err(source) => Some(
            Err(Error::Interceptor { name: name.to_owned(), reason: source.to_string() }),
        ),
    }
}

/// The first interceptor of a chain is the last to see an inbound payload: the
/// others hand it what they made of it, unless one of them ended the run.
proof fn receiving_ends_at_the_first(
    links: Seq<Link>,
    before: Seq<u8>,
    after: Seq<u8>,
    v: Verdict,
) -> (r: (Seq<u8>, Verdict))
    requires
        links.len() > 0,
        may_receive(links, before, after, v),
    ensures
        may_receive(links.drop_first(), before, r.0, r.1),
        if r.1 == Ok::<Action, Problem>(Action::Continue) {
            exists|own: Verdict| #[trigger]
                links[0].may_receive(r.0, after, own) && v == attributed(links[0], own)
        } else {
            after == r.0 && v == r.1
        },
    decreases links.len(),
{
    let (mid, own) = choose|mid: Seq<u8>, own: Verdict| #[trigger]
        links.last().may_receive(before, mid, own) && if own == Ok::<Action, Problem>(
            Action::Continue,
        ) {
            may_receive(links.drop_last(), mid, after, v)
        } else {
            after == mid && v == attributed(links.last(), own)
        };
    let rest = links.drop_first();
    if links.len() == 1 {
        assert(links.last() == links[0]);
        assert(may_receive(rest, before, before, Ok(Action::Continue)));
        if own == Ok::<Action, Problem>(Action::Continue) {
            assert(may_receive(links.drop_last(), mid, after, v));
        }
        (before, Ok(Action::Continue))
    } else {
        assert(rest.last() == links.last());
        assert(rest.drop_last() =~= links.drop_last().drop_first());
        assert(links.drop_last()[0] == links[0]);
        assert(rest.last().may_receive(before, mid, own));
        if own == Ok::<Action, Problem>(Action::Continue) {
            receiving_ends_at_the_first(links.drop_last(), mid, after, v)
        } else {
            (mid, attributed(links.last(), own))
        }
    }
}

/// Inbound takes back what outbound did: where every interceptor takes back its
/// own transformation, a payload that was sent through the whole chain comes
/// back as it was, and is delivered.
pub proof fn inbound_unwinds_outbound(
    links: Seq<Link>,
    plain: Seq<u8>,
    sent: Seq<u8>,
    back: Seq<u8>,
    v: Verdict,
)
    requires
        forall|i: int| 0 <= i < links.len() ==> #[trigger] undoes_itself(links[i]),
        may_send(links, plain, sent, Ok(Action::Continue)),
        may_receive(links, sent, back, v),
    ensures
        back == plain,
        v == Ok::<Action, Problem>(Action::Continue),
    decreases links.len(),
{
    if links.len() > 0 {
        let rest = links.drop_first();
        let (mid, own) = choose|mid: Seq<u8>, own: Verdict| #[trigger]
            links[0].may_send(plain, mid, own) && if own == Ok::<Action, Problem>(
                Action::Continue,
            ) {
                may_send(rest, mid, sent, Ok(Action::Continue))
            } else {
                sent == mid && Ok::<Action, Problem>(Action::Continue) == attributed(links[0], own)
            };
        let (inner_back, inner) = receiving_ends_at_the_first(links, sent, back, v);
        assert forall|i: int| 0 <= i < rest.len() implies #[trigger] undoes_itself(rest[i]) by {
            assert(undoes_itself(links[i + 1]));
        }
        inbound_unwinds_outbound(rest, mid, sent, inner_back, inner);
        assert(undoes_itself(links[0]));
    }
}

/// A drop or an error ends an outbound run at once: the interceptors behind the
/// first one that does not let the payload pass play no part in what comes out.
pub proof fn what_stops_the_first_stops_the_chain(
    links: Seq<Link>,
    others: Seq<Link>,
    before: Seq<u8>,
    after: Seq<u8>,
    v: Verdict,
)
    requires
        links.len() > 0,
        others.len() > 0,
        links[0] == others[0],
        forall|mid: Seq<u8>, own: Verdict| #[trigger]
            links[0].may_send(before, mid, own) ==> own != Ok::<Action, Problem>(Action::Continue),
    ensures
        may_send(links, before, after, v) == may_send(others, before, after, v),
{
}

/// Priorities stay in order, and two interceptors of one priority run in the
/// order in which they were added.
pub proof fn ties_keep_their_order(
    links: Seq<Link>,
    first: Link,
    one: Seq<Link>,
    second: Link,
    both: Seq<Link>,
)
    requires
        prioritised(links),
        first.rank() == second.rank(),
        joined(links, first, one),
        joined(one, second, both),
    ensures
        prioritised(both),
        exists|i: int, j: int|
            0 <= i < j < both.len() && #[trigger] both[i] == first && #[trigger] both[j] == second,
{
    let p = choose|p: int| #[trigger] joined_at(links, first, one, p);
    let q = choose|q: int| #[trigger] joined_at(one, second, both, q);
    assert(one[p] == first);
    assert(p < q);
    assert(both[p] == first && both[q] == second);
    joining_keeps_the_order(links, first, one, p);
    joining_keeps_the_order(one, second, both, q);
}

/// `links` is what stands in a chain that was empty once `added` were added to it,
/// in that order.
pub open spec fn built_by_adding(added: Seq<Link>, links: Seq<Link>) -> bool
    decreases added.len(),
{
    if added.len() == 0 {
        links.len() == 0
    } else {
        exists|shorter: Seq<Link>|
            built_by_adding(added.drop_last(), shorter) && #[trigger] joined(
                shorter,
                added.last(),
                links,
            )
    }
}

/// The interceptors of priority `rank`, in the same order.
pub open spec fn of_rank(links: Seq<Link>, rank: int) -> Seq<Link> {
    links.filter(|l: Link| l.rank() == rank)
}

proof fn no_others_of_rank(links: Seq<Link>, rank: int)
    requires
        forall|i: int| 0 <= i < links.len() ==> (#[trigger] links[i]).rank() != rank,
    ensures
        of_rank(links, rank) == Seq::<Link>::empty(),
    decreases links.len(),
{
    reveal(Seq::filter);
    if links.len() > 0 {
        assert forall|i: int| 0 <= i < links.drop_last().len() implies (
        #[trigger] links.drop_last()[i]).rank() != rank by {
            assert(links[i].rank() != rank);
        }
        no_others_of_rank(links.drop_last(), rank);
        assert(links[links.len() - 1].rank() != rank);
    }
}

proof fn of_rank_of_push(links: Seq<Link>, link: Link, rank: int)
    ensures
        of_rank(links.push(link), rank) == if link.rank() == rank {
            of_rank(links, rank).push(link)
        } else {
            of_rank(links, rank)
        },
{
    reveal(Seq::filter);
    assert(links.push(link).drop_last() =~= links);
}

proof fn joining_adds_to_one_rank(
    links: Seq<Link>,
    link: Link,
    longer: Seq<Link>,
    p: int,
    rank: int,
)
    requires
        joined_at(links, link, longer, p),
    ensures
        of_rank(longer, rank) == of_rank(links.push(link), rank),
{
    let keep = |l: Link| l.rank() == rank;
    let (front, back) = (links.take(p), links.skip(p));
    assert(links =~= front + back);
    assert(longer =~= front.push(link) + back);
    Seq::filter_distributes_over_add(front, back, keep);
    Seq::filter_distributes_over_add(front.push(link), back, keep);
    of_rank_of_push(front, link, rank);
    of_rank_of_push(links, link, rank);
    if rank == link.rank() {
        assert forall|i: int| 0 <= i < back.len() implies (#[trigger] back[i]).rank() != rank by {
            assert(back[i] == links[p + i]);
        }
        no_others_of_rank(back, rank);
        assert(of_rank(front, rank) + Seq::<Link>::empty() =~= of_rank(front, rank));
        assert(of_rank(front, rank).push(link) + Seq::<Link>::empty() =~= of_rank(
            front,
            rank,
        ).push(link));
    }
}

/// A chain that was built by adding stands in the order of priorities, and the
/// interceptors of each priority stand in the order in which they were added: none
/// is lost, and none is there twice that was not added twice.
pub proof fn chains_are_sorted_and_complete(added: Seq<Link>, links: Seq<Link>, rank: int)
    requires
        built_by_adding(added, links),
    ensures
        prioritised(links),
        links.len() == added.len(),
        of_rank(links, rank) == of_rank(added, rank),
    decreases added.len(),
{
    if added.len() == 0 {
        assert(links =~= added);
    } else {
        let shorter = choose|shorter: Seq<Link>|
            built_by_adding(added.drop_last(), shorter) && #[trigger] joined(
                shorter,
                added.last(),
                links,
            );
        let link = added.last();
        let p = choose|p: int| #[trigger] joined_at(shorter, link, links, p);
        chains_are_sorted_and_complete(added.drop_last(), shorter, rank);
        joining_keeps_the_order(shorter, link, links, p);
        joining_adds_to_one_rank(shorter, link, links, p, rank);
        of_rank_of_push(shorter, link, rank);
        of_rank_of_push(added.drop_last(), link, rank);
        assert(added.drop_last().push(link) =~= added);
    }
}

/// A decision of an interceptor goes through the chain unchanged, and an error of one
/// goes under its name.
pub proof fn errors_name_the_interceptor(link: Link, a: Action, p: Problem)
    ensures
        attributed(link, Ok(a)) == Ok::<Action, Problem>(a),
        attributed(link, Err(p)) == Err::<Action, Problem>(
            Problem::Interceptor(link.label(), p.text()),
        ),
{
}

/// What goes out passes the interceptors from the front: through some of them first,
/// and through those behind them next.
pub proof fn outbound_runs_from_the_front(
    front: Seq<Link>,
    behind: Seq<Link>,
    before: Seq<u8>,
    mid: Seq<u8>,
    after: Seq<u8>,
    v: Verdict,
)
    requires
        may_send(front, before, mid, Ok(Action::Continue)),
        may_send(behind, mid, after, v),
    ensures
        may_send(front + behind, before, after, v),
    decreases front.len(),
{
    let all = front + behind;
    if front.len() == 0 {
        assert(all =~= behind);
    } else {
        let rest = front.drop_first();
        let (next, own) = choose|next: Seq<u8>, own: Verdict| #[trigger]
            front[0].may_send(before, next, own) && if own == Ok::<Action, Problem>(
                Action::Continue,
            ) {
                may_send(rest, next, mid, Ok(Action::Continue))
            } else {
                mid == next && Ok::<Action, Problem>(Action::Continue) == attributed(front[0], own)
            };
        outbound_runs_from_the_front(rest, behind, next, mid, after, v);
        assert(all.drop_first() =~= rest + behind);
        assert(all[0].may_send(before, next, own));
    }
}

/// What comes in passes the interceptors from the back: through those behind first,
/// and through those before them next.
pub proof fn inbound_runs_from_the_back(
    front: Seq<Link>,
    behind: Seq<Link>,
    before: Seq<u8>,
    mid: Seq<u8>,
    after: Seq<u8>,
    v: Verdict,
)
    requires
        may_receive(behind, before, mid, Ok(Action::Continue)),
        may_receive(front, mid, after, v),
    ensures
        may_receive(front + behind, before, after, v),
    decreases behind.len(),
{
    let all = front + behind;
    if behind.len() == 0 {
        assert(all =~= front);
    } else {
        let rest = behind.drop_last();
        let (next, own) = choose|next: Seq<u8>, own: Verdict| #[trigger]
            behind.last().may_receive(before, next, own) && if own == Ok::<Action, Problem>(
                Action::Continue,
            ) {
                may_receive(rest, next, mid, Ok(Action::Continue))
            } else {
                mid == next && Ok::<Action, Problem>(Action::Continue) == attributed(
                    behind.last(),
                    own,
                )
            };
        inbound_runs_from_the_back(front, rest, next, mid, after, v);
        assert(all.drop_last() =~= front + rest);
        assert(all.last().may_receive(before, next, own));
    }
}

} // verus!
