//! The search for a producer by its name.
use crate::text::same_text;
use vstd::prelude::*;

verus! {

/// What a producer says of itself.
#[derive(Debug)]
pub enum ProducerMeta {
    Missing,
    WithoutName,
    Name(String),
}

/// A signal of the signalling server.
#[derive(Debug)]
pub enum ProducerEvent {
    Added { meta: ProducerMeta, peer_id: String },
    Removed,
    Error,
}

/// What a signal means for the search.
#[derive(Debug)]
pub enum SearchStep {
    GoOn,
    /// The search is over, with the identifier of the peer.
    Found(String),
    /// The search is over without success.
    NotFound,
}

/// Somebody who looks for a producer.
#[derive(Debug)]
pub struct Listener {
    uri: String,
    peer_name: String,
}

/// What a signal means for the search for `name`. A producer that does not give its name ends
/// the search; one with another name does not.
pub open spec fn search_step(name: Seq<char>, event: ProducerEvent) -> SearchStep {
    match event {
        ProducerEvent::Added { meta: ProducerMeta::Name(given), peer_id } => if given@ == name {
            SearchStep::Found(peer_id)
        } else {
            SearchStep::GoOn
        },
        ProducerEvent::Added { .. } => SearchStep::NotFound,
        ProducerEvent::Removed => SearchStep::GoOn,
        ProducerEvent::Error => SearchStep::NotFound,
    }
}

/// What some signals mean for the search for `name`: the first that ends it counts.
pub open spec fn search(name: Seq<char>, events: Seq<ProducerEvent>) -> SearchStep
    decreases events.len(),
{
    if events.len() == 0 {
        SearchStep::GoOn
    } else {
        let earlier = search(name, events.drop_last());
        if earlier is GoOn {
            search_step(name, events.last())
        } else {
            earlier
        }
    }
}

impl Listener {
    /// The address of the signalling server.
    pub closed spec fn uri(self) -> String {
        self.uri
    }

    /// The name that is looked for.
    pub closed spec fn peer_name(self) -> String {
        self.peer_name
    }

    /// Looks for a producer.
    pub fn new(uri: &String, peer_name: String) -> (r: Listener)
        ensures
            r.uri() == *uri,
            r.peer_name() == peer_name,
    {
        Listener { uri: uri.clone(), peer_name }
    }

    /// The address of the signalling server.
    pub fn signalling_uri(&self) -> (r: String)
        ensures
            r == self.uri(),
    {
        self.uri.clone()
    }

    /// What a signal means for the search.
    pub fn look_for_peer_id(&self, event: ProducerEvent) -> (r: SearchStep)
        ensures
            r == search_step(self.peer_name()@, event),
    {
        match event {
            ProducerEvent::Added { meta, peer_id } => match meta {
                ProducerMeta::Name(name) => if same_text(name.as_str(), self.peer_name.as_str()) {
                    SearchStep::Found(peer_id)
                } else {
                    SearchStep::GoOn
                },
                ProducerMeta::WithoutName => SearchStep::NotFound,
                ProducerMeta::Missing => SearchStep::NotFound,
            },
            ProducerEvent::Removed => SearchStep::GoOn,
            ProducerEvent::Error => SearchStep::NotFound,
        }
    }
}

/// Who is found has the name that was looked for, and nothing has ended the search before.
pub proof fn lemma_found_by_name(name: Seq<char>, events: Seq<ProducerEvent>)
    requires
        search(name, events) is Found,
    ensures
        exists|i: int|
            0 <= i < events.len() && search(name, events.take(i)) is GoOn && (
            #[trigger] events[i] matches ProducerEvent::Added {
                meta: ProducerMeta::Name(given),
                peer_id,
            } && given@ == name && search(name, events) == SearchStep::Found(peer_id)),
    decreases events.len(),
{
    let front = events.drop_last();
    let last = events.len() - 1;
    if search(name, front) is GoOn {
        assert(events.take(last) =~= front);
        assert(events[last] == events.last());
    } else {
        lemma_found_by_name(name, front);
        let i = choose|i: int|
            0 <= i < front.len() && search(name, front.take(i)) is GoOn && (
            #[trigger] front[i] matches ProducerEvent::Added {
                meta: ProducerMeta::Name(given),
                peer_id,
            } && given@ == name && search(name, front) == SearchStep::Found(peer_id));
        assert(events.take(i) =~= front.take(i));
        assert(events[i] == front[i]);
    }
}

/// A search that is over stays as it is.
pub proof fn lemma_search_is_over(name: Seq<char>, events: Seq<ProducerEvent>, n: nat)
    requires
        n <= events.len(),
        !(search(name, events.take(n as int)) is GoOn),
    ensures
        search(name, events) == search(name, events.take(n as int)),
    decreases events.len() - n,
{
    if n == events.len() {
        assert(events.take(n as int) =~= events);
    } else {
        assert(events.take((n + 1) as int).drop_last() =~= events.take(n as int));
        lemma_search_is_over(name, events, n + 1);
    }
}

/// A search ends with a producer that gives the name that is looked for, and is then successful;
/// and with a producer that gives none, or an error, and is then not. It goes on otherwise.
pub proof fn lemma_what_ends_a_search(name: Seq<char>, event: ProducerEvent, id: String)
    ensures
        search_step(name, event) == SearchStep::Found(id) <==> ({
            &&& event matches ProducerEvent::Added { meta, peer_id }
            &&& meta matches ProducerMeta::Name(given)
            &&& given@ == name
            &&& peer_id == id
        }),
        search_step(name, event) is NotFound <==> event is Error || ({
            &&& event matches ProducerEvent::Added { meta, peer_id }
            &&& !(meta is Name)
        }),
{
}

/// The first signal that ends a search decides it; a search that none has ended goes on.
pub proof fn lemma_first_end_decides(name: Seq<char>, events: Seq<ProducerEvent>, n: nat)
    requires
        n <= events.len(),
        forall|i: int| 0 <= i < n ==> search_step(name, #[trigger] events[i]) is GoOn,
        n < events.len() ==> !(search_step(name, events[n as int]) is GoOn),
    ensures
        n == events.len() ==> search(name, events) is GoOn,
        n < events.len() ==> search(name, events) == search_step(name, events[n as int]),
    decreases events.len(),
{
    if events.len() > 0 {
        let front = events.drop_last();
        assert forall|i: int| 0 <= i < n && i < front.len() implies search_step(
            name,
            #[trigger] front[i],
        ) is GoOn by {
            assert(front[i] == events[i]);
        }
        if n < front.len() {
            assert(front[n as int] == events[n as int]);
            lemma_first_end_decides(name, front, n);
        } else {
            lemma_first_end_decides(name, front, front.len());
            assert(events.last() == events[events.len() - 1]);
        }
    }
}

} // verus!
