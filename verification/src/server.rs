//! What a server is made of beside its connections: its settings, what the
//! connections share, and which connections it takes.

use vstd::prelude::*;
use crate::acl::{AclView, ToolAcl};
use crate::cache::{CacheView, ResultCache};
use crate::message::ErrorBody;
use crate::pipeline;
use crate::session;
use crate::text;
use crate::tools::ToolRegistry;

verus! {

/// Where the server listens, unless something else is asked for.
pub const DEFAULT_SOCKET_PATH: &'static str = "/tmp/ohmcpd.sock";

/// The number of results that the server keeps for all connections.
pub const SERVER_CACHE_CAPACITY: usize = 65_536;

/// The settings of a server.
#[derive(Debug, Clone, Copy, PartialEq, Eq, Structural)]
pub struct ServerConfig {
    /// The number of connections at one time; those beyond it are refused.
    pub max_connections: usize,
    /// For how many milliseconds connections may end what they do when the
    /// server shuts down.
    pub shutdown_grace_ms: u64,
}

impl Default for ServerConfig {
    fn default() -> (out: ServerConfig)
        ensures
            out.max_connections == 256,
            out.shutdown_grace_ms == 5000,
    {
        ServerConfig { max_connections: 256, shutdown_grace_ms: 5000 }
    }
}

/// What all connections share.
#[verifier::reject_recursive_types(H)]
#[verifier::reject_recursive_types(P)]
pub struct Shared<H, P> {
    pub registry: ToolRegistry<H, P>,
    pub cache: ResultCache,
    pub acl: ToolAcl,
    pub token: Option<Vec<u8>>,
}

impl<H, P> Shared<H, P> {
    /// What the connections of a new server share. Anonymous agents, which there
    /// are only where no token is asked for, may call every tool.
    pub fn new(token: Option<Vec<u8>>, registry: ToolRegistry<H, P>) -> (out: Shared<H, P>)
        ensures
            out.registry == registry,
            out.token == token,
            out.acl.wf(),
            out.acl@ == AclView::empty().grant_all("anonymous"@),
            out.cache.wf(),
            out.cache@ == CacheView::empty(
                SERVER_CACHE_CAPACITY as nat,
                pipeline::CACHE_TTL as nat,
            ),
    {
        let mut acl: ToolAcl = ToolAcl::new();
        acl.grant_all("anonymous");
        Shared {
            registry,
            cache: ResultCache::new(SERVER_CACHE_CAPACITY, pipeline::CACHE_TTL),
            acl,
            token,
        }
    }
}

/// What happened while the server waited.
#[derive(Debug, Clone, Copy, PartialEq, Eq, Structural)]
pub enum ListenEvent {
    /// The server is to shut down.
    Shutdown,
    /// A connection came.
    Arrived,
    /// A connection that was served came to its end.
    Ended,
}

/// What the server does next.
#[derive(Debug)]
pub enum ListenAction {
    /// Takes no more connections, and lets those that there are come to an end.
    Stop,
    /// Serves the connection.
    Serve,
    /// Tells the client why, and closes the connection.
    Refuse(ErrorBody),
    /// Nothing.
    Wait,
}

/// The connections of a server.
#[derive(Debug)]
pub struct Listener {
    max: usize,
    open: usize,
    stopped: bool,
}

/// How many connections a server may have and has, and whether it takes more.
pub struct ListenerView {
    pub max: nat,
    pub open: nat,
    pub stopped: bool,
}

/// A `ListenAction` with its text as a sequence of characters.
pub enum ListenActionView {
    Stop,
    Serve,
    Refuse(i32, Seq<char>),
    Wait,
}

impl ListenAction {
    /// Whether this is what the view says.
    pub open spec fn shows(self, v: ListenActionView) -> bool {
        match (self, v) {
            (ListenAction::Stop, ListenActionView::Stop) => true,
            (ListenAction::Serve, ListenActionView::Serve) => true,
            (ListenAction::Refuse(e), ListenActionView::Refuse(code, m)) => e.says(code, m),
            (ListenAction::Wait, ListenActionView::Wait) => true,
            _ => false,
        }
    }
}

impl View for Listener {
    type V = ListenerView;

    closed spec fn view(&self) -> ListenerView {
        ListenerView { max: self.max as nat, open: self.open as nat, stopped: self.stopped }
    }
}

impl ListenerView {
    /// A server without connections.
    pub open spec fn idle(max: nat) -> Self {
        ListenerView { max, open: 0, stopped: false }
    }

    /// No more connections are open than there may be.
    pub open spec fn wf(self) -> bool {
        self.open <= self.max
    }

    /// What the server does next.
    pub open spec fn action(self, event: ListenEvent) -> ListenActionView {
        match event {
            ListenEvent::Shutdown => ListenActionView::Stop,
            ListenEvent::Arrived => if self.stopped {
                ListenActionView::Stop
            } else if self.open < self.max {
                ListenActionView::Serve
            } else {
                ListenActionView::Refuse(
                    session::BUSY,
                    "server busy: connection limit reached"@,
                )
            },
            ListenEvent::Ended => ListenActionView::Wait,
        }
    }

    /// The connections after that.
    pub open spec fn after(self, event: ListenEvent) -> Self {
        match event {
            ListenEvent::Shutdown => ListenerView { stopped: true, ..self },
            ListenEvent::Arrived => if self.action(event) is Serve {
                ListenerView { open: self.open + 1, ..self }
            } else {
                self
            },
            ListenEvent::Ended => if self.open > 0 {
                ListenerView { open: (self.open - 1) as nat, ..self }
            } else {
                self
            },
        }
    }

    /// The connections after a number of events.
    pub open spec fn after_all(self, events: Seq<ListenEvent>) -> Self
        decreases events.len(),
    {
        if events.len() == 0 {
            self
        } else {
            self.after_all(events.drop_last()).after(events.last())
        }
    }
}

impl Listener {
    /// A server without connections, which takes up to `max` at one time.
    pub fn new(max: usize) -> (out: Listener)
        ensures
            out@ == ListenerView::idle(max as nat),
            out@.wf(),
    {
        Listener { max, open: 0, stopped: false }
    }

    /// What the server does next.
    pub fn step(&mut self, event: ListenEvent) -> (out: ListenAction)
        requires
            old(self)@.wf(),
        ensures
            final(self)@.wf(),
            final(self)@ == old(self)@.after(event),
            out.shows(old(self)@.action(event)),
    {
        match event {
            ListenEvent::Shutdown => {
                self.stopped = true;
                ListenAction::Stop
            },
            ListenEvent::Arrived => if self.stopped {
                ListenAction::Stop
            } else if self.open < self.max {
                self.open = self.open + 1;
                ListenAction::Serve
            } else {
                ListenAction::Refuse(
                    ErrorBody::new(
                        session::BUSY,
                        String::from_str("server busy: connection limit reached"),
                    ),
                )
            },
            ListenEvent::Ended => {
                if self.open > 0 {
                    self.open = self.open - 1;
                }
                ListenAction::Wait
            },
        }
    }
}

/// Whatever happens, no more connections are open than there may be, and the
/// limit stays what it was.
pub proof fn limit_is_kept(l: ListenerView, events: Seq<ListenEvent>)
    requires
        l.wf(),
    ensures
        l.after_all(events).wf(),
        l.after_all(events).max == l.max,
    decreases events.len(),
{
    if events.len() > 0 {
        limit_is_kept(l, events.drop_last());
    }
}

/// A full server refuses the next connection and leaves the others alone; when one
/// of them ends, its place is free again.
pub proof fn an_end_frees_a_place(l: ListenerView)
    requires
        !l.stopped,
        l.open == l.max,
        l.max > 0,
    ensures
        l.action(ListenEvent::Arrived) is Refuse,
        l.after(ListenEvent::Arrived) == l,
        l.after(ListenEvent::Ended).action(ListenEvent::Arrived) is Serve,
        l.after(ListenEvent::Ended).after(ListenEvent::Arrived) == l,
{
}

/// Once the server shuts down it serves no new connection.
pub proof fn nothing_is_served_after_shutdown(l: ListenerView, events: Seq<ListenEvent>)
    requires
        l.stopped,
    ensures
        l.after_all(events).stopped,
        l.after_all(events).action(ListenEvent::Arrived) is Stop,
        l.after_all(events).open <= l.open,
    decreases events.len(),
{
    if events.len() > 0 {
        nothing_is_served_after_shutdown(l, events.drop_last());
    }
}

/// Whether number `i` of the words is the first that is `name`.
pub open spec fn first_is(words: Seq<String>, name: Seq<char>, i: int) -> bool {
    &&& 0 <= i < words.len()
    &&& words[i]@ == name
    &&& forall|k: int| 0 <= k < i ==> (#[trigger] words[k])@ != name
}

/// The word behind the first that is `name`.
pub fn parse_arg(args: &[String], name: &str) -> (out: Option<String>)
    ensures
        match out {
            Some(v) => exists|i: int| #[trigger]
                first_is(args@, name@, i) && i + 1 < args@.len() && v@ == args@[i + 1]@,
            None => forall|i: int| #[trigger]
                first_is(args@, name@, i) ==> i + 1 == args@.len(),
        },
        forall|i: int|
            0 <= i && i + 1 < args@.len() && (#[trigger] args@[i])@ == name@ && (forall|k: int|
                0 <= k < i ==> (#[trigger] args@[k])@ != name@) ==> (out matches Some(v) && v@
                == args@[i + 1]@),
{
    let mut i: usize = 0;
    while i < args.len()
        invariant
            i <= args@.len(),
            forall|k: int| 0 <= k < i ==> (#[trigger] args@[k])@ != name@,
        decreases args@.len() - i,
    {
        if text::str_equal(args[i].as_str(), name) {
            assert(first_is(args@, name@, i as int));
            if i + 1 < args.len() {
                return Some(args[i + 1].clone());
            }
            return None;
        }
        i = i + 1;
    }
    None
}

/// Each event changes the number of open connections in one way. One that ends frees
/// its place, whether the server was full or not; one that arrives takes a place where
/// the server takes connections and has one free, and none otherwise; a shutdown closes
/// nothing by itself. `action` is what the server does.
pub proof fn every_event_counts(l: ListenerView, action: ListenAction, event: ListenEvent)
    requires
        l.wf(),
        action.shows(l.action(event)),
    ensures
        l.after(event).max == l.max,
        event is Ended && l.open > 0 ==> l.after(event).open == l.open - 1,
        event is Ended ==> action is Wait && l.after(event).stopped == l.stopped,
        event is Arrived && !l.stopped && l.open < l.max ==> action is Serve && l.after(event).open
            == l.open + 1 && !l.after(event).stopped,
        event is Arrived && !l.stopped && l.open == l.max ==> {
            &&& l.after(event) == l
            &&& action matches ListenAction::Refuse(e)
            &&& e.code == -32005
            &&& e.message@ == "server busy: connection limit reached"@
            &&& e.data is None
        },
        event is Arrived && l.stopped ==> action is Stop && l.after(event) == l,
        event is Shutdown ==> action is Stop && l.after(event).stopped && l.after(event).open
            == l.open,
{
}

/// How many of the connections that arrive are served.
pub open spec fn served_among(l: ListenerView, events: Seq<ListenEvent>) -> nat
    decreases events.len(),
{
    if events.len() == 0 {
        0
    } else {
        let before = events.drop_last();
        served_among(l, before) + (if l.after_all(before).action(events.last()) is Serve {
            1nat
        } else {
            0
        })
    }
}

/// How many connections come to their end.
pub open spec fn ended_among(events: Seq<ListenEvent>) -> nat
    decreases events.len(),
{
    if events.len() == 0 {
        0
    } else {
        ended_among(events.drop_last()) + (if events.last() is Ended {
            1nat
        } else {
            0
        })
    }
}

/// The open connections are those that were served less those that ended, and the next
/// one is served exactly where the server was not told to shut down and fewer than the
/// limit are open. Only connections that were served end: as many at no time as were
/// served until then.
pub proof fn open_connections_are_those_served_and_not_ended(
    max: nat,
    events: Seq<ListenEvent>,
)
    requires
        forall|i: int|
            0 <= i <= events.len() ==> ended_among(#[trigger] events.take(i)) <= served_among(
                ListenerView::idle(max),
                events.take(i),
            ),
    ensures
        ({
            let idle = ListenerView::idle(max);
            let now = idle.after_all(events);
            let open = served_among(idle, events) - ended_among(events);
            &&& now.open == open
            &&& now.max == max
            &&& now.stopped == events.contains(ListenEvent::Shutdown)
            &&& now.action(ListenEvent::Arrived) is Serve <==> open < max && !events.contains(
                ListenEvent::Shutdown,
            )
        }),
    decreases events.len(),
{
    let idle = ListenerView::idle(max);
    limit_is_kept(idle, events);
    if events.len() > 0 {
        let before = events.drop_last();
        assert forall|i: int| 0 <= i <= before.len() implies ended_among(
            #[trigger] before.take(i),
        ) <= served_among(idle, before.take(i)) by {
            assert(before.take(i) =~= events.take(i));
        }
        open_connections_are_those_served_and_not_ended(max, before);
        assert(events.take(events.len() as int) =~= events);
        assert(events =~= before.push(events.last()));
        assert(events.contains(ListenEvent::Shutdown) == (before.contains(ListenEvent::Shutdown)
            || events.last() is Shutdown)) by {
            if before.contains(ListenEvent::Shutdown) {
                let i = choose|i: int|
                    0 <= i < before.len() && before[i] == ListenEvent::Shutdown;
                assert(events[i] == ListenEvent::Shutdown);
            }
            if events.last() is Shutdown {
                assert(events[events.len() - 1] == ListenEvent::Shutdown);
            }
            if events.contains(ListenEvent::Shutdown) {
                let i = choose|i: int|
                    0 <= i < events.len() && events[i] == ListenEvent::Shutdown;
                if i < before.len() {
                    assert(before[i] == ListenEvent::Shutdown);
                }
            }
        }
    }
}

/// The argument of an option is the word right behind the first word that is its name,
/// whatever comes later. Word `i` is that first one.
pub proof fn options_take_the_next_word(args: &[String], name: &str, out: Option<String>, i: int)
    requires
        call_ensures(parse_arg, (args, name), out),
        out is Some,
        0 <= i < args@.len(),
        args@[i]@ == name@,
        forall|k: int| 0 <= k < i ==> (#[trigger] args@[k])@ != name@,
    ensures
        i + 1 < args@.len(),
        out->Some_0@ == args@[i + 1]@,
{
    assert(first_is(args@, name@, i));
    let v = out->Some_0;
    let j = choose|j: int| #[trigger]
        first_is(args@, name@, j) && j + 1 < args@.len() && v@ == args@[j + 1]@;
    assert(!(i < j) && !(j < i));
}

/// An option whose name is no word has no argument.
pub proof fn missing_options_have_no_word(args: &[String], name: &str, out: Option<String>)
    requires
        call_ensures(parse_arg, (args, name), out),
        forall|k: int| 0 <= k < args@.len() ==> (#[trigger] args@[k])@ != name@,
    ensures
        out is None,
{
}

/// What a new server starts from: its limits, an empty store of results that live for
/// five minutes, and no grants but those of anonymous agents.
pub proof fn new_servers_start_empty<H, P>(
    token: Option<Vec<u8>>,
    registry: ToolRegistry<H, P>,
    shared: Shared<H, P>,
    config: ServerConfig,
    agent: Seq<char>,
    tool: Seq<char>,
    key: Seq<u8>,
    time: u128,
)
    requires
        call_ensures(Shared::<H, P>::new, (token, registry), shared),
        call_ensures(<ServerConfig as Default>::default, (), config),
    ensures
        shared.registry == registry,
        shared.token == token,
        shared.acl@.allows(agent, tool) <==> agent == "anonymous"@,
        shared.cache@.looked_up(key, time) is None,
        shared.cache@.capacity == 65_536,
        shared.cache@.ttl == 300 * 1_000_000_000nat,
        config.max_connections == 256,
        config.shutdown_grace_ms == 5000,
{
}

/// A step of the server is one of these: the end of a connection frees its place and
/// nothing more; an arrival is served, refused or turned away as the places say; a
/// shutdown stops the server for good.
pub proof fn steps_keep_count(l: &mut Listener, event: ListenEvent, out: ListenAction)
    requires
        call_ensures(Listener::step, (l, event), out),
        l@.open <= l@.max,
    ensures
        final(l)@.max == old(l)@.max,
        final(l)@.open <= final(l)@.max,
        event is Ended ==> out is Wait && (old(l)@.open > 0 ==> final(l)@.open == old(l)@.open - 1)
            && final(l)@.stopped == old(l)@.stopped,
        event is Shutdown ==> out is Stop && final(l)@.stopped && final(l)@.open == old(l)@.open,
        event is Arrived && old(l)@.stopped ==> out is Stop && final(l)@.open == old(l)@.open,
        event is Arrived && !old(l)@.stopped ==> {
            &&& out is Serve <==> old(l)@.open < old(l)@.max
            &&& out is Refuse <==> old(l)@.open == old(l)@.max
            &&& out is Serve ==> final(l)@.open == old(l)@.open + 1
            &&& out is Refuse ==> final(l)@.open == old(l)@.open
            &&& !final(l)@.stopped
        },
{
}

} // verus!
