//! Access control by capability: an agent calls only the tools that were
//! granted to it.

use vstd::hash_map::StringHashMap;
use vstd::hash_set::StringHashSet;
use vstd::prelude::*;
use crate::error::{SecurityError, SecurityFault};

verus! {

/// The grants of all agents.
pub struct ToolAcl {
    /// Where the tools of an agent stand in `grants`.
    agents: StringHashMap<usize>,
    grants: Vec<StringHashSet>,
    allow_all: StringHashSet,
}

/// The grants of all agents, as sets.
#[verifier::ext_equal]
pub struct AclView {
    /// The pairs of an agent and a tool granted to it.
    pub granted: Set<(Seq<char>, Seq<char>)>,
    /// The agents that may call every tool.
    pub allow_all: Set<Seq<char>>,
}

impl AclView {
    /// No grant at all.
    pub open spec fn empty() -> Self {
        AclView { granted: Set::empty(), allow_all: Set::empty() }
    }

    /// The grants with one more tool for an agent.
    pub open spec fn grant(self, agent: Seq<char>, tool: Seq<char>) -> Self {
        AclView { granted: self.granted.insert((agent, tool)), ..self }
    }

    /// The grants with every tool for an agent.
    pub open spec fn grant_all(self, agent: Seq<char>) -> Self {
        AclView { allow_all: self.allow_all.insert(agent), ..self }
    }

    /// Whether the agent may call the tool.
    pub open spec fn allows(self, agent: Seq<char>, tool: Seq<char>) -> bool {
        self.allow_all.contains(agent) || self.granted.contains((agent, tool))
    }
}

impl View for ToolAcl {
    type V = AclView;

    closed spec fn view(&self) -> AclView {
        AclView {
            granted: Set::new(
                |p: (Seq<char>, Seq<char>)|
                    self.agents@.contains_key(p.0) && self.grants@[self.agents@[p.0]
                        as int]@.contains(p.1),
            ),
            allow_all: self.allow_all@,
        }
    }
}

impl ToolAcl {
    /// Each agent has a place of its own among the grants.
    pub closed spec fn wf(self) -> bool {
        &&& forall|a: Seq<char>| #[trigger]
            self.agents@.contains_key(a) ==> self.agents@[a] < self.grants@.len()
        &&& forall|a: Seq<char>, b: Seq<char>|
            #![trigger self.agents@[a], self.agents@[b]]
            self.agents@.contains_key(a) && self.agents@.contains_key(b) && self.agents@[a]
                == self.agents@[b] ==> a == b
    }

    /// Nobody may call anything.
    pub fn new() -> (out: ToolAcl)
        ensures
            out.wf(),
            out@ == AclView::empty(),
    {
        let out: ToolAcl = ToolAcl {
            agents: StringHashMap::new(),
            grants: Vec::new(),
            allow_all: StringHashSet::new(),
        };
        assert(out@ =~= AclView::empty());
        out
    }

    /// Lets an agent call a tool.
    pub fn grant(&mut self, agent_id: &str, tool: &str)
        requires
            old(self).wf(),
        ensures
            final(self).wf(),
            final(self)@ == old(self)@.grant(agent_id@, tool@),
    {
        let place: usize = match self.agents.get(agent_id) {
            Some(at) => *at,
            None => {
                let at: usize = self.grants.len();
                self.grants.push(StringHashSet::new());
                self.agents.insert(String::from_str(agent_id), at);
                at
            },
        };
        let ghost middle = *self;
        assert(middle@ =~= old(self)@);
        self.grants[place].insert(String::from_str(tool));
        proof {
            assert forall|p: (Seq<char>, Seq<char>)| #[trigger]
                self@.granted.contains(p) == old(self)@.grant(
                    agent_id@,
                    tool@,
                ).granted.contains(p) by {
                assert(middle@.granted.contains(p) == old(self)@.granted.contains(p));
            }
            assert(self@ =~= old(self)@.grant(agent_id@, tool@));
        }
    }

    /// Lets an agent call every tool.
    pub fn grant_all(&mut self, agent_id: &str)
        requires
            old(self).wf(),
        ensures
            final(self).wf(),
            final(self)@ == old(self)@.grant_all(agent_id@),
    {
        self.allow_all.insert(String::from_str(agent_id));
        assert(self@ =~= old(self)@.grant_all(agent_id@));
    }

    /// Whether the agent may call the tool; the refusal names the tool.
    pub fn check(&self, agent_id: &str, tool: &str) -> (out: Result<(), SecurityError>)
        requires
            self.wf(),
        ensures
            out is Ok <==> self@.allows(agent_id@, tool@),
            out matches Err(e) ==> e@ == SecurityFault::AccessDenied(tool@),
    {
        if self.allow_all.contains(agent_id) {
            return Ok(());
        }
        let granted: bool = match self.agents.get(agent_id) {
            Some(at) => self.grants[*at].contains(tool),
            None => false,
        };
        if granted {
            return Ok(());
        }
        Err(SecurityError::AccessDenied(String::from_str(tool)))
    }
}

impl Default for ToolAcl {
    fn default() -> (out: ToolAcl)
        ensures
            out.wf(),
            out@ == AclView::empty(),
    {
        ToolAcl::new()
    }
}

/// At first every call is refused.
pub proof fn nothing_is_allowed_at_first(agent: Seq<char>, tool: Seq<char>)
    ensures
        !AclView::empty().allows(agent, tool),
{
}

/// A grant opens the granted tool to the granted agent and nothing else.
pub proof fn grant_opens_one_tool(
    acl: AclView,
    agent: Seq<char>,
    tool: Seq<char>,
    other_agent: Seq<char>,
    other_tool: Seq<char>,
)
    ensures
        acl.grant(agent, tool).allows(agent, tool),
        acl.grant(agent, tool).allows(other_agent, other_tool) <==> acl.allows(
            other_agent,
            other_tool,
        ) || (other_agent == agent && other_tool == tool),
{
}

/// A grant of everything opens every tool to the granted agent and nothing to
/// any other.
pub proof fn grant_all_opens_one_agent(
    acl: AclView,
    agent: Seq<char>,
    other_agent: Seq<char>,
    tool: Seq<char>,
)
    ensures
        acl.grant_all(agent).allows(agent, tool),
        other_agent != agent ==> acl.grant_all(agent).allows(other_agent, tool) == acl.allows(
            other_agent,
            tool,
        ),
{
}

/// A grant opens exactly the granted tool to the granted agent: afterwards a check passes
/// where it passed before, and for that agent and tool.
pub proof fn grants_open_what_was_granted(
    acl: &mut ToolAcl,
    after: ToolAcl,
    agent: &str,
    tool: &str,
    who: &str,
    what: &str,
    before: Result<(), SecurityError>,
    out: Result<(), SecurityError>,
)
    requires
        call_ensures(ToolAcl::check, (&*old(acl), who, what), before),
        call_ensures(ToolAcl::grant, (acl, agent, tool), ()),
        after == *final(acl),
        call_ensures(ToolAcl::check, (&after, who, what), out),
    ensures
        out is Ok <==> before is Ok || (who@ == agent@ && what@ == tool@),
        out matches Err(e) ==> e@ == SecurityFault::AccessDenied(what@),
{
}

/// A grant of everything opens every tool to the granted agent, and nothing to another.
pub proof fn grants_of_everything_open_every_tool(
    acl: &mut ToolAcl,
    after: ToolAcl,
    agent: &str,
    who: &str,
    what: &str,
    before: Result<(), SecurityError>,
    out: Result<(), SecurityError>,
)
    requires
        call_ensures(ToolAcl::check, (&*old(acl), who, what), before),
        call_ensures(ToolAcl::grant_all, (acl, agent), ()),
        after == *final(acl),
        call_ensures(ToolAcl::check, (&after, who, what), out),
    ensures
        out is Ok <==> before is Ok || who@ == agent@,
        out matches Err(e) ==> e@ == SecurityFault::AccessDenied(what@),
{
}

/// Without a grant every check fails.
pub proof fn new_lists_allow_nothing(
    acl: ToolAcl,
    who: &str,
    what: &str,
    out: Result<(), SecurityError>,
)
    requires
        call_ensures(ToolAcl::new, (), acl),
        call_ensures(ToolAcl::check, (&acl, who, what), out),
    ensures
        out matches Err(e) && e@ == SecurityFault::AccessDenied(what@),
{
}

} // verus!
