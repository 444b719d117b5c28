//! The registry of tools, resources and prompts.

use serde_json::Value;
use vstd::hash_map::StringHashMap;
use vstd::prelude::*;
use crate::json;
use crate::message::{
    CallToolResult, GetPromptResult, Prompt, Resource, ResourceContents, Tool,
};

verus! {

/// What runs when a tool is called.
pub trait ToolHandler {
    fn handle(&self, args: &Value) -> CallToolResult;
}

/// What fills in a prompt.
pub trait PromptHandler {
    fn render(&self, args: &Value) -> GetPromptResult;
}

/// The tools, resources and prompts that a server offers.
#[verifier::reject_recursive_types(H)]
#[verifier::reject_recursive_types(P)]
pub struct ToolRegistry<H, P> {
    tools: Vec<Tool>,
    handlers: StringHashMap<H>,
    cacheable: StringHashMap<bool>,
    resources: Vec<Resource>,
    resource_contents: StringHashMap<ResourceContents>,
    prompts: Vec<Prompt>,
    prompt_handlers: StringHashMap<P>,
}

/// A registry as its lists, in the order of registration, and its maps.
#[verifier::ext_equal]
#[verifier::reject_recursive_types(H)]
#[verifier::reject_recursive_types(P)]
pub struct RegistryView<H, P> {
    pub tools: Seq<Tool>,
    pub handlers: Map<Seq<char>, H>,
    pub cacheable: Map<Seq<char>, bool>,
    pub resources: Seq<Resource>,
    pub contents: Map<Seq<char>, ResourceContents>,
    pub prompts: Seq<Prompt>,
    pub prompt_handlers: Map<Seq<char>, P>,
}

impl<H, P> View for ToolRegistry<H, P> {
    type V = RegistryView<H, P>;

    closed spec fn view(&self) -> RegistryView<H, P> {
        RegistryView {
            tools: self.tools@,
            handlers: self.handlers@,
            cacheable: self.cacheable@,
            resources: self.resources@,
            contents: self.resource_contents@,
            prompts: self.prompts@,
            prompt_handlers: self.prompt_handlers@,
        }
    }
}

impl<H, P> RegistryView<H, P> {
    /// Nothing is registered.
    pub open spec fn empty() -> Self {
        RegistryView {
            tools: Seq::empty(),
            handlers: Map::empty(),
            cacheable: Map::empty(),
            resources: Seq::empty(),
            contents: Map::empty(),
            prompts: Seq::empty(),
            prompt_handlers: Map::empty(),
        }
    }

    /// Whether results of the tool may be cached.
    pub open spec fn caches(self, name: Seq<char>) -> bool {
        self.cacheable.contains_key(name) && self.cacheable[name]
    }
}

impl<H, P> ToolRegistry<H, P> {
    /// Nothing is registered.
    pub fn new() -> (out: ToolRegistry<H, P>)
        ensures
            out@ == RegistryView::<H, P>::empty(),
    {
        let out: ToolRegistry<H, P> = ToolRegistry {
            tools: Vec::new(),
            handlers: StringHashMap::new(),
            cacheable: StringHashMap::new(),
            resources: Vec::new(),
            resource_contents: StringHashMap::new(),
            prompts: Vec::new(),
            prompt_handlers: StringHashMap::new(),
        };
        assert(out@ =~= RegistryView::<H, P>::empty());
        out
    }

    /// Adds a tool to the list; its handler takes the place of an earlier one
    /// of the same name.
    pub fn register(
        &mut self,
        name: &str,
        description: &str,
        input_schema: Value,
        cacheable: bool,
        handler: H,
    )
        ensures
            final(self)@.tools.len() == old(self)@.tools.len() + 1,
            final(self)@.tools.drop_last() == old(self)@.tools,
            final(self)@.tools.last().described(
                name@,
                description@,
                json::json_of(input_schema),
            ),
            final(self)@ == (RegistryView {
                tools: final(self)@.tools,
                handlers: old(self)@.handlers.insert(name@, handler),
                cacheable: old(self)@.cacheable.insert(name@, cacheable),
                ..old(self)@
            }),
    {
        self.tools.push(
            Tool {
                name: String::from_str(name),
                description: Some(String::from_str(description)),
                input_schema,
            },
        );
        self.handlers.insert(String::from_str(name), handler);
        self.cacheable.insert(String::from_str(name), cacheable);
        assert(self@.tools.drop_last() =~= old(self)@.tools);
    }

    /// The tools in the order of registration.
    pub fn tools(&self) -> (out: &[Tool])
        ensures
            out@ == self@.tools,
    {
        self.tools.as_slice()
    }

    /// Whether results of the tool may be cached; those of an unknown tool may
    /// not.
    pub fn is_cacheable(&self, name: &str) -> (out: bool)
        ensures
            out == self@.caches(name@),
    {
        match self.cacheable.get(name) {
            Some(b) => *b,
            None => false,
        }
    }

    /// Adds a text resource to the list; its contents take the place of earlier
    /// ones of the same address.
    pub fn register_resource(&mut self, uri: &str, name: &str, mime: &str, text: &str)
        ensures
            final(self)@.resources.len() == old(self)@.resources.len() + 1,
            final(self)@.resources.drop_last() == old(self)@.resources,
            final(self)@.resources.last().described(uri@, name@, mime@),
            final(self)@.contents.dom() == old(self)@.contents.dom().insert(uri@),
            final(self)@.contents[uri@].is_text(uri@, Some(mime@), text@),
            final(self)@ == (RegistryView {
                resources: final(self)@.resources,
                contents: old(self)@.contents.insert(uri@, final(self)@.contents[uri@]),
                ..old(self)@
            }),
    {
        self.resources.push(
            Resource {
                uri: String::from_str(uri),
                name: String::from_str(name),
                description: None,
                mime_type: Some(String::from_str(mime)),
            },
        );
        self.resource_contents.insert(
            String::from_str(uri),
            ResourceContents {
                uri: String::from_str(uri),
                mime_type: Some(String::from_str(mime)),
                text: Some(String::from_str(text)),
                blob: None,
            },
        );
        proof {
            assert(self@.resources.drop_last() =~= old(self)@.resources);
            assert(self@.contents =~= old(self)@.contents.insert(uri@, self@.contents[uri@]));
        }
    }

    /// The resources in the order of registration.
    pub fn resources(&self) -> (out: &[Resource])
        ensures
            out@ == self@.resources,
    {
        self.resources.as_slice()
    }

    /// The contents of a resource.
    pub fn read_resource(&self, uri: &str) -> (out: Option<&ResourceContents>)
        ensures
            match out {
                Some(c) => self@.contents.contains_key(uri@) && *c == self@.contents[uri@],
                None => !self@.contents.contains_key(uri@),
            },
    {
        self.resource_contents.get(uri)
    }

    /// Whether there is a resource with the address.
    pub fn has_resource(&self, uri: &str) -> (out: bool)
        ensures
            out == self@.contents.contains_key(uri@),
    {
        self.resource_contents.contains_key(uri)
    }

    /// Gives a resource a new text; `false` where there is no such resource.
    pub fn update_resource(&mut self, uri: &str, text: &str) -> (out: bool)
        ensures
            out == old(self)@.contents.contains_key(uri@),
            !out ==> final(self)@ == old(self)@,
            out ==> {
                &&& final(self)@.contents[uri@].is_text(
                    uri@,
                    match old(self)@.contents[uri@].mime_type {
                        Some(m) => Some(m@),
                        None => None,
                    },
                    text@,
                )
                &&& final(self)@ == (RegistryView {
                    contents: old(self)@.contents.insert(uri@, final(self)@.contents[uri@]),
                    ..old(self)@
                })
            },
    {
        let mime_type: Option<String> = match self.resource_contents.get(uri) {
            None => return false,
            Some(c) => match &c.mime_type {
                Some(m) => Some(m.clone()),
                None => None,
            },
        };
        self.resource_contents.insert(
            String::from_str(uri),
            ResourceContents {
                uri: String::from_str(uri),
                mime_type,
                text: Some(String::from_str(text)),
                blob: None,
            },
        );
        assert(self@.contents =~= old(self)@.contents.insert(uri@, self@.contents[uri@]));
        true
    }

    /// Adds a prompt to the list; its handler takes the place of an earlier one
    /// of the same name.
    pub fn register_prompt(&mut self, prompt: Prompt, handler: P)
        ensures
            final(self)@ == (RegistryView {
                prompts: old(self)@.prompts.push(prompt),
                prompt_handlers: old(self)@.prompt_handlers.insert(prompt.name@, handler),
                ..old(self)@
            }),
    {
        let name: String = prompt.name.clone();
        self.prompts.push(prompt);
        self.prompt_handlers.insert(name, handler);
    }

    /// The prompts in the order of registration.
    pub fn prompts(&self) -> (out: &[Prompt])
        ensures
            out@ == self@.prompts,
    {
        self.prompts.as_slice()
    }
}

impl<H, P> Default for ToolRegistry<H, P> {
    fn default() -> (out: ToolRegistry<H, P>)
        ensures
            out@ == RegistryView::<H, P>::empty(),
    {
        ToolRegistry::new()
    }
}

impl<H: ToolHandler, P> ToolRegistry<H, P> {
    /// Runs the handler of a tool; `None` where there is no such tool.
    pub fn call(&self, name: &str, args: &Value) -> (out: Option<CallToolResult>)
        ensures
            match out {
                Some(r) => self@.handlers.contains_key(name@) && call_ensures(
                    H::handle,
                    (&self@.handlers[name@], args),
                    r,
                ),
                None => !self@.handlers.contains_key(name@),
            },
    {
        match self.handlers.get(name) {
            Some(h) => Some(h.handle(args)),
            None => None,
        }
    }
}

impl<H, P: PromptHandler> ToolRegistry<H, P> {
    /// Fills in a prompt; `None` where there is no such prompt.
    pub fn get_prompt(&self, name: &str, args: &Value) -> (out: Option<GetPromptResult>)
        ensures
            match out {
                Some(r) => self@.prompt_handlers.contains_key(name@) && call_ensures(
                    P::render,
                    (&self@.prompt_handlers[name@], args),
                    r,
                ),
                None => !self@.prompt_handlers.contains_key(name@),
            },
    {
        match self.prompt_handlers.get(name) {
            Some(h) => Some(h.render(args)),
            None => None,
        }
    }
}

/// Results of a tool may be cached exactly where it was registered as such: the last
/// registration of a name decides, and a name that was never registered may not be.
pub proof fn only_declared_tools_are_cacheable<H, P>(
    r: RegistryView<H, P>,
    name: Seq<char>,
    declared: bool,
    other: Seq<char>,
)
    ensures
        ({
            let next = RegistryView { cacheable: r.cacheable.insert(name, declared), ..r };
            &&& next.caches(name) == declared
            &&& other != name ==> next.caches(other) == r.caches(other)
        }),
        !r.cacheable.contains_key(other) ==> !r.caches(other),
        !RegistryView::<H, P>::empty().caches(other),
{
}

/// A tool that was registered is the last in the list, under its name, with its
/// description and schema; a call of the name runs its handler, and its results may be
/// cached where that was said. Other tools, the resources and the prompts stay.
pub proof fn registered_tools_are_there<H, P>(
    r: &mut ToolRegistry<H, P>,
    name: &str,
    description: &str,
    input_schema: Value,
    cacheable: bool,
    handler: H,
    other: Seq<char>,
)
    requires
        call_ensures(
            ToolRegistry::<H, P>::register,
            (r, name, description, input_schema, cacheable, handler),
            (),
        ),
        other != name@,
    ensures
        final(r)@.tools.len() == old(r)@.tools.len() + 1,
        final(r)@.tools.drop_last() == old(r)@.tools,
        final(r)@.tools.last().name@ == name@,
        final(r)@.tools.last().description matches Some(d) && d@ == description@,
        json::json_of(final(r)@.tools.last().input_schema) == json::json_of(input_schema),
        final(r)@.handlers.contains_key(name@) && final(r)@.handlers[name@] == handler,
        final(r)@.caches(name@) == cacheable,
        final(r)@.handlers.contains_key(other) == old(r)@.handlers.contains_key(other),
        old(r)@.handlers.contains_key(other) ==> final(r)@.handlers[other]
            == old(r)@.handlers[other],
        final(r)@.caches(other) == old(r)@.caches(other),
        final(r)@.resources == old(r)@.resources && final(r)@.contents == old(r)@.contents,
        final(r)@.prompts == old(r)@.prompts && final(r)@.prompt_handlers
            == old(r)@.prompt_handlers,
{
}

/// Whether results may be cached is asked of the registry by the name of the tool.
pub proof fn cacheability_is_told<H, P>(r: ToolRegistry<H, P>, name: &str, out: bool)
    requires
        call_ensures(ToolRegistry::<H, P>::is_cacheable, (&r, name), out),
    ensures
        out <==> r@.cacheable.contains_key(name@) && r@.cacheable[name@],
{
}

/// A resource that was registered is the last in the list and is read as its whole text;
/// the others stay.
pub proof fn registered_resources_are_there<H, P>(
    r: &mut ToolRegistry<H, P>,
    uri: &str,
    name: &str,
    mime: &str,
    text: &str,
    other: Seq<char>,
)
    requires
        call_ensures(ToolRegistry::<H, P>::register_resource, (r, uri, name, mime, text), ()),
        other != uri@,
    ensures
        final(r)@.resources.drop_last() == old(r)@.resources,
        final(r)@.resources.len() == old(r)@.resources.len() + 1,
        final(r)@.resources.last().uri@ == uri@ && final(r)@.resources.last().name@ == name@,
        final(r)@.resources.last().mime_type matches Some(m) && m@ == mime@,
        final(r)@.contents.contains_key(uri@),
        final(r)@.contents[uri@].uri@ == uri@,
        final(r)@.contents[uri@].text matches Some(t) && t@ == text@,
        final(r)@.contents[uri@].mime_type matches Some(m) && m@ == mime@,
        final(r)@.contents[uri@].blob is None,
        final(r)@.contents.contains_key(other) == old(r)@.contents.contains_key(other),
        old(r)@.contents.contains_key(other) ==> final(r)@.contents[other]
            == old(r)@.contents[other],
        final(r)@.handlers == old(r)@.handlers && final(r)@.tools == old(r)@.tools,
{
}

/// A resource that is updated is read as its whole new text and keeps its type; one that
/// there is not is not made. The others stay.
pub proof fn updated_resources_are_read_anew<H, P>(
    r: &mut ToolRegistry<H, P>,
    uri: &str,
    text: &str,
    out: bool,
    other: Seq<char>,
)
    requires
        call_ensures(ToolRegistry::<H, P>::update_resource, (r, uri, text), out),
        other != uri@,
    ensures
        out <==> old(r)@.contents.contains_key(uri@),
        out ==> {
            &&& final(r)@.contents[uri@].text matches Some(t) && t@ == text@
            &&& final(r)@.contents[uri@].uri@ == uri@
            &&& final(r)@.contents[uri@].mime_type is Some <==> old(
                r,
            )@.contents[uri@].mime_type is Some
        },
        final(r)@.contents.contains_key(uri@) == out,
        final(r)@.contents.contains_key(other) == old(r)@.contents.contains_key(other),
        old(r)@.contents.contains_key(other) ==> final(r)@.contents[other]
            == old(r)@.contents[other],
        final(r)@.resources == old(r)@.resources,
{
}

/// A resource is read as it is kept, and nothing is read where there is none; whether
/// there is one is told the same way.
pub proof fn resources_are_read_as_they_are<H, P>(
    r: ToolRegistry<H, P>,
    uri: &str,
    out: Option<&ResourceContents>,
    has: bool,
)
    requires
        call_ensures(ToolRegistry::<H, P>::read_resource, (&r, uri), out),
        call_ensures(ToolRegistry::<H, P>::has_resource, (&r, uri), has),
    ensures
        out is Some <==> r@.contents.contains_key(uri@),
        out matches Some(c) ==> *c == r@.contents[uri@],
        has <==> out is Some,
{
}

/// A prompt that was registered is the last in the list and is filled in by its handler;
/// the others stay.
pub proof fn registered_prompts_are_there<H, P>(
    r: &mut ToolRegistry<H, P>,
    prompt: Prompt,
    handler: P,
    other: Seq<char>,
)
    requires
        call_ensures(ToolRegistry::<H, P>::register_prompt, (r, prompt, handler), ()),
        other != prompt.name@,
    ensures
        final(r)@.prompts == old(r)@.prompts.push(prompt),
        final(r)@.prompt_handlers.contains_key(prompt.name@)
            && final(r)@.prompt_handlers[prompt.name@] == handler,
        final(r)@.prompt_handlers.contains_key(other) == old(r)@.prompt_handlers.contains_key(
            other,
        ),
        old(r)@.prompt_handlers.contains_key(other) ==> final(r)@.prompt_handlers[other]
            == old(r)@.prompt_handlers[other],
{
}

/// A call runs the handler of the tool on the arguments as they are, and a prompt is
/// filled in by its handler; what was not registered gives nothing. A new registry has
/// nothing.
pub proof fn handlers_do_the_work<H: ToolHandler, P: PromptHandler>(
    r: ToolRegistry<H, P>,
    name: &str,
    args: Value,
    ran: Option<CallToolResult>,
    filled: Option<GetPromptResult>,
    empty: ToolRegistry<H, P>,
)
    requires
        call_ensures(ToolRegistry::<H, P>::call, (&r, name, &args), ran),
        call_ensures(ToolRegistry::<H, P>::get_prompt, (&r, name, &args), filled),
        call_ensures(ToolRegistry::<H, P>::new, (), empty),
    ensures
        ran is Some <==> r@.handlers.contains_key(name@),
        ran matches Some(v) ==> call_ensures(H::handle, (&r@.handlers[name@], &args), v),
        filled is Some <==> r@.prompt_handlers.contains_key(name@),
        filled matches Some(v) ==> call_ensures(
            P::render,
            (&r@.prompt_handlers[name@], &args),
            v,
        ),
        empty@.tools.len() == 0 && empty@.resources.len() == 0 && empty@.prompts.len() == 0,
        !empty@.handlers.contains_key(name@) && !empty@.contents.contains_key(name@)
            && !empty@.prompt_handlers.contains_key(name@),
{
}

/// The lists are given as they are, in the order of registration.
pub proof fn lists_are_given_whole<H, P>(
    r: ToolRegistry<H, P>,
    tools: &[Tool],
    resources: &[Resource],
    prompts: &[Prompt],
)
    requires
        call_ensures(ToolRegistry::<H, P>::tools, (&r,), tools),
        call_ensures(ToolRegistry::<H, P>::resources, (&r,), resources),
        call_ensures(ToolRegistry::<H, P>::prompts, (&r,), prompts),
    ensures
        tools@ == r@.tools,
        resources@ == r@.resources,
        prompts@ == r@.prompts,
{
}

} // verus!
