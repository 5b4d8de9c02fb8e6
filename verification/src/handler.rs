//! The dispatcher: the entry point that answers a request from the plugin
//! mounted at the start of its path.

use crate::http::{
    bare, Method, Request, RequestView, Response, ResponseView, BAD_REQUEST, CREATED,
    METHOD_NOT_ALLOWED, NOT_FOUND, OK, UNPROCESSABLE_ENTITY,
};
use crate::loader::{Capability, LoadError, Loader, RequestHandler};
use crate::plugin::{Plugin, PluginView};
use crate::registry::{list_answer, PluginRegistry};
use crate::text::{trim_leading_slashes, without_leading_slashes};
use crate::wire::{decode_plugin, decoded, fields_of_all, json_array};
use vstd::prelude::*;
use vstd::string::StringSliceAdditionalSpecFns;

verus! {

/// The identifier that the request carries in `x-request-id`, if it has one.
pub open spec fn request_id(request: RequestView) -> Option<Seq<char>> {
    if request.headers.contains_key("x-request-id"@) {
        Some(request.headers["x-request-id"@])
    } else {
        None
    }
}

/// The answer to a request without an identifier.
pub open spec fn missing_id() -> ResponseView {
    ResponseView { body: "Missing request ID".spec_bytes(), ..bare(BAD_REQUEST) }
}

/// The answer to a request whose path no plugin is mounted at. It carries
/// the request's identifier.
pub open spec fn not_found(id: Seq<char>) -> ResponseView {
    ResponseView {
        headers: Map::<Seq<char>, Seq<char>>::empty().insert("x-correlation-id"@, id),
        ..bare(NOT_FOUND)
    }
}

/// The path that a plugin mounted at `prefix` is handed for `path`: what
/// follows the prefix, and the root where nothing follows.
pub open spec fn rewritten(path: Seq<char>, prefix: Seq<char>) -> Seq<char> {
    let t = without_leading_slashes(path);
    if prefix.len() < t.len() {
        t.skip(prefix.len() as int)
    } else {
        seq!['/']
    }
}

/// The request that a plugin mounted at `prefix` is handed.
pub open spec fn forwarded(request: RequestView, prefix: Seq<char>) -> RequestView {
    RequestView { path: rewritten(request.path, prefix), ..request }
}

/// A plugin's answer with the two headers of the dispatcher set: the
/// request's identifier and the plugin's name, in place of whatever the
/// plugin had put under these names.
pub open spec fn stamped(raw: ResponseView, id: Seq<char>, name: Seq<char>) -> ResponseView {
    ResponseView {
        headers: raw.headers.insert("x-correlation-id"@, id).insert("x-valor-plugin"@, name),
        ..raw
    }
}

/// The names of the three headers that the dispatcher reads and sets are in
/// lower case.
pub proof fn lemma_names_are_lower()
    ensures
        crate::text::lowered("x-request-id"@) == "x-request-id"@,
        crate::text::lowered("x-correlation-id"@) == "x-correlation-id"@,
        crate::text::lowered("x-valor-plugin"@) == "x-valor-plugin"@,
{
    reveal_strlit("x-request-id");
    reveal_strlit("x-correlation-id");
    reveal_strlit("x-valor-plugin");
    crate::text::lemma_lowered_same("x-request-id"@);
    crate::text::lemma_lowered_same("x-correlation-id"@);
    crate::text::lemma_lowered_same("x-valor-plugin"@);
}

/// The names of the dispatcher's headers differ, so a stamped answer carries
/// the request's identifier and the plugin's name both, whatever the plugin
/// had set under these names; its status and body are the plugin's.
pub proof fn lemma_stamped(raw: ResponseView, id: Seq<char>, name: Seq<char>)
    ensures
        stamped(raw, id, name).headers.contains_key("x-valor-plugin"@),
        stamped(raw, id, name).headers["x-valor-plugin"@] == name,
        stamped(raw, id, name).headers.contains_key("x-correlation-id"@),
        stamped(raw, id, name).headers["x-correlation-id"@] == id,
        stamped(raw, id, name).status == raw.status,
        stamped(raw, id, name).body == raw.body,
{
    reveal_strlit("x-valor-plugin");
    reveal_strlit("x-correlation-id");
    assert("x-valor-plugin"@.len() != "x-correlation-id"@.len());
}

/// A request to a slash, the prefix, and a rest that is empty or begins
/// with a slash, is handed on with the rest as its path, and with the root
/// where the rest is empty.
pub proof fn lemma_rewritten(prefix: Seq<char>, rest: Seq<char>)
    requires
        prefix.len() > 0,
        prefix[0] != '/',
    ensures
        rewritten(seq!['/'] + prefix + rest, prefix) == if rest.len() == 0 {
            seq!['/']
        } else {
            rest
        },
{
    crate::text::lemma_one_leading_slash(prefix, rest);
    assert((prefix + rest).skip(prefix.len() as int) =~= rest);
}

/// A registered plugin with a well-formed descriptor, whose prefix `p` still
/// leads to its name, is routed every path `/p` and `/p/...` and is handed
/// the root for the first and `/...` for the second, unless a longer
/// mounted prefix leads the path too.
pub proof fn lemma_plugin_is_routed<H>(
    registry: PluginRegistry<H>,
    name: Seq<char>,
    rest: Seq<char>,
)
    requires
        registry.well_formed(),
        registry.plugins().contains_key(name),
        registry.plugins()[name].0@.well_formed(),
        registry.routes()[registry.plugins()[name].0@.prefix()] == name,
        rest.len() == 0 || rest[0] == '/',
        forall|j: int|
            registry.plugins()[name].0@.prefix().len() < j <= (
            registry.plugins()[name].0@.prefix() + rest).len() ==> !(crate::registry::is_cut(
                registry.plugins()[name].0@.prefix() + rest,
                j,
            ) && registry.mounted_at(
                #[trigger] (registry.plugins()[name].0@.prefix() + rest).take(j),
            )),
    ensures
        registry.matched(seq!['/'] + registry.plugins()[name].0@.prefix() + rest) == Some(
            registry.plugins()[name],
        ),
        rewritten(
            seq!['/'] + registry.plugins()[name].0@.prefix() + rest,
            registry.plugins()[name].0@.prefix(),
        ) == if rest.len() == 0 {
            seq!['/']
        } else {
            rest
        },
{
    let prefix = registry.plugins()[name].0@.prefix();
    registry.lemma_well_formed();
    registry.plugins()[name].0@.lemma_prefix_trimmed();
    registry.lemma_routed_by_prefix(prefix, rest);
    lemma_rewritten(prefix, rest);
}

/// The answer to a request without an identifier has status 400, and the
/// answer to an unrouted one has status 404 and carries the identifier.
pub proof fn lemma_refusals(id: Seq<char>)
    ensures
        missing_id().status == 400,
        not_found(id).status == 404,
        not_found(id).headers.contains_key("x-correlation-id"@),
        not_found(id).headers["x-correlation-id"@] == id,
{
}

/// The identifier of `request`, or the answer to give where it has none.
pub fn read_request_id(request: &Request) -> (r: Result<String, Response>)
    ensures
        match r {
            Ok(id) => request_id(request@) == Some(id@),
            Err(response) => request_id(request@).is_none() && response@ == missing_id(),
        },
{
    proof {
        lemma_names_are_lower();
    }
    match request.header("x-request-id") {
        Some(id) => Ok(String::from_str(id)),
        None => Err(Response::with_message(BAD_REQUEST, "Missing request ID")),
    }
}

/// The answer to a request that no plugin is mounted for.
pub fn answer_not_found(id: &str) -> (r: Response)
    ensures
        r@ == not_found(id@),
{
    proof {
        lemma_names_are_lower();
    }
    let mut r = Response::new(NOT_FOUND);
    r.insert_header("x-correlation-id", id);
    r
}

/// Rewrites the path of `request` for the plugin mounted at `prefix`.
pub fn forward(request: Request, prefix: &str) -> (r: Request)
    ensures
        r@ == forwarded(request@, prefix@),
{
    let mut request = request;
    let rest = {
        let t = trim_leading_slashes(request.path());
        let k = prefix.unicode_len();
        let n = t.unicode_len();
        if k < n {
            proof {
                assert(t@.skip(k as int) =~= t@.subrange(k as int, n as int));
            }
            String::from_str(t.substring_char(k, n))
        } else {
            proof {
                reveal_strlit("/");
                assert("/"@ =~= seq!['/']);
            }
            String::from_str("/")
        }
    };
    request.set_path(rest.as_str());
    request
}

/// Sets the dispatcher's two headers on a plugin's answer.
pub fn decorate(raw: Response, id: &str, name: &str) -> (r: Response)
    ensures
        r@ == stamped(raw@, id@, name@),
{
    proof {
        lemma_names_are_lower();
    }
    let mut r = raw;
    r.insert_header("x-correlation-id", id);
    r.insert_header("x-valor-plugin", name);
    r
}

/// What is to be done with a request that was routed to a plugin.
#[derive(Debug)]
pub enum Turn<'a, H> {
    /// Give this answer.
    Answer(Response),
    /// Hand the request to this handler, and give its answer.
    Call(&'a H),
    /// Serve the request at the registry endpoint.
    Endpoint,
}

/// What is to be done with a request at the registry endpoint.
#[derive(Debug)]
pub enum EndpointStep {
    /// Answer with the list of plugins.
    List,
    /// Load this plugin, register it, and answer with what came of it.
    Load(Plugin),
    /// Answer with a bare response of this status.
    Refuse(u16),
}

/// What the capability of a routed plugin asks for: the health check is
/// answered with a bare 200, a handler is called, and the registry endpoint
/// is served.
pub fn turn<H>(capability: &Capability<H>) -> (t: Turn<'_, H>)
    ensures
        match *capability {
            Capability::Health => match t {
                Turn::Answer(response) => response@ == bare(OK),
                _ => false,
            },
            Capability::Plugin(handler) => match t {
                Turn::Call(called) => *called == handler,
                _ => false,
            },
            Capability::Registry => t is Endpoint,
        },
{
    match capability {
        Capability::Health => Turn::Answer(Response::new(OK)),
        Capability::Plugin(handler) => Turn::Call(handler),
        Capability::Registry => Turn::Endpoint,
    }
}

/// What the registry endpoint does for a method and a body: a `GET` lists,
/// a `POST` loads the plugin that the body describes and is refused with
/// 400 where the body describes none, and any other method is refused with
/// 405.
pub fn endpoint_step(method: Method, body: &[u8]) -> (step: EndpointStep)
    ensures
        match method {
            Method::Get => step is List,
            Method::Post => match decoded(body@) {
                Some(described) => match step {
                    EndpointStep::Load(plugin) => plugin@ == described,
                    _ => false,
                },
                None => step == EndpointStep::Refuse(BAD_REQUEST),
            },
            _ => step == EndpointStep::Refuse(METHOD_NOT_ALLOWED),
        },
{
    match method {
        Method::Get => EndpointStep::List,
        Method::Post => match decode_plugin(body) {
            Some(plugin) => EndpointStep::Load(plugin),
            None => EndpointStep::Refuse(BAD_REQUEST),
        },
        _ => EndpointStep::Refuse(METHOD_NOT_ALLOWED),
    }
}

/// What became of a routed request: it was answered, or it waits for the
/// registry endpoint, which is served once the registry is no longer
/// borrowed.
enum Pending {
    Answered(Response),
    Endpoint(Request),
}

/// Dispatches requests to the plugins of a registry, and loads plugins with
/// a loader.
pub struct Handler<L: Loader> {
    registry: PluginRegistry<Capability<L::Handler>>,
    loader: L,
}

impl<L: Loader> Handler<L> {
    /// The registry of plugins.
    pub closed spec fn registry(&self) -> PluginRegistry<Capability<L::Handler>> {
        self.registry
    }

    /// The loader.
    pub closed spec fn loader(&self) -> L {
        self.loader
    }

    /// Whether `after` and `raw` are what the registry endpoint may leave
    /// and answer for `request`, starting from `before`.
    ///
    /// A `GET` is answered with the list of descriptors and changes nothing.
    /// A `POST` whose body is no descriptor is answered with a bare 400; one
    /// whose body is a descriptor is answered with a bare 201 once the
    /// loader gave a handler, which is then registered, and with a bare 422
    /// where the loader failed. Any other method is answered with a bare 405.
    pub open spec fn endpoint_served(
        before: Self,
        after: Self,
        request: RequestView,
        raw: ResponseView,
    ) -> bool {
        match request.method {
            Method::Get => raw == list_answer(
                json_array(fields_of_all(before.registry().descriptors())),
            ) && after.registry() == before.registry(),
            Method::Post => match decoded(request.body) {
                None => raw == bare(BAD_REQUEST) && after.registry() == before.registry(),
                Some(plugin) => exists|outcome: Result<L::Handler, LoadError>|
                    Self::loaded(before, after, plugin, outcome, raw),
            },
            _ => raw == bare(METHOD_NOT_ALLOWED) && after.registry() == before.registry(),
        }
    }

    /// Whether `outcome` is what the loader may give for `plugin`, and
    /// `after` and `raw` are what follows from it.
    pub open spec fn loaded(
        before: Self,
        after: Self,
        plugin: PluginView,
        outcome: Result<L::Handler, LoadError>,
        raw: ResponseView,
    ) -> bool {
        before.loader().loads(plugin, outcome) && match outcome {
            Ok(handler) => raw == bare(CREATED) && after.registry().registered(
                before.registry(),
                plugin,
                Capability::Plugin(handler),
            ),
            Err(_) => raw == bare(UNPROCESSABLE_ENTITY) && after.registry() == before.registry(),
        }
    }

    /// Whether `after` and `raw` are what the capability `capability` may
    /// leave and answer for `request`, starting from `before`.
    pub open spec fn served(
        before: Self,
        after: Self,
        capability: Capability<L::Handler>,
        request: RequestView,
        raw: ResponseView,
    ) -> bool {
        match capability {
            Capability::Health => raw == bare(OK) && after.registry() == before.registry(),
            Capability::Plugin(handler) => handler.answers(request, raw) && after.registry()
                == before.registry(),
            Capability::Registry => Self::endpoint_served(before, after, request, raw),
        }
    }

    /// A handler with an empty registry.
    pub fn new(loader: L) -> (h: Self)
        ensures
            h.loader() == loader,
            h.registry().plugins() == Map::<Seq<char>, (Plugin, Capability<L::Handler>)>::empty(),
            h.registry().routes() == Map::<Seq<char>, Seq<char>>::empty(),
            h.registry().names() == Seq::<Seq<char>>::empty(),
    {
        Handler { registry: PluginRegistry::new(), loader }
    }

    /// Loads `plugin` with the loader and registers it with the handler
    /// that the loader made. Where the loader fails, nothing is registered.
    pub fn load_plugin(&mut self, plugin: Plugin) -> (r: Result<(), LoadError>)
        ensures
            final(self).loader() == old(self).loader(),
            match r {
                Ok(_) => exists|handler: L::Handler|
                    old(self).loader().loads(plugin@, Ok(handler)) && #[trigger] final(self)
                        .registry().follows(
                        old(self).registry(),
                        plugin,
                        Capability::Plugin(handler),
                    ),
                Err(e) => old(self).loader().loads(plugin@, Err(e)) && final(self).registry()
                    == old(self).registry(),
            },
    {
        match self.loader.load(&plugin) {
            Ok(handler) => {
                let ghost made = handler;
                let ghost described = plugin;
                self.registry.register(plugin, Capability::Plugin(handler));
                assert(self.registry().follows(
                    old(self).registry(),
                    described,
                    Capability::Plugin(made),
                ));
                Ok(())
            },
            Err(e) => Err(e),
        }
    }

    /// Mounts the registry itself as a plugin, so that plugins can be
    /// listed and added through requests.
    pub fn with_registry(self) -> (h: Self)
        ensures
            h.loader() == self.loader(),
            h.registry().registered(
                self.registry(),
                crate::registry::endpoint_descriptor(),
                Capability::Registry,
            ),
    {
        let mut h = self;
        let (plugin, capability) = PluginRegistry::as_handler();
        h.registry.register(plugin, capability);
        h
    }

    /// Mounts the built-in plugin `health` at `_health`. It answers with a
    /// bare 200.
    pub fn with_health(self) -> (h: Self)
        ensures
            h.loader() == self.loader(),
            h.registry().registered(
                self.registry(),
                PluginView::BuiltIn {
                    name: "health"@,
                    prefix: Some(crate::plugin::underscored("health"@)),
                },
                Capability::Health,
            ),
    {
        let mut h = self;
        h.registry.register(Plugin::from("health"), Capability::Health);
        h
    }

    /// Registers the plugin that `plugin` converts into, with `handler`.
    pub fn with_plugin<P: Into<Plugin>>(self, plugin: P, handler: L::Handler) -> (h: Self)
        ensures
            h.loader() == self.loader(),
            exists|p: Plugin|
                call_ensures(<P as Into<Plugin>>::into, (plugin,), p) && #[trigger] h.registry().follows(
                    self.registry(),
                    p,
                    Capability::Plugin(handler),
                ),
    {
        let mut h = self;
        h.register_plugin(plugin, handler);
        h
    }

    /// Registers the plugin that `plugin` converts into, with `handler`, in
    /// place.
    pub fn register_plugin<P: Into<Plugin>>(&mut self, plugin: P, handler: L::Handler)
        ensures
            final(self).loader() == old(self).loader(),
            exists|p: Plugin|
                call_ensures(<P as Into<Plugin>>::into, (plugin,), p) && #[trigger] final(self)
                    .registry().follows(old(self).registry(), p, Capability::Plugin(handler)),
    {
        let plugin: Plugin = plugin.into();
        let ghost described = plugin;
        self.registry.register(plugin, Capability::Plugin(handler));
        assert(self.registry().follows(
            old(self).registry(),
            described,
            Capability::Plugin(handler),
        ));
    }

    /// Serves a request that was routed to the registry endpoint.
    pub fn serve_registry(&mut self, request: &Request) -> (raw: Response)
        ensures
            final(self).loader() == old(self).loader(),
            Self::endpoint_served(*old(self), *final(self), request@, raw@),
    {
        match endpoint_step(request.method(), request.body().as_slice()) {
            EndpointStep::List => self.registry.listing(),
            EndpointStep::Load(plugin) => {
                let outcome = self.loader.load(&plugin);
                let ghost given = outcome;
                let ghost described = plugin;
                let raw = self.registry.conclude(plugin, outcome);
                proof {
                    if let Ok(handler) = given {
                        assert(self.registry.follows(
                            old(self).registry,
                            described,
                            Capability::Plugin(handler),
                        ));
                    }
                    assert(Self::loaded(*old(self), *self, described@, given, raw@));
                }
                raw
            },
            EndpointStep::Refuse(status) => Response::new(status),
        }
    }

    /// Answers `request` from the plugin that its path is routed to.
    ///
    /// A request without `x-request-id` is refused with 400 before anything
    /// is looked up. A path that no plugin is mounted for gives 404 with the
    /// identifier in `x-correlation-id`. Otherwise the plugin is handed the
    /// request with the prefix cut from its path, and its answer is returned
    /// with `x-correlation-id` and `x-valor-plugin` set.
    pub fn handle_request(&mut self, request: Request) -> (r: Result<Response, Response>)
        ensures
            final(self).loader() == old(self).loader(),
            match request_id(request@) {
                None => final(self).registry() == old(self).registry() && match r {
                    Err(response) => response@ == missing_id(),
                    Ok(_) => false,
                },
                Some(id) => match old(self).registry().matched(request@.path) {
                    None => final(self).registry() == old(self).registry() && match r {
                        Err(response) => response@ == not_found(id),
                        Ok(_) => false,
                    },
                    Some(pair) => match r {
                        Ok(response) => exists|raw: ResponseView| #[trigger]
                            Self::served(
                                *old(self),
                                *final(self),
                                pair.1,
                                forwarded(request@, pair.0@.prefix()),
                                raw,
                            ) && response@ == stamped(raw, id, pair.0@.name()),
                        Err(_) => false,
                    },
                },
            },
    {
        let id = match read_request_id(&request) {
            Ok(id) => id,
            Err(response) => {
                return Err(response);
            },
        };
        let name: String;
        let pending: Pending;
        let ghost capability: Capability<L::Handler>;
        let ghost prefix: Seq<char>;
        match self.registry.match_plugin_handler(request.path()) {
            None => {
                return Err(answer_not_found(id.as_str()));
            },
            Some(pair) => {
                proof {
                    capability = *pair.1;
                    prefix = pair.0@.prefix();
                }
                name = String::from_str(pair.0.name());
                let inner = forward(request, pair.0.prefix());
                pending = match turn(pair.1) {
                    Turn::Answer(response) => Pending::Answered(response),
                    Turn::Call(handler) => Pending::Answered(handler.handle_request(inner)),
                    Turn::Endpoint => Pending::Endpoint(inner),
                };
            },
        }
        let raw = match pending {
            Pending::Answered(raw) => raw,
            Pending::Endpoint(inner) => self.serve_registry(&inner),
        };
        proof {
            assert(Self::served(
                *old(self),
                *self,
                capability,
                forwarded(request@, prefix),
                raw@,
            ));
        }
        Ok(decorate(raw, id.as_str(), name.as_str()))
    }
}

} // verus!
