//! The plugin registry: the plugins by name, and the index that routes a
//! path to the plugin whose mount prefix leads it.

use crate::http::{
    bare, Response, ResponseView, CREATED, INTERNAL_SERVER_ERROR, OK, UNPROCESSABLE_ENTITY,
};
use crate::loader::{Capability, LoadError};
use crate::plugin::{plugin_views, Plugin, PluginView};
use crate::routes::RouteIndex;
use crate::table::Table;
use crate::text::{same_text, trim_leading_slashes, without_leading_slashes};
use crate::wire::{encode_plugins, fields_of_all, json_array};
use vstd::prelude::*;

verus! {

/// Whether the first `k` characters of `t` are a whole number of segments:
/// at least one character, and the next one, if there is one, is a slash.
pub open spec fn is_cut(t: Seq<char>, k: int) -> bool {
    0 < k <= t.len() && (k == t.len() || t[k] == '/')
}

/// Keeps the registered plugins, each with its handler, by name, and routes
/// paths to them by prefix.
///
/// A path belongs to the plugin whose prefix is the longest one that leads
/// the path, ends where a segment ends, and is mounted. Registering again
/// under a name replaces the plugin, its handler and its route; registering
/// another name at a prefix takes the prefix over.
#[derive(Debug)]
pub struct PluginRegistry<H> {
    plugins: Table<(Plugin, H)>,
    routes: RouteIndex,
}

impl<H> PluginRegistry<H> {
    /// The registered plugins and their handlers by name.
    pub closed spec fn plugins(&self) -> Map<Seq<char>, (Plugin, H)> {
        self.plugins@
    }

    /// The routing index: the name that each prefix leads to.
    pub closed spec fn routes(&self) -> Map<Seq<char>, Seq<char>> {
        self.routes@
    }

    /// The names of the registered plugins in the order in which they first
    /// came. Each registered name occurs once.
    pub closed spec fn names(&self) -> Seq<Seq<char>> {
        Seq::new(self.plugins.entries().len(), |i: int| self.plugins.entries()[i].0)
    }

    /// The descriptors of the registered plugins, in the order of
    /// [`Self::names`].
    pub open spec fn descriptors(&self) -> Seq<PluginView> {
        Seq::new(self.names().len(), |i: int| self.plugins()[self.names()[i]].0@)
    }

    /// Every plugin is kept under its own name, its prefix is in the routing
    /// index, and the names are those of the registered plugins, each once.
    /// This holds of every registry that a program holds.
    #[verifier::type_invariant]
    pub closed spec fn well_formed(&self) -> bool {
        &&& self.plugins.well_formed()
        &&& forall|n: Seq<char>| #[trigger]
            self.plugins().contains_key(n) ==> self.plugins()[n].0@.name() == n
                && self.routes().contains_key(self.plugins()[n].0@.prefix())
    }

    /// What well-formedness says.
    pub proof fn lemma_well_formed(&self)
        requires
            self.well_formed(),
        ensures
            forall|n: Seq<char>| #[trigger]
                self.plugins().contains_key(n) ==> self.plugins()[n].0@.name() == n
                    && self.routes().contains_key(self.plugins()[n].0@.prefix()),
            forall|i: int|
                0 <= i < self.names().len() ==> self.plugins().contains_key(
                    #[trigger] self.names()[i],
                ),
            forall|i: int, j: int|
                0 <= i < j < self.names().len() ==> self.names()[i] != self.names()[j],
            forall|n: Seq<char>| #[trigger]
                self.plugins().contains_key(n) ==> self.names().contains(n),
    {
        assert forall|i: int| 0 <= i < self.names().len() implies self.plugins().contains_key(
            #[trigger] self.names()[i],
        ) by {
            self.plugins.lemma_entry(i);
        }
        assert forall|n: Seq<char>| #[trigger] self.plugins().contains_key(n) implies self.names().contains(
            n,
        ) by {
            let i = self.plugins.place(n);
            assert(self.names()[i] == n);
        }
    }

    /// Whether this registry is `before` with `plugin` and `handler`
    /// registered: the plugin stands under its name in place of what was
    /// there, its prefix leads to its name, and nothing else has changed.
    pub open spec fn follows(&self, before: Self, plugin: Plugin, handler: H) -> bool {
        &&& self.plugins() == before.plugins().insert(plugin@.name(), (plugin, handler))
        &&& self.routes() == before.routes().insert(plugin@.prefix(), plugin@.name())
        &&& self.names() == if before.plugins().contains_key(plugin@.name()) {
            before.names()
        } else {
            before.names().push(plugin@.name())
        }
    }

    /// Whether this registry is `before` with a plugin of the value `plugin`
    /// registered with `handler`.
    pub open spec fn registered(&self, before: Self, plugin: PluginView, handler: H) -> bool {
        exists|p: Plugin| p@ == plugin && #[trigger] self.follows(before, p, handler)
    }

    /// Whether `prefix` leads to a plugin that is mounted there: the index
    /// names a registered plugin for it, and that plugin's prefix is this one.
    pub open spec fn mounted_at(&self, prefix: Seq<char>) -> bool {
        self.routes().contains_key(prefix) && self.plugins().contains_key(self.routes()[prefix])
            && self.plugins()[self.routes()[prefix]].0@.prefix() == prefix
    }

    /// The length of the longest mounted prefix among the cuts of `t` of at
    /// most `k` characters; 0 where there is none.
    pub open spec fn best_cut(&self, t: Seq<char>, k: int) -> int
        decreases k,
    {
        if k <= 0 {
            0
        } else if is_cut(t, k) && self.mounted_at(t.take(k)) {
            k
        } else {
            self.best_cut(t, k - 1)
        }
    }

    /// The plugin and handler that `path` is routed to. Slashes at the start
    /// of the path do not count.
    pub open spec fn matched(&self, path: Seq<char>) -> Option<(Plugin, H)> {
        let t = without_leading_slashes(path);
        let k = self.best_cut(t, t.len() as int);
        if k > 0 {
            Some(self.plugins()[self.routes()[t.take(k)]])
        } else {
            None
        }
    }

    /// Where the longest mounted cut of `t` ends, it is a cut and is mounted.
    pub proof fn lemma_best_cut(&self, t: Seq<char>, k: int)
        requires
            k <= t.len(),
        ensures
            0 <= self.best_cut(t, k) <= k || (k < 0 && self.best_cut(t, k) == 0),
            self.best_cut(t, k) > 0 ==> is_cut(t, self.best_cut(t, k)) && self.mounted_at(
                t.take(self.best_cut(t, k)),
            ),
            forall|j: int|
                self.best_cut(t, k) < j <= k ==> !(is_cut(t, j) && self.mounted_at(
                    #[trigger] t.take(j),
                )),
        decreases k,
    {
        if k > 0 && !(is_cut(t, k) && self.mounted_at(t.take(k))) {
            self.lemma_best_cut(t, k - 1);
        }
    }

    /// The plugin that a path is routed to is mounted at a prefix that leads
    /// the path, slashes at its start aside.
    pub proof fn lemma_matched(&self, path: Seq<char>)
        ensures
            match self.matched(path) {
                Some(pair) => {
                    let t = without_leading_slashes(path);
                    let p = pair.0@.prefix();
                    &&& is_cut(t, p.len() as int)
                    &&& t.take(p.len() as int) == p
                    &&& self.mounted_at(p)
                    &&& self.plugins()[self.routes()[p]] == pair
                },
                None => true,
            },
    {
        let t = without_leading_slashes(path);
        self.lemma_best_cut(t, t.len() as int);
    }

    /// A path is routed nowhere exactly when no cut of it is a mounted
    /// prefix. A registry without routes routes nothing.
    pub proof fn lemma_unrouted(&self, path: Seq<char>)
        ensures
            self.matched(path).is_none() <==> forall|k: int|
                !(is_cut(without_leading_slashes(path), k) && self.mounted_at(
                    #[trigger] without_leading_slashes(path).take(k),
                )),
            self.routes() == Map::<Seq<char>, Seq<char>>::empty() ==> self.matched(path).is_none(),
    {
        let t = without_leading_slashes(path);
        self.lemma_best_cut(t, t.len() as int);
    }

    /// A plugin that is mounted at its prefix gets every path that is made
    /// of a slash, the prefix and, behind a further slash, anything, unless a
    /// longer mounted prefix leads the path too. (The longest one wins.)
    pub proof fn lemma_routed_by_prefix(&self, prefix: Seq<char>, rest: Seq<char>)
        requires
            self.mounted_at(prefix),
            prefix.len() > 0,
            prefix[0] != '/',
            rest.len() == 0 || rest[0] == '/',
            forall|j: int|
                prefix.len() < j <= (prefix + rest).len() ==> !(is_cut(prefix + rest, j)
                    && self.mounted_at(#[trigger] (prefix + rest).take(j))),
        ensures
            self.matched(seq!['/'] + prefix + rest) == Some(
                self.plugins()[self.routes()[prefix]],
            ),
    {
        let t = prefix + rest;
        let n = t.len() as int;
        let k = prefix.len() as int;
        crate::text::lemma_one_leading_slash(prefix, rest);
        assert(t.take(k) =~= prefix);
        assert(is_cut(t, k)) by {
            if k < n {
                assert(t[k] == rest[0]);
            }
        }
        self.lemma_best_cut(t, n);
        let b = self.best_cut(t, n);
        if b < k {
            assert(is_cut(t, k) && self.mounted_at(t.take(k)));
        }
        if b > k {
            assert(is_cut(t, b) && self.mounted_at(t.take(b)));
        }
        assert(b == k);
    }

    /// Right after a well-formed plugin was registered it is mounted at its
    /// prefix, with the handler it was registered with.
    pub proof fn lemma_registered_is_mounted(&self, before: Self, plugin: Plugin, handler: H)
        requires
            self.follows(before, plugin, handler),
        ensures
            self.mounted_at(plugin@.prefix()),
            self.plugins()[self.routes()[plugin@.prefix()]] == (plugin, handler),
    {
    }

    /// Registering under a name replaces what the name stood for as a whole:
    /// whatever path is routed to that name afterwards gets the new
    /// descriptor with the new handler, and only through the new prefix.
    /// What is routed to any other name is what was registered there before.
    pub proof fn lemma_registration_replaces(
        &self,
        before: Self,
        plugin: Plugin,
        handler: H,
        path: Seq<char>,
    )
        requires
            before.well_formed(),
            self.follows(before, plugin, handler),
        ensures
            match self.matched(path) {
                Some(pair) => if pair.0@.name() == plugin@.name() {
                    pair == (plugin, handler)
                } else {
                    before.plugins().contains_key(pair.0@.name()) && pair
                        == before.plugins()[pair.0@.name()]
                },
                None => true,
            },
    {
        before.lemma_well_formed();
        self.lemma_matched(path);
    }

    /// A registry without plugins.
    pub fn new() -> (r: Self)
        ensures
            r.plugins() == Map::<Seq<char>, (Plugin, H)>::empty(),
            r.routes() == Map::<Seq<char>, Seq<char>>::empty(),
            r.names() == Seq::<Seq<char>>::empty(),
    {
        let r = PluginRegistry { plugins: Table::new(), routes: RouteIndex::new() };
        assert(r.names() =~= Seq::<Seq<char>>::empty());
        r
    }

    /// The plugin mounted at exactly `prefix`, with its handler.
    fn mounted(&self, prefix: &str) -> (r: Option<(&Plugin, &H)>)
        ensures
            match r {
                Some(pair) => self.mounted_at(prefix@) && (*pair.0, *pair.1)
                    == self.plugins()[self.routes()[prefix@]],
                None => !self.mounted_at(prefix@),
            },
    {
        match self.routes.get(prefix) {
            Some(name) => match self.plugins.get(name) {
                Some(entry) => if same_text(entry.0.prefix(), prefix) {
                    Some((&entry.0, &entry.1))
                } else {
                    None
                },
                None => None,
            },
            None => None,
        }
    }

    /// Finds the plugin that `path` is routed to, with its handler.
    pub fn match_plugin_handler(&self, path: &str) -> (r: Option<(&Plugin, &H)>)
        ensures
            match r {
                Some(pair) => self.matched(path@) == Some((*pair.0, *pair.1)),
                None => self.matched(path@).is_none(),
            },
    {
        let t = trim_leading_slashes(path);
        let n: usize = t.unicode_len();
        let mut k: usize = n;
        while k > 0
            invariant
                t@ == without_leading_slashes(path@),
                n == t@.len(),
                k <= n,
                self.best_cut(t@, n as int) == self.best_cut(t@, k as int),
            decreases k,
        {
            if k == n || t.get_char(k) == '/' {
                let found = self.mounted(t.substring_char(0, k));
                if found.is_some() {
                    return found;
                }
            }
            k = k - 1;
        }
        None
    }

    /// Registers `plugin` with its handler under the plugin's name, and
    /// mounts the name at the plugin's prefix.
    pub fn register(&mut self, plugin: Plugin, handler: H)
        ensures
            final(self).follows(*old(self), plugin, handler),
            final(self).registered(*old(self), plugin@, handler),
    {
        proof {
            use_type_invariant(&*self);
        }
        let ghost before = *self;
        let mut taken = PluginRegistry::new();
        std::mem::swap(self, &mut taken);
        let PluginRegistry { plugins: mut plugins, routes: mut routes } = taken;
        let name = String::from_str(plugin.name());
        routes.insert(plugin.prefix(), name.as_str());
        plugins.insert(name.as_str(), (plugin, handler));
        proof {
            if before.plugins.has(name@) {
                assert(Seq::new(
                    plugins.entries().len(),
                    |i: int| plugins.entries()[i].0,
                ) =~= before.names());
            } else {
                assert(Seq::new(
                    plugins.entries().len(),
                    |i: int| plugins.entries()[i].0,
                ) =~= before.names().push(name@));
            }
        }
        proof {
            assert(before.well_formed());
            assert forall|n: Seq<char>| #[trigger] plugins@.contains_key(n) implies plugins@[n].0@.name()
                == n && routes@.contains_key(plugins@[n].0@.prefix()) by {
                if n != name@ {
                    assert(before.plugins().contains_key(n));
                }
            }
        }
        *self = PluginRegistry { plugins, routes };
        assert(self.follows(before, plugin, handler));
    }

    /// The number of registered plugins.
    pub fn len(&self) -> (n: usize)
        ensures
            n == self.names().len(),
    {
        self.plugins.len()
    }

    /// The descriptors of the registered plugins, in the order of
    /// [`Self::names`].
    pub fn plugin_list(&self) -> (list: Vec<Plugin>)
        ensures
            plugin_views(list@) == self.descriptors(),
    {
        proof {
            use_type_invariant(self);
            use_type_invariant(&self.plugins);
        }
        let mut list: Vec<Plugin> = Vec::new();
        let n: usize = self.plugins.len();
        let mut i: usize = 0;
        while i < n
            invariant
                self.plugins.well_formed(),
                n == self.plugins.entries().len(),
                n == self.names().len(),
                i <= n,
                list@.len() == i,
                forall|j: int|
                    0 <= j < i ==> self.plugins().contains_key(#[trigger] self.names()[j])
                        && list@[j]@ == self.plugins()[self.names()[j]].0@,
            decreases n - i,
        {
            let entry = self.plugins.entry(i);
            proof {
                self.plugins.lemma_entry(i as int);
            }
            list.push(entry.1.0.duplicate());
            i = i + 1;
        }
        assert(plugin_views(list@) =~= self.descriptors());
        list
    }
}

/// The value of the descriptor under which a registry serves itself: the
/// built-in plugin `registry`, mounted at `_plugins`.
pub open spec fn endpoint_descriptor() -> PluginView {
    PluginView::BuiltIn { name: "registry"@, prefix: Some("_plugins"@) }
}

/// The answer to a request for the list of plugins: the JSON text where it
/// could be written, a bare 500 where it could not.
pub open spec fn list_answer(written: Option<Seq<u8>>) -> ResponseView {
    match written {
        Some(text) => ResponseView { body: text, ..bare(OK) },
        None => bare(INTERNAL_SERVER_ERROR),
    }
}

impl<H> PluginRegistry<Capability<H>> {
    /// The descriptor and the capability with which a registry is itself
    /// registered as a plugin.
    pub fn as_handler() -> (r: (Plugin, Capability<H>))
        ensures
            r.0@ == endpoint_descriptor(),
            r.1 == Capability::<H>::Registry,
    {
        (Plugin::from(("registry", "_plugins")), Capability::Registry)
    }

    /// Answers a request for the list of registered plugins.
    pub fn listing(&self) -> (r: Response)
        ensures
            r@ == list_answer(json_array(fields_of_all(self.descriptors()))),
    {
        let list = self.plugin_list();
        match encode_plugins(&list) {
            Some(text) => {
                let mut r = Response::new(OK);
                r.set_body(text);
                r
            },
            None => Response::new(INTERNAL_SERVER_ERROR),
        }
    }

    /// Ends a registration once the loader has answered: a handler is
    /// registered with the plugin and the answer is a bare 201; an error
    /// leaves the registry as it was and the answer is a bare 422.
    pub fn conclude(&mut self, plugin: Plugin, outcome: Result<H, LoadError>) -> (r: Response)
        ensures
            match outcome {
                Ok(handler) => r@ == bare(CREATED) && final(self).follows(
                    *old(self),
                    plugin,
                    Capability::Plugin(handler),
                ),
                Err(_) => r@ == bare(UNPROCESSABLE_ENTITY) && *final(self) == *old(self),
            },
    {
        match outcome {
            Ok(handler) => {
                self.register(plugin, Capability::Plugin(handler));
                Response::new(CREATED)
            },
            Err(_) => Response::new(UNPROCESSABLE_ENTITY),
        }
    }
}

} // verus!
