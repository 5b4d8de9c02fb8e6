//! Plugin descriptors: what a plugin is called, where it comes from and
//! where it is mounted.

use crate::text::{trim, trimmed};
use vstd::prelude::*;

verus! {

/// Describes a plugin. A descriptor is plain data and is not changed once it
/// has been made.
#[derive(Debug)]
pub enum Plugin {
    /// A plugin that the host itself supplies.
    BuiltIn { name: String, prefix: Option<String> },
    /// A plugin in a dynamic library. The library is found at `path`, or at
    /// `name` where no path is given.
    Native { name: String, path: Option<String>, prefix: Option<String> },
    /// A plugin run by a web worker or a WASM module fetched from `url`.
    Web { name: String, url: String, prefix: Option<String> },
    /// A placeholder that stands for no real plugin.
    Dummy,
}

/// The mathematical value of a [`Plugin`].
pub enum PluginView {
    BuiltIn { name: Seq<char>, prefix: Option<Seq<char>> },
    Native { name: Seq<char>, path: Option<Seq<char>>, prefix: Option<Seq<char>> },
    Web { name: Seq<char>, url: Seq<char>, prefix: Option<Seq<char>> },
    Dummy,
}

/// Whether `text` is an absolute URL, as `url::Url::parse` reads it.
pub uninterp spec fn url_parses(text: Seq<char>) -> bool;

/// `Url::parse` of the `url` crate, under the name that `http_types` gives
/// it: whether the text parses as an absolute URL. The answer is a function
/// of the text alone and is called [`url_parses`]. The URL itself is dropped.
#[verifier::external_body]
pub(crate) fn is_url(text: &str) -> (r: bool)
    ensures
        r == url_parses(text@),
{
    http_types::Url::parse(text).is_ok()
}

/// The view of an optional string.
pub open spec fn text_of(s: Option<String>) -> Option<Seq<char>> {
    match s {
        Some(t) => Some(t@),
        None => None,
    }
}

impl PluginView {
    /// The plugin's name. The placeholder is called `dummy`.
    pub open spec fn name(self) -> Seq<char> {
        match self {
            PluginView::BuiltIn { name, .. } => name,
            PluginView::Native { name, .. } => name,
            PluginView::Web { name, .. } => name,
            PluginView::Dummy => "dummy"@,
        }
    }

    /// The mount point as it was written, if one was given.
    pub open spec fn prefix_override(self) -> Option<Seq<char>> {
        match self {
            PluginView::BuiltIn { prefix, .. } => prefix,
            PluginView::Native { prefix, .. } => prefix,
            PluginView::Web { prefix, .. } => prefix,
            PluginView::Dummy => None,
        }
    }

    /// The mount point: the override where it is given and holds more than
    /// slashes and white space, else the name; in both cases without the
    /// slashes and the white space at its ends.
    pub open spec fn prefix(self) -> Seq<char> {
        match self.prefix_override() {
            Some(p) => if trimmed(p).len() > 0 {
                trimmed(p)
            } else {
                trimmed(self.name())
            },
            None => trimmed(self.name()),
        }
    }

    /// A descriptor is well formed when its name holds more than slashes and
    /// white space. The mount point of such a descriptor is never empty.
    pub open spec fn well_formed(self) -> bool {
        trimmed(self.name()).len() > 0
    }
}

impl PluginView {
    /// The mount point of a well-formed descriptor is not empty, and neither
    /// begins nor ends with a slash or white space.
    pub proof fn lemma_prefix_trimmed(self)
        requires
            self.well_formed(),
        ensures
            self.prefix().len() > 0,
            !crate::text::is_pad(self.prefix()[0]),
            !crate::text::is_pad(self.prefix().last()),
    {
        crate::text::lemma_trimmed_ends(self.name());
        if let Some(p) = self.prefix_override() {
            crate::text::lemma_trimmed_ends(p);
        }
    }
}

impl View for Plugin {
    type V = PluginView;

    open spec fn view(&self) -> PluginView {
        match *self {
            Plugin::BuiltIn { name, prefix } => PluginView::BuiltIn {
                name: name@,
                prefix: text_of(prefix),
            },
            Plugin::Native { name, path, prefix } => PluginView::Native {
                name: name@,
                path: text_of(path),
                prefix: text_of(prefix),
            },
            Plugin::Web { name, url, prefix } => PluginView::Web {
                name: name@,
                url: url@,
                prefix: text_of(prefix),
            },
            Plugin::Dummy => PluginView::Dummy,
        }
    }
}

/// A copy of an optional string.
pub fn copy_text(s: &Option<String>) -> (r: Option<String>)
    ensures
        text_of(r) == text_of(*s),
{
    match s {
        Some(t) => Some(t.clone()),
        None => None,
    }
}

impl Plugin {
    /// A web plugin called `name` whose script is at `url`, mounted at
    /// `prefix` where one is given; none where `url` is no absolute URL.
    pub fn web(name: &str, url: &str, prefix: Option<&str>) -> (r: Option<Plugin>)
        ensures
            r is Some <==> url_parses(url@),
            match r {
                Some(plugin) => plugin@ == (PluginView::Web {
                    name: name@,
                    url: url@,
                    prefix: match prefix {
                        Some(p) => Some(p@),
                        None => None,
                    },
                }),
                None => true,
            },
    {
        if is_url(url) {
            let prefix = match prefix {
                Some(p) => Some(String::from_str(p)),
                None => None,
            };
            Some(Plugin::Web { name: String::from_str(name), url: String::from_str(url), prefix })
        } else {
            None
        }
    }

    /// The plugin's name.
    pub fn name(&self) -> (r: &str)
        ensures
            r@ == self@.name(),
    {
        match self {
            Plugin::BuiltIn { name, .. } => name.as_str(),
            Plugin::Native { name, .. } => name.as_str(),
            Plugin::Web { name, .. } => name.as_str(),
            Plugin::Dummy => "dummy",
        }
    }

    /// The URL prefix under which the plugin is mounted.
    pub fn prefix(&self) -> (r: &str)
        ensures
            r@ == self@.prefix(),
            self@.well_formed() ==> r@.len() > 0,
    {
        let given: &Option<String> = match self {
            Plugin::BuiltIn { prefix, .. } => prefix,
            Plugin::Native { prefix, .. } => prefix,
            Plugin::Web { prefix, .. } => prefix,
            Plugin::Dummy => &None,
        };
        match given {
            Some(p) => {
                let own = trim(p.as_str());
                if own.unicode_len() > 0 {
                    own
                } else {
                    trim(self.name())
                }
            },
            None => trim(self.name()),
        }
    }

    /// A copy of the descriptor.
    pub fn duplicate(&self) -> (r: Plugin)
        ensures
            r@ == self@,
    {
        match self {
            Plugin::BuiltIn { name, prefix } => Plugin::BuiltIn {
                name: name.clone(),
                prefix: copy_text(prefix),
            },
            Plugin::Native { name, path, prefix } => Plugin::Native {
                name: name.clone(),
                path: copy_text(path),
                prefix: copy_text(prefix),
            },
            Plugin::Web { name, url, prefix } => Plugin::Web {
                name: name.clone(),
                url: url.clone(),
                prefix: copy_text(prefix),
            },
            Plugin::Dummy => Plugin::Dummy,
        }
    }
}

/// Whether two optional strings hold the same text, or both none.
pub fn same_optional(a: &Option<String>, b: &Option<String>) -> (r: bool)
    ensures
        r == (text_of(*a) == text_of(*b)),
{
    match (a, b) {
        (Some(x), Some(y)) => *x == *y,
        (None, None) => true,
        _ => false,
    }
}

/// Two descriptors are equal when they are of one variant and hold the same
/// texts.
impl PartialEq for Plugin {
    fn eq(&self, other: &Plugin) -> (r: bool) {
        match (self, other) {
            (Plugin::BuiltIn { name: a, prefix: p }, Plugin::BuiltIn { name: b, prefix: q }) => *a
                == *b && same_optional(p, q),
            (
                Plugin::Native { name: a, path: f, prefix: p },
                Plugin::Native { name: b, path: g, prefix: q },
            ) => *a == *b && same_optional(f, g) && same_optional(p, q),
            (
                Plugin::Web { name: a, url: u, prefix: p },
                Plugin::Web { name: b, url: v, prefix: q },
            ) => *a == *b && *u == *v && same_optional(p, q),
            (Plugin::Dummy, Plugin::Dummy) => true,
            _ => false,
        }
    }
}

impl Eq for Plugin {

}

impl vstd::std_specs::cmp::PartialEqSpecImpl for Plugin {
    open spec fn obeys_eq_spec() -> bool {
        true
    }

    open spec fn eq_spec(&self, other: &Plugin) -> bool {
        self@ == other@
    }
}

impl Clone for Plugin {
    fn clone(&self) -> (r: Plugin)
        ensures
            r@ == self@,
    {
        self.duplicate()
    }
}

/// The mount point that a bare name stands for: the name with an underscore
/// before it.
pub open spec fn underscored(name: Seq<char>) -> Seq<char> {
    seq!['_'] + name
}

/// A built-in plugin called `name`, mounted at [`underscored`] of the name.
impl From<&str> for Plugin {
    fn from(name: &str) -> (r: Plugin)
        ensures
            r@ == (PluginView::BuiltIn { name: name@, prefix: Some(underscored(name@)) }),
    {
        proof {
            reveal_strlit("_");
            assert("_"@ =~= seq!['_']);
        }
        Plugin::BuiltIn {
            name: String::from_str(name),
            prefix: Some(String::from_str("_").concat(name)),
        }
    }
}

/// What `from` returns is stated over views in its own contract; no value of
/// the type can be written down in a specification.
impl vstd::std_specs::convert::FromSpecImpl<&str> for Plugin {
    open spec fn obeys_from_spec() -> bool {
        false
    }

    open spec fn from_spec(name: &str) -> Plugin {
        Plugin::Dummy
    }
}

/// A built-in plugin from its name and its mount point.
impl From<(&str, &str)> for Plugin {
    fn from(pair: (&str, &str)) -> (r: Plugin)
        ensures
            r@ == (PluginView::BuiltIn { name: pair.0@, prefix: Some(pair.1@) }),
    {
        Plugin::BuiltIn { name: String::from_str(pair.0), prefix: Some(String::from_str(pair.1)) }
    }
}

impl vstd::std_specs::convert::FromSpecImpl<(&str, &str)> for Plugin {
    open spec fn obeys_from_spec() -> bool {
        false
    }

    open spec fn from_spec(pair: (&str, &str)) -> Plugin {
        Plugin::Dummy
    }
}

/// The views of a list of descriptors.
pub open spec fn plugin_views(list: Seq<Plugin>) -> Seq<PluginView> {
    Seq::new(list.len(), |i: int| list[i]@)
}

} // verus!
