//! The wire shape of plugin descriptors: a JSON object tagged by `type`, with
//! snake-case member names, and a JSON array of such objects for a list.
//!
//! Reading and writing JSON text is `serde_json`'s work; which members make
//! which descriptor is decided here.

use crate::plugin::{is_url, plugin_views, url_parses, Plugin, PluginView};
use crate::text::same_text;
use vstd::prelude::*;

verus! {

/// What a member of a JSON object holds, as far as descriptors care.
#[derive(Debug)]
pub enum Member {
    /// `null`.
    Null,
    /// A string.
    Text(String),
    /// A boolean, a number, an array or an object.
    Other,
}

/// The mathematical value of a [`Member`].
pub enum MemberView {
    Null,
    Text(Seq<char>),
    Other,
}

impl View for Member {
    type V = MemberView;

    open spec fn view(&self) -> MemberView {
        match *self {
            Member::Null => MemberView::Null,
            Member::Text(s) => MemberView::Text(s@),
            Member::Other => MemberView::Other,
        }
    }
}

/// The members of the JSON object that `body` holds, in the order in which
/// `serde_json` hands them out; `None` where `body` is not the text of one
/// JSON object.
pub uninterp spec fn json_object(body: Seq<u8>) -> Option<Seq<(Seq<char>, MemberView)>>;

/// The JSON text of an array of objects whose members are all strings, as
/// `serde_json` writes it; `None` where it refuses to.
pub uninterp spec fn json_array(items: Seq<Seq<(Seq<char>, Seq<char>)>>) -> Option<Seq<u8>>;

/// The views of a list of members.
pub open spec fn members_view(members: Seq<(String, Member)>) -> Seq<(Seq<char>, MemberView)> {
    Seq::new(members.len(), |i: int| (members[i].0@, members[i].1@))
}

/// The views of a list of pairs of strings.
pub open spec fn pairs_view(pairs: Seq<(String, String)>) -> Seq<(Seq<char>, Seq<char>)> {
    Seq::new(pairs.len(), |i: int| (pairs[i].0@, pairs[i].1@))
}

/// The views of a list of lists of pairs.
pub open spec fn items_view(items: Seq<Vec<(String, String)>>) -> Seq<Seq<(Seq<char>, Seq<char>)>> {
    Seq::new(items.len(), |i: int| pairs_view(items[i]@))
}

/// The views of the members that were parsed, if any were.
pub open spec fn parsed_view(parsed: Option<Vec<(String, Member)>>) -> Option<
    Seq<(Seq<char>, MemberView)>,
> {
    match parsed {
        Some(members) => Some(members_view(members@)),
        None => None,
    }
}

/// The view of the bytes that were written, if any were.
pub open spec fn written_view(written: Option<Vec<u8>>) -> Option<Seq<u8>> {
    match written {
        Some(bytes) => Some(bytes@),
        None => None,
    }
}

/// `serde_json::from_slice` at the type `serde_json::Map<String, Value>`,
/// which accepts the text of one JSON object and nothing else. Each member's
/// value is turned into a [`Member`], variant by variant. The result is a
/// function of the bytes alone and is called [`json_object`].
#[verifier::external_body]
fn parse_object(body: &[u8]) -> (parsed: Option<Vec<(String, Member)>>)
    ensures
        parsed_view(parsed) == json_object(body@),
{
    let object: serde_json::Map<String, serde_json::Value> = serde_json::from_slice(body).ok()?;
    Some(object.into_iter().map(|(key, value)| (key, match value {
        serde_json::Value::Null => Member::Null,
        serde_json::Value::String(text) => Member::Text(text),
        serde_json::Value::Bool(_) => Member::Other,
        serde_json::Value::Number(_) => Member::Other,
        serde_json::Value::Array(_) => Member::Other,
        serde_json::Value::Object(_) => Member::Other,
    })).collect())
}

/// `serde_json::to_vec` on an array of objects, each built from the pairs of
/// one item with every value a JSON string. The result is a function of the
/// items alone and is called [`json_array`].
#[verifier::external_body]
fn write_array(items: &Vec<Vec<(String, String)>>) -> (written: Option<Vec<u8>>)
    ensures
        written_view(written) == json_array(items_view(items@)),
{
    let objects: Vec<serde_json::Map<String, serde_json::Value>> = items.iter().map(|pairs|
        pairs.iter().map(|(key, value)|
            (key.clone(), serde_json::Value::String(value.clone()))).collect()).collect();
    serde_json::to_vec(&objects).ok()
}

/// The value of the member `key`; the last one, should there be several.
pub open spec fn member(members: Seq<(Seq<char>, MemberView)>, key: Seq<char>) -> Option<
    MemberView,
>
    decreases members.len(),
{
    if members.len() == 0 {
        None
    } else if members.last().0 == key {
        Some(members.last().1)
    } else {
        member(members.drop_last(), key)
    }
}

/// The text of a member that has to be there and to be a string.
pub open spec fn required_text(members: Seq<(Seq<char>, MemberView)>, key: Seq<char>) -> Option<
    Seq<char>,
> {
    match member(members, key) {
        Some(MemberView::Text(s)) => Some(s),
        _ => None,
    }
}

/// The text of a member that may be missing or `null`. The outer `None`
/// says that the member is there and is neither a string nor `null`.
pub open spec fn optional_text(members: Seq<(Seq<char>, MemberView)>, key: Seq<char>) -> Option<
    Option<Seq<char>>,
> {
    match member(members, key) {
        Some(MemberView::Text(s)) => Some(Some(s)),
        Some(MemberView::Null) => Some(None),
        Some(MemberView::Other) => None,
        None => Some(None),
    }
}

/// The descriptor that the members of an object describe, if they describe
/// one. The member `type` picks the variant: `built_in`, `native`,
/// `web_worker` or `dummy`. `name` and, for a web worker, `url` have to be
/// strings, and `url` an absolute URL; `path` and `prefix` may be missing.
/// Other members do not count.
pub open spec fn described(members: Seq<(Seq<char>, MemberView)>) -> Option<PluginView> {
    let tag = required_text(members, "type"@);
    let name = required_text(members, "name"@);
    let path = optional_text(members, "path"@);
    let url = required_text(members, "url"@);
    let prefix = optional_text(members, "prefix"@);
    if tag == Some("dummy"@) {
        Some(PluginView::Dummy)
    } else if tag == Some("built_in"@) && name.is_some() && prefix.is_some() {
        Some(PluginView::BuiltIn { name: name.unwrap(), prefix: prefix.unwrap() })
    } else if tag == Some("native"@) && name.is_some() && path.is_some() && prefix.is_some() {
        Some(PluginView::Native { name: name.unwrap(), path: path.unwrap(), prefix: prefix.unwrap() })
    } else if tag == Some("web_worker"@) && name.is_some() && url.is_some() && prefix.is_some()
        && url_parses(url.unwrap()) {
        Some(PluginView::Web { name: name.unwrap(), url: url.unwrap(), prefix: prefix.unwrap() })
    } else {
        None
    }
}

/// The descriptor that the bytes of a request body describe.
pub open spec fn decoded(body: Seq<u8>) -> Option<PluginView> {
    match json_object(body) {
        Some(members) => described(members),
        None => None,
    }
}

/// The value of `type` for each variant.
pub open spec fn tag_of(plugin: PluginView) -> Seq<char> {
    match plugin {
        PluginView::BuiltIn { .. } => "built_in"@,
        PluginView::Native { .. } => "native"@,
        PluginView::Web { .. } => "web_worker"@,
        PluginView::Dummy => "dummy"@,
    }
}

/// The member `key` with the text `value`, or nothing where there is no text.
pub open spec fn optional_pair(key: Seq<char>, value: Option<Seq<char>>) -> Seq<
    (Seq<char>, Seq<char>),
> {
    match value {
        Some(s) => seq![(key, s)],
        None => Seq::empty(),
    }
}

/// The members that a descriptor is written with: `type` first, then the
/// fields of its variant under their names. A field that is not set is left
/// out.
pub open spec fn fields_of(plugin: PluginView) -> Seq<(Seq<char>, Seq<char>)> {
    let head = seq![("type"@, tag_of(plugin))];
    match plugin {
        PluginView::BuiltIn { name, prefix } => head + seq![("name"@, name)] + optional_pair(
            "prefix"@,
            prefix,
        ),
        PluginView::Native { name, path, prefix } => head + seq![("name"@, name)] + optional_pair(
            "path"@,
            path,
        ) + optional_pair("prefix"@, prefix),
        PluginView::Web { name, url, prefix } => head + seq![("name"@, name), ("url"@, url)]
            + optional_pair("prefix"@, prefix),
        PluginView::Dummy => head,
    }
}

/// The members of each descriptor of a list.
pub open spec fn fields_of_all(list: Seq<PluginView>) -> Seq<Seq<(Seq<char>, Seq<char>)>> {
    Seq::new(list.len(), |i: int| fields_of(list[i]))
}

/// The four values of `type` differ from one another.
pub proof fn lemma_tags_differ()
    ensures
        "built_in"@.len() == 8,
        "native"@.len() == 6,
        "web_worker"@.len() == 10,
        "dummy"@.len() == 5,
{
    reveal_strlit("built_in");
    reveal_strlit("native");
    reveal_strlit("web_worker");
    reveal_strlit("dummy");
}

/// The members of an object whose values are the strings of `fields`.
pub open spec fn as_members(fields: Seq<(Seq<char>, Seq<char>)>) -> Seq<(Seq<char>, MemberView)> {
    Seq::new(fields.len(), |i: int| (fields[i].0, MemberView::Text(fields[i].1)))
}

/// The five member names differ from one another.
pub proof fn lemma_keys_differ()
    ensures
        "type"@ != "name"@,
        "type"@ != "path"@,
        "type"@ != "url"@,
        "type"@ != "prefix"@,
        "name"@ != "path"@,
        "name"@ != "url"@,
        "name"@ != "prefix"@,
        "path"@ != "url"@,
        "path"@ != "prefix"@,
        "url"@ != "prefix"@,
{
    reveal_strlit("type");
    reveal_strlit("name");
    reveal_strlit("path");
    reveal_strlit("url");
    reveal_strlit("prefix");
    assert("type"@[0] == 't');
    assert("name"@[0] == 'n');
    assert("path"@[0] == 'p');
    assert("url"@.len() == 3);
    assert("prefix"@.len() == 6);
}

/// A member that is put last is the one that is found under its name, and
/// hides no member of another name.
pub proof fn lemma_member_push(
    members: Seq<(Seq<char>, MemberView)>,
    key: Seq<char>,
    value: MemberView,
    wanted: Seq<char>,
)
    ensures
        member(members.push((key, value)), wanted) == if wanted == key {
            Some(value)
        } else {
            member(members, wanted)
        },
{
    assert(members.push((key, value)).drop_last() =~= members);
}

/// Whether the descriptor can be read from what it is written with: a web
/// worker's URL has to be an absolute URL.
pub open spec fn readable(plugin: PluginView) -> bool {
    match plugin {
        PluginView::Web { url, .. } => url_parses(url),
        _ => true,
    }
}

/// The members that a descriptor is written with describe that descriptor,
/// and describe none where it is a web worker whose URL is no URL.
pub proof fn lemma_written_is_read(plugin: PluginView)
    ensures
        described(as_members(fields_of(plugin))) == if readable(plugin) {
            Some(plugin)
        } else {
            None
        },
{
    lemma_keys_differ();
    lemma_tags_differ();
    let none = Seq::<(Seq<char>, MemberView)>::empty();
    let tagged = none.push(("type"@, MemberView::Text(tag_of(plugin))));
    assert forall|wanted: Seq<char>| member(none, wanted).is_none() by {}
    assert forall|wanted: Seq<char>| #[trigger]
        member(tagged, wanted) == if wanted == "type"@ {
            Some(MemberView::Text(tag_of(plugin)))
        } else {
            None
        } by {
        lemma_member_push(none, "type"@, MemberView::Text(tag_of(plugin)), wanted);
    }
    match plugin {
        PluginView::Dummy => {
            assert(as_members(fields_of(plugin)) =~= tagged);
        },
        PluginView::BuiltIn { name, prefix } => {
            let named = tagged.push(("name"@, MemberView::Text(name)));
            lemma_member_push(tagged, "name"@, MemberView::Text(name), "type"@);
            lemma_member_push(tagged, "name"@, MemberView::Text(name), "name"@);
            lemma_member_push(tagged, "name"@, MemberView::Text(name), "prefix"@);
            match prefix {
                Some(p) => {
                    let all = named.push(("prefix"@, MemberView::Text(p)));
                    lemma_member_push(named, "prefix"@, MemberView::Text(p), "type"@);
                    lemma_member_push(named, "prefix"@, MemberView::Text(p), "name"@);
                    lemma_member_push(named, "prefix"@, MemberView::Text(p), "prefix"@);
                    assert(as_members(fields_of(plugin)) =~= all);
                },
                None => {
                    assert(as_members(fields_of(plugin)) =~= named);
                },
            }
        },
        PluginView::Native { name, path, prefix } => {
            let named = tagged.push(("name"@, MemberView::Text(name)));
            lemma_member_push(tagged, "name"@, MemberView::Text(name), "type"@);
            lemma_member_push(tagged, "name"@, MemberView::Text(name), "name"@);
            lemma_member_push(tagged, "name"@, MemberView::Text(name), "path"@);
            lemma_member_push(tagged, "name"@, MemberView::Text(name), "prefix"@);
            let pathed = match path {
                Some(p) => named.push(("path"@, MemberView::Text(p))),
                None => named,
            };
            if let Some(p) = path {
                lemma_member_push(named, "path"@, MemberView::Text(p), "type"@);
                lemma_member_push(named, "path"@, MemberView::Text(p), "name"@);
                lemma_member_push(named, "path"@, MemberView::Text(p), "path"@);
                lemma_member_push(named, "path"@, MemberView::Text(p), "prefix"@);
            }
            let all = match prefix {
                Some(p) => pathed.push(("prefix"@, MemberView::Text(p))),
                None => pathed,
            };
            if let Some(p) = prefix {
                lemma_member_push(pathed, "prefix"@, MemberView::Text(p), "type"@);
                lemma_member_push(pathed, "prefix"@, MemberView::Text(p), "name"@);
                lemma_member_push(pathed, "prefix"@, MemberView::Text(p), "path"@);
                lemma_member_push(pathed, "prefix"@, MemberView::Text(p), "prefix"@);
            }
            assert(as_members(fields_of(plugin)) =~= all);
        },
        PluginView::Web { name, url, prefix } => {
            let named = tagged.push(("name"@, MemberView::Text(name)));
            lemma_member_push(tagged, "name"@, MemberView::Text(name), "type"@);
            lemma_member_push(tagged, "name"@, MemberView::Text(name), "name"@);
            lemma_member_push(tagged, "name"@, MemberView::Text(name), "url"@);
            lemma_member_push(tagged, "name"@, MemberView::Text(name), "prefix"@);
            let located = named.push(("url"@, MemberView::Text(url)));
            lemma_member_push(named, "url"@, MemberView::Text(url), "type"@);
            lemma_member_push(named, "url"@, MemberView::Text(url), "name"@);
            lemma_member_push(named, "url"@, MemberView::Text(url), "url"@);
            lemma_member_push(named, "url"@, MemberView::Text(url), "prefix"@);
            let all = match prefix {
                Some(p) => located.push(("prefix"@, MemberView::Text(p))),
                None => located,
            };
            if let Some(p) = prefix {
                lemma_member_push(located, "prefix"@, MemberView::Text(p), "type"@);
                lemma_member_push(located, "prefix"@, MemberView::Text(p), "name"@);
                lemma_member_push(located, "prefix"@, MemberView::Text(p), "url"@);
                lemma_member_push(located, "prefix"@, MemberView::Text(p), "prefix"@);
            }
            assert(as_members(fields_of(plugin)) =~= all);
        },
    }
}

/// Finds the member `key`.
fn find_member<'a>(members: &'a Vec<(String, Member)>, key: &str) -> (r: Option<&'a Member>)
    ensures
        match r {
            Some(m) => member(members_view(members@), key@) == Some(m@),
            None => member(members_view(members@), key@).is_none(),
        },
{
    let ghost all = members_view(members@);
    let mut i: usize = members.len();
    assert(all.take(i as int) =~= all);
    while i > 0
        invariant
            i <= members@.len(),
            all == members_view(members@),
            member(all, key@) == member(all.take(i as int), key@),
        decreases i,
    {
        proof {
            assert(all.take(i as int).last() == all[i - 1]);
            assert(all.take(i as int).drop_last() =~= all.take(i - 1));
        }
        if same_text(members[i - 1].0.as_str(), key) {
            return Some(&members[i - 1].1);
        }
        i = i - 1;
    }
    proof {
        assert(all.take(0).len() == 0);
    }
    None
}

/// Reads a member that has to be a string.
fn read_required(members: &Vec<(String, Member)>, key: &str) -> (r: Option<String>)
    ensures
        crate::plugin::text_of(r) == required_text(members_view(members@), key@),
{
    match find_member(members, key) {
        Some(Member::Text(s)) => Some(s.clone()),
        _ => None,
    }
}

/// Reads a member that may be missing.
fn read_optional(members: &Vec<(String, Member)>, key: &str) -> (r: Option<Option<String>>)
    ensures
        match r {
            Some(text) => optional_text(members_view(members@), key@) == Some(
                crate::plugin::text_of(text),
            ),
            None => optional_text(members_view(members@), key@).is_none(),
        },
{
    match find_member(members, key) {
        Some(Member::Text(s)) => Some(Some(s.clone())),
        Some(Member::Null) => Some(None),
        Some(Member::Other) => None,
        None => Some(None),
    }
}

/// Builds the descriptor that the members of an object describe.
pub fn read_plugin(members: &Vec<(String, Member)>) -> (r: Option<Plugin>)
    ensures
        match r {
            Some(plugin) => described(members_view(members@)) == Some(plugin@),
            None => described(members_view(members@)).is_none(),
        },
{
    proof {
        lemma_tags_differ();
    }
    let tag = match read_required(members, "type") {
        Some(tag) => tag,
        None => {
            return None;
        },
    };
    if same_text(tag.as_str(), "dummy") {
        return Some(Plugin::Dummy);
    }
    let name = read_required(members, "name");
    let path = read_optional(members, "path");
    let url = read_required(members, "url");
    let prefix = read_optional(members, "prefix");
    if same_text(tag.as_str(), "built_in") {
        match (name, prefix) {
            (Some(name), Some(prefix)) => Some(Plugin::BuiltIn { name, prefix }),
            _ => None,
        }
    } else if same_text(tag.as_str(), "native") {
        match (name, path, prefix) {
            (Some(name), Some(path), Some(prefix)) => Some(Plugin::Native { name, path, prefix }),
            _ => None,
        }
    } else if same_text(tag.as_str(), "web_worker") {
        match (name, url, prefix) {
            (Some(name), Some(url), Some(prefix)) => if is_url(url.as_str()) {
                Some(Plugin::Web { name, url, prefix })
            } else {
                None
            },
            _ => None,
        }
    } else {
        None
    }
}

/// Reads a descriptor from the bytes of a JSON object.
pub fn decode_plugin(body: &[u8]) -> (r: Option<Plugin>)
    ensures
        match r {
            Some(plugin) => decoded(body@) == Some(plugin@),
            None => decoded(body@).is_none(),
        },
{
    match parse_object(body) {
        Some(members) => read_plugin(&members),
        None => None,
    }
}

/// Adds the member `key` to `pairs` where `value` holds a text.
fn push_optional(pairs: &mut Vec<(String, String)>, key: &str, value: &Option<String>)
    ensures
        pairs_view(final(pairs)@) == pairs_view(old(pairs)@) + optional_pair(
            key@,
            crate::plugin::text_of(*value),
        ),
{
    match value {
        Some(s) => {
            pairs.push((String::from_str(key), s.clone()));
        },
        None => {},
    }
    assert(pairs_view(pairs@) =~= pairs_view(old(pairs)@) + optional_pair(
        key@,
        crate::plugin::text_of(*value),
    ));
}

/// Adds the member `key` with the text `value` to `pairs`.
fn push_pair(pairs: &mut Vec<(String, String)>, key: &str, value: &str)
    ensures
        pairs_view(final(pairs)@) == pairs_view(old(pairs)@) + seq![(key@, value@)],
{
    pairs.push((String::from_str(key), String::from_str(value)));
    assert(pairs_view(pairs@) =~= pairs_view(old(pairs)@) + seq![(key@, value@)]);
}

/// The members that `plugin` is written with.
pub fn describe(plugin: &Plugin) -> (pairs: Vec<(String, String)>)
    ensures
        pairs_view(pairs@) == fields_of(plugin@),
{
    let mut pairs: Vec<(String, String)> = Vec::new();
    assert(pairs_view(pairs@) =~= Seq::empty());
    match plugin {
        Plugin::BuiltIn { name, prefix } => {
            push_pair(&mut pairs, "type", "built_in");
            push_pair(&mut pairs, "name", name.as_str());
            push_optional(&mut pairs, "prefix", prefix);
        },
        Plugin::Native { name, path, prefix } => {
            push_pair(&mut pairs, "type", "native");
            push_pair(&mut pairs, "name", name.as_str());
            push_optional(&mut pairs, "path", path);
            push_optional(&mut pairs, "prefix", prefix);
        },
        Plugin::Web { name, url, prefix } => {
            push_pair(&mut pairs, "type", "web_worker");
            push_pair(&mut pairs, "name", name.as_str());
            push_pair(&mut pairs, "url", url.as_str());
            push_optional(&mut pairs, "prefix", prefix);
        },
        Plugin::Dummy => {
            push_pair(&mut pairs, "type", "dummy");
        },
    }
    assert(pairs_view(pairs@) =~= fields_of(plugin@));
    pairs
}

/// Writes a list of descriptors as a JSON array.
pub fn encode_plugins(list: &Vec<Plugin>) -> (r: Option<Vec<u8>>)
    ensures
        written_view(r) == json_array(fields_of_all(plugin_views(list@))),
{
    let mut items: Vec<Vec<(String, String)>> = Vec::new();
    let mut i: usize = 0;
    while i < list.len()
        invariant
            i <= list@.len(),
            items@.len() == i,
            forall|j: int| 0 <= j < i ==> pairs_view(#[trigger] items@[j]@) == fields_of(list@[j]@),
        decreases list@.len() - i,
    {
        items.push(describe(&list[i]));
        i = i + 1;
    }
    assert(items_view(items@) =~= fields_of_all(plugin_views(list@)));
    write_array(&items)
}

} // verus!
