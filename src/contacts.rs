use vstd::prelude::*;
use crate::text::opt_text;
use crate::text::texts;
use crate::thread::{identities, raw_tag_models, thread_of_raw_tags};

verus! {

/// A followed identity and the name it is shown under.
#[derive(Debug, Clone)]
pub struct Contact {
    pub identity: String,
    pub name: String,
}

impl Contact {
    /// The `(identity, name)` pair that the configuration stores.
    pub fn to_string_tuple(&self) -> (r: (String, String))
        ensures
            r.0@ == self.identity@,
            r.1@ == self.name@,
    {
        (self.identity.clone(), self.name.clone())
    }
}

/// The configured entries whose identity was read, as `(identity, name)`.
pub open spec fn accepted(entries: Seq<(String, String)>, valid: Seq<bool>) -> Seq<(Seq<char>, Seq<char>)>
    decreases entries.len(),
{
    if entries.len() == 0 || valid.len() != entries.len() {
        Seq::empty()
    } else if valid.last() {
        accepted(entries.drop_last(), valid.drop_last()).push((entries.last().0@, entries.last().1@))
    } else {
        accepted(entries.drop_last(), valid.drop_last())
    }
}

/// The identities of the configured entries that could not be read.
pub open spec fn rejected(entries: Seq<(String, String)>, valid: Seq<bool>) -> Seq<Seq<char>>
    decreases entries.len(),
{
    if entries.len() == 0 || valid.len() != entries.len() {
        Seq::empty()
    } else if valid.last() {
        rejected(entries.drop_last(), valid.drop_last())
    } else {
        rejected(entries.drop_last(), valid.drop_last()).push(entries.last().0@)
    }
}

pub open spec fn contact_pairs(contacts: Seq<Contact>) -> Seq<(Seq<char>, Seq<char>)> {
    contacts.map_values(|c: Contact| (c.identity@, c.name@))
}

/// The contacts of an explicit list, taken verbatim: `valid[i]` tells
/// whether the identity of `entries[i]` could be read. An entry that could
/// not is reported among the rejected identities and the others are kept.
pub fn resolve_configured(entries: &Vec<(String, String)>, valid: &Vec<bool>) -> (r: (
    Vec<Contact>,
    Vec<String>,
))
    requires
        valid@.len() == entries@.len(),
    ensures
        contact_pairs(r.0@) == accepted(entries@, valid@),
        texts(r.1@) == rejected(entries@, valid@),
{
    let mut contacts: Vec<Contact> = Vec::new();
    let mut bad: Vec<String> = Vec::new();
    let mut i: usize = 0;
    while i < entries.len()
        invariant
            valid@.len() == entries@.len(),
            i <= entries@.len(),
            contact_pairs(contacts@) == accepted(entries@.subrange(0, i as int), valid@.subrange(0, i as int)),
            texts(bad@) == rejected(entries@.subrange(0, i as int), valid@.subrange(0, i as int)),
        decreases entries@.len() - i,
    {
        assert(entries@.subrange(0, i + 1).drop_last() =~= entries@.subrange(0, i as int));
        assert(valid@.subrange(0, i + 1).drop_last() =~= valid@.subrange(0, i as int));
        let (identity, name) = &entries[i];
        if valid[i] {
            contacts.push(Contact { identity: identity.clone(), name: name.clone() });
            assert(contact_pairs(contacts@) =~= contact_pairs(contacts@).drop_last().push((identity@, name@)));
        } else {
            bad.push(identity.clone());
            assert(texts(bad@) =~= texts(bad@).drop_last().push(identity@));
        }
        i = i + 1;
    }
    assert(entries@.subrange(0, entries@.len() as int) =~= entries@);
    assert(valid@.subrange(0, valid@.len() as int) =~= valid@);
    (contacts, bad)
}

/// The identities that a contact-list note follows: its identity tags.
pub fn followed_identities(list_tags: &Vec<Vec<String>>) -> (r: Vec<String>)
    ensures
        texts(r@) == identities(raw_tag_models(list_tags@)),
{
    thread_of_raw_tags(list_tags).participants
}

/// The string under the key `name` of the JSON object that `content` holds,
/// if it holds one with such a string.
pub uninterp spec fn name_field(content: Seq<char>) -> Option<Seq<char>>;

/// Relies on serde_json::from_str, which reads `content` as a JSON value,
/// and on Value::get, which finds the member `name` of an object.
#[verifier::external_body]
fn metadata_name(content: &String) -> (r: Option<String>)
    ensures
        opt_text(r) == name_field(content@),
{
    match serde_json::from_str::<serde_json::Value>(content) {
        Ok(value) => match value.get("name") {
            Some(serde_json::Value::String(name)) => Some(name.clone()),
            _ => None,
        },
        Err(_) => None,
    }
}

/// The name a discovered identity is shown under: the `name` of its
/// metadata record, or `fallback` (the identity's own rendering) when the
/// record is absent, could not be fetched or names nobody.
pub open spec fn display_name(metadata: Option<Seq<char>>, fallback: Seq<char>) -> Seq<char> {
    match metadata {
        Some(content) => match name_field(content) {
            Some(name) => name,
            None => fallback,
        },
        None => fallback,
    }
}

/// The contact for a discovered identity; `metadata` is the content of its
/// metadata record, if one was fetched.
pub fn contact_from_metadata(identity: String, fallback: String, metadata: Option<String>) -> (r: Contact)
    ensures
        r.identity@ == identity@,
        r.name@ == display_name(opt_text(metadata), fallback@),
{
    let name = match &metadata {
        Some(content) => match metadata_name(content) {
            Some(name) => name,
            None => fallback,
        },
        None => fallback,
    };
    Contact { identity, name }
}

} // verus!
