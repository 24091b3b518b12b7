//! The records of a chat export, and the named fields that a page template reads.

use crate::text::{decimal, decimal_text, parse_number, parse_unsigned, same_text};
use vstd::prelude::*;
use vstd::std_specs::convert::FromSpecImpl;
use vstd::string::*;

verus! {

/// The identifier that a text field denotes: its decimal value where it is a
/// number that fits 64 bits, and 0 otherwise.
pub open spec fn lenient_id(s: Seq<char>) -> u64 {
    match parse_unsigned(s, u64::MAX as nat) {
        Some(n) => n as u64,
        None => 0,
    }
}

/// Reads an identifier leniently: a field that is no number gives 0.
pub fn parse_id_or_zero(s: &str) -> (id: u64)
    ensures
        id == lenient_id(s@),
{
    match parse_number(s, u64::MAX) {
        Some(n) => n,
        None => 0,
    }
}

/// A server's metadata as the export holds it, every field a text.
pub struct ServerDataRaw {
    pub id: String,
    pub name: String,
    pub icon: String,
    pub owner_id: String,
    pub description: String,
}

/// A server's metadata with its identifiers decoded.
pub struct ServerData {
    pub id: u64,
    pub name: String,
    pub icon: String,
    pub owner_id: u64,
    pub description: String,
}

/// A channel's metadata as the export holds it.
pub struct ChannelDataRaw {
    pub id: String,
    pub name: String,
    pub topic: String,
}

/// A channel's metadata with its identifier decoded.
pub struct ChannelData {
    pub id: u64,
    pub name: String,
    pub topic: String,
}

/// A file attached to a message.
pub struct Attachments {
    pub id: String,
    pub url: String,
    pub filename: String,
    pub size: u32,
    pub ephermeral: bool,
}

/// Who wrote a message.
pub struct Author {
    pub username: String,
    pub discriminator: String,
    pub id: String,
    pub mfa: bool,
    pub bot: bool,
    pub avatar: String,
}

/// The message that another one replies to.
pub struct ReferencedMessage {
    pub id: String,
    pub author: Author,
    pub attachments: Vec<Attachments>,
    pub content: String,
    pub pinned: bool,
}

/// One message of a channel.
pub struct Message {
    pub id: String,
    pub author: Author,
    pub attachments: Vec<Attachments>,
    pub pinned: bool,
    pub content: String,
    pub referenced_message: Vec<ReferencedMessage>,
}

impl From<ServerDataRaw> for ServerData {
    fn from(s: ServerDataRaw) -> (r: Self) {
        let id = parse_id_or_zero(s.id.as_str());
        let owner_id = parse_id_or_zero(s.owner_id.as_str());
        ServerData { id, name: s.name, icon: s.icon, owner_id, description: s.description }
    }
}

impl FromSpecImpl<ServerDataRaw> for ServerData {
    open spec fn obeys_from_spec() -> bool {
        true
    }

    open spec fn from_spec(s: ServerDataRaw) -> Self {
        ServerData {
            id: lenient_id(s.id@),
            name: s.name,
            icon: s.icon,
            owner_id: lenient_id(s.owner_id@),
            description: s.description,
        }
    }
}

impl From<ChannelDataRaw> for ChannelData {
    fn from(c: ChannelDataRaw) -> (r: Self) {
        let id = parse_id_or_zero(c.id.as_str());
        ChannelData { id, name: c.name, topic: c.topic }
    }
}

impl FromSpecImpl<ChannelDataRaw> for ChannelData {
    open spec fn obeys_from_spec() -> bool {
        true
    }

    open spec fn from_spec(c: ChannelDataRaw) -> Self {
        ChannelData { id: lenient_id(c.id@), name: c.name, topic: c.topic }
    }
}

/// What a list of insertions leaves in a mapping: a later value replaces an
/// earlier one under the same name.
pub open spec fn entries_map(entries: Seq<(String, String)>) -> Map<Seq<char>, Seq<char>>
    decreases entries.len(),
{
    if entries.len() == 0 {
        Map::empty()
    } else {
        entries_map(entries.drop_last()).insert(entries.last().0@, entries.last().1@)
    }
}

/// No name stands twice in the list.
pub open spec fn distinct_names(entries: Seq<(String, String)>) -> bool {
    forall|i: int, j: int| 0 <= i < j < entries.len() ==> entries[i].0@ != entries[j].0@
}

/// In a list without a repeated name, to put a new value in the place of
/// a name's entry is to set that name to the value.
pub proof fn lemma_replace_entry(entries: Seq<(String, String)>, i: int, entry: (String, String))
    requires
        distinct_names(entries),
        0 <= i < entries.len(),
        entries[i].0@ == entry.0@,
    ensures
        entries_map(entries.update(i, entry)) == entries_map(entries).insert(entry.0@, entry.1@),
    decreases entries.len(),
{
    let changed = entries.update(i, entry);
    let init = entries.drop_last();
    if i == entries.len() - 1 {
        assert(changed.drop_last() =~= init);
        assert(changed.last() == entry);
        assert(entries_map(init).insert(entries.last().0@, entries.last().1@).insert(
            entry.0@,
            entry.1@,
        ) =~= entries_map(init).insert(entry.0@, entry.1@));
    } else {
        assert(changed.drop_last() =~= init.update(i, entry));
        assert(changed.last() == entries.last());
        assert(init[i] == entries[i]);
        assert forall|a: int, b: int| 0 <= a < b < init.len() implies init[a].0@ != init[b].0@ by {
            assert(init[a] == entries[a] && init[b] == entries[b]);
        }
        lemma_replace_entry(init, i, entry);
        assert(entries[i].0@ != entries[entries.len() - 1].0@);
        assert(entries_map(init).insert(entry.0@, entry.1@).insert(
            entries.last().0@,
            entries.last().1@,
        ) =~= entries_map(init).insert(entries.last().0@, entries.last().1@).insert(
            entry.0@,
            entry.1@,
        ));
    }
}

/// The named values handed to a page template, each name once.
pub struct Fields {
    pub entries: Vec<(String, String)>,
}

impl View for Fields {
    type V = Map<Seq<char>, Seq<char>>;

    open spec fn view(&self) -> Map<Seq<char>, Seq<char>> {
        entries_map(self.entries@)
    }
}

impl Fields {
    /// The invariant of the fields: no name stands twice.
    pub open spec fn wf(&self) -> bool {
        distinct_names(self.entries@)
    }

    /// No field at all.
    pub fn new() -> (r: Self)
        ensures
            r.wf(),
            r@ == Map::<Seq<char>, Seq<char>>::empty(),
    {
        Fields { entries: Vec::new() }
    }

    /// Sets the field `name` to `value`, replacing what it held.
    pub fn insert(&mut self, name: &str, value: String)
        requires
            old(self).wf(),
        ensures
            final(self).wf(),
            final(self)@ == old(self)@.insert(name@, value@),
    {
        let entry = (String::from_str(name), value);
        let n: usize = self.entries.len();
        let mut i: usize = 0;
        while i < n
            invariant
                n == self.entries@.len(),
                i <= n,
                *self == *old(self),
                self.wf(),
                entry.0@ == name@,
                entry.1@ == value@,
                forall|k: int| 0 <= k < i ==> self.entries@[k].0@ != name@,
            decreases n - i,
        {
            if same_text(self.entries[i].0.as_str(), name) {
                proof {
                    lemma_replace_entry(self.entries@, i as int, entry);
                }
                self.entries.set(i, entry);
                return;
            }
            i += 1;
        }
        self.entries.push(entry);
        assert(self.entries@.drop_last() =~= old(self).entries@);
    }

    /// How many insertions were made.
    pub fn len(&self) -> (n: usize)
        ensures
            n == self.entries@.len(),
    {
        self.entries.len()
    }

    /// The name of the `i`-th insertion.
    pub fn name_at(&self, i: usize) -> (r: &str)
        requires
            i < self.entries@.len(),
        ensures
            r@ == self.entries@[i as int].0@,
    {
        self.entries[i].0.as_str()
    }

    /// The value of the `i`-th insertion.
    pub fn value_at(&self, i: usize) -> (r: &str)
        requires
            i < self.entries@.len(),
        ensures
            r@ == self.entries@[i as int].1@,
    {
        self.entries[i].1.as_str()
    }
}

/// The fields that a server contributes to a page.
pub open spec fn server_fields(
    server: ServerData,
    base: Map<Seq<char>, Seq<char>>,
) -> Map<Seq<char>, Seq<char>> {
    base.insert("server_id"@, decimal(server.id as nat)).insert(
        "server_name"@,
        server.name@,
    ).insert("server_icon"@, server.icon@).insert(
        "server_owner"@,
        decimal(server.owner_id as nat),
    ).insert("server_description"@, server.description@)
}

/// The fields that a channel contributes to a page.
pub open spec fn channel_fields(
    channel: ChannelData,
    base: Map<Seq<char>, Seq<char>>,
) -> Map<Seq<char>, Seq<char>> {
    base.insert("channel_id"@, decimal(channel.id as nat)).insert(
        "channel_name"@,
        channel.name@,
    ).insert("channel_topic"@, channel.topic@)
}

impl ServerData {
    /// Adds the server's five fields to `data`.
    pub fn register(&self, data: &mut Fields)
        requires
            old(data).wf(),
        ensures
            final(data).wf(),
            final(data)@ == server_fields(*self, old(data)@),
    {
        data.insert("server_id", decimal_text(self.id));
        data.insert("server_name", self.name.clone());
        data.insert("server_icon", self.icon.clone());
        data.insert("server_owner", decimal_text(self.owner_id));
        data.insert("server_description", self.description.clone());
    }
}

impl ChannelData {
    /// Adds the channel's three fields to `data`.
    pub fn register(&self, data: &mut Fields)
        requires
            old(data).wf(),
        ensures
            final(data).wf(),
            final(data)@ == channel_fields(*self, old(data)@),
    {
        data.insert("channel_id", decimal_text(self.id));
        data.insert("channel_name", self.name.clone());
        data.insert("channel_topic", self.topic.clone());
    }
}

} // verus!
