//! Which entries of a server's tree are chunks, how their pages are named,
//! and the list of links to the pages of every channel.

use crate::text::{
    before_first, chars_of, contains, contains_text, decimal, decimal_text, is_digit,
    lemma_decimal_digits, lemma_decimal_injective, parse_chars, parse_number, parse_unsigned,
    prefix_before, same_text,
};
use vstd::prelude::*;
use vstd::string::*;

verus! {

/// The name of the page of a channel's chunk: the channel's identifier for
/// chunk 0, and the identifier, an underscore and the chunk's number for the
/// others.
pub open spec fn page_name_text(channel_id: Seq<char>, chunk: nat) -> Seq<char> {
    if chunk == 0 {
        channel_id
    } else {
        channel_id + "_"@ + decimal(chunk)
    }
}

/// Names the page of a channel's chunk.
pub fn page_name(channel_id: &str, chunk: usize) -> (r: String)
    ensures
        r@ == page_name_text(channel_id@, chunk as nat),
{
    let mut s = String::from_str(channel_id);
    if chunk != 0 {
        s.append("_");
        s.append(decimal_text(chunk as u64).as_str());
    }
    s
}

/// The pages of two chunks have the same name only where the chunks are
/// the same chunk of the same channel: no page takes the place of another.
pub proof fn lemma_page_names_differ(a: u64, i: nat, b: u64, j: nat)
    requires
        a != b || i != j,
    ensures
        page_name_text(decimal(a as nat), i) != page_name_text(decimal(b as nat), j),
{
    reveal_strlit("_");
    let da = decimal(a as nat);
    let db = decimal(b as nat);
    let di = decimal(i);
    let dj = decimal(j);
    let s1 = page_name_text(da, i);
    let s2 = page_name_text(db, j);
    lemma_decimal_digits(a as nat);
    lemma_decimal_digits(b as nat);
    lemma_decimal_digits(i);
    lemma_decimal_digits(j);
    if s1 == s2 {
        if i == 0 && j == 0 {
            lemma_decimal_injective(a as nat, b as nat);
        } else if i == 0 {
            assert(s2[db.len() as int] == '_');
            assert(is_digit(da[db.len() as int]));
        } else if j == 0 {
            assert(s1[da.len() as int] == '_');
            assert(is_digit(db[da.len() as int]));
        } else {
            assert(s1[da.len() as int] == '_');
            assert(s2[db.len() as int] == '_');
            if da.len() < db.len() {
                assert(s2[da.len() as int] == db[da.len() as int]);
                assert(is_digit(db[da.len() as int]));
            } else if db.len() < da.len() {
                assert(s1[db.len() as int] == da[db.len() as int]);
                assert(is_digit(da[db.len() as int]));
            } else {
                let n = da.len() as int;
                assert(s1.subrange(0, n) =~= da);
                assert(s2.subrange(0, n) =~= db);
                assert(s1.subrange(n + 1, s1.len() as int) =~= di);
                assert(s2.subrange(n + 1, s2.len() as int) =~= dj);
                lemma_decimal_injective(a as nat, b as nat);
                lemma_decimal_injective(i, j);
            }
        }
    }
}

/// Where a page is written: below `out`, in the server's directory.
pub open spec fn output_path_text(server_id: u64, page: Seq<char>) -> Seq<char> {
    "out/"@ + decimal(server_id as nat) + "/"@ + page + ".html"@
}

/// In one server's directory, two pages lie at the same path only where
/// they have the same name.
pub proof fn lemma_output_paths_differ(server_id: u64, first: Seq<char>, second: Seq<char>)
    requires
        first != second,
    ensures
        output_path_text(server_id, first) != output_path_text(server_id, second),
{
    let head = "out/"@ + decimal(server_id as nat) + "/"@;
    let tail = ".html"@;
    let p1 = output_path_text(server_id, first);
    let p2 = output_path_text(server_id, second);
    if p1 == p2 {
        assert(p1.len() == head.len() + first.len() + tail.len());
        assert(p2.len() == head.len() + second.len() + tail.len());
        assert(p1.subrange(head.len() as int, (head.len() + first.len()) as int) =~= first);
        assert(p2.subrange(head.len() as int, (head.len() + second.len()) as int) =~= second);
    }
}

/// Names the file of a page.
pub fn output_path(server_id: u64, page: &str) -> (r: String)
    ensures
        r@ == output_path_text(server_id, page@),
{
    let mut s = String::from_str("out/");
    s.append(decimal_text(server_id).as_str());
    s.append("/");
    s.append(page);
    s.append(".html");
    s
}

/// Why an entry stops the work on a server.
#[derive(Debug, Clone, Copy, PartialEq, Eq, Structural)]
pub enum EntryError {
    /// The name of a data file does not start with the chunk's number.
    ChunkIndex,
}

/// Whether an entry holds a chunk: a file, not one of the two metadata
/// files, with `json` in its name.
pub open spec fn is_chunk_name(is_dir: bool, name: Seq<char>) -> bool {
    !is_dir && name != "server.json"@ && name != "channel.json"@ && contains_text(name, "json"@)
}

/// The chunk number in a file's name: what stands before the first point,
/// read as a decimal number.
pub open spec fn chunk_number(name: Seq<char>) -> Option<nat> {
    parse_unsigned(before_first(name, '.'), usize::MAX as nat)
}

/// What to do with an entry: pass over it, render the chunk of the given
/// number, or stop because a data file's name has no chunk number.
pub open spec fn entry_decision(is_dir: bool, name: Seq<char>) -> Result<Option<usize>, EntryError> {
    if !is_chunk_name(is_dir, name) {
        Ok(None)
    } else {
        match chunk_number(name) {
            Some(n) => Ok(Some(n as usize)),
            None => Err(EntryError::ChunkIndex),
        }
    }
}

/// Tells whether an entry holds a chunk.
pub fn is_chunk_entry(is_dir: bool, name: &str) -> (r: bool)
    ensures
        r == is_chunk_name(is_dir, name@),
{
    !is_dir && !same_text(name, "server.json") && !same_text(name, "channel.json") && contains(
        name,
        "json",
    )
}

/// Reads the chunk number from a file's name.
pub fn chunk_index(name: &str) -> (r: Option<usize>)
    ensures
        r == match chunk_number(name@) {
            Some(n) => Some(n as usize),
            None => None,
        },
{
    let v = chars_of(name);
    let head = prefix_before(&v, '.');
    match parse_chars(&head, usize::MAX as u64) {
        Some(n) => Some(n as usize),
        None => None,
    }
}

/// Decides what to do with an entry of a server's tree.
pub fn examine_entry(is_dir: bool, name: &str) -> (r: Result<Option<usize>, EntryError>)
    ensures
        r == entry_decision(is_dir, name@),
{
    if !is_chunk_entry(is_dir, name) {
        Ok(None)
    } else {
        match chunk_index(name) {
            Some(n) => Ok(Some(n)),
            None => Err(EntryError::ChunkIndex),
        }
    }
}

/// What to do with an entry of the working directory.
#[derive(Debug, Clone, Copy, PartialEq, Eq, Structural)]
pub enum ServerStep {
    /// Its name is no number: it is no server's directory.
    NotAServer,
    /// A server's directory without its metadata file: it is passed over
    /// with a warning, and the run goes on.
    MissingMetadata(u64),
    /// A server's directory whose metadata file is there to be read.
    Read(u64),
}

/// What to do with an entry of the working directory, from its name and
/// from whether it holds a metadata file.
pub open spec fn server_step(name: Seq<char>, has_metadata: bool) -> ServerStep {
    match parse_unsigned(name, u64::MAX as nat) {
        None => ServerStep::NotAServer,
        Some(id) => if has_metadata {
            ServerStep::Read(id as u64)
        } else {
            ServerStep::MissingMetadata(id as u64)
        },
    }
}

/// Decides what to do with an entry of the working directory.
pub fn examine_server_dir(name: &str, has_metadata: bool) -> (r: ServerStep)
    ensures
        r == server_step(name@, has_metadata),
{
    match parse_number(name, u64::MAX) {
        None => ServerStep::NotAServer,
        Some(id) => if has_metadata {
            ServerStep::Read(id)
        } else {
            ServerStep::MissingMetadata(id)
        },
    }
}

/// An entry of the working directory: its name, and whether it holds a
/// server's metadata file.
pub struct DirListing {
    pub name: String,
    pub has_metadata: bool,
}

/// The servers that a run reads, in the order of the entries: those of the
/// entries named by a number that hold a metadata file.
pub open spec fn servers_to_read(dirs: Seq<DirListing>) -> Seq<u64>
    decreases dirs.len(),
{
    if dirs.len() == 0 {
        Seq::empty()
    } else {
        let rest = servers_to_read(dirs.drop_last());
        match server_step(dirs.last().name@, dirs.last().has_metadata) {
            ServerStep::Read(id) => rest.push(id),
            _ => rest,
        }
    }
}

/// Lists the servers that a run reads, passing over every other entry.
pub fn plan_servers(dirs: &Vec<DirListing>) -> (r: Vec<u64>)
    ensures
        r@ == servers_to_read(dirs@),
{
    let n: usize = dirs.len();
    let mut ids: Vec<u64> = Vec::new();
    let mut i: usize = 0;
    while i < n
        invariant
            n == dirs@.len(),
            i <= n,
            ids@ == servers_to_read(dirs@.take(i as int)),
        decreases n - i,
    {
        assert(dirs@.take(i + 1).drop_last() =~= dirs@.take(i as int));
        match examine_server_dir(dirs[i].name.as_str(), dirs[i].has_metadata) {
            ServerStep::Read(id) => {
                ids.push(id);
            },
            _ => {},
        }
        i += 1;
    }
    assert(dirs@.take(n as int) =~= dirs@);
    ids
}

/// The servers read from a list of entries are those read from its first
/// part, then those read from the rest.
pub proof fn lemma_servers_of_parts(first: Seq<DirListing>, rest: Seq<DirListing>)
    ensures
        servers_to_read(first + rest) == servers_to_read(first) + servers_to_read(rest),
    decreases rest.len(),
{
    if rest.len() == 0 {
        assert(first + rest =~= first);
        assert(servers_to_read(first) + servers_to_read(rest) =~= servers_to_read(first));
    } else {
        lemma_servers_of_parts(first, rest.drop_last());
        assert((first + rest).drop_last() =~= first + rest.drop_last());
        assert((first + rest).last() == rest.last());
        match server_step(rest.last().name@, rest.last().has_metadata) {
            ServerStep::Read(id) => {
                assert((servers_to_read(first) + servers_to_read(rest.drop_last())).push(id)
                    =~= servers_to_read(first) + servers_to_read(rest.drop_last()).push(id));
            },
            _ => {},
        }
    }
}

/// A directory without a metadata file is passed over and stops nothing:
/// the run reads the same servers, in the same order, as a run without that
/// directory.
pub proof fn lemma_missing_metadata_is_skipped(
    before: Seq<DirListing>,
    skipped: DirListing,
    after: Seq<DirListing>,
)
    requires
        !skipped.has_metadata,
    ensures
        servers_to_read(before + seq![skipped] + after) == servers_to_read(before + after),
{
    lemma_servers_of_parts(before + seq![skipped], after);
    lemma_servers_of_parts(before, seq![skipped]);
    lemma_servers_of_parts(before, after);
    assert(seq![skipped].drop_last() =~= Seq::<DirListing>::empty());
    assert(servers_to_read(Seq::<DirListing>::empty()) =~= Seq::<u64>::empty());
    assert(seq![skipped].last() == skipped);
    assert(servers_to_read(seq![skipped]) =~= Seq::<u64>::empty());
    assert(servers_to_read(before) + Seq::<u64>::empty() =~= servers_to_read(before));
}

/// How many pages beyond the first a channel gets in the index, from the
/// number of entries of its directory with `json` in their names: two of
/// them are the metadata and chunk 0.
pub open spec fn shard_count(amount: nat) -> nat {
    if amount < 3 {
        0
    } else {
        (amount - 2) as nat
    }
}

/// The label of a channel's `i`-th page: the channel's name, and from the
/// second page on an underscore and the page's number.
pub open spec fn label_text(name: Seq<char>, i: nat) -> Seq<char> {
    if i == 0 {
        name
    } else {
        name + "_"@ + decimal(i)
    }
}

/// Counts the entries of a channel's directory with `json` in their names.
pub fn count_data_entries(names: &Vec<String>) -> (n: usize)
    ensures
        n == names@.filter(|s: String| contains_text(s@, "json"@)).len(),
{
    let ghost pred = |s: String| contains_text(s@, "json"@);
    let len: usize = names.len();
    let mut n: usize = 0;
    let mut i: usize = 0;
    while i < len
        invariant
            len == names@.len(),
            i <= len,
            n <= i,
            n == names@.take(i as int).filter(pred).len(),
            pred == |s: String| contains_text(s@, "json"@),
        decreases len - i,
    {
        proof {
            assert(names@.take(i + 1).drop_last() =~= names@.take(i as int));
            reveal(Seq::filter);
        }
        if contains(names[i].as_str(), "json") {
            n += 1;
        }
        i += 1;
    }
    assert(names@.take(len as int) =~= names@);
    n
}

/// The labels of a channel's pages in the index: one for the first page and
/// one more for each shard.
pub fn shard_labels(name: &str, amount: usize) -> (r: Vec<String>)
    ensures
        r@.len() == 1 + shard_count(amount as nat),
        forall|i: int| 0 <= i < r@.len() ==> (#[trigger] r@[i])@ == label_text(name@, i as nat),
{
    let mut labels: Vec<String> = Vec::new();
    labels.push(String::from_str(name));
    if amount < 3 {
        return labels;
    }
    let shards: usize = amount - 2;
    let mut i: usize = 0;
    while i < shards
        invariant
            shards == amount - 2,
            i <= shards,
            labels@.len() == i + 1,
            forall|k: int|
                0 <= k < labels@.len() ==> (#[trigger] labels@[k])@ == label_text(name@, k as nat),
        decreases shards - i,
    {
        let mut label = String::from_str(name);
        label.append("_");
        label.append(decimal_text((i + 1) as u64).as_str());
        labels.push(label);
        i += 1;
    }
    labels
}

/// A channel in the index: its identifier and the labels of its pages.
pub struct ChannelIndexEntry {
    pub id: u64,
    pub labels: Vec<String>,
}

/// The channels of a server, each once, by rising identifier.
pub struct ChannelIndex {
    pub entries: Vec<ChannelIndexEntry>,
}

/// The identifiers rise strictly along the list.
pub open spec fn strictly_sorted(entries: Seq<ChannelIndexEntry>) -> bool {
    forall|i: int, j: int| 0 <= i < j < entries.len() ==> entries[i].id < entries[j].id
}

impl ChannelIndex {
    /// The invariant of the index.
    pub open spec fn wf(&self) -> bool {
        strictly_sorted(self.entries@)
    }

    /// An index without channels.
    pub fn new() -> (r: Self)
        ensures
            r.wf(),
            r.entries@.len() == 0,
    {
        ChannelIndex { entries: Vec::new() }
    }

    /// Tells whether the index is in order.
    pub fn is_well_formed(&self) -> (r: bool)
        ensures
            r == self.wf(),
    {
        let n: usize = self.entries.len();
        if n == 0 {
            return true;
        }
        let mut k: usize = 1;
        while k < n
            invariant
                n == self.entries@.len(),
                1 <= k <= n,
                forall|i: int, j: int| 0 <= i < j < k ==> self.entries@[i].id < self.entries@[j].id,
            decreases n - k,
        {
            if self.entries[k - 1].id >= self.entries[k].id {
                return false;
            }
            k += 1;
        }
        true
    }

    /// Puts a channel into the index, in place of one with the same
    /// identifier if there is one. The other channels stay.
    pub fn insert(&mut self, id: u64, labels: Vec<String>)
        requires
            old(self).wf(),
        ensures
            final(self).wf(),
            forall|e: ChannelIndexEntry| #[trigger]
                final(self).entries@.contains(e) <==> (e == (ChannelIndexEntry { id, labels }) || (
                old(self).entries@.contains(e) && e.id != id)),
    {
        let n: usize = self.entries.len();
        let mut pos: usize = 0;
        while pos < n && self.entries[pos].id < id
            invariant
                n == self.entries@.len(),
                pos <= n,
                *self == *old(self),
                forall|k: int| 0 <= k < pos ==> self.entries@[k].id < id,
            decreases n - pos,
        {
            pos += 1;
        }
        let entry = ChannelIndexEntry { id, labels };
        let ghost before = self.entries@;
        if pos < n && self.entries[pos].id == id {
            self.entries.set(pos, entry);
            let ghost after = self.entries@;
            assert forall|e: ChannelIndexEntry| #[trigger]
                after.contains(e) <==> (e == entry || (before.contains(e) && e.id != id)) by {
                if after.contains(e) {
                    let j = choose|j: int| 0 <= j < after.len() && after[j] == e;
                    if j != pos {
                        assert(before[j] == e);
                    }
                }
                if e == entry {
                    assert(after[pos as int] == e);
                }
                if before.contains(e) && e.id != id {
                    let j = choose|j: int| 0 <= j < before.len() && before[j] == e;
                    assert(after[j] == e);
                }
            }
        } else {
            self.entries.insert(pos, entry);
            let ghost after = self.entries@;
            assert forall|e: ChannelIndexEntry| #[trigger]
                after.contains(e) <==> (e == entry || (before.contains(e) && e.id != id)) by {
                if after.contains(e) {
                    let j = choose|j: int| 0 <= j < after.len() && after[j] == e;
                    if j < pos {
                        assert(before[j] == e);
                    } else if j > pos {
                        assert(before[j - 1] == e);
                    }
                }
                if e == entry {
                    assert(after[pos as int] == e);
                }
                if before.contains(e) && e.id != id {
                    let j = choose|j: int| 0 <= j < before.len() && before[j] == e;
                    if j < pos {
                        assert(after[j] == e);
                    } else {
                        assert(after[j + 1] == e);
                    }
                }
            }
        }
    }
}

/// The link to one page of a channel.
pub open spec fn link_html(id: u64, i: nat, label: Seq<char>) -> Seq<char> {
    "<a href=\"./"@ + page_name_text(decimal(id as nat), i) + ".html\">"@ + label + "</a><br>\n"@
}

/// The links to the pages of one channel, in the order of its labels.
pub open spec fn channel_links_html(id: u64, labels: Seq<String>) -> Seq<char>
    decreases labels.len(),
{
    if labels.len() == 0 {
        Seq::empty()
    } else {
        channel_links_html(id, labels.drop_last()) + link_html(
            id,
            (labels.len() - 1) as nat,
            labels.last()@,
        )
    }
}

/// The links to the pages of every channel, channel after channel.
pub open spec fn index_links_html(entries: Seq<ChannelIndexEntry>) -> Seq<char>
    decreases entries.len(),
{
    if entries.len() == 0 {
        Seq::empty()
    } else {
        index_links_html(entries.drop_last()) + channel_links_html(
            entries.last().id,
            entries.last().labels@,
        )
    }
}

fn channel_links(entry: &ChannelIndexEntry) -> (s: String)
    ensures
        s@ == channel_links_html(entry.id, entry.labels@),
{
    let id_text = decimal_text(entry.id);
    let n: usize = entry.labels.len();
    let mut s = String::new();
    let mut i: usize = 0;
    while i < n
        invariant
            n == entry.labels@.len(),
            i <= n,
            id_text@ == decimal(entry.id as nat),
            s@ == channel_links_html(entry.id, entry.labels@.take(i as int)),
        decreases n - i,
    {
        assert(entry.labels@.take(i + 1).drop_last() =~= entry.labels@.take(i as int));
        let mut link = String::from_str("<a href=\"./");
        link.append(page_name(id_text.as_str(), i).as_str());
        link.append(".html\">");
        link.append(entry.labels[i].as_str());
        link.append("</a><br>\n");
        s.append(link.as_str());
        i += 1;
    }
    assert(entry.labels@.take(n as int) =~= entry.labels@);
    s
}

impl ChannelIndex {
    /// Writes the list of links that every page of the server shows: the
    /// channels by rising identifier, each with its pages in order.
    pub fn links(&self) -> (s: String)
        ensures
            s@ == index_links_html(self.entries@),
    {
        let n: usize = self.entries.len();
        let mut s = String::new();
        let mut i: usize = 0;
        while i < n
            invariant
                n == self.entries@.len(),
                i <= n,
                s@ == index_links_html(self.entries@.take(i as int)),
            decreases n - i,
        {
            assert(self.entries@.take(i + 1).drop_last() =~= self.entries@.take(i as int));
            s.append(channel_links(&self.entries[i]).as_str());
            i += 1;
        }
        assert(self.entries@.take(n as int) =~= self.entries@);
        s
    }
}

/// A directory with two entries named with `json`, the metadata and chunk
/// 0, or with fewer, gives its channel one label and no shard; one with
/// more gives a shard for each entry beyond the two.
pub proof fn lemma_shard_count(amount: nat)
    ensures
        amount <= 2 ==> shard_count(amount) == 0,
        amount >= 2 ==> shard_count(amount) == amount - 2,
{
}

} // verus!
