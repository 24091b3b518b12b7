//! From the fields of a page to the bytes of its file: the template is
//! expanded, and the result made smaller where that succeeds.

use crate::model::{channel_fields, server_fields, ChannelData, Fields, ServerData};
use crate::text::{chars_of, decimal, decimal_text, occurs_at, occurs_at_exec, same_text};
use vstd::prelude::*;
use vstd::string::*;
use vstd::utf8::encode_utf8;

verus! {

/// The template engine's error, carried through unread.
#[verifier::external_type_specification]
#[verifier::external_body]
pub struct ExRenderError(handlebars::RenderError);

/// The minifier's error, carried through unread.
#[verifier::external_type_specification]
#[verifier::external_body]
pub struct ExHTMLMinifierError(html_minifier::HTMLMinifierError);

/// What the template engine makes of a template and the fields, or `None`
/// where it fails on them.
pub uninterp spec fn template_output(
    template: Seq<char>,
    fields: Map<Seq<char>, Seq<char>>,
) -> Option<Seq<char>>;

/// What the minifier makes of an HTML text, or `None` where it fails on it.
pub uninterp spec fn minified_html(html: Seq<char>) -> Option<Seq<u8>>;

/// The characters that the template engine passes over between the parts of a tag.
pub open spec fn is_template_space(c: char) -> bool {
    c == ' ' || c == '\t' || c == '\n' || c == '\r'
}

/// At `star` stands the mark of a decorator and at `word`, with nothing
/// but space between, the decorator's name `inline`.
pub open spec fn declares_partial_at(template: Seq<char>, star: int, word: int) -> bool {
    &&& 0 <= star < word
    &&& template[star] == '*'
    &&& forall|k: int| star < k < word ==> is_template_space(#[trigger] template[k])
    &&& occurs_at(template, "inline"@, word)
}

/// The template may declare an inline partial: somewhere in it the mark of
/// a decorator is followed by the name `inline`. Every declaration of an
/// inline partial is written so; the text may also stand where it declares
/// nothing.
pub open spec fn declares_partial(template: Seq<char>) -> bool {
    exists|star: int, word: int| declares_partial_at(template, star, word)
}

/// Calls handlebars' `Registry::render_template` on a registry fresh from
/// `Registry::new`, with the fields as a sorted map from name to value: each
/// name stands once, so each field becomes one entry of the map. The engine's
/// result depends on the template and the fields alone; the contract gives it
/// its name and claims no more. A template that may declare an inline partial
/// is left out: such a partial can include itself, and the engine then does
/// not return. On a fresh registry no other partial can be found.
#[verifier::external_body]
fn expand_template(template: &str, fields: &Fields) -> (r: Result<String, handlebars::RenderError>)
    requires
        fields.wf(),
        !declares_partial(template@),
    ensures
        match r {
            Ok(s) => template_output(template@, fields@) == Some(s@),
            Err(_) => template_output(template@, fields@) is None,
        },
{
    let mut data = std::collections::BTreeMap::new();
    for (name, value) in fields.entries.iter() {
        data.insert(name.as_str(), value.as_str());
    }
    handlebars::Handlebars::new().render_template(template, &data)
}

/// Calls html_minifier's `minify`, which works with the minifier's default
/// options and ends the input. Its result depends on the text alone; the
/// contract gives it its name and claims no more.
#[verifier::external_body]
fn minify_html(html: &str) -> (r: Result<Vec<u8>, html_minifier::HTMLMinifierError>)
    ensures
        match r {
            Ok(b) => minified_html(html@) == Some(b@),
            Err(_) => minified_html(html@) is None,
        },
{
    html_minifier::minify(html).map(String::into_bytes)
}

/// Why a page was not made.
#[derive(Debug, Clone, Copy, PartialEq, Eq, Structural)]
pub enum PageError {
    /// The template engine failed on the template.
    Template,
    /// The template may declare an inline partial, which is not expanded.
    InlinePartial,
}

/// The bytes written for an expanded page: the minified text where there
/// is one, and the page as it is where the minifier failed.
pub open spec fn chosen_bytes(html: Seq<char>, minified: Option<Seq<u8>>) -> Seq<u8> {
    match minified {
        Some(b) => b,
        None => encode_utf8(html),
    }
}

/// The bytes of a page's file, or why there is none: the template may
/// declare an inline partial, or the template engine fails on it.
pub open spec fn page_file(template: Seq<char>, fields: Map<Seq<char>, Seq<char>>) -> Result<
    Seq<u8>,
    PageError,
> {
    if declares_partial(template) {
        Err(PageError::InlinePartial)
    } else {
        match template_output(template, fields) {
            Some(html) => Ok(chosen_bytes(html, minified_html(html))),
            None => Err(PageError::Template),
        }
    }
}

/// Tells whether a template may declare an inline partial.
pub fn has_inline_partial(template: &str) -> (r: bool)
    ensures
        r == declares_partial(template@),
{
    let v = chars_of(template);
    let pat = chars_of("inline");
    proof {
        reveal_strlit("inline");
    }
    let n: usize = v.len();
    let m: usize = pat.len();
    let mut i: usize = 0;
    while i < n
        invariant
            n == v@.len(),
            m == pat@.len(),
            m == 6,
            pat@ == "inline"@,
            pat@[0] == 'i',
            v@ == template@,
            i <= n,
            forall|a: int, b: int| 0 <= a < i ==> !declares_partial_at(v@, a, b),
        decreases n - i,
    {
        if v[i] == '*' {
            let mut j: usize = i + 1;
            while j < n && (v[j] == ' ' || v[j] == '\t' || v[j] == '\n' || v[j] == '\r')
                invariant
                    n == v@.len(),
                    i < j <= n,
                    forall|k: int| i < k < j ==> is_template_space(#[trigger] v@[k]),
                decreases n - j,
            {
                j += 1;
            }
            if j < n && n - j >= m && occurs_at_exec(&v, &pat, j) {
                assert(declares_partial_at(v@, i as int, j as int));
                return true;
            }
            assert forall|b: int| !declares_partial_at(v@, i as int, b) by {
                if declares_partial_at(v@, i as int, b) {
                    assert(v@.subrange(b, b + 6)[0] == pat@[0]);
                    assert(v@[b] == 'i');
                    if b < j {
                        assert(is_template_space(v@[b]));
                    } else if b > j {
                        assert(is_template_space(v@[j as int]));
                    }
                }
            }
        } else {
            assert forall|b: int| !declares_partial_at(v@, i as int, b) by {}
        }
        i += 1;
    }
    false
}

/// Chooses the bytes to write for an expanded page, given what the
/// minifier made of it.
pub fn output_bytes(html: &str, minified: Option<Vec<u8>>) -> (r: Vec<u8>)
    ensures
        r@ == chosen_bytes(
            html@,
            match minified {
                Some(b) => Some(b@),
                None => None,
            },
        ),
{
    match minified {
        Some(b) => b,
        None => html.as_bytes_vec(),
    }
}

/// Minifies an expanded page, and keeps it as it is where that fails.
pub fn finish_page(html: &str) -> (r: Vec<u8>)
    ensures
        r@ == chosen_bytes(html@, minified_html(html@)),
{
    match minify_html(html) {
        Ok(b) => output_bytes(html, Some(b)),
        Err(_) => output_bytes(html, None),
    }
}

/// Makes the bytes of a page's file from the template and the fields. It
/// refuses a template that may declare an inline partial, and fails
/// otherwise exactly where the template engine does.
pub fn page_bytes(template: &str, fields: &Fields) -> (r: Result<Vec<u8>, PageError>)
    requires
        fields.wf(),
    ensures
        match page_file(template@, fields@) {
            Ok(bytes) => r is Ok && r->Ok_0@ == bytes,
            Err(e) => r is Err && r->Err_0 == e,
        },
{
    if has_inline_partial(template) {
        return Err(PageError::InlinePartial);
    }
    match expand_template(template, fields) {
        Ok(html) => Ok(finish_page(html.as_str())),
        Err(_) => Err(PageError::Template),
    }
}

/// The fields of a server's index page.
pub open spec fn index_page_fields(server: ServerData, links: Seq<char>) -> Map<
    Seq<char>,
    Seq<char>,
> {
    server_fields(server, Map::empty()).insert("channels"@, links)
}

/// Collects the fields of a server's index page.
pub fn server_index_fields(server: &ServerData, links: &str) -> (r: Fields)
    ensures
        r.wf(),
        r@ == index_page_fields(*server, links@),
{
    let mut data = Fields::new();
    server.register(&mut data);
    data.insert("channels", String::from_str(links));
    data
}

/// The fields of the channels whose identifier, written in decimal, is the
/// name of the directory that a chunk lies in.
pub open spec fn matching_channel_fields(channels: Seq<ChannelData>, channel_id: Seq<char>) -> Map<
    Seq<char>,
    Seq<char>,
>
    decreases channels.len(),
{
    if channels.len() == 0 {
        Map::empty()
    } else {
        let base = matching_channel_fields(channels.drop_last(), channel_id);
        if decimal(channels.last().id as nat) == channel_id {
            channel_fields(channels.last(), base)
        } else {
            base
        }
    }
}

/// Where the list holds a channel of the directory's name, the fields of
/// the last such channel are among those collected, whatever other channels
/// stand in the list.
pub proof fn lemma_matching_channel_found(channels: Seq<ChannelData>, channel_id: Seq<char>, k: int)
    requires
        0 <= k < channels.len(),
        decimal(channels[k].id as nat) == channel_id,
        forall|j: int| k < j < channels.len() ==> decimal(channels[j].id as nat) != channel_id,
    ensures
        matching_channel_fields(channels, channel_id).contains_pair("channel_id"@, channel_id),
        matching_channel_fields(channels, channel_id).contains_pair(
            "channel_name"@,
            channels[k].name@,
        ),
        matching_channel_fields(channels, channel_id).contains_pair(
            "channel_topic"@,
            channels[k].topic@,
        ),
    decreases channels.len(),
{
    reveal_strlit("channel_id");
    reveal_strlit("channel_name");
    reveal_strlit("channel_topic");
    assert("channel_id"@.len() == 10);
    assert("channel_name"@.len() == 12);
    assert("channel_topic"@.len() == 13);
    let init = channels.drop_last();
    if k < channels.len() - 1 {
        assert(init[k] == channels[k]);
        assert forall|j: int| k < j < init.len() implies decimal(init[j].id as nat)
            != channel_id by {
            assert(init[j] == channels[j]);
        }
        lemma_matching_channel_found(init, channel_id, k);
        assert(decimal(channels.last().id as nat) != channel_id);
        assert(matching_channel_fields(channels, channel_id) == matching_channel_fields(
            init,
            channel_id,
        ));
    } else {
        assert(channels.last() == channels[k]);
        assert(matching_channel_fields(channels, channel_id) == channel_fields(
            channels[k],
            matching_channel_fields(init, channel_id),
        ));
    }
}

/// A channel page carries the fields of its channel beside those of the
/// page and the server.
pub proof fn lemma_channel_page_carries_channel(
    channels: Seq<ChannelData>,
    channel_id: Seq<char>,
    server: ServerData,
    links: Seq<char>,
    body: Seq<char>,
    k: int,
)
    requires
        0 <= k < channels.len(),
        decimal(channels[k].id as nat) == channel_id,
        forall|j: int| k < j < channels.len() ==> decimal(channels[j].id as nat) != channel_id,
    ensures
        ({
            let fields = channel_page_map(channels, channel_id, server, links, body);
            &&& fields.contains_pair("channel_id"@, channel_id)
            &&& fields.contains_pair("channel_name"@, channels[k].name@)
            &&& fields.contains_pair("channel_topic"@, channels[k].topic@)
            &&& fields.contains_pair("channels"@, links)
            &&& fields.contains_pair("data"@, body)
            &&& fields.contains_pair("server_icon"@, server.icon@)
            &&& fields.contains_pair("server_name"@, server.name@)
            &&& fields.contains_pair("server_id"@, decimal(server.id as nat))
        }),
{
    reveal_strlit("channel_id");
    reveal_strlit("channel_name");
    reveal_strlit("channel_topic");
    reveal_strlit("channels");
    reveal_strlit("data");
    reveal_strlit("server_icon");
    reveal_strlit("server_name");
    reveal_strlit("server_id");
    assert("channel_id"@.len() == 10);
    assert("channel_name"@.len() == 12);
    assert("channel_topic"@.len() == 13);
    assert("channels"@.len() == 8);
    assert("data"@.len() == 4);
    assert("server_icon"@.len() == 11);
    assert("server_name"@.len() == 11);
    assert("server_id"@.len() == 9);
    assert("server_icon"@[7] == 'i');
    assert("server_name"@[7] == 'n');
    lemma_matching_channel_found(channels, channel_id, k);
}

/// The fields of a channel page: the channel's metadata, the list of links,
/// the page's body, and the server's icon, name and identifier.
pub open spec fn channel_page_map(
    channels: Seq<ChannelData>,
    channel_id: Seq<char>,
    server: ServerData,
    links: Seq<char>,
    body: Seq<char>,
) -> Map<Seq<char>, Seq<char>> {
    matching_channel_fields(channels, channel_id).insert("channels"@, links).insert(
        "data"@,
        body,
    ).insert("server_icon"@, server.icon@).insert("server_name"@, server.name@).insert(
        "server_id"@,
        decimal(server.id as nat),
    )
}

/// Collects the fields of a channel page.
pub fn channel_page_fields(
    channels: &Vec<ChannelData>,
    channel_id: &str,
    server: &ServerData,
    links: &str,
    body: String,
) -> (r: Fields)
    ensures
        r.wf(),
        r@ == channel_page_map(channels@, channel_id@, *server, links@, body@),
{
    let mut data = Fields::new();
    let n: usize = channels.len();
    let mut i: usize = 0;
    while i < n
        invariant
            n == channels@.len(),
            i <= n,
            data.wf(),
            data@ == matching_channel_fields(channels@.take(i as int), channel_id@),
        decreases n - i,
    {
        assert(channels@.take(i + 1).drop_last() =~= channels@.take(i as int));
        if same_text(decimal_text(channels[i].id).as_str(), channel_id) {
            channels[i].register(&mut data);
        }
        i += 1;
    }
    assert(channels@.take(n as int) =~= channels@);
    data.insert("channels", String::from_str(links));
    data.insert("data", body);
    data.insert("server_icon", server.icon.clone());
    data.insert("server_name", server.name.clone());
    data.insert("server_id", decimal_text(server.id));
    data
}

/// The files that a run of writes leaves: each write replaces what its
/// path held.
pub open spec fn files_written(writes: Seq<(Seq<char>, Seq<u8>)>) -> Map<Seq<char>, Seq<u8>>
    decreases writes.len(),
{
    if writes.len() == 0 {
        Map::empty()
    } else {
        files_written(writes.drop_last()).insert(writes.last().0, writes.last().1)
    }
}

/// No two writes go to the same path.
pub open spec fn distinct_paths(writes: Seq<(Seq<char>, Seq<u8>)>) -> bool {
    forall|i: int, j: int| 0 <= i < j < writes.len() ==> writes[i].0 != writes[j].0
}

/// Where no two writes go to the same path, a path holds given bytes
/// exactly if a write put them there.
pub proof fn lemma_files_hold_writes(writes: Seq<(Seq<char>, Seq<u8>)>)
    requires
        distinct_paths(writes),
    ensures
        forall|path: Seq<char>, bytes: Seq<u8>| #[trigger]
            writes.contains((path, bytes)) <==> (files_written(writes).contains_key(path)
                && files_written(writes)[path] == bytes),
    decreases writes.len(),
{
    if writes.len() > 0 {
        let init = writes.drop_last();
        let last = writes.last();
        let n = init.len() as int;
        lemma_files_hold_writes(init);
        assert forall|path: Seq<char>, bytes: Seq<u8>| #[trigger]
            writes.contains((path, bytes)) <==> (files_written(writes).contains_key(path)
                && files_written(writes)[path] == bytes) by {
            if writes.contains((path, bytes)) {
                let i = choose|i: int| 0 <= i < writes.len() && writes[i] == (path, bytes);
                if i < n {
                    assert(init[i] == (path, bytes));
                    assert(init.contains((path, bytes)));
                    assert(writes[i].0 != writes[n].0);
                }
            }
            if files_written(writes).contains_key(path) && files_written(writes)[path] == bytes {
                if path == last.0 {
                    assert(writes[n] == (path, bytes));
                } else {
                    assert(init.contains((path, bytes)));
                    let i = choose|i: int| 0 <= i < init.len() && init[i] == (path, bytes);
                    assert(writes[i] == (path, bytes));
                }
            }
        }
    }
}

/// The files do not depend on the order in which the pages are written: two
/// runs that write the same pages, each path once, leave the same files.
pub proof fn lemma_files_independent_of_order(
    first: Seq<(Seq<char>, Seq<u8>)>,
    second: Seq<(Seq<char>, Seq<u8>)>,
)
    requires
        distinct_paths(first),
        distinct_paths(second),
        forall|w: (Seq<char>, Seq<u8>)| first.contains(w) <==> second.contains(w),
    ensures
        files_written(first) == files_written(second),
{
    lemma_files_hold_writes(first);
    lemma_files_hold_writes(second);
    let a = files_written(first);
    let b = files_written(second);
    assert forall|path: Seq<char>| a.contains_key(path) <==> b.contains_key(path) by {
        if a.contains_key(path) {
            assert(first.contains((path, a[path])));
            assert(second.contains((path, a[path])));
        }
        if b.contains_key(path) {
            assert(second.contains((path, b[path])));
            assert(first.contains((path, b[path])));
        }
    }
    assert forall|path: Seq<char>| a.contains_key(path) implies a[path] == b[path] by {
        assert(first.contains((path, a[path])));
        assert(second.contains((path, a[path])));
    }
    assert(a =~= b);
}

} // verus!
