//! From a chunk, or from a server's index, to the file of its page.

use crate::index::{
    index_links_html, output_path, output_path_text, page_name, page_name_text, ChannelIndex,
};
use crate::model::{ChannelData, Message, ServerData};
use crate::page::{
    channel_page_fields, channel_page_map, index_page_fields, page_bytes, page_file,
    server_index_fields, PageError,
};
use crate::render::{dates_hold, ids_numeric, page_body, render_chunk, MessageDates};
use vstd::prelude::*;
use vstd::string::*;

verus! {

/// A page ready to be written: where, and what.
pub struct PageFile {
    pub path: String,
    pub bytes: Vec<u8>,
}

/// Why a page was not built.
#[derive(Debug, Clone, Copy, PartialEq, Eq, Structural)]
pub enum BuildError {
    /// The identifier of a message of the chunk is no number.
    MessageId,
    /// The template engine failed on the template.
    Template,
    /// The template may declare an inline partial, which is not expanded.
    InlinePartial,
}

/// The error of a build that the making of the page's bytes failed with.
pub open spec fn build_error(e: PageError) -> BuildError {
    match e {
        PageError::Template => BuildError::Template,
        PageError::InlinePartial => BuildError::InlinePartial,
    }
}

fn to_build_error(e: PageError) -> (r: BuildError)
    ensures
        r == build_error(e),
{
    match e {
        PageError::Template => BuildError::Template,
        PageError::InlinePartial => BuildError::InlinePartial,
    }
}

/// The server, the channels and the link list that every page of a server shows.
pub struct ServerContext {
    /// The number in the name of the server's directory.
    pub dir_id: u64,
    pub server: ServerData,
    pub channels: Vec<ChannelData>,
    pub links: String,
}

/// `r` is what building the page at `path` from `fields` gives: the file
/// where the page's bytes are made, and the error where they are not.
pub open spec fn page_outcome(
    r: Result<PageFile, BuildError>,
    path: Seq<char>,
    template: Seq<char>,
    fields: Map<Seq<char>, Seq<char>>,
) -> bool {
    match page_file(template, fields) {
        Ok(bytes) => r is Ok && r->Ok_0.path@ == path && r->Ok_0.bytes@ == bytes,
        Err(e) => r is Err && r->Err_0 == build_error(e),
    }
}

/// `r` is what building the page of a channel's chunk from its body gives.
pub open spec fn channel_page_outcome(
    r: Result<PageFile, BuildError>,
    body: Seq<char>,
    chunk: nat,
    channel_id: Seq<char>,
    context: ServerContext,
    template: Seq<char>,
) -> bool {
    page_outcome(
        r,
        output_path_text(context.server.id, page_name_text(channel_id, chunk)),
        template,
        channel_page_map(
            context.channels@,
            channel_id,
            context.server,
            context.links@,
            body,
        ),
    )
}

/// Builds the page of a server's index. The page lists the channels of the
/// index and is written as `index` in the server's directory.
pub fn index_page(server: &ServerData, index: &ChannelIndex, template: &str) -> (r: Result<
    PageFile,
    BuildError,
>)
    ensures
        page_outcome(
            r,
            output_path_text(server.id, "index"@),
            template@,
            index_page_fields(*server, index_links_html(index.entries@)),
        ),
{
    let links = index.links();
    let fields = server_index_fields(server, links.as_str());
    match page_bytes(template, &fields) {
        Ok(bytes) => Ok(PageFile { path: output_path(server.id, "index"), bytes }),
        Err(e) => Err(to_build_error(e)),
    }
}

/// Builds the page of a channel's chunk from the body of the page.
pub fn channel_page_from_body(
    body: String,
    chunk: usize,
    channel_id: &str,
    context: &ServerContext,
    template: &str,
) -> (r: Result<PageFile, BuildError>)
    ensures
        channel_page_outcome(r, body@, chunk as nat, channel_id@, *context, template@),
{
    let fields = channel_page_fields(
        &context.channels,
        channel_id,
        &context.server,
        context.links.as_str(),
        body,
    );
    match page_bytes(template, &fields) {
        Ok(bytes) => {
            let name = page_name(channel_id, chunk);
            Ok(PageFile { path: output_path(context.server.id, name.as_str()), bytes })
        },
        Err(e) => Err(to_build_error(e)),
    }
}

/// Builds the page of a channel's chunk from the chunk as the export holds
/// it, newest message first. The page depends on the chunk, on its number,
/// on the channel's directory and on the server's context alone; the dates
/// in it are those of the messages' identifiers, at the offset of the
/// machine's time zone. A chunk with an identifier that is
/// no number has no page.
pub fn channel_page(
    messages: &Vec<Message>,
    chunk: usize,
    channel_id: &str,
    context: &ServerContext,
    template: &str,
) -> (r: Result<PageFile, BuildError>)
    ensures
        !ids_numeric(messages@) ==> r is Err && r->Err_0 == BuildError::MessageId,
        ids_numeric(messages@) ==> exists|dates: Seq<MessageDates>|
            #[trigger] dates_hold(messages@, dates) && channel_page_outcome(
                r,
                page_body(messages@.reverse(), dates.reverse(), context.dir_id, channel_id@),
                chunk as nat,
                channel_id@,
                *context,
                template@,
            ),
{
    match render_chunk(messages, context.dir_id, channel_id) {
        Ok(body) => {
            let ghost dates = choose|dates: Seq<MessageDates>|
                #[trigger] dates_hold(messages@, dates) && body@ == page_body(
                    messages@.reverse(),
                    dates.reverse(),
                    context.dir_id,
                    channel_id@,
                );
            let r = channel_page_from_body(body, chunk, channel_id, context, template);
            assert(dates_hold(messages@, dates));
            r
        },
        Err(_) => Err(BuildError::MessageId),
    }
}

} // verus!
