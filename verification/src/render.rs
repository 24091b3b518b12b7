//! The HTML of a channel page: one fragment per message, oldest message first.
//!
//! Names, contents and addresses go into the page as they are: nothing is
//! escaped here. A page depends on its own chunk and on the metadata alone.

use crate::model::{lenient_id, Attachments, Message, ReferencedMessage};
use crate::size::{format_size, size_text};
use crate::text::{bool_str, bool_text, decimal, decimal_text, parse_number, parse_unsigned};
use crate::time::{get_date, is_local_date};
use vstd::prelude::*;
use vstd::string::*;

verus! {

/// The line of an attachment inside a quoted message: the image is taken
/// from the attachment's own address.
pub open spec fn quoted_attachment_html(a: Attachments) -> Seq<char> {
    "\n<img src="@
        + a.url@
        + " alt=\"\" />\n<br>\nName: "@
        + a.filename@
        + " Size: "@
        + size_text(a.size)
        + " Id: "@
        + a.id@
        + " Ephermeral: "@
        + bool_text(a.ephermeral)
        + "\n<br> \n\n                                        "@
}

/// Where the page finds an attachment of one of its own messages: below the
/// server's and the channel's directory, under the attachment's identifier.
pub open spec fn attachment_path(server_id: u64, channel_id: Seq<char>, a: Attachments) -> Seq<
    char,
> {
    "../../"@ + decimal(server_id as nat) + "/"@ + channel_id + "/"@ + a.id@ + "/"@ + a.filename@
}

/// The line of an attachment of a message.
pub open spec fn attachment_html(server_id: u64, channel_id: Seq<char>, a: Attachments) -> Seq<
    char,
> {
    "\n<img src="@
        + attachment_path(server_id, channel_id, a)
        + " alt=\"\" />\n<br>\nName: "@
        + a.filename@
        + " Size: "@
        + size_text(a.size)
        + " Id: "@
        + a.id@
        + " Ephermeral: "@
        + bool_text(a.ephermeral)
        + "\n<br> \n\n                                    "@
}

/// The lines of a quoted message's attachments, in their order.
pub open spec fn quoted_attachments_html(list: Seq<Attachments>) -> Seq<char>
    decreases list.len(),
{
    if list.len() == 0 {
        Seq::empty()
    } else {
        quoted_attachments_html(list.drop_last()) + quoted_attachment_html(list.last())
    }
}

/// The lines of a message's attachments, in their order.
pub open spec fn attachments_html(
    server_id: u64,
    channel_id: Seq<char>,
    list: Seq<Attachments>,
) -> Seq<char>
    decreases list.len(),
{
    if list.len() == 0 {
        Seq::empty()
    } else {
        attachments_html(server_id, channel_id, list.drop_last()) + attachment_html(
            server_id,
            channel_id,
            list.last(),
        )
    }
}

/// The block of one quoted message, given its date and its attachment lines.
pub open spec fn quoted_html(
    r: ReferencedMessage,
    date: Seq<char>,
    attachments: Seq<char>,
) -> Seq<char> {
    "\n<div class=\"message\">\n    <div class=\"author\">\n        <img src=\""@
        + r.author.avatar@
        + "\" alt=\"\" />\n        ORIGINAL: "@
        + r.author.username@
        + "#"@
        + r.author.discriminator@
        + " ("@
        + r.author.id@
        + ") <br>\n        Bot: "@
        + bool_text(r.author.bot)
        + " Mfa: "@
        + bool_text(r.author.mfa)
        + " Pinned: "@
        + bool_text(r.pinned)
        + " Timestamp: "@
        + date
        + "\n    </div>\n    <div class=\"content\">\n        "@
        + r.content@
        + " \n    </div>\n    <div class=\"attachments\">\n        "@
        + attachments
        + "\n    </div>\n</div>\n                                    "@
}

/// The blocks of the quoted messages, in their order, each with its own
/// attachment lines.
pub open spec fn quoted_list_html(list: Seq<ReferencedMessage>, dates: Seq<String>) -> Seq<char>
    decreases list.len(),
{
    if list.len() == 0 || dates.len() != list.len() {
        Seq::empty()
    } else {
        quoted_list_html(list.drop_last(), dates.drop_last()) + quoted_html(
            list.last(),
            dates.last()@,
            quoted_attachments_html(list.last().attachments@),
        )
    }
}

/// What a message shows of the messages that it replies to: nothing where
/// it replies to none; else a block for each.
pub open spec fn reference_html(m: Message, reply_dates: Seq<String>) -> Seq<char> {
    quoted_list_html(m.referenced_message@, reply_dates)
}

/// The mark that stands before the author and the content of a reply.
pub open spec fn reply_indicator(reference: Seq<char>) -> Seq<char> {
    if reference.len() == 0 {
        Seq::empty()
    } else {
        "REPLY: "@
    }
}

/// The fragment of a message from its parts.
pub open spec fn message_frame(
    m: Message,
    date: Seq<char>,
    reference: Seq<char>,
    attachments: Seq<char>,
) -> Seq<char> {
    "\n<div class=\"message\">\n    <div class=\"reply\">\n        "@
        + reference
        + "\n    </div>\n    <div class=\"author\">\n        <img src=\""@
        + m.author.avatar@
        + "\" alt=\"\" /> <br>\n        "@
        + reply_indicator(reference)
        + ""@
        + m.author.username@
        + "#"@
        + m.author.discriminator@
        + " ("@
        + m.author.id@
        + ") <br>\n        Bot: "@
        + bool_text(m.author.bot)
        + " Mfa: "@
        + bool_text(m.author.mfa)
        + " Pinned: "@
        + bool_text(m.pinned)
        + " Timestamp: "@
        + date
        + "\n    </div>\n    <div class=\"content\">\n        "@
        + reply_indicator(reference)
        + ""@
        + m.content@
        + " \n    </div>\n    <div class=\"attachments\">\n        "@
        + attachments
        + "\n    </div>\n</div>\n                            "@
}

/// The fragment of one message: the messages that it replies to, its author,
/// its date, its content and its attachments.
pub open spec fn message_html(
    m: Message,
    dates: MessageDates,
    server_id: u64,
    channel_id: Seq<char>,
) -> Seq<char> {
    message_frame(
        m,
        dates.own@,
        reference_html(m, dates.replies@),
        attachments_html(server_id, channel_id, m.attachments@),
    )
}

/// The fragments of `messages` one after the other, the first message first.
pub open spec fn page_body(
    messages: Seq<Message>,
    dates: Seq<MessageDates>,
    server_id: u64,
    channel_id: Seq<char>,
) -> Seq<char>
    decreases messages.len(),
{
    if messages.len() == 0 || dates.len() != messages.len() {
        Seq::empty()
    } else {
        page_body(messages.drop_last(), dates.drop_last(), server_id, channel_id) + message_html(
            messages.last(),
            dates.last(),
            server_id,
            channel_id,
        )
    }
}

/// The dates that a message shows: its own and one for each message that it
/// replies to.
pub struct MessageDates {
    pub own: String,
    pub replies: Vec<String>,
}

/// There is a date for each message and for each message replied to.
pub open spec fn dates_fit(messages: Seq<Message>, dates: Seq<MessageDates>) -> bool {
    &&& dates.len() == messages.len()
    &&& forall|i: int|
        0 <= i < messages.len() ==> (#[trigger] dates[i]).replies@.len()
            == messages[i].referenced_message@.len()
}

/// The identifier of a message is a number of 64 bits.
pub open spec fn is_id(s: Seq<char>) -> bool {
    parse_unsigned(s, u64::MAX as nat) is Some
}

/// The identifiers of a message and of the messages that it replies to are numbers.
pub open spec fn message_ids_numeric(m: Message) -> bool {
    &&& is_id(m.id@)
    &&& forall|j: int|
        0 <= j < m.referenced_message@.len() ==> is_id((#[trigger] m.referenced_message@[j]).id@)
}

/// Every message of the chunk has numeric identifiers.
pub open spec fn ids_numeric(messages: Seq<Message>) -> bool {
    forall|i: int| 0 <= i < messages.len() ==> message_ids_numeric(#[trigger] messages[i])
}

/// The dates are those of the message: each is the date of the instant
/// that the identifier beside it encodes, at some offset from UTC.
pub open spec fn message_dates_hold(m: Message, dates: MessageDates) -> bool {
    &&& dates.replies@.len() == m.referenced_message@.len()
    &&& is_local_date(lenient_id(m.id@), dates.own@)
    &&& forall|j: int|
        0 <= j < m.referenced_message@.len() ==> is_local_date(
            lenient_id(m.referenced_message@[j].id@),
            (#[trigger] dates.replies@[j])@,
        )
}

/// The dates are those of the chunk's messages, one set for each message.
pub open spec fn dates_hold(messages: Seq<Message>, dates: Seq<MessageDates>) -> bool {
    &&& dates_fit(messages, dates)
    &&& forall|i: int|
        0 <= i < messages.len() ==> message_dates_hold(messages[i], #[trigger] dates[i])
}

/// Why a chunk has no page.
#[derive(Debug, Clone, Copy, PartialEq, Eq, Structural)]
pub enum ChunkError {
    /// The identifier of a message, or of a message replied to, is no number.
    MessageId,
}

fn quoted_attachment_string(a: &Attachments) -> (s: String)
    ensures
        s@ == quoted_attachment_html(*a),
{
    let mut s = String::from_str("\n<img src=");
    s.append(a.url.as_str());
    s.append(" alt=\"\" />\n<br>\nName: ");
    s.append(a.filename.as_str());
    s.append(" Size: ");
    s.append(format_size(a.size).as_str());
    s.append(" Id: ");
    s.append(a.id.as_str());
    s.append(" Ephermeral: ");
    s.append(bool_str(a.ephermeral));
    s.append("\n<br> \n\n                                        ");
    s
}

fn attachment_string(server_id: u64, channel_id: &str, a: &Attachments) -> (s: String)
    ensures
        s@ == attachment_html(server_id, channel_id@, *a),
{
    let mut path = String::from_str("../../");
    path.append(decimal_text(server_id).as_str());
    path.append("/");
    path.append(channel_id);
    path.append("/");
    path.append(a.id.as_str());
    path.append("/");
    path.append(a.filename.as_str());
    let mut s = String::from_str("\n<img src=");
    s.append(path.as_str());
    s.append(" alt=\"\" />\n<br>\nName: ");
    s.append(a.filename.as_str());
    s.append(" Size: ");
    s.append(format_size(a.size).as_str());
    s.append(" Id: ");
    s.append(a.id.as_str());
    s.append(" Ephermeral: ");
    s.append(bool_str(a.ephermeral));
    s.append("\n<br> \n\n                                    ");
    s
}

/// Writes the attachment lines of a quoted message.
pub fn render_quoted_attachments(list: &Vec<Attachments>) -> (s: String)
    ensures
        s@ == quoted_attachments_html(list@),
{
    let mut s = String::new();
    let n: usize = list.len();
    let mut i: usize = 0;
    while i < n
        invariant
            n == list@.len(),
            i <= n,
            s@ == quoted_attachments_html(list@.take(i as int)),
        decreases n - i,
    {
        assert(list@.take(i + 1).drop_last() =~= list@.take(i as int));
        s.append(quoted_attachment_string(&list[i]).as_str());
        i += 1;
    }
    assert(list@.take(n as int) =~= list@);
    s
}

/// Writes the attachment lines of a message.
pub fn render_attachments(server_id: u64, channel_id: &str, list: &Vec<Attachments>) -> (s: String)
    ensures
        s@ == attachments_html(server_id, channel_id@, list@),
{
    let mut s = String::new();
    let n: usize = list.len();
    let mut i: usize = 0;
    while i < n
        invariant
            n == list@.len(),
            i <= n,
            s@ == attachments_html(server_id, channel_id@, list@.take(i as int)),
        decreases n - i,
    {
        assert(list@.take(i + 1).drop_last() =~= list@.take(i as int));
        s.append(attachment_string(server_id, channel_id, &list[i]).as_str());
        i += 1;
    }
    assert(list@.take(n as int) =~= list@);
    s
}

fn quoted_string(r: &ReferencedMessage, date: &str, attachments: &str) -> (s: String)
    ensures
        s@ == quoted_html(*r, date@, attachments@),
{
    let mut s = String::from_str("\n<div class=\"message\">\n    <div class=\"author\">\n        <img src=\"");
    s.append(r.author.avatar.as_str());
    s.append("\" alt=\"\" />\n        ORIGINAL: ");
    s.append(r.author.username.as_str());
    s.append("#");
    s.append(r.author.discriminator.as_str());
    s.append(" (");
    s.append(r.author.id.as_str());
    s.append(") <br>\n        Bot: ");
    s.append(bool_str(r.author.bot));
    s.append(" Mfa: ");
    s.append(bool_str(r.author.mfa));
    s.append(" Pinned: ");
    s.append(bool_str(r.pinned));
    s.append(" Timestamp: ");
    s.append(date);
    s.append("\n    </div>\n    <div class=\"content\">\n        ");
    s.append(r.content.as_str());
    s.append(" \n    </div>\n    <div class=\"attachments\">\n        ");
    s.append(attachments);
    s.append("\n    </div>\n</div>\n                                    ");
    s
}

/// Writes what a message shows of the messages that it replies to.
pub fn render_reference(m: &Message, reply_dates: &Vec<String>) -> (s: String)
    requires
        reply_dates@.len() == m.referenced_message@.len(),
    ensures
        s@ == reference_html(*m, reply_dates@),
{
    let n: usize = m.referenced_message.len();
    let mut s = String::new();
    let mut i: usize = 0;
    while i < n
        invariant
            n == m.referenced_message@.len(),
            n == reply_dates@.len(),
            i <= n,
            s@ == quoted_list_html(
                m.referenced_message@.take(i as int),
                reply_dates@.take(i as int),
            ),
        decreases n - i,
    {
        assert(m.referenced_message@.take(i + 1).drop_last() =~= m.referenced_message@.take(
            i as int,
        ));
        assert(reply_dates@.take(i + 1).drop_last() =~= reply_dates@.take(i as int));
        let attachments = render_quoted_attachments(&m.referenced_message[i].attachments);
        s.append(
            quoted_string(
                &m.referenced_message[i],
                reply_dates[i].as_str(),
                attachments.as_str(),
            ).as_str(),
        );
        i += 1;
    }
    assert(m.referenced_message@.take(n as int) =~= m.referenced_message@);
    assert(reply_dates@.take(n as int) =~= reply_dates@);
    s
}

fn message_frame_string(m: &Message, date: &str, reference: &str, attachments: &str) -> (s: String)
    ensures
        s@ == message_frame(*m, date@, reference@, attachments@),
{
    let indicator: &str = if reference.is_empty() {
        ""
    } else {
        "REPLY: "
    };
    proof {
        reveal_strlit("");
        assert(""@ =~= Seq::<char>::empty());
    }
    let mut s = String::from_str("\n<div class=\"message\">\n    <div class=\"reply\">\n        ");
    s.append(reference);
    s.append("\n    </div>\n    <div class=\"author\">\n        <img src=\"");
    s.append(m.author.avatar.as_str());
    s.append("\" alt=\"\" /> <br>\n        ");
    s.append(indicator);
    s.append("");
    s.append(m.author.username.as_str());
    s.append("#");
    s.append(m.author.discriminator.as_str());
    s.append(" (");
    s.append(m.author.id.as_str());
    s.append(") <br>\n        Bot: ");
    s.append(bool_str(m.author.bot));
    s.append(" Mfa: ");
    s.append(bool_str(m.author.mfa));
    s.append(" Pinned: ");
    s.append(bool_str(m.pinned));
    s.append(" Timestamp: ");
    s.append(date);
    s.append("\n    </div>\n    <div class=\"content\">\n        ");
    s.append(indicator);
    s.append("");
    s.append(m.content.as_str());
    s.append(" \n    </div>\n    <div class=\"attachments\">\n        ");
    s.append(attachments);
    s.append("\n    </div>\n</div>\n                            ");
    s
}

/// Writes the fragment of one message, given the dates to show.
pub fn render_message(m: &Message, dates: &MessageDates, server_id: u64, channel_id: &str) -> (s:
    String)
    requires
        dates.replies@.len() == m.referenced_message@.len(),
    ensures
        s@ == message_html(*m, *dates, server_id, channel_id@),
{
    let reference = render_reference(m, &dates.replies);
    let attachments = render_attachments(server_id, channel_id, &m.attachments);
    message_frame_string(m, dates.own.as_str(), reference.as_str(), attachments.as_str())
}

/// Writes the body of a chunk's page from the chunk as the export holds it,
/// newest message first, and the dates to show, in the same order. The page
/// shows the messages the other way round: oldest first.
pub fn render_chunk_with(
    messages: &Vec<Message>,
    dates: &Vec<MessageDates>,
    server_id: u64,
    channel_id: &str,
) -> (s: String)
    requires
        dates_fit(messages@, dates@),
    ensures
        s@ == page_body(messages@.reverse(), dates@.reverse(), server_id, channel_id@),
{
    let n: usize = messages.len();
    let mut s = String::new();
    let mut i: usize = n;
    while i > 0
        invariant
            n == messages@.len(),
            dates_fit(messages@, dates@),
            i <= n,
            s@ == page_body(
                messages@.subrange(i as int, n as int).reverse(),
                dates@.subrange(i as int, n as int).reverse(),
                server_id,
                channel_id@,
            ),
        decreases i,
    {
        i -= 1;
        proof {
            let ms = messages@.subrange(i as int, n as int).reverse();
            let ds = dates@.subrange(i as int, n as int).reverse();
            assert(ms.drop_last() =~= messages@.subrange(i + 1, n as int).reverse());
            assert(ds.drop_last() =~= dates@.subrange(i + 1, n as int).reverse());
            assert(ms.last() == messages@[i as int]);
            assert(ds.last() == dates@[i as int]);
        }
        s.append(render_message(&messages[i], &dates[i], server_id, channel_id).as_str());
    }
    assert(messages@.subrange(0, n as int) =~= messages@);
    assert(dates@.subrange(0, n as int) =~= dates@);
    s
}

/// Finds the dates that a message shows. There are none where one of its
/// identifiers is no number.
pub fn message_dates(m: &Message) -> (r: Option<MessageDates>)
    ensures
        r is Some <==> message_ids_numeric(*m),
        r is Some ==> message_dates_hold(*m, r->0),
{
    let own = match parse_number(m.id.as_str(), u64::MAX) {
        Some(id) => get_date(id),
        None => {
            return None;
        },
    };
    let n: usize = m.referenced_message.len();
    let mut replies: Vec<String> = Vec::new();
    let mut j: usize = 0;
    while j < n
        invariant
            n == m.referenced_message@.len(),
            j <= n,
            replies@.len() == j,
            forall|k: int| 0 <= k < j ==> is_id((#[trigger] m.referenced_message@[k]).id@),
            forall|k: int|
                0 <= k < j ==> is_local_date(
                    lenient_id(m.referenced_message@[k].id@),
                    (#[trigger] replies@[k])@,
                ),
        decreases n - j,
    {
        match parse_number(m.referenced_message[j].id.as_str(), u64::MAX) {
            Some(id) => {
                replies.push(get_date(id));
            },
            None => {
                return None;
            },
        }
        j += 1;
    }
    Some(MessageDates { own, replies })
}

/// Finds the dates of every message of a chunk, in the chunk's order.
pub fn chunk_dates(messages: &Vec<Message>) -> (r: Option<Vec<MessageDates>>)
    ensures
        r is Some <==> ids_numeric(messages@),
        r is Some ==> dates_hold(messages@, r->0@),
{
    let n: usize = messages.len();
    let mut dates: Vec<MessageDates> = Vec::new();
    let mut i: usize = 0;
    while i < n
        invariant
            n == messages@.len(),
            i <= n,
            dates@.len() == i,
            forall|k: int| 0 <= k < i ==> message_ids_numeric(#[trigger] messages@[k]),
            forall|k: int| 0 <= k < i ==> message_dates_hold(messages@[k], #[trigger] dates@[k]),
        decreases n - i,
    {
        match message_dates(&messages[i]) {
            Some(d) => {
                dates.push(d);
            },
            None => {
                return None;
            },
        }
        i += 1;
    }
    Some(dates)
}

/// Writes the body of a chunk's page from the chunk as the export holds it,
/// newest message first. Each date is that of the instant which the
/// identifier beside it encodes, at the offset of the machine's time zone;
/// the page shows the messages oldest first. A chunk with an identifier that
/// is no number has no page.
pub fn render_chunk(messages: &Vec<Message>, server_id: u64, channel_id: &str) -> (r: Result<
    String,
    ChunkError,
>)
    ensures
        r is Ok <==> ids_numeric(messages@),
        r is Ok ==> exists|dates: Seq<MessageDates>|
            #[trigger] dates_hold(messages@, dates) && r->Ok_0@ == page_body(
                messages@.reverse(),
                dates.reverse(),
                server_id,
                channel_id@,
            ),
        r is Err ==> r->Err_0 == ChunkError::MessageId,
{
    match chunk_dates(messages) {
        Some(dates) => Ok(render_chunk_with(messages, &dates, server_id, channel_id)),
        None => Err(ChunkError::MessageId),
    }
}

/// The newest message of a chunk, which the export holds first, is the last
/// on the page: the page of the chunk is the page of the older messages
/// followed by the fragment of the newest.
pub proof fn lemma_newest_is_last(
    newest: Message,
    newest_dates: MessageDates,
    older: Seq<Message>,
    older_dates: Seq<MessageDates>,
    server_id: u64,
    channel_id: Seq<char>,
)
    requires
        older_dates.len() == older.len(),
    ensures
        page_body(
            (seq![newest] + older).reverse(),
            (seq![newest_dates] + older_dates).reverse(),
            server_id,
            channel_id,
        ) == page_body(older.reverse(), older_dates.reverse(), server_id, channel_id)
            + message_html(newest, newest_dates, server_id, channel_id),
{
    let ms = (seq![newest] + older).reverse();
    let ds = (seq![newest_dates] + older_dates).reverse();
    assert(ms.drop_last() =~= older.reverse());
    assert(ds.drop_last() =~= older_dates.reverse());
    assert(ms.last() == newest);
    assert(ds.last() == newest_dates);
}

/// A message without attachments and without a message replied to has an
/// empty attachment block and an empty reply block.
pub proof fn lemma_plain_message(
    m: Message,
    dates: MessageDates,
    server_id: u64,
    channel_id: Seq<char>,
)
    requires
        m.attachments@.len() == 0,
        m.referenced_message@.len() == 0,
    ensures
        reference_html(m, dates.replies@) == Seq::<char>::empty(),
        attachments_html(server_id, channel_id, m.attachments@) == Seq::<char>::empty(),
        message_html(m, dates, server_id, channel_id) == message_frame(
            m,
            dates.own@,
            Seq::empty(),
            Seq::empty(),
        ),
{
}

} // verus!
