//! Accounting events as text for logs. The content of completed Resources stays out.

use vstd::prelude::*;
use vstd::string::StringExecFns;

use crate::events::{
    AccountingModel, CompletionModel, ConclusionModel, EventModel, LinkManagerAccountingEvent,
    LinkResourceConclusion, LinkResourceDirection, LinkResourceEvent,
};
use crate::text::{decimal, decimal_text};

verus! {

/// The lowercase hexadecimal digit of `n`.
pub open spec fn hex_digit(n: int) -> char {
    "0123456789abcdef"@[n]
}

/// Two digits for each byte, the higher one first.
pub open spec fn hex_text(data: Seq<u8>) -> Seq<char> {
    Seq::new(
        2 * data.len(),
        |i: int|
            if i % 2 == 0 {
                hex_digit(data[i / 2] as int / 16)
            } else {
                hex_digit(data[i / 2] as int % 16)
            },
    )
}

/// Calls `hex::encode`, which gives two lowercase hexadecimal digits for each byte, the
/// digit of its upper four bits first.
#[verifier::external_body]
fn encode_hex(data: &[u8]) -> (r: String)
    ensures
        r@ == hex_text(data@),
{
    hex::encode(data)
}

/// What std's `Debug` makes of a text: the text in double quotes, with escapes.
pub uninterp spec fn quoted(text: Seq<char>) -> Seq<char>;

/// Formats a text with std's `Debug`. The result depends on the text alone.
#[verifier::external_body]
fn quote(text: &str) -> (r: String)
    ensures
        r@ == quoted(text@),
{
    format!("{text:?}")
}

/// The numbers of the bytes, separated by commas.
pub open spec fn listed(data: Seq<u8>) -> Seq<char>
    decreases data.len(),
{
    if data.len() == 0 {
        Seq::empty()
    } else if data.len() == 1 {
        decimal(data[0] as nat)
    } else {
        listed(data.drop_last()) + ", "@ + decimal(data.last() as nat)
    }
}

fn list_text(data: &[u8]) -> (r: String)
    ensures
        r@ == listed(data@),
{
    let mut r = String::new();
    let mut i: usize = 0;
    assert(r@ =~= listed(data@.take(0)));
    while i < data.len()
        invariant
            i <= data.len(),
            r@ == listed(data@.take(i as int)),
        decreases data.len() - i,
    {
        proof {
            assert(data@.take(i + 1).drop_last() =~= data@.take(i as int));
            assert(data@.take(i + 1).last() == data@[i as int]);
            assert(data@.take(i + 1)[0] == data@[0]);
        }
        if i > 0 {
            r.append(", ");
        }
        r.append(decimal_text(data[i] as usize).as_str());
        assert(r@ =~= listed(data@.take(i + 1)));
        i = i + 1;
    }
    assert(data@.take(i as int) =~= data@);
    r
}

pub open spec fn direction_name(direction: LinkResourceDirection) -> Seq<char> {
    match direction {
        LinkResourceDirection::Inbound => "Inbound"@,
        LinkResourceDirection::Outbound => "Outbound"@,
    }
}

pub open spec fn conclusion_text(conclusion: ConclusionModel) -> Seq<char> {
    match conclusion {
        ConclusionModel::Complete => "Complete"@,
        ConclusionModel::Cancelled => "Cancelled"@,
        ConclusionModel::Rejected => "Rejected"@,
        ConclusionModel::Failed(reason) => "Failed("@ + quoted(reason) + ")"@,
    }
}

/// The common beginning of every Resource event.
pub open spec fn event_head(
    name: Seq<char>,
    link_id: [u8; 16],
    resource_id: [u8; 32],
    direction: LinkResourceDirection,
) -> Seq<char> {
    name + " { link_id: ["@ + listed(link_id@) + "], resource_id: ["@ + listed(resource_id@)
        + "], direction: "@ + direction_name(direction)
}

pub open spec fn event_text(event: EventModel) -> Seq<char> {
    match event {
        EventModel::Started { link_id, resource_id, direction, data_size, total_segments } => {
            event_head("Started"@, link_id, resource_id, direction) + ", data_size: "@ + decimal(
                data_size as nat,
            ) + ", total_segments: "@ + decimal(total_segments as nat) + " }"@
        },
        EventModel::Progress { link_id, resource_id, direction, transferred, total } => {
            event_head("Progress"@, link_id, resource_id, direction) + ", transferred: "@ + decimal(
                transferred as nat,
            ) + ", total: "@ + decimal(total as nat) + " }"@
        },
        EventModel::Concluded { link_id, resource_id, direction, conclusion } => {
            event_head("Concluded"@, link_id, resource_id, direction) + ", conclusion: "@
                + conclusion_text(conclusion) + " }"@
        },
    }
}

/// The length of optional data.
pub open spec fn length_text(data: Option<Seq<u8>>) -> Seq<char> {
    match data {
        Some(bytes) => "Some("@ + decimal(bytes.len()) + ")"@,
        None => "None"@,
    }
}

pub open spec fn accounting_text(event: AccountingModel) -> Seq<char> {
    match event {
        AccountingModel::LinkPacketProof(p) => "LinkPacketProof { link_id: \""@ + hex_text(
            p.link_id@,
        ) + "\", packet_hash: \""@ + hex_text(p.packet_hash@) + "\" }"@,
        AccountingModel::ResourceEvent(e) => "ResourceEvent("@ + event_text(e) + ")"@,
        AccountingModel::ResourceCompletion(c) => "ResourceCompletion { link_id: \""@ + hex_text(
            c.link_id@,
        ) + "\", resource_hash: \""@ + hex_text(c.resource_hash@) + "\", data_len: "@ + decimal(
            c.data.len(),
        ) + ", metadata_len: "@ + length_text(c.metadata) + " }"@,
        AccountingModel::LinkClosed { link_id } => "LinkClosed { link_id: \""@ + hex_text(link_id@)
            + "\" }"@,
    }
}

/// The text of a completion tells of its content only how long it is: two completions of
/// the same Resource with data and metadata of the same lengths read the same.
pub proof fn completion_content_is_redacted(a: CompletionModel, b: CompletionModel)
    requires
        a.link_id == b.link_id,
        a.resource_hash == b.resource_hash,
        a.data.len() == b.data.len(),
        match (a.metadata, b.metadata) {
            (Some(x), Some(y)) => x.len() == y.len(),
            (None, None) => true,
            _ => false,
        },
    ensures
        accounting_text(AccountingModel::ResourceCompletion(a)) == accounting_text(
            AccountingModel::ResourceCompletion(b),
        ),
{
}

fn render_head(
    name: &str,
    link_id: &[u8; 16],
    resource_id: &[u8; 32],
    direction: LinkResourceDirection,
) -> (r: String)
    ensures
        r@ == event_head(name@, *link_id, *resource_id, direction),
{
    let mut r = name.to_owned();
    r.append(" { link_id: [");
    r.append(list_text(link_id.as_slice()).as_str());
    r.append("], resource_id: [");
    r.append(list_text(resource_id.as_slice()).as_str());
    r.append("], direction: ");
    match direction {
        LinkResourceDirection::Inbound => {
            r.append("Inbound");
        },
        LinkResourceDirection::Outbound => {
            r.append("Outbound");
        },
    }
    r
}

/// A failure with its quoted reason.
pub fn failed_text(quoted_reason: &str) -> (r: String)
    ensures
        r@ == "Failed("@ + quoted_reason@ + ")"@,
{
    let mut r = "Failed(".to_owned();
    r.append(quoted_reason);
    r.append(")");
    r
}

impl LinkResourceConclusion {
    /// This conclusion as text.
    pub fn debug_text(&self) -> (r: String)
        ensures
            r@ == conclusion_text(self@),
    {
        match self {
            LinkResourceConclusion::Complete => "Complete".to_owned(),
            LinkResourceConclusion::Cancelled => "Cancelled".to_owned(),
            LinkResourceConclusion::Rejected => "Rejected".to_owned(),
            LinkResourceConclusion::Failed(reason) => failed_text(
                quote(reason.as_str()).as_str(),
            ),
        }
    }
}

impl LinkResourceEvent {
    /// This event as text.
    pub fn debug_text(&self) -> (r: String)
        ensures
            r@ == event_text(self@),
    {
        match self {
            LinkResourceEvent::Started {
                link_id,
                resource_id,
                direction,
                data_size,
                total_segments,
            } => {
                let mut r = render_head("Started", link_id, resource_id, *direction);
                r.append(", data_size: ");
                r.append(decimal_text(*data_size).as_str());
                r.append(", total_segments: ");
                r.append(decimal_text(*total_segments).as_str());
                r.append(" }");
                r
            },
            LinkResourceEvent::Progress { link_id, resource_id, direction, transferred, total } => {
                let mut r = render_head("Progress", link_id, resource_id, *direction);
                r.append(", transferred: ");
                r.append(decimal_text(*transferred).as_str());
                r.append(", total: ");
                r.append(decimal_text(*total).as_str());
                r.append(" }");
                r
            },
            LinkResourceEvent::Concluded { link_id, resource_id, direction, conclusion } => {
                let mut r = render_head("Concluded", link_id, resource_id, *direction);
                r.append(", conclusion: ");
                r.append(conclusion.debug_text().as_str());
                r.append(" }");
                r
            },
        }
    }
}

impl LinkManagerAccountingEvent {
    /// This event as text for logs: identifiers in full, content by its length alone.
    pub fn debug_text(&self) -> (r: String)
        ensures
            r@ == accounting_text(self@),
    {
        match self {
            LinkManagerAccountingEvent::LinkPacketProof(p) => {
                let mut r = "LinkPacketProof { link_id: \"".to_owned();
                r.append(encode_hex(p.link_id.as_slice()).as_str());
                r.append("\", packet_hash: \"");
                r.append(encode_hex(p.packet_hash.as_slice()).as_str());
                r.append("\" }");
                r
            },
            LinkManagerAccountingEvent::ResourceEvent(event) => {
                let mut r = "ResourceEvent(".to_owned();
                r.append(event.debug_text().as_str());
                r.append(")");
                r
            },
            LinkManagerAccountingEvent::ResourceCompletion(completion) => {
                let mut r = "ResourceCompletion { link_id: \"".to_owned();
                r.append(encode_hex(completion.link_id.as_slice()).as_str());
                r.append("\", resource_hash: \"");
                r.append(encode_hex(completion.resource_hash.as_slice()).as_str());
                r.append("\", data_len: ");
                r.append(decimal_text(completion.data.len()).as_str());
                r.append(", metadata_len: ");
                match &completion.metadata {
                    Some(metadata) => {
                        let mut length = "Some(".to_owned();
                        length.append(decimal_text(metadata.len()).as_str());
                        length.append(")");
                        r.append(length.as_str());
                    },
                    None => {
                        r.append("None");
                    },
                }
                r.append(" }");
                r
            },
            LinkManagerAccountingEvent::LinkClosed { link_id } => {
                let mut r = "LinkClosed { link_id: \"".to_owned();
                r.append(encode_hex(link_id.as_slice()).as_str());
                r.append("\" }");
                r
            },
        }
    }
}

} // verus!
