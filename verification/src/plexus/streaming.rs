//! The items that a call streams back.

use crate::json::{Json, JsonView};
use crate::plexus::credential_envelope;
use crate::plexus::credential_envelope::{assemble_envelope_content, serialize_with_credential_capture, CookieProjector};
use crate::text;
use crate::text::copy_texts;
use vstd::prelude::*;

verus! {

/// Where an item comes from.
#[derive(Debug, PartialEq, Eq)]
pub struct StreamMetadata {
    /// The namespaces that the call went through.
    pub provenance: Vec<String>,
    /// The configuration under which the item was made.
    pub plexus_hash: String,
}

/// What a `StreamMetadata` says.
#[verifier::ext_equal]
pub struct MetaView {
    pub provenance: Seq<Seq<char>>,
    pub plexus_hash: Seq<char>,
}

impl View for StreamMetadata {
    type V = MetaView;

    open spec fn view(&self) -> MetaView {
        MetaView { provenance: text::texts(self.provenance@), plexus_hash: self.plexus_hash@ }
    }
}

impl StreamMetadata {
    /// Metadata from its parts.
    pub fn new(provenance: Vec<String>, plexus_hash: String) -> (r: Self)
        ensures
            r == (StreamMetadata { provenance, plexus_hash }),
    {
        StreamMetadata { provenance, plexus_hash }
    }

    /// A copy.
    pub fn copy(&self) -> (r: Self)
        ensures
            r@ == self@,
    {
        StreamMetadata { provenance: copy_texts(&self.provenance), plexus_hash: self.plexus_hash.clone() }
    }
}

/// One item of a stream.
#[derive(Debug, PartialEq)]
pub enum PlexusStreamItem {
    Data { metadata: StreamMetadata, content_type: String, content: Json },
    /// `percentage` is the bit pattern of a single-precision number.
    Progress { metadata: StreamMetadata, message: String, percentage: Option<u32> },
    Error { metadata: StreamMetadata, message: String, code: Option<String>, recoverable: bool },
    Request { request_id: String, request_data: Json, timeout_ms: u64 },
    Done { metadata: StreamMetadata },
}

/// What a `PlexusStreamItem` says.
#[verifier::ext_equal]
pub enum ItemView {
    Data { metadata: MetaView, content_type: Seq<char>, content: JsonView },
    Progress { metadata: MetaView, message: Seq<char>, percentage: Option<u32> },
    Error { metadata: MetaView, message: Seq<char>, code: Option<Seq<char>>, recoverable: bool },
    Request { request_id: Seq<char>, request_data: JsonView, timeout_ms: u64 },
    Done { metadata: MetaView },
}

impl View for PlexusStreamItem {
    type V = ItemView;

    open spec fn view(&self) -> ItemView {
        match *self {
            PlexusStreamItem::Data { metadata, content_type, content } => ItemView::Data {
                metadata: metadata@,
                content_type: content_type@,
                content: content@,
            },
            PlexusStreamItem::Progress { metadata, message, percentage } => ItemView::Progress {
                metadata: metadata@,
                message: message@,
                percentage,
            },
            PlexusStreamItem::Error { metadata, message, code, recoverable } => ItemView::Error {
                metadata: metadata@,
                message: message@,
                code: text::opt_text(code),
                recoverable,
            },
            PlexusStreamItem::Request { request_id, request_data, timeout_ms } => ItemView::Request {
                request_id: request_id@,
                request_data: request_data@,
                timeout_ms,
            },
            PlexusStreamItem::Done { metadata } => ItemView::Done { metadata: metadata@ },
        }
    }
}

/// What items say, in order.
pub open spec fn item_views(v: Seq<PlexusStreamItem>) -> Seq<ItemView> {
    Seq::new(v.len(), |i: int| v[i]@)
}

/// The stream of some payloads: each as data, then the end.
pub open spec fn wrapped(payloads: Seq<JsonView>, content_type: Seq<char>, metadata: MetaView) -> Seq<ItemView> {
    Seq::new(
        payloads.len() + 1,
        |i: int|
            if i < payloads.len() {
                ItemView::Data { metadata, content_type, content: payloads[i] }
            } else {
                ItemView::Done { metadata }
            },
    )
}

/// What payloads are on the wire, in order.
pub open spec fn serialized_payloads(v: Seq<Result<Json, String>>) -> Seq<JsonView> {
    Seq::new(v.len(), |i: int| credential_envelope::serialized(v[i]))
}

/// One payload as data. `payload` is what turning it into JSON gave.
pub fn wrap_item(payload: Result<Json, String>, content_type: &str, metadata: &StreamMetadata) -> (r:
    PlexusStreamItem)
    ensures
        r@ == (ItemView::Data {
            metadata: metadata@,
            content_type: content_type@,
            content: credential_envelope::serialized(payload),
        }),
{
    let ghost before = credential_envelope::serialized(payload);
    let (value, captured) = serialize_with_credential_capture(payload);
    let (content, hints) = assemble_envelope_content(value, &captured, CookieProjector::Nothing);
    proof {
        credential_envelope::law_no_credentials_no_change(
            content@,
            credential_envelope::hint_views(hints@),
            before,
            captured@,
            CookieProjector::Nothing,
        );
    }
    PlexusStreamItem::Data { metadata: metadata.copy(), content_type: content_type.to_owned(), content }
}

/// The stream of some payloads.
pub fn wrap_stream(payloads: Vec<Result<Json, String>>, content_type: &str, metadata: StreamMetadata) -> (r: Vec<
    PlexusStreamItem,
>)
    ensures
        item_views(r@) == wrapped(serialized_payloads(payloads@), content_type@, metadata@),
{
    let ghost all = serialized_payloads(payloads@);
    let mut rest = payloads;
    let mut out: Vec<PlexusStreamItem> = Vec::new();
    let ghost items = payloads@;
    assert(items.skip(0) =~= items);
    while rest.len() > 0
        invariant
            all == serialized_payloads(items),
            out@.len() <= items.len(),
            rest@ == items.skip(out@.len() as int),
            forall|i: int|
                0 <= i < out@.len() ==> (#[trigger] out@[i])@ == (ItemView::Data {
                    metadata: metadata@,
                    content_type: content_type@,
                    content: all[i],
                }),
        decreases rest.len(),
    {
        let ghost n = out@.len() as int;
        let payload = rest.remove(0);
        assert(items.skip(n)[0] == items[n]);
        assert(items.skip(n).remove(0) =~= items.skip(n + 1));
        out.push(wrap_item(payload, content_type, &metadata));
    }
    out.push(PlexusStreamItem::Done { metadata });
    assert(item_views(out@) =~= wrapped(all, content_type@, metadata@));
    out
}

/// A stream of payloads ends with the one end item, and holds a data item for each payload.
pub proof fn law_a_stream_ends_once(payloads: Seq<JsonView>, content_type: Seq<char>, metadata: MetaView)
    ensures
        wrapped(payloads, content_type, metadata).len() == payloads.len() + 1,
        forall|i: int|
            0 <= i <= payloads.len() ==> ((#[trigger] wrapped(payloads, content_type, metadata)[i] is Done) <==> i
                == payloads.len()),
{
}

/// The stream of one error without a code.
pub fn error_stream(message: String, metadata: StreamMetadata, recoverable: bool) -> (r: Vec<PlexusStreamItem>)
    ensures
        r@ == seq![PlexusStreamItem::Error { metadata, message, code: None, recoverable }],
{
    let mut out: Vec<PlexusStreamItem> = Vec::new();
    out.push(PlexusStreamItem::Error { metadata, message, code: None, recoverable });
    assert(out@ =~= seq![PlexusStreamItem::Error { metadata, message, code: None, recoverable }]);
    out
}

/// The stream of one error with a code.
pub fn error_stream_with_code(
    message: String,
    code: String,
    metadata: StreamMetadata,
    recoverable: bool,
) -> (r: Vec<PlexusStreamItem>)
    ensures
        r@ == seq![PlexusStreamItem::Error { metadata, message, code: Some(code), recoverable }],
{
    let mut out: Vec<PlexusStreamItem> = Vec::new();
    out.push(PlexusStreamItem::Error { metadata, message, code: Some(code), recoverable });
    assert(out@ =~= seq![PlexusStreamItem::Error { metadata, message, code: Some(code), recoverable }]);
    out
}

/// The stream of the end alone.
pub fn done_stream(metadata: StreamMetadata) -> (r: Vec<PlexusStreamItem>)
    ensures
        r@ == seq![PlexusStreamItem::Done { metadata }],
{
    let mut out: Vec<PlexusStreamItem> = Vec::new();
    out.push(PlexusStreamItem::Done { metadata });
    assert(out@ =~= seq![PlexusStreamItem::Done { metadata }]);
    out
}

/// The stream of one progress report.
pub fn progress_stream(message: String, percentage: Option<u32>, metadata: StreamMetadata) -> (r: Vec<
    PlexusStreamItem,
>)
    ensures
        r@ == seq![PlexusStreamItem::Progress { metadata, message, percentage }],
{
    let mut out: Vec<PlexusStreamItem> = Vec::new();
    out.push(PlexusStreamItem::Progress { metadata, message, percentage });
    assert(out@ =~= seq![PlexusStreamItem::Progress { metadata, message, percentage }]);
    out
}

/// A stream carries each payload whole and in its place, under the content type and the metadata
/// that were given; a payload that could not be written is carried as null.
pub proof fn law_a_stream_carries_each_payload(
    payloads: Seq<Result<Json, String>>,
    content_type: Seq<char>,
    metadata: MetaView,
    i: int,
)
    requires
        0 <= i < payloads.len(),
    ensures
        payloads[i] matches Ok(v) ==> wrapped(serialized_payloads(payloads), content_type, metadata)[i] == (ItemView::Data {
            metadata,
            content_type,
            content: v@,
        }),
        payloads[i] is Err ==> wrapped(serialized_payloads(payloads), content_type, metadata)[i] == (ItemView::Data {
            metadata,
            content_type,
            content: JsonView::Null,
        }),
        wrapped(serialized_payloads(payloads), content_type, metadata).len() == payloads.len() + 1,
        wrapped(serialized_payloads(payloads), content_type, metadata).last() == (ItemView::Done { metadata }),
{
}

/// An item says what its fields hold, and items say it in order, each once.
pub proof fn law_an_item_says_what_it_holds(v: Seq<PlexusStreamItem>, i: int)
    requires
        0 <= i < v.len(),
    ensures
        item_views(v).len() == v.len(),
        match v[i] {
            PlexusStreamItem::Data { metadata, content_type, content } => {
                &&& item_views(v)[i] is Data
                &&& item_views(v)[i]->Data_metadata.provenance == text::texts(metadata.provenance@)
                &&& item_views(v)[i]->Data_metadata.plexus_hash == metadata.plexus_hash@
                &&& item_views(v)[i]->content_type == content_type@
                &&& item_views(v)[i]->content == content@
            },
            PlexusStreamItem::Progress { metadata, message, percentage } => {
                &&& item_views(v)[i] is Progress
                &&& item_views(v)[i]->Progress_metadata.provenance == text::texts(metadata.provenance@)
                &&& item_views(v)[i]->Progress_metadata.plexus_hash == metadata.plexus_hash@
                &&& item_views(v)[i]->Progress_message == message@
                &&& item_views(v)[i]->percentage == percentage
            },
            PlexusStreamItem::Error { metadata, message, code, recoverable } => {
                &&& item_views(v)[i] is Error
                &&& item_views(v)[i]->Error_metadata.provenance == text::texts(metadata.provenance@)
                &&& item_views(v)[i]->Error_metadata.plexus_hash == metadata.plexus_hash@
                &&& item_views(v)[i]->Error_message == message@
                &&& code is None ==> item_views(v)[i]->code is None
                &&& code is Some ==> item_views(v)[i]->code == Some(code->0@)
                &&& item_views(v)[i]->recoverable == recoverable
            },
            PlexusStreamItem::Request { request_id, request_data, timeout_ms } => {
                &&& item_views(v)[i] is Request
                &&& item_views(v)[i]->request_id == request_id@
                &&& item_views(v)[i]->request_data == request_data@
                &&& item_views(v)[i]->timeout_ms == timeout_ms
            },
            PlexusStreamItem::Done { metadata } => {
                &&& item_views(v)[i] is Done
                &&& item_views(v)[i]->Done_metadata.provenance == text::texts(metadata.provenance@)
                &&& item_views(v)[i]->Done_metadata.plexus_hash == metadata.plexus_hash@
            },
        },
{
}

} // verus!
