//! Byte-oriented reads over HTTP.
//!
//! - `scene.bin`: the epoch and the scene in postcard, for native clients.
//! - `scene.json`: the epoch and the scene in JSON, for web clients, under a
//!   ceiling that keeps one response from growing without bound.
//! - blobs and page thumbnails as they are stored.
//!
//! The server reads, encodes and sends. Here it is settled what it sends: the
//! bytes that a [`LimitedWriter`] keeps, the reply to each outcome, and the error
//! for each failure.

use std::collections::TryReserveError;
use vstd::prelude::*;

use crate::ordered;
use crate::persistence;
use crate::scene::{BlobRef, Page, PageId, Scene};
use crate::text;

verus! {

/// The ceiling for `scene.json`: 3 GiB. One `write` on Windows takes at most
/// `u32::MAX` bytes; this stays below that with room to spare.
pub const MAX_SCENE_JSON_BYTES: usize = 3_221_225_472;

/// The size above which a page is worth a line in the log: 1 MB.
pub const NOTEWORTHY_PAGE_BYTES: usize = 1_000_000;

/// The ceiling for one page while looking for oversized ones: 64 MiB.
pub const MAX_PAGE_JSON_BYTES: usize = 67_108_864;

/// The longest side of a thumbnail, in pixels.
pub const THUMB_MAX_DIM: u32 = 320;

/// A sink for bytes that never keeps more than `limit` of them. It refuses the
/// first write that would, whole.
#[derive(Debug)]
pub struct LimitedWriter {
    pub bytes: Vec<u8>,
    pub limit: usize,
    pub exceeded: bool,
}

/// Why a write was refused.
#[derive(Debug)]
pub enum WriteError {
    LimitExceeded,
    Reserve(TryReserveError),
}

/// Why a scene was not serialized. `E` is the serializer's own error.
#[derive(Debug)]
pub enum SceneJsonSerializationError<E> {
    LimitExceeded,
    Serialize(E),
}

/// A failed request: the status and a message, sent as JSON.
#[derive(Debug)]
pub struct ApiError {
    pub status: u16,
    pub message: String,
}

/// A reply to a request that succeeded.
#[derive(Debug)]
pub struct Reply {
    pub content_type: &'static str,
    /// The `x-koharu-epoch` header, where the reply has one.
    pub epoch: Option<String>,
    pub body: Vec<u8>,
}

/// Where a thumbnail comes from.
#[derive(Debug)]
pub enum Thumbnail<'a> {
    /// It was made before and is served as it is.
    Cached(Reply),
    /// It is made of this image.
    Source(&'a BlobRef),
}

/// A line for the log about one page.
#[derive(Clone, Copy, Debug, PartialEq, Eq, Structural)]
pub enum PageFinding {
    /// The page takes that many bytes on its own.
    Oversized { page: PageId, bytes: usize },
    /// The page could not be serialized under its ceiling.
    OverCeiling { page: PageId },
}

/// What a writer holds.
pub struct WriterState {
    pub bytes: Seq<u8>,
    pub limit: nat,
    pub exceeded: bool,
}

impl WriterState {
    /// An empty writer.
    pub open spec fn fresh(limit: nat) -> WriterState {
        WriterState { bytes: seq![], limit, exceeded: false }
    }

    /// No more is kept than the limit allows.
    pub open spec fn within_limit(self) -> bool {
        self.bytes.len() <= self.limit
    }

    /// There is room for `buf`.
    pub open spec fn fits(self, buf: Seq<u8>) -> bool {
        buf.len() == 0 || self.bytes.len() + buf.len() <= self.limit
    }

    /// This writer after it took `buf`.
    pub open spec fn with(self, buf: Seq<u8>) -> WriterState {
        WriterState { bytes: self.bytes + buf, ..self }
    }

    /// This writer after it refused a write for want of room.
    pub open spec fn refusing(self) -> WriterState {
        WriterState { exceeded: true, ..self }
    }
}

impl View for LimitedWriter {
    type V = WriterState;

    open spec fn view(&self) -> WriterState {
        WriterState {
            bytes: self.bytes@,
            limit: self.limit as nat,
            exceeded: self.exceeded,
        }
    }
}

/// `Vec::try_reserve_exact`: makes room for `additional` more bytes, or reports
/// that there is none. The contents stay. Room for no more bytes is always there;
/// otherwise it is up to the allocator.
#[verifier::external_body]
fn reserve_exact(bytes: &mut Vec<u8>, additional: usize) -> (result: Result<(), TryReserveError>)
    ensures
        final(bytes)@ == old(bytes)@,
        additional == 0 ==> result is Ok,
{
    bytes.try_reserve_exact(additional)
}

impl LimitedWriter {
    /// An empty writer with the given limit.
    pub fn new(limit: usize) -> (r: Self)
        ensures
            r@ == WriterState::fresh(limit as nat),
    {
        LimitedWriter { bytes: Vec::new(), limit, exceeded: false }
    }

    /// The bytes that were kept.
    pub fn into_bytes(self) -> (bytes: Vec<u8>)
        ensures
            bytes@ == self@.bytes,
    {
        self.bytes
    }

    /// How many bytes to reserve for `buf`: as many as it has, unless it would go
    /// over the limit.
    pub fn room_to_reserve(&self, buf: &[u8]) -> (result: Result<usize, WriteError>)
        ensures
            result == if self@.fits(buf@) {
                Ok::<_, WriteError>(buf@.len() as usize)
            } else {
                Err(WriteError::LimitExceeded)
            },
            result matches Ok(additional) ==> additional == buf@.len(),
    {
        let room: usize = if self.limit >= self.bytes.len() {
            self.limit - self.bytes.len()
        } else {
            0
        };
        if buf.len() <= room {
            Ok(buf.len())
        } else {
            Err(WriteError::LimitExceeded)
        }
    }

    /// Takes `buf`, given what came of reserving room for it.
    pub fn append_reserved(&mut self, buf: &[u8], reserved: Result<(), TryReserveError>) -> (result:
        Result<usize, WriteError>)
        ensures
            match reserved {
                Ok(_) => {
                    &&& result matches Ok(taken)
                    &&& taken == buf@.len()
                    &&& final(self)@ == old(self)@.with(buf@)
                },
                Err(error) => result == Err::<usize, _>(WriteError::Reserve(error)) && final(self)@
                    == old(self)@,
            },
    {
        match reserved {
            Ok(_) => {
                self.bytes.extend_from_slice(buf);
                assert(self.bytes@ =~= old(self)@.bytes + buf@);
                Ok(buf.len())
            },
            Err(error) => Err(WriteError::Reserve(error)),
        }
    }

    /// Takes all of `buf`, or nothing: a write that would go over the limit is
    /// refused, and so is one for which there is no memory.
    pub fn write(&mut self, buf: &[u8]) -> (result: Result<usize, WriteError>)
        ensures
            if old(self)@.fits(buf@) {
                match result {
                    Ok(n) => n == buf@.len() && final(self)@ == old(self)@.with(buf@),
                    Err(error) => error is Reserve && buf@.len() > 0 && final(self)@ == old(self)@,
                }
            } else {
                result == Err::<usize, _>(WriteError::LimitExceeded) && final(self)@ == old(
                    self,
                )@.refusing()
            },
    {
        match self.room_to_reserve(buf) {
            Ok(additional) => {
                let reserved = reserve_exact(&mut self.bytes, additional);
                self.append_reserved(buf, reserved)
            },
            Err(error) => {
                self.exceeded = true;
                Err(error)
            },
        }
    }

    /// Takes all of `buf`, as [`Self::write`] does.
    pub fn write_all(&mut self, buf: &[u8]) -> (result: Result<(), WriteError>)
        ensures
            if old(self)@.fits(buf@) {
                match result {
                    Ok(_) => final(self)@ == old(self)@.with(buf@),
                    Err(error) => error is Reserve && buf@.len() > 0 && final(self)@ == old(self)@,
                }
            } else {
                result == Err::<(), _>(WriteError::LimitExceeded) && final(self)@ == old(
                    self,
                )@.refusing()
            },
    {
        match self.write(buf) {
            Ok(_) => Ok(()),
            Err(error) => Err(error),
        }
    }

    /// There is nothing to flush.
    pub fn flush(&mut self) -> (result: Result<(), WriteError>)
        ensures
            result == Ok::<(), WriteError>(()),
            *final(self) == *old(self),
    {
        Ok(())
    }
}

/// What came of serializing into `writer`, given the serializer's own outcome:
/// the bytes where it went through; where it failed, whether the limit was the
/// cause.
pub fn serialize_scene_json<E>(writer: LimitedWriter, outcome: Result<(), E>) -> (result: Result<
    Vec<u8>,
    SceneJsonSerializationError<E>,
>)
    ensures
        match outcome {
            Ok(_) => result is Ok && result->Ok_0@ == writer@.bytes,
            Err(error) => result == Err::<Vec<u8>, _>(
                if writer@.exceeded {
                    SceneJsonSerializationError::LimitExceeded
                } else {
                    SceneJsonSerializationError::Serialize(error)
                },
            ),
        },
{
    match outcome {
        Ok(_) => Ok(writer.into_bytes()),
        Err(error) => if writer.exceeded {
            Err(SceneJsonSerializationError::LimitExceeded)
        } else {
            Err(SceneJsonSerializationError::Serialize(error))
        },
    }
}

/// The lines for the log about pages, given the serialized size of each page, or
/// `None` where it could not be serialized.
pub open spec fn page_findings(sizes: Seq<(PageId, Option<usize>)>) -> Seq<PageFinding>
    decreases sizes.len(),
{
    if sizes.len() == 0 {
        seq![]
    } else {
        let before = page_findings(sizes.drop_last());
        match sizes.last() {
            (page, Some(bytes)) => if bytes > NOTEWORTHY_PAGE_BYTES {
                before.push(PageFinding::Oversized { page, bytes })
            } else {
                before
            },
            (page, None) => before.push(PageFinding::OverCeiling { page }),
        }
    }
}

/// The lines for the log about pages, in the order of the pages: one for each
/// page that is abnormally large or could not be serialized.
pub fn log_oversized_pages(sizes: &[(PageId, Option<usize>)]) -> (findings: Vec<PageFinding>)
    ensures
        findings@ == page_findings(sizes@),
{
    let mut findings: Vec<PageFinding> = Vec::new();
    let mut i: usize = 0;
    while i < sizes.len()
        invariant
            i <= sizes@.len(),
            findings@ == page_findings(sizes@.take(i as int)),
        decreases sizes@.len() - i,
    {
        proof {
            let next = sizes@.take(i + 1);
            assert(next.drop_last() =~= sizes@.take(i as int));
            assert(next.last() == sizes@[i as int]);
        }
        let (page, size): (PageId, Option<usize>) = sizes[i];
        match size {
            Some(bytes) => if bytes > NOTEWORTHY_PAGE_BYTES {
                findings.push(PageFinding::Oversized { page, bytes });
            },
            None => findings.push(PageFinding::OverCeiling { page }),
        }
        i += 1;
    }
    assert(sizes@.take(i as int) =~= sizes@);
    findings
}

impl ApiError {
    /// The content type that a failed request is answered with.
    pub fn content_type(&self) -> (content_type: &'static str)
        ensures
            content_type@ == "application/json"@,
    {
        "application/json"
    }

    /// The request cannot be served as it is: status 400.
    pub fn bad_request(message: String) -> (error: ApiError)
        ensures
            error == (ApiError { status: 400, message }),
    {
        ApiError { status: 400, message }
    }

    /// What was asked for is not there: status 404.
    pub fn not_found(message: String) -> (error: ApiError)
        ensures
            error == (ApiError { status: 404, message }),
    {
        ApiError { status: 404, message }
    }

    /// The server failed: status 500.
    pub fn internal(message: String) -> (error: ApiError)
        ensures
            error == (ApiError { status: 500, message }),
    {
        ApiError { status: 500, message }
    }
}

/// The message for a scene over the ceiling.
pub open spec fn limit_message(page_count: nat) -> Seq<char> {
    "scene.json exceeds the "@ + text::decimal(MAX_SCENE_JSON_BYTES as nat)
        + " byte limit across "@ + text::decimal(page_count)
        + " pages — refusing to avoid crashing the app; see the `oversized page` error(s) logged just above for which page(s) to investigate"@
}

/// The error for a scene over the ceiling.
pub fn scene_json_limit_error(page_count: usize) -> (error: ApiError)
    ensures
        error.status == 500,
        error.message@ == limit_message(page_count as nat),
{
    let mut message = "scene.json exceeds the ".to_owned();
    text::append_decimal(&mut message, MAX_SCENE_JSON_BYTES as u64);
    message.append(" byte limit across ");
    text::append_decimal(&mut message, page_count as u64);
    message.append(
        " pages — refusing to avoid crashing the app; see the `oversized page` error(s) logged just above for which page(s) to investigate",
    );
    ApiError::internal(message)
}

/// The project that a request is about: there has to be an open one.
pub fn require_session<S>(session: Option<S>) -> (result: Result<S, ApiError>)
    ensures
        match session {
            Some(session) => result == Ok::<_, ApiError>(session),
            None => result is Err && result->Err_0.status == 400 && result->Err_0.message@
                == "no project open"@,
        },
{
    match session {
        Some(session) => Ok(session),
        None => Err(ApiError::bad_request("no project open".to_owned())),
    }
}

/// The answer to a request for `scene.json`, given what came of serializing the
/// scene. A serializer's error comes as its text.
pub fn get_scene_json(
    outcome: Result<Vec<u8>, SceneJsonSerializationError<String>>,
    page_count: usize,
) -> (result: Result<Reply, ApiError>)
    ensures
        match outcome {
            Ok(bytes) => result is Ok && result->Ok_0.content_type@ == "application/json"@
                && result->Ok_0.epoch is None && result->Ok_0.body == bytes,
            Err(SceneJsonSerializationError::LimitExceeded) => result is Err
                && result->Err_0.status == 500 && result->Err_0.message@ == limit_message(
                page_count as nat,
            ),
            Err(SceneJsonSerializationError::Serialize(message)) => result == Err::<Reply, _>(
                ApiError { status: 500, message },
            ),
        },
{
    match outcome {
        Ok(body) => Ok(Reply { content_type: "application/json", epoch: None, body }),
        Err(SceneJsonSerializationError::LimitExceeded) => Err(scene_json_limit_error(page_count)),
        Err(SceneJsonSerializationError::Serialize(message)) => Err(ApiError::internal(message)),
    }
}

/// The answer to a request for `scene.bin`, given the encoded scene or the text
/// of the encoder's error: the epoch and the scene, with the epoch in a header
/// too.
pub fn get_scene_bin(epoch: u64, scene: Result<Vec<u8>, String>) -> (result: Result<
    Reply,
    ApiError,
>)
    ensures
        match scene {
            Ok(scene) => {
                &&& result is Ok
                &&& result->Ok_0.content_type@ == "application/octet-stream"@
                &&& result->Ok_0.epoch is Some
                &&& result->Ok_0.epoch->0@ == text::decimal(epoch as nat)
                &&& result->Ok_0.body@ == persistence::body_bytes(epoch, scene@)
            },
            Err(message) => result == Err::<Reply, _>(ApiError { status: 500, message }),
        },
{
    match scene {
        Ok(scene) => Ok(
            Reply {
                content_type: "application/octet-stream",
                epoch: Some(text::to_decimal(epoch)),
                body: persistence::encode_body(epoch, scene.as_slice()),
            },
        ),
        Err(message) => Err(ApiError::internal(message)),
    }
}

/// The answer to a request for a blob, given its bytes where the store has it.
pub fn get_blob(bytes: Option<Vec<u8>>) -> (result: Result<Reply, ApiError>)
    ensures
        match bytes {
            Some(bytes) => result is Ok && result->Ok_0.content_type@
                == "application/octet-stream"@ && result->Ok_0.epoch is None && result->Ok_0.body
                == bytes,
            None => result is Err && result->Err_0.status == 404 && result->Err_0.message@
                == "blob not found"@,
        },
{
    match bytes {
        Some(body) => Ok(Reply { content_type: "application/octet-stream", epoch: None, body }),
        None => Err(ApiError::not_found("blob not found".to_owned())),
    }
}

/// The blob that a page's thumbnail is made of, as the answer to a request says
/// it: the page's source image, or an error where there is no such page or it has
/// no source image.
pub open spec fn is_thumbnail_source(
    scene: Scene,
    id: PageId,
    id_text: Seq<char>,
    source: Result<BlobRef, ApiError>,
) -> bool {
    let entries = ordered::page_entries(scene.pages);
    if exists|i: int| 0 <= i < entries.len() && (#[trigger] entries[i]).0 == id {
        exists|page: Page|
            #[trigger] ordered::is_only_entry(entries, id, page) && match crate::scene::source_blob_from(
                ordered::node_entries(page.nodes),
                0,
            ) {
                Some(blob) => source == Ok::<_, ApiError>(blob),
                None => source is Err && source->Err_0.status == 404 && source->Err_0.message@
                    == "page has no source image"@,
            }
    } else {
        source is Err && source->Err_0.status == 404 && source->Err_0.message@ == "page "@ + id_text
    }
}

/// Where a page's thumbnail comes from: the cached file, given its bytes where
/// there is one that can be read, else the source image of the page with the
/// given id. `id_text` is that id as it is shown.
pub fn get_page_thumbnail<'a>(
    cached: Option<Vec<u8>>,
    scene: &'a Scene,
    id: PageId,
    id_text: &str,
) -> (result: Result<Thumbnail<'a>, ApiError>)
    ensures
        match cached {
            Some(bytes) => {
                &&& result matches Ok(Thumbnail::Cached(reply))
                &&& reply.content_type@ == "image/webp"@
                &&& reply.epoch is None
                &&& reply.body == bytes
            },
            None => match result {
                Ok(Thumbnail::Cached(_)) => false,
                Ok(Thumbnail::Source(blob)) => is_thumbnail_source(*scene, id, id_text@, Ok(*blob)),
                Err(error) => is_thumbnail_source(*scene, id, id_text@, Err(error)),
            },
        },
{
    if let Some(bytes) = cached {
        return Ok(Thumbnail::Cached(webp_response(bytes)));
    }
    match scene.page(id) {
        Some(page) => match page.source_blob() {
            Some(blob) => Ok(Thumbnail::Source(blob)),
            None => Err(ApiError::not_found("page has no source image".to_owned())),
        },
        None => {
            let mut message = "page ".to_owned();
            message.append(id_text);
            Err(ApiError::not_found(message))
        },
    }
}

/// The answer with a new thumbnail, given its encoded form or the text of the
/// error that loading or encoding the image came to.
pub fn new_thumbnail(encoded: Result<Vec<u8>, String>) -> (result: Result<Reply, ApiError>)
    ensures
        match encoded {
            Ok(bytes) => result is Ok && result->Ok_0.content_type@ == "image/webp"@
                && result->Ok_0.epoch is None && result->Ok_0.body == bytes,
            Err(message) => result == Err::<Reply, _>(ApiError { status: 500, message }),
        },
{
    match encoded {
        Ok(bytes) => Ok(webp_response(bytes)),
        Err(message) => Err(ApiError::internal(message)),
    }
}

/// Whether a source image of this size is scaled down for its thumbnail: it is
/// where its longer side is over [`THUMB_MAX_DIM`].
pub fn is_scaled_down(width: u32, height: u32) -> (yes: bool)
    ensures
        yes == (width > THUMB_MAX_DIM || height > THUMB_MAX_DIM),
{
    width > THUMB_MAX_DIM || height > THUMB_MAX_DIM
}

/// The reply with a thumbnail.
pub fn webp_response(body: Vec<u8>) -> (reply: Reply)
    ensures
        reply.content_type@ == "image/webp"@,
        reply.epoch is None,
        reply.body == body,
{
    Reply { content_type: "image/webp", epoch: None, body }
}

/// A write never takes a writer over its limit.
pub proof fn law_write_stays_within_limit(writer: WriterState, buf: Seq<u8>)
    requires
        writer.within_limit(),
    ensures
        WriterState::fresh(writer.limit).within_limit(),
        writer.fits(buf) ==> writer.with(buf).within_limit(),
        writer.refusing().within_limit(),
        writer.refusing().bytes == writer.bytes,
{
}

/// The chunks one after another.
pub open spec fn joined(chunks: Seq<Seq<u8>>) -> Seq<u8>
    decreases chunks.len(),
{
    if chunks.len() == 0 {
        seq![]
    } else {
        joined(chunks.drop_last()) + chunks.last()
    }
}

/// A writer after a serializer wrote `chunks` into it, as long as it had memory:
/// the serializer stops at the first write that is refused.
pub open spec fn fed(writer: WriterState, chunks: Seq<Seq<u8>>) -> WriterState
    decreases chunks.len(),
{
    if chunks.len() == 0 {
        writer
    } else {
        let before = fed(writer, chunks.drop_last());
        if before.exceeded {
            before
        } else if before.fits(chunks.last()) {
            before.with(chunks.last())
        } else {
            before.refusing()
        }
    }
}

proof fn lemma_fed(limit: nat, chunks: Seq<Seq<u8>>)
    ensures
        ({
            let writer = fed(WriterState::fresh(limit), chunks);
            &&& writer.limit == limit
            &&& writer.within_limit()
            &&& writer.exceeded <==> joined(chunks).len() > limit
            &&& !writer.exceeded ==> writer.bytes == joined(chunks)
            &&& writer.bytes.is_prefix_of(joined(chunks))
        }),
    decreases chunks.len(),
{
    if chunks.len() > 0 {
        lemma_fed(limit, chunks.drop_last());
        let before = fed(WriterState::fresh(limit), chunks.drop_last());
        let all = joined(chunks);
        assert(before.bytes =~= all.subrange(0, before.bytes.len() as int));
    }
}

/// However a text is cut into writes, a serialization is whole or refused: the
/// whole text where it is within the limit, and a refusal for the limit's sake
/// where it is not. Either way no more than the limit is ever kept.
pub proof fn law_json_is_whole_or_refused(limit: nat, chunks: Seq<Seq<u8>>)
    ensures
        ({
            let writer = fed(WriterState::fresh(limit), chunks);
            &&& writer.within_limit()
            &&& writer.bytes.is_prefix_of(joined(chunks))
            &&& if joined(chunks).len() <= limit {
                !writer.exceeded && writer.bytes == joined(chunks)
            } else {
                writer.exceeded
            }
        }),
{
    lemma_fed(limit, chunks);
}

proof fn lemma_findings_push(sizes: Seq<(PageId, Option<usize>)>, finding: PageFinding)
    requires
        sizes.len() > 0,
        page_findings(sizes.drop_last()).contains(finding),
    ensures
        page_findings(sizes).contains(finding),
{
    let before = page_findings(sizes.drop_last());
    let k = choose|k: int| 0 <= k < before.len() && before[k] == finding;
    assert(page_findings(sizes)[k] == finding);
}

/// Every abnormally large page, and every page that could not be serialized,
/// gets its line in the log.
pub proof fn law_no_large_page_is_missed(sizes: Seq<(PageId, Option<usize>)>, i: int)
    requires
        0 <= i < sizes.len(),
    ensures
        match sizes[i] {
            (page, Some(bytes)) => bytes > NOTEWORTHY_PAGE_BYTES ==> page_findings(sizes).contains(
                PageFinding::Oversized { page, bytes },
            ),
            (page, None) => page_findings(sizes).contains(PageFinding::OverCeiling { page }),
        },
    decreases sizes.len(),
{
    let found = page_findings(sizes);
    if i == sizes.len() - 1 {
        assert(found.len() > 0 ==> found[found.len() - 1] == found.last());
    } else {
        let rest = sizes.drop_last();
        assert(rest[i] == sizes[i]);
        law_no_large_page_is_missed(rest, i);
        match sizes[i] {
            (page, Some(bytes)) => if bytes > NOTEWORTHY_PAGE_BYTES {
                lemma_findings_push(sizes, PageFinding::Oversized { page, bytes });
            },
            (page, None) => lemma_findings_push(sizes, PageFinding::OverCeiling { page }),
        }
    }
}

/// A line in the log is about a page that is abnormally large, with its size, or
/// about one that could not be serialized; there are no more lines than pages.
pub proof fn law_findings_are_about_pages(sizes: Seq<(PageId, Option<usize>)>)
    ensures
        page_findings(sizes).len() <= sizes.len(),
        forall|k: int|
            0 <= k < page_findings(sizes).len() ==> match #[trigger] page_findings(sizes)[k] {
                PageFinding::Oversized { page, bytes } => bytes > NOTEWORTHY_PAGE_BYTES
                    && sizes.contains((page, Some(bytes))),
                PageFinding::OverCeiling { page } => sizes.contains((page, None::<usize>)),
            },
    decreases sizes.len(),
{
    if sizes.len() > 0 {
        let rest = sizes.drop_last();
        law_findings_are_about_pages(rest);
        assert(sizes[sizes.len() - 1] == sizes.last());
        assert forall|entry: (PageId, Option<usize>)| rest.contains(entry) implies sizes.contains(
            entry,
        ) by {
            let i = choose|i: int| 0 <= i < rest.len() && rest[i] == entry;
            assert(sizes[i] == entry);
        }
        assert forall|k: int| 0 <= k < page_findings(sizes).len() implies match #[trigger] page_findings(
        sizes)[k] {
            PageFinding::Oversized { page, bytes } => bytes > NOTEWORTHY_PAGE_BYTES
                && sizes.contains((page, Some(bytes))),
            PageFinding::OverCeiling { page } => sizes.contains((page, None::<usize>)),
        } by {
            if k < page_findings(rest).len() {
                assert(page_findings(sizes)[k] == page_findings(rest)[k]);
            }
        }
    }
}

/// A thumbnail that was made before is served as it is, whatever the scene holds.
pub proof fn law_cached_thumbnail_is_served<'a>(
    bytes: Vec<u8>,
    scene: &'a Scene,
    id: PageId,
    id_text: &str,
    result: Result<Thumbnail<'a>, ApiError>,
)
    requires
        call_ensures(get_page_thumbnail, (Some(bytes), scene, id, id_text), result),
    ensures
        result is Ok,
        result->Ok_0 is Cached,
        result->Ok_0->Cached_0.body == bytes,
        result->Ok_0->Cached_0.content_type@ == "image/webp"@,
        result->Ok_0->Cached_0.epoch is None,
{
}

/// A page's thumbnail is made of its first image node with the source role, at
/// whatever index that stands. The page has no source image, and is answered so,
/// only if no node of it at all is an image node with that role.
pub proof fn law_thumbnail_is_made_of_the_first_source_image<'a>(
    scene: &'a Scene,
    id: PageId,
    id_text: &str,
    result: Result<Thumbnail<'a>, ApiError>,
    at: int,
)
    requires
        call_ensures(get_page_thumbnail, (None, scene, id, id_text), result),
        0 <= at < ordered::page_entries(scene.pages).len(),
        ordered::page_entries(scene.pages)[at].0 == id,
    ensures
        ({
            let nodes = ordered::node_entries(ordered::page_entries(scene.pages)[at].1.nodes);
            match result {
                Ok(Thumbnail::Source(blob)) => exists|k: int|
                    {
                        &&& 0 <= k < nodes.len()
                        &&& (#[trigger] nodes[k]).1.kind is Image
                        &&& nodes[k].1.kind->Image_0.role == crate::scene::ImageRole::Source
                        &&& nodes[k].1.kind->Image_0.blob == *blob
                        &&& forall|j: int|
                            0 <= j < k ==> !((#[trigger] nodes[j]).1.kind is Image
                                && nodes[j].1.kind->Image_0.role
                                == crate::scene::ImageRole::Source)
                    },
                Ok(Thumbnail::Cached(_)) => false,
                Err(error) => {
                    &&& error.status == 404
                    &&& error.message@ == "page has no source image"@
                    &&& forall|k: int|
                        0 <= k < nodes.len() ==> !((#[trigger] nodes[k]).1.kind is Image
                            && nodes[k].1.kind->Image_0.role == crate::scene::ImageRole::Source)
                },
            }
        }),
{
    let entries = ordered::page_entries(scene.pages);
    let source = match result {
        Ok(Thumbnail::Source(blob)) => Ok(*blob),
        Ok(Thumbnail::Cached(_)) => Err(arbitrary()),
        Err(error) => Err(error),
    };
    assert(is_thumbnail_source(*scene, id, id_text@, source));
    assert(entries[at].0 == id);
    let page = choose|page: Page|
        #[trigger] ordered::is_only_entry(entries, id, page) && match crate::scene::source_blob_from(
            ordered::node_entries(page.nodes),
            0,
        ) {
            Some(blob) => source == Ok::<_, ApiError>(blob),
            None => source is Err && source->Err_0.status == 404 && source->Err_0.message@
                == "page has no source image"@,
        };
    assert(entries[at].1 == page);
    let nodes = ordered::node_entries(page.nodes);
    crate::scene::law_source_blob_is_the_first(nodes);
    assert forall|k: int| 0 <= k < nodes.len() implies crate::scene::is_source(
        (#[trigger] nodes[k]).1,
    ) == (nodes[k].1.kind is Image && nodes[k].1.kind->Image_0.role
        == crate::scene::ImageRole::Source) by {}
    if let Some(blob) = crate::scene::source_blob_from(nodes, 0) {
        let k = choose|k: int|
            0 <= k < nodes.len() && #[trigger] crate::scene::is_source(nodes[k].1)
                && crate::scene::source_of(nodes[k].1) == blob && forall|j: int|
                0 <= j < k ==> !#[trigger] crate::scene::is_source(nodes[j].1);
        assert(nodes[k].1.kind->Image_0.blob == blob);
        assert forall|j: int| 0 <= j < k implies !((#[trigger] nodes[j]).1.kind is Image
            && nodes[j].1.kind->Image_0.role == crate::scene::ImageRole::Source) by {
            assert(!crate::scene::is_source(nodes[j].1));
        }
    } else {
        assert forall|k: int| 0 <= k < nodes.len() implies !((#[trigger] nodes[k]).1.kind is Image
            && nodes[k].1.kind->Image_0.role == crate::scene::ImageRole::Source) by {
            assert(!crate::scene::is_source(nodes[k].1));
        }
    }
}

/// A page that is not there is answered as not found, by the id that was asked for.
pub proof fn law_missing_page_is_not_found<'a>(
    scene: &'a Scene,
    id: PageId,
    id_text: &str,
    result: Result<Thumbnail<'a>, ApiError>,
)
    requires
        call_ensures(get_page_thumbnail, (None, scene, id, id_text), result),
        forall|i: int|
            0 <= i < ordered::page_entries(scene.pages).len() ==> (#[trigger] ordered::page_entries(
                scene.pages,
            )[i]).0 != id,
    ensures
        result is Err,
        result->Err_0.status == 404,
        result->Err_0.message@ == "page "@ + id_text@,
{
}

/// A new thumbnail is served as it was encoded, as WebP; a failure to make it is the
/// server's, with its own text.
pub proof fn law_new_thumbnail_is_served(
    encoded: Result<Vec<u8>, String>,
    result: Result<Reply, ApiError>,
)
    requires
        call_ensures(new_thumbnail, (encoded,), result),
    ensures
        result is Ok <==> encoded is Ok,
        encoded is Ok ==> result->Ok_0.body == encoded->Ok_0,
        encoded is Ok ==> result->Ok_0.content_type@ == "image/webp"@,
        encoded is Ok ==> result->Ok_0.epoch is None,
        encoded is Err ==> result->Err_0.status == 500,
        encoded is Err ==> result->Err_0.message == encoded->Err_0,
{
}

/// WebP bytes are served as they are.
pub proof fn law_webp_is_served_as_it_is(body: Vec<u8>, reply: Reply)
    requires
        call_ensures(webp_response, (body,), reply),
    ensures
        reply.body == body,
        reply.content_type@ == "image/webp"@,
        reply.epoch is None,
{
}

/// An image is left alone exactly when it fits into a square of 320 pixels.
pub proof fn law_only_large_images_are_scaled(width: u32, height: u32, yes: bool)
    requires
        call_ensures(is_scaled_down, (width, height), yes),
    ensures
        !yes <==> width <= 320 && height <= 320,
{
}

/// `scene.bin` reads back as the epoch and the encoded scene, and its header names
/// the same epoch in decimal. It is served exactly when the scene could be encoded;
/// else the server failed, with the encoder's own text.
pub proof fn law_scene_bin_reads_back(
    epoch: u64,
    scene: Result<Vec<u8>, String>,
    result: Result<Reply, ApiError>,
)
    requires
        call_ensures(get_scene_bin, (epoch, scene), result),
    ensures
        result is Ok <==> scene is Ok,
        result matches Ok(reply) ==> {
            &&& crate::wire::u64_at_front(reply.body@) == Some((epoch, scene->Ok_0@))
            &&& reply.epoch is Some
            &&& reply.epoch->0@ == text::decimal(epoch as nat)
            &&& reply.content_type@ == "application/octet-stream"@
        },
        scene matches Err(message) ==> result->Err_0.status == 500 && result->Err_0.message
            == message,
{
    if let Ok(encoded) = scene {
        crate::wire::law_u64_reads_back(epoch, encoded@);
    }
}

/// `scene.json` is served whole or refused: the text exactly where there is one; a
/// scene over the ceiling as the limit's error, which names the ceiling and the
/// number of pages; any other failure with its own text. Failures are the server's.
pub proof fn law_scene_json_is_served_or_refused(
    outcome: Result<Vec<u8>, SceneJsonSerializationError<String>>,
    page_count: usize,
    result: Result<Reply, ApiError>,
    limit_error: ApiError,
)
    requires
        call_ensures(get_scene_json, (outcome, page_count), result),
        call_ensures(scene_json_limit_error, (page_count,), limit_error),
    ensures
        result is Ok <==> outcome is Ok,
        result matches Ok(reply) ==> reply.body == outcome->Ok_0 && reply.epoch is None
            && reply.content_type@ == "application/json"@,
        result matches Err(error) ==> error.status == 500,
        limit_error.status == 500,
        limit_error.message@ == "scene.json exceeds the "@ + text::decimal(3_221_225_472)
            + " byte limit across "@ + text::decimal(page_count as nat)
            + " pages — refusing to avoid crashing the app; see the `oversized page` error(s) logged just above for which page(s) to investigate"@,
        outcome is Err && outcome->Err_0 is LimitExceeded ==> result->Err_0.message@
            == limit_error.message@,
        outcome is Err && outcome->Err_0 is Serialize ==> result->Err_0.message
            == outcome->Err_0->Serialize_0,
{
}

/// A blob is served as it is stored; one that is not there is not found.
pub proof fn law_blob_is_served_as_it_is(
    bytes: Option<Vec<u8>>,
    result: Result<Reply, ApiError>,
)
    requires
        call_ensures(get_blob, (bytes,), result),
    ensures
        result is Ok <==> bytes is Some,
        result matches Ok(reply) ==> reply.body == bytes->0 && reply.epoch is None
            && reply.content_type@ == "application/octet-stream"@,
        result matches Err(error) ==> error.status == 404 && error.message@ == "blob not found"@,
{
}

/// A request is served with the open project, and refused as a bad request where
/// none is open.
pub proof fn law_request_needs_an_open_project<S>(
    session: Option<S>,
    result: Result<S, ApiError>,
)
    requires
        call_ensures(require_session::<S>, (session,), result),
    ensures
        result is Ok <==> session is Some,
        session is Some ==> result->Ok_0 == session->0,
        session is None ==> result->Err_0.status == 400 && result->Err_0.message@
            == "no project open"@,
{
}

/// Each error has its status and the message that it was made with, and is sent as
/// JSON.
pub proof fn law_errors_have_their_status(
    message: String,
    bad: ApiError,
    missing: ApiError,
    failed: ApiError,
    content_type: &'static str,
)
    requires
        call_ensures(ApiError::bad_request, (message,), bad),
        call_ensures(ApiError::not_found, (message,), missing),
        call_ensures(ApiError::internal, (message,), failed),
        call_ensures(ApiError::content_type, (&bad,), content_type),
    ensures
        bad.status == 400 && bad.message == message,
        missing.status == 404 && missing.message == message,
        failed.status == 500 && failed.message == message,
        content_type@ == "application/json"@,
{
}

/// What came of a serialization: the writer's bytes where the serializer went
/// through; where it failed, the limit if that was hit, else its own error.
pub proof fn law_serialization_tells_the_limit_from_other_failures<E>(
    writer: LimitedWriter,
    outcome: Result<(), E>,
    result: Result<Vec<u8>, SceneJsonSerializationError<E>>,
)
    requires
        call_ensures(serialize_scene_json::<E>, (writer, outcome), result),
    ensures
        result is Ok <==> outcome is Ok,
        result matches Ok(bytes) ==> bytes@ == writer.bytes@,
        result is Err ==> (result->Err_0 is LimitExceeded <==> writer.exceeded),
        result is Err && !writer.exceeded ==> result->Err_0->Serialize_0 == outcome->Err_0,
{
}

/// A new writer is empty and has its limit.
pub proof fn law_new_writer_is_empty(limit: usize, writer: LimitedWriter)
    requires
        call_ensures(LimitedWriter::new, (limit,), writer),
    ensures
        writer.bytes@.len() == 0,
        writer.limit == limit,
        !writer.exceeded,
{
}

/// A writer hands out the bytes that it holds.
pub proof fn law_writer_hands_out_its_bytes(writer: LimitedWriter, bytes: Vec<u8>)
    requires
        call_ensures(LimitedWriter::into_bytes, (writer,), bytes),
    ensures
        bytes@ == writer.bytes@,
{
}

/// A write takes all of the buffer or nothing. It is refused for the limit's sake
/// exactly where the buffer is not empty and would go over the limit; the writer
/// then remembers that, and else not. The limit never changes, and only memory can
/// stop a write that is within it.
pub proof fn law_write_is_all_or_nothing(
    writer: &mut LimitedWriter,
    buf: &[u8],
    result: Result<usize, WriteError>,
)
    requires
        call_ensures(LimitedWriter::write, (writer, buf), result),
    ensures
        final(writer).limit == old(writer).limit,
        result matches Ok(taken) ==> taken == buf@.len() && final(writer).bytes@ == old(
            writer,
        ).bytes@ + buf@,
        result is Err ==> final(writer).bytes@ == old(writer).bytes@,
        result is Err && result->Err_0 is LimitExceeded <==> buf@.len() > 0 && old(
            writer,
        ).bytes@.len() + buf@.len() > old(writer).limit,
        final(writer).exceeded == (old(writer).exceeded || (result is Err
            && result->Err_0 is LimitExceeded)),
        buf@.len() == 0 ==> result is Ok,
{
    assert(buf@.len() == 0 ==> old(writer).bytes@ + buf@ =~= old(writer).bytes@);
}

/// Writing all of a buffer does to the writer what writing it does, and succeeds and
/// fails on the same grounds.
pub proof fn law_write_all_is_all_or_nothing(
    writer: &mut LimitedWriter,
    buf: &[u8],
    result: Result<(), WriteError>,
)
    requires
        call_ensures(LimitedWriter::write_all, (writer, buf), result),
    ensures
        final(writer).limit == old(writer).limit,
        result is Ok ==> final(writer).bytes@ == old(writer).bytes@ + buf@,
        result is Err ==> final(writer).bytes@ == old(writer).bytes@,
        result is Err && result->Err_0 is LimitExceeded <==> buf@.len() > 0 && old(
            writer,
        ).bytes@.len() + buf@.len() > old(writer).limit,
        final(writer).exceeded == (old(writer).exceeded || (result is Err
            && result->Err_0 is LimitExceeded)),
        buf@.len() == 0 ==> result is Ok,
{
}

/// With room reserved, all of the buffer is taken; without, nothing is, and the
/// reason is passed on.
pub proof fn law_reserved_write_appends(
    writer: &mut LimitedWriter,
    buf: &[u8],
    reserved: Result<(), TryReserveError>,
    result: Result<usize, WriteError>,
)
    requires
        call_ensures(LimitedWriter::append_reserved, (writer, buf, reserved), result),
    ensures
        result is Ok <==> reserved is Ok,
        result matches Ok(taken) ==> taken == buf@.len(),
        final(writer).bytes@ == if reserved is Ok {
            old(writer).bytes@ + buf@
        } else {
            old(writer).bytes@
        },
        reserved matches Err(error) ==> result == Err::<usize, _>(WriteError::Reserve(error)),
        final(writer).limit == old(writer).limit,
        final(writer).exceeded == old(writer).exceeded,
{
}

/// As much is reserved as the buffer has, exactly where it is within the limit.
pub proof fn law_reservation_is_for_the_buffer(
    writer: &LimitedWriter,
    buf: &[u8],
    result: Result<usize, WriteError>,
)
    requires
        call_ensures(LimitedWriter::room_to_reserve, (writer, buf), result),
    ensures
        result is Ok <==> buf@.len() == 0 || writer.bytes@.len() + buf@.len() <= writer.limit,
        result matches Ok(additional) ==> additional == buf@.len(),
        result matches Err(error) ==> error is LimitExceeded,
{
}

/// Flushing does nothing and never fails.
pub proof fn law_flush_does_nothing(writer: &mut LimitedWriter, result: Result<(), WriteError>)
    requires
        call_ensures(LimitedWriter::flush, (writer,), result),
    ensures
        result is Ok,
        *final(writer) == *old(writer),
{
}

/// The lines for the log are those of exactly the pages that could not be serialized
/// or take more than a million bytes, in the order of the pages.
pub proof fn law_findings_are_the_large_pages(
    sizes: &[(PageId, Option<usize>)],
    findings: Vec<PageFinding>,
)
    requires
        call_ensures(log_oversized_pages, (sizes,), findings),
    ensures
        ({
            let large = sizes@.filter(
                |entry: (PageId, Option<usize>)| entry.1 is None || entry.1->0 > 1_000_000,
            );
            &&& findings@.len() == large.len()
            &&& forall|k: int|
                0 <= k < findings@.len() ==> #[trigger] findings@[k] == match large[k].1 {
                    Some(bytes) => PageFinding::Oversized { page: large[k].0, bytes },
                    None => PageFinding::OverCeiling { page: large[k].0 },
                }
        }),
{
    lemma_findings_are_filtered(sizes@);
}

proof fn lemma_findings_are_filtered(sizes: Seq<(PageId, Option<usize>)>)
    ensures
        ({
            let large = sizes.filter(
                |entry: (PageId, Option<usize>)| entry.1 is None || entry.1->0 > 1_000_000,
            );
            let findings = page_findings(sizes);
            &&& findings.len() == large.len()
            &&& forall|k: int|
                0 <= k < findings.len() ==> #[trigger] findings[k] == match large[k].1 {
                    Some(bytes) => PageFinding::Oversized { page: large[k].0, bytes },
                    None => PageFinding::OverCeiling { page: large[k].0 },
                }
        }),
    decreases sizes.len(),
{
    reveal(Seq::filter);
    if sizes.len() > 0 {
        lemma_findings_are_filtered(sizes.drop_last());
    }
}

} // verus!
