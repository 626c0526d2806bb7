//! The Upload Orchestrator, as an explicit saga.
//!
//! One upload walks `Validating`, `WritingBlob`, `WritingMetadata` and
//! `RebuildingFeed` to `Done`; validation can exit to `Rejected`, and a
//! metadata failure walks `CompensatingDelete` to `Failed`, deleting the
//! very blob the blob step wrote. The driver performs each returned
//! [`UploadAction`] against the outside stores and feeds the outcome back
//! as an [`UploadEvent`]; all decisions live in [`step`], which performs
//! no I/O itself.

use vstd::prelude::*;
use crate::records::{Channel, Item, PodcastData, spec_ownership_ok, ownership_ok};
use crate::feed::{render_channel, built_from};
use crate::storage::{object_key, spec_object_key, enclosure_url, spec_enclosure_url};
use crate::ids::fresh_uuid;
use crate::text::{dec_seq, u64_to_string};
use vstd::string::StringExecFns;

verus! {

/// Why an upload was refused or failed.
#[derive(PartialEq, Eq, Structural, Clone, Copy, Debug)]
pub enum UploadError {
    Unauthorized,
    ValidationError,
    UpstreamError,
    ConsistencyError,
}

/// Where one upload stands.
pub enum UploadState {
    Validating { data: PodcastData },
    WritingBlob { data: PodcastData, key: String },
    WritingMetadata { data: PodcastData, key: String },
    RebuildingFeed { data: PodcastData, key: String },
    CompensatingDelete { key: String },
    Done { receipt: String },
    Rejected { error: UploadError },
    Failed { error: UploadError, compensation_failed: bool },
}

/// What the driver reports back after performing an action.
pub enum UploadEvent {
    TokenChecked { valid: bool },
    BlobPut { ok: bool },
    MetadataStored { ok: bool },
    FeedRows { channel: Option<Channel>, items: Vec<Item> },
    BlobDeleted { ok: bool },
}

/// What the driver must do next.
pub enum UploadAction {
    CheckToken { token: String },
    PutBlob { key: String, content_type: String, public_read: bool },
    StoreMetadata { data: PodcastData },
    FetchFeedRows { channel_external_id: String },
    DeleteBlob { key: String },
    ApplyCache { external_id: String, title: String, document: String },
    Respond { result: Result<String, UploadError> },
}

/// The event answers the action the state is waiting on.
pub open spec fn event_fits(st: UploadState, ev: UploadEvent) -> bool {
    match (st, ev) {
        (UploadState::Validating { .. }, UploadEvent::TokenChecked { .. }) => true,
        (UploadState::WritingBlob { .. }, UploadEvent::BlobPut { .. }) => true,
        (UploadState::WritingMetadata { .. }, UploadEvent::MetadataStored { .. }) => true,
        (UploadState::RebuildingFeed { .. }, UploadEvent::FeedRows { .. }) => true,
        (UploadState::CompensatingDelete { .. }, UploadEvent::BlobDeleted { .. }) => true,
        _ => false,
    }
}

/// `d1` is `d0` with the episode's upload identity filled in: a fresh id,
/// the public enclosure URL derived from it, the audio MIME type, and the
/// accumulated byte length.
pub open spec fn identity_assigned(
    d0: PodcastData,
    d1: PodcastData,
    full_link: Seq<char>,
    audio_len: u64,
) -> bool {
    &&& d1.channel == d0.channel
    &&& d1.session_token == d0.session_token
    &&& d1.item == (Item {
        id: d1.item.id,
        enclosure_url: d1.item.enclosure_url,
        enclosure_type: d1.item.enclosure_type,
        enclosure_length: d1.item.enclosure_length,
        ..d0.item
    })
    &&& d1.item.enclosure_url@ == spec_enclosure_url(full_link, d1.item.id@)
    &&& d1.item.enclosure_type@ == "audio/mpeg"@
    &&& d1.item.enclosure_length@ == dec_seq(audio_len as nat)
}

/// The full transition relation of the saga.
pub open spec fn step_relation(
    st: UploadState,
    ev: UploadEvent,
    full_link: Seq<char>,
    audio_len: u64,
    st2: UploadState,
    act: UploadAction,
) -> bool {
    match (st, ev) {
        (UploadState::Validating { data }, UploadEvent::TokenChecked { valid }) => {
            if !valid {
                &&& st2 == (UploadState::Rejected { error: UploadError::Unauthorized })
                &&& act == (UploadAction::Respond { result: Err(UploadError::Unauthorized) })
            } else if !spec_ownership_ok(data) {
                &&& st2 == (UploadState::Rejected { error: UploadError::ValidationError })
                &&& act == (UploadAction::Respond { result: Err(UploadError::ValidationError) })
            } else {
                &&& st2 matches UploadState::WritingBlob { data: d1, key } && identity_assigned(
                    data,
                    d1,
                    full_link,
                    audio_len,
                ) && key@ == spec_object_key(d1.item.id@) && (act
                    matches UploadAction::PutBlob { key: k2, content_type, public_read } && k2@
                    == key@ && content_type@ == "audio/mpeg"@ && public_read == true)
            }
        },
        (UploadState::WritingBlob { data, key }, UploadEvent::BlobPut { ok }) => {
            if ok {
                &&& st2 == (UploadState::WritingMetadata { data, key })
                &&& act matches UploadAction::StoreMetadata { data: d } && d == data
            } else {
                // nothing was written yet, so nothing to compensate
                &&& st2 == (UploadState::Failed {
                    error: UploadError::UpstreamError,
                    compensation_failed: false,
                })
                &&& act == (UploadAction::Respond { result: Err(UploadError::UpstreamError) })
            }
        },
        (UploadState::WritingMetadata { data, key }, UploadEvent::MetadataStored { ok }) => {
            if ok {
                &&& st2 == (UploadState::RebuildingFeed { data, key })
                &&& act matches UploadAction::FetchFeedRows { channel_external_id: c } && c@
                    == data.channel.external_id@
            } else {
                // the blob write has happened: compensate with a delete of
                // exactly the key that was written
                &&& st2 matches UploadState::CompensatingDelete { key: k } && k@ == key@
                &&& act matches UploadAction::DeleteBlob { key: k2 } && k2@ == key@
            }
        },
        (UploadState::CompensatingDelete { key }, UploadEvent::BlobDeleted { ok }) => {
            // a failed compensation is recorded, never dropped
            &&& st2 == (UploadState::Failed {
                error: UploadError::UpstreamError,
                compensation_failed: !ok,
            })
            &&& act == (UploadAction::Respond { result: Err(UploadError::UpstreamError) })
        },
        (UploadState::RebuildingFeed { data, key }, UploadEvent::FeedRows { channel, items }) => {
            match channel {
                None => {
                    &&& st2 == (UploadState::Failed {
                        error: UploadError::ConsistencyError,
                        compensation_failed: false,
                    })
                    &&& act == (UploadAction::Respond {
                        result: Err(UploadError::ConsistencyError),
                    })
                },
                Some(ch) => {
                    &&& st2 matches UploadState::Done { receipt } && receipt@
                        == data.session_token@
                    &&& act matches UploadAction::ApplyCache { external_id, title, document }
                        && external_id@ == data.channel.external_id@ && title@ == ch.title@
                        && built_from(document@, ch, items@)
                },
            }
        },
        _ => false,
    }
}

/// Starts one upload: the first thing checked is the session token.
pub fn begin_upload(data: PodcastData) -> (r: (UploadState, UploadAction))
    ensures
        r.0 == (UploadState::Validating { data }),
        r.1 matches UploadAction::CheckToken { token } && token@ == data.session_token@,
{
    let token = data.session_token.clone();
    (UploadState::Validating { data }, UploadAction::CheckToken { token })
}

/// One decision of the saga: consumes the outcome of the last action and
/// says what happens next. Performs no I/O itself.
pub fn step(st: UploadState, ev: UploadEvent, full_link: &str, audio_len: u64) -> (r: (
    UploadState,
    UploadAction,
))
    requires
        event_fits(st, ev),
    ensures
        step_relation(st, ev, full_link@, audio_len, r.0, r.1),
{
    match (st, ev) {
        (UploadState::Validating { data }, UploadEvent::TokenChecked { valid }) => {
            if !valid {
                (
                    UploadState::Rejected { error: UploadError::Unauthorized },
                    UploadAction::Respond { result: Err(UploadError::Unauthorized) },
                )
            } else if !ownership_ok(&data) {
                (
                    UploadState::Rejected { error: UploadError::ValidationError },
                    UploadAction::Respond { result: Err(UploadError::ValidationError) },
                )
            } else {
                let ghost d0 = data;
                let PodcastData { channel, item, session_token } = data;
                let id = fresh_uuid();
                let url = enclosure_url(full_link, id.as_str());
                let key = object_key(id.as_str());
                let len_text = u64_to_string(audio_len);
                let item2 = Item {
                    id,
                    enclosure_url: url,
                    enclosure_type: String::from_str("audio/mpeg"),
                    enclosure_length: len_text,
                    ..item
                };
                let data = PodcastData { channel, item: item2, session_token };
                let key2 = key.clone();
                proof {
                    assert(identity_assigned(d0, data, full_link@, audio_len));
                }
                (
                    UploadState::WritingBlob { data, key },
                    UploadAction::PutBlob {
                        key: key2,
                        content_type: String::from_str("audio/mpeg"),
                        public_read: true,
                    },
                )
            }
        },
        (UploadState::WritingBlob { data, key }, UploadEvent::BlobPut { ok }) => {
            if ok {
                let d2 = data.clone();
                (
                    UploadState::WritingMetadata { data, key },
                    UploadAction::StoreMetadata { data: d2 },
                )
            } else {
                (
                    UploadState::Failed {
                        error: UploadError::UpstreamError,
                        compensation_failed: false,
                    },
                    UploadAction::Respond { result: Err(UploadError::UpstreamError) },
                )
            }
        },
        (UploadState::WritingMetadata { data, key }, UploadEvent::MetadataStored { ok }) => {
            if ok {
                let c = data.channel.external_id.clone();
                (
                    UploadState::RebuildingFeed { data, key },
                    UploadAction::FetchFeedRows { channel_external_id: c },
                )
            } else {
                let key2 = key.clone();
                (
                    UploadState::CompensatingDelete { key },
                    UploadAction::DeleteBlob { key: key2 },
                )
            }
        },
        (UploadState::CompensatingDelete { key: _ }, UploadEvent::BlobDeleted { ok }) => {
            (
                UploadState::Failed {
                    error: UploadError::UpstreamError,
                    compensation_failed: !ok,
                },
                UploadAction::Respond { result: Err(UploadError::UpstreamError) },
            )
        },
        (UploadState::RebuildingFeed { data, key: _ }, UploadEvent::FeedRows { channel, items }) => {
            match channel {
                None => (
                    UploadState::Failed {
                        error: UploadError::ConsistencyError,
                        compensation_failed: false,
                    },
                    UploadAction::Respond { result: Err(UploadError::ConsistencyError) },
                ),
                Some(ch) => {
                    let external_id = data.channel.external_id.clone();
                    let title = ch.title.clone();
                    let document = render_channel(&ch, items);
                    let receipt = data.session_token.clone();
                    (
                        UploadState::Done { receipt },
                        UploadAction::ApplyCache { external_id, title, document },
                    )
                },
            }
        },
        _ => {
            proof {
                assert(false);
            }
            (
                UploadState::Failed {
                    error: UploadError::UpstreamError,
                    compensation_failed: false,
                },
                UploadAction::Respond { result: Err(UploadError::UpstreamError) },
            )
        },
    }
}

/// Rejected ownership: an upload whose episode names a channel other than
/// the target is rejected with a validation error, in every run.
pub proof fn lemma_ownership_rejected(
    st: UploadState,
    ev: UploadEvent,
    full_link: Seq<char>,
    audio_len: u64,
    st2: UploadState,
    act: UploadAction,
)
    requires
        st matches UploadState::Validating { data } && data.channel.external_id@
            != data.item.channel_id@,
        ev == (UploadEvent::TokenChecked { valid: true }),
        step_relation(st, ev, full_link, audio_len, st2, act),
    ensures
        st2 == (UploadState::Rejected { error: UploadError::ValidationError }),
        act == (UploadAction::Respond { result: Err(UploadError::ValidationError) }),
{
}

/// Upload atomicity: when the metadata write fails, the next action is a
/// delete of exactly the blob key written in the blob step, no cache write
/// is requested then or at the following step, and a failed compensation
/// ends recorded in the final state, never dropped.
pub proof fn lemma_compensation(
    st: UploadState,
    ev: UploadEvent,
    full_link: Seq<char>,
    audio_len: u64,
    st2: UploadState,
    act: UploadAction,
)
    requires
        st matches UploadState::WritingMetadata { .. },
        ev == (UploadEvent::MetadataStored { ok: false }),
        step_relation(st, ev, full_link, audio_len, st2, act),
    ensures
        st matches UploadState::WritingMetadata { data, key } ==> (act
            matches UploadAction::DeleteBlob { key: k } && k@ == key@),
        st2 matches UploadState::CompensatingDelete { .. },
        !(act matches UploadAction::ApplyCache { .. }),
        forall|ev2: UploadEvent, st3: UploadState, act2: UploadAction|
            event_fits(st2, ev2) && #[trigger] step_relation(
                st2,
                ev2,
                full_link,
                audio_len,
                st3,
                act2,
            ) ==> !(act2 matches UploadAction::ApplyCache { .. }) && (st3
                matches UploadState::Failed { compensation_failed, .. } && (compensation_failed
                <==> ev2 == (UploadEvent::BlobDeleted { ok: false }))),
{
    assert forall|ev2: UploadEvent, st3: UploadState, act2: UploadAction|
        event_fits(st2, ev2) && #[trigger] step_relation(
            st2,
            ev2,
            full_link,
            audio_len,
            st3,
            act2,
        ) implies !(act2 matches UploadAction::ApplyCache { .. }) && (st3
        matches UploadState::Failed { compensation_failed, .. } && (compensation_failed <==> ev2
        == (UploadEvent::BlobDeleted { ok: false }))) by {
        match ev2 {
            UploadEvent::BlobDeleted { ok } => {},
            _ => {},
        }
    }
}

} // verus!
