//! The messages between a client and the application.
//!
//! Every request has an answer of the same name. How requests arrive and how
//! answers leave is not the business of this crate.

use vstd::prelude::*;
use crate::action::{Actions, PartialActionFilter};
use crate::cache::Access;
use crate::meta::{
    config_views, lemma_cloned_configs, pinned_with, pinned_without, MetaHolder, TagConfig,
};
use crate::note::Note;
use crate::palette::{delete_palette, search_palette, Palettes};
use crate::palette_action::PaletteAction;
use crate::searcher::{Matched, SearcherId, SearcherManager};
use crate::settings::Settings;
use crate::suggester::{
    delete_suggester, search_suggester, SuggesterSource, Suggestion, SUGGESTER_END,
    SUGGESTER_START,
};
use crate::table::Table;
use crate::text::{copy_texts, texts};

verus! {

/// A request of a client.
pub enum ClientMessage {
    GetSettings,
    UpdateSettings { settings: Settings },
    GetNote { path: String },
    UpdateNote { path: String, note: Note },
    UpdatePath { current_path: String, new_title: String },
    CreateNote { title: String },
    CreatePalette { palette_key: String, filters: Vec<PartialActionFilter> },
    DeletePalette { id: SearcherId },
    CreateSuggester { suggester_source: SuggesterSource },
    SearchSuggester { id: SearcherId, search: String },
    DeleteSuggester { id: SearcherId },
    SearchPalette { id: SearcherId, search: String, start: u32, end: u32 },
    AddPinned { path: String, position: usize },
    RemovePinned { path: String },
    GetPinned,
    GetActions,
    GetTagConfigs,
    Refresh,
}

/// The answer to a request.
pub enum ServerMessage {
    GetSettings(Settings),
    UpdateSettings,
    GetNote(Option<Note>),
    UpdateNote,
    UpdatePath(Option<String>),
    CreateNote(Option<String>),
    Note(Option<Note>),
    CreatePalette(SearcherId),
    SearchPalette(Option<Vec<Matched<PaletteAction>>>),
    DeletePalette,
    CreateSuggester(SearcherId),
    SearchSuggester(Option<Vec<Matched<Suggestion>>>),
    DeleteSuggester,
    AddPinned,
    RemovePinned,
    GetPinned(Vec<String>),
    GetActions(Actions),
    GetTagConfigs(Table<TagConfig>),
    Refresh,
}

/// What a client gets back: the answer, or the message of an error.
pub enum ServerResult {
    Success { message: ServerMessage },
    Failure { error: String },
}

impl ServerResult {
    /// Wraps the outcome of handling a request.
    pub fn from_outcome(outcome: Result<ServerMessage, String>) -> (result: ServerResult)
        ensures
            result == match outcome {
                Ok(message) => ServerResult::Success { message },
                Err(error) => ServerResult::Failure { error },
            },
    {
        match outcome {
            Ok(message) => ServerResult::Success { message },
            Err(error) => ServerResult::Failure { error },
        }
    }
}

/// What a request works on. Each of these is kept behind a lock of its own,
/// so that a request waits only for what it needs.
#[derive(Debug, Clone, Copy, PartialEq, Eq, Structural)]
pub enum Route {
    /// The settings document.
    Settings,
    /// The files of the note folder, and the index with them.
    Notes,
    /// The index document alone.
    Index,
    /// The action catalog alone.
    Catalog,
    /// Catalog and index, then the palette sessions: a palette is opened.
    OpenPalette,
    /// The palette sessions alone.
    Palettes,
    /// The index, then the suggester sessions: a suggester is opened.
    OpenSuggester,
    /// The suggester sessions alone.
    Suggesters,
    /// Every cache: all copies are dropped.
    Refresh,
}

/// What a request works on.
pub open spec fn route_of(message: ClientMessage) -> Route {
    match message {
        ClientMessage::GetSettings => Route::Settings,
        ClientMessage::UpdateSettings { .. } => Route::Settings,
        ClientMessage::GetNote { .. } => Route::Notes,
        ClientMessage::UpdateNote { .. } => Route::Notes,
        ClientMessage::UpdatePath { .. } => Route::Notes,
        ClientMessage::CreateNote { .. } => Route::Notes,
        ClientMessage::CreatePalette { .. } => Route::OpenPalette,
        ClientMessage::DeletePalette { .. } => Route::Palettes,
        ClientMessage::SearchPalette { .. } => Route::Palettes,
        ClientMessage::CreateSuggester { .. } => Route::OpenSuggester,
        ClientMessage::SearchSuggester { .. } => Route::Suggesters,
        ClientMessage::DeleteSuggester { .. } => Route::Suggesters,
        ClientMessage::AddPinned { .. } => Route::Index,
        ClientMessage::RemovePinned { .. } => Route::Index,
        ClientMessage::GetPinned => Route::Index,
        ClientMessage::GetTagConfigs => Route::Index,
        ClientMessage::GetActions => Route::Catalog,
        ClientMessage::Refresh => Route::Refresh,
    }
}

/// The answer to a request on the index, and whether the index has changed
/// by it and is to be stored.
pub struct IndexAnswer {
    pub message: ServerMessage,
    pub access: Access,
}

impl ClientMessage {
    /// What this request works on.
    pub fn route(&self) -> (route: Route)
        ensures
            route == route_of(*self),
    {
        match self {
            ClientMessage::GetSettings => Route::Settings,
            ClientMessage::UpdateSettings { .. } => Route::Settings,
            ClientMessage::GetNote { .. } => Route::Notes,
            ClientMessage::UpdateNote { .. } => Route::Notes,
            ClientMessage::UpdatePath { .. } => Route::Notes,
            ClientMessage::CreateNote { .. } => Route::Notes,
            ClientMessage::CreatePalette { .. } => Route::OpenPalette,
            ClientMessage::DeletePalette { .. } => Route::Palettes,
            ClientMessage::SearchPalette { .. } => Route::Palettes,
            ClientMessage::CreateSuggester { .. } => Route::OpenSuggester,
            ClientMessage::SearchSuggester { .. } => Route::Suggesters,
            ClientMessage::DeleteSuggester { .. } => Route::Suggesters,
            ClientMessage::AddPinned { .. } => Route::Index,
            ClientMessage::RemovePinned { .. } => Route::Index,
            ClientMessage::GetPinned => Route::Index,
            ClientMessage::GetTagConfigs => Route::Index,
            ClientMessage::GetActions => Route::Catalog,
            ClientMessage::Refresh => Route::Refresh,
        }
    }
}

/// Whether a request to pin can be carried out: the position lies within the
/// list, or the path is pinned already and the position does not matter.
pub open spec fn can_pin(holder: MetaHolder, message: ClientMessage) -> bool {
    message matches ClientMessage::AddPinned { path, position } ==> texts(
        holder.index().pinned@,
    ).contains(path@) || position <= holder.index().pinned@.len()
}

/// What handling a request on the index leaves and answers: the pinned
/// list is read, or changed as the request says; a request to pin a path
/// that is pinned already changes nothing and stores nothing; a request that
/// works on something else is not answered and changes nothing.
pub open spec fn index_handled(
    before: MetaHolder,
    after: MetaHolder,
    message: ClientMessage,
    r: Option<IndexAnswer>,
) -> bool {
    &&& r is Some <==> route_of(message) == Route::Index
    &&& before.wf() ==> after.wf()
    &&& after.tag_forest() == before.tag_forest()
    &&& after.index().notes == before.index().notes
    &&& after.index().tag_configs == before.index().tag_configs
    &&& match message {
        ClientMessage::GetPinned => {
            &&& r matches Some(answer)
            &&& answer.message matches ServerMessage::GetPinned(pinned)
            &&& texts(pinned@) == texts(before.index().pinned@)
            &&& answer.access == Access::Read
            &&& after.index().pinned == before.index().pinned
        },
        ClientMessage::GetTagConfigs => {
            &&& r matches Some(answer)
            &&& answer.message matches ServerMessage::GetTagConfigs(configs)
            &&& config_views(configs@) == config_views(before.index().tag_configs@)
            &&& answer.access == Access::Read
            &&& after.index().pinned == before.index().pinned
        },
        ClientMessage::AddPinned { path, position } => {
            &&& r matches Some(answer)
            &&& answer.message is AddPinned
            &&& answer.access == if texts(before.index().pinned@).contains(path@) {
                Access::Read
            } else {
                Access::Write
            }
            &&& texts(after.index().pinned@) == pinned_with(
                texts(before.index().pinned@),
                path@,
                position as int,
            )
        },
        ClientMessage::RemovePinned { path } => {
            &&& r matches Some(answer)
            &&& answer.message is RemovePinned
            &&& answer.access == Access::Write
            &&& texts(after.index().pinned@) == pinned_without(
                texts(before.index().pinned@),
                path@,
            )
        },
        _ => after.index().pinned == before.index().pinned,
    }
}

/// Why a request on the index cannot be carried out.
#[derive(Debug, Clone, Copy, PartialEq, Eq, Structural)]
pub enum IndexError {
    /// A path was to be pinned at a position past the end of the pinned
    /// list.
    PositionPastTheEnd,
}

impl IndexError {
    /// The message of the error.
    pub fn message(&self) -> (text: String)
        ensures
            text@ == "the position lies past the end of the pinned list"@,
    {
        "the position lies past the end of the pinned list".to_owned()
    }
}

/// Whether a request to pin can be carried out.
pub fn check_pin(holder: &MetaHolder, message: &ClientMessage) -> (b: bool)
    ensures
        b == can_pin(*holder, *message),
{
    match message {
        ClientMessage::AddPinned { path, position } => {
            holder.meta().is_pinned(path.as_str()) || *position <= holder.meta().pinned.len()
        },
        _ => true,
    }
}

/// Handles a request that works on the index alone, as `handle_index` does
/// where the request can be carried out. A request to pin a new path at a
/// position past the end of the list is an error and changes nothing.
pub fn try_handle_index(holder: &mut MetaHolder, message: ClientMessage) -> (r: Result<
    Option<IndexAnswer>,
    IndexError,
>)
    ensures
        match r {
            Ok(answer) => can_pin(*old(holder), message) && index_handled(
                *old(holder),
                *final(holder),
                message,
                answer,
            ),
            Err(error) => {
                &&& !can_pin(*old(holder), message)
                &&& error == IndexError::PositionPastTheEnd
                &&& *final(holder) == *old(holder)
            },
        },
{
    if check_pin(holder, &message) {
        Ok(handle_index(holder, message))
    } else {
        Err(IndexError::PositionPastTheEnd)
    }
}

/// Handles a request that works on the index alone. The pinned list is read,
/// or changed as the request says; a request to pin a path that is pinned
/// already changes nothing and stores nothing. `None` for a request that
/// works on something else; it changes nothing.
pub fn handle_index(holder: &mut MetaHolder, message: ClientMessage) -> (r: Option<IndexAnswer>)
    requires
        can_pin(*old(holder), message),
    ensures
        index_handled(*old(holder), *final(holder), message, r),
{
    match message {
        ClientMessage::GetPinned => Some(
            IndexAnswer {
                message: ServerMessage::GetPinned(copy_texts(&holder.meta().pinned)),
                access: Access::Read,
            },
        ),
        ClientMessage::GetTagConfigs => {
            let configs = holder.meta().tag_configs.clone();
            proof {
                lemma_cloned_configs(holder.index().tag_configs@, configs@);
            }
            Some(
                IndexAnswer {
                    message: ServerMessage::GetTagConfigs(configs),
                    access: Access::Read,
                },
            )
        },
        ClientMessage::AddPinned { path, position } => {
            let access = if holder.add_pinned(path, position) {
                Access::Write
            } else {
                Access::Read
            };
            Some(IndexAnswer { message: ServerMessage::AddPinned, access })
        },
        ClientMessage::RemovePinned { path } => {
            holder.remove_pinned(path.as_str());
            Some(IndexAnswer { message: ServerMessage::RemovePinned, access: Access::Write })
        },
        _ => None,
    }
}

/// Handles a request that works on the palette sessions alone: a search or
/// a deletion. `None` for a request that works on something else; it
/// changes nothing.
pub fn handle_palettes(palettes: &mut Palettes, message: ClientMessage) -> (r: Option<ServerMessage>)
    requires
        old(palettes).wf(),
    ensures
        final(palettes).wf(),
        r is Some <==> route_of(message) == Route::Palettes,
        match message {
            ClientMessage::SearchPalette { id, search, start, end } => {
                &&& r matches Some(ServerMessage::SearchPalette(found))
                &&& old(palettes)@.searched(final(palettes)@, id, search@, start, end, found)
            },
            ClientMessage::DeletePalette { id } => {
                &&& r matches Some(ServerMessage::DeletePalette)
                &&& final(palettes)@ == old(palettes)@.without(id)
            },
            _ => final(palettes)@ == old(palettes)@,
        },
{
    match message {
        ClientMessage::SearchPalette { id, search, start, end } => Some(
            ServerMessage::SearchPalette(search_palette(palettes, id, search.as_str(), start..end)),
        ),
        ClientMessage::DeletePalette { id } => {
            delete_palette(palettes, id);
            Some(ServerMessage::DeletePalette)
        },
        _ => None,
    }
}

/// Handles a request that works on the suggester sessions alone: a search
/// or a deletion. `None` for a request that works on something else; it
/// changes nothing.
pub fn handle_suggesters(
    suggesters: &mut SearcherManager<Suggestion>,
    message: ClientMessage,
) -> (r: Option<ServerMessage>)
    requires
        old(suggesters).wf(),
    ensures
        final(suggesters).wf(),
        r is Some <==> route_of(message) == Route::Suggesters,
        match message {
            ClientMessage::SearchSuggester { id, search } => {
                &&& r matches Some(ServerMessage::SearchSuggester(found))
                &&& old(suggesters)@.searched(
                    final(suggesters)@,
                    id,
                    search@,
                    SUGGESTER_START,
                    SUGGESTER_END,
                    found,
                )
            },
            ClientMessage::DeleteSuggester { id } => {
                &&& r matches Some(ServerMessage::DeleteSuggester)
                &&& final(suggesters)@ == old(suggesters)@.without(id)
            },
            _ => final(suggesters)@ == old(suggesters)@,
        },
{
    match message {
        ClientMessage::SearchSuggester { id, search } => Some(
            ServerMessage::SearchSuggester(search_suggester(suggesters, id, search.as_str())),
        ),
        ClientMessage::DeleteSuggester { id } => {
            delete_suggester(suggesters, id);
            Some(ServerMessage::DeleteSuggester)
        },
        _ => None,
    }
}

} // verus!
