//! Which model a session uses, and how a remote client changes it.

use vstd::prelude::*;

use crate::session::SessionKind;
use crate::text::{chars_of, joined, lemma_trimmed_idempotent, same_text, trim, trimmed};
use crate::turn::{copy_text_option, text_option};

verus! {

/// What a model can do, as it is configured.
#[derive(Debug, Clone, Copy, PartialEq, Eq, Structural)]
pub enum ModelCapability {
    TextChat,
    ImageUnderstanding,
    ImageGeneration,
    Embedding,
    Search,
    CodeSpecialized,
    FunctionCalling,
    SpeechRecognition,
}

/// What a model can do, as remote clients know it.
#[derive(Debug, Clone, Copy, PartialEq, Eq, Structural)]
pub enum RemoteModelCapabilityFact {
    TextChat,
    ImageUnderstanding,
    ImageGeneration,
    Embedding,
    Search,
    CodeSpecialized,
    FunctionCalling,
    SpeechRecognition,
}

/// How a capability is shown to remote clients.
pub open spec fn shown_capability(capability: ModelCapability) -> RemoteModelCapabilityFact {
    match capability {
        ModelCapability::TextChat => RemoteModelCapabilityFact::TextChat,
        ModelCapability::ImageUnderstanding => RemoteModelCapabilityFact::ImageUnderstanding,
        ModelCapability::ImageGeneration => RemoteModelCapabilityFact::ImageGeneration,
        ModelCapability::Embedding => RemoteModelCapabilityFact::Embedding,
        ModelCapability::Search => RemoteModelCapabilityFact::Search,
        ModelCapability::CodeSpecialized => RemoteModelCapabilityFact::CodeSpecialized,
        ModelCapability::FunctionCalling => RemoteModelCapabilityFact::FunctionCalling,
        ModelCapability::SpeechRecognition => RemoteModelCapabilityFact::SpeechRecognition,
    }
}

/// A capability for remote clients.
pub fn remote_model_capability_fact(capability: ModelCapability) -> (r: RemoteModelCapabilityFact)
    ensures
        r == shown_capability(capability),
{
    match capability {
        ModelCapability::TextChat => RemoteModelCapabilityFact::TextChat,
        ModelCapability::ImageUnderstanding => RemoteModelCapabilityFact::ImageUnderstanding,
        ModelCapability::ImageGeneration => RemoteModelCapabilityFact::ImageGeneration,
        ModelCapability::Embedding => RemoteModelCapabilityFact::Embedding,
        ModelCapability::Search => RemoteModelCapabilityFact::Search,
        ModelCapability::CodeSpecialized => RemoteModelCapabilityFact::CodeSpecialized,
        ModelCapability::FunctionCalling => RemoteModelCapabilityFact::FunctionCalling,
        ModelCapability::SpeechRecognition => RemoteModelCapabilityFact::SpeechRecognition,
    }
}

/// Where the public model catalog was taken from.
#[derive(Debug, Clone, Copy, PartialEq, Eq, Structural)]
pub enum ModelsDevSnapshotSource {
    Cache,
    Bundled,
    Empty,
}

/// Where the providers of a model catalog come from.
#[derive(Debug, Clone, Copy, PartialEq, Eq, Structural)]
pub enum ProviderCatalogSource {
    Cache,
    Bundle,
    OpenBitFun,
}

/// Where the reasoning models of a model catalog come from.
#[derive(Debug, Clone, Copy, PartialEq, Eq, Structural)]
pub enum ModelsDevCatalogSource {
    Cache,
    Bundle,
    Empty,
}

/// The source of the providers; without a public catalog they are the built-in
/// ones.
pub fn provider_catalog_source(source: ModelsDevSnapshotSource) -> (r: ProviderCatalogSource)
    ensures
        r == (match source {
            ModelsDevSnapshotSource::Cache => ProviderCatalogSource::Cache,
            ModelsDevSnapshotSource::Bundled => ProviderCatalogSource::Bundle,
            ModelsDevSnapshotSource::Empty => ProviderCatalogSource::OpenBitFun,
        }),
{
    match source {
        ModelsDevSnapshotSource::Cache => ProviderCatalogSource::Cache,
        ModelsDevSnapshotSource::Bundled => ProviderCatalogSource::Bundle,
        ModelsDevSnapshotSource::Empty => ProviderCatalogSource::OpenBitFun,
    }
}

/// The source of the reasoning models.
pub fn reasoning_catalog_source(source: ModelsDevSnapshotSource) -> (r: ModelsDevCatalogSource)
    ensures
        r == (match source {
            ModelsDevSnapshotSource::Cache => ModelsDevCatalogSource::Cache,
            ModelsDevSnapshotSource::Bundled => ModelsDevCatalogSource::Bundle,
            ModelsDevSnapshotSource::Empty => ModelsDevCatalogSource::Empty,
        }),
{
    match source {
        ModelsDevSnapshotSource::Cache => ModelsDevCatalogSource::Cache,
        ModelsDevSnapshotSource::Bundled => ModelsDevCatalogSource::Bundle,
        ModelsDevSnapshotSource::Empty => ModelsDevCatalogSource::Empty,
    }
}

/// Which model catalog is asked for: one that stays on this machine holds the
/// public catalog's bodies, one that leaves it only their identity.
#[derive(Debug, Clone, Copy, PartialEq, Eq, Structural)]
pub enum ModelCatalogReader {
    Local,
    Remote,
}

/// Whether the public catalog's bodies go into a model catalog.
pub fn includes_host_catalogs(reader: ModelCatalogReader) -> (r: bool)
    ensures
        r == (reader is Local),
{
    match reader {
        ModelCatalogReader::Local => true,
        ModelCatalogReader::Remote => false,
    }
}

/// A catalog of model providers `P`.
#[derive(Debug)]
pub struct ProviderCatalog<P> {
    pub revision: String,
    pub source: ProviderCatalogSource,
    pub providers: Vec<P>,
}

/// The catalog of providers that goes into a model catalog. Without the bodies
/// it has the same revision and source, so that a client that knows this
/// revision does not see it move.
pub fn remote_provider_catalog<P>(catalog: ProviderCatalog<P>, include_providers: bool) -> (r:
    ProviderCatalog<P>)
    ensures
        r.revision == catalog.revision,
        r.source == catalog.source,
        include_providers ==> r.providers == catalog.providers,
        !include_providers ==> r.providers@.len() == 0,
{
    ProviderCatalog {
        revision: catalog.revision,
        source: catalog.source,
        providers: if include_providers {
            catalog.providers
        } else {
            Vec::new()
        },
    }
}

/// The reasoning catalog that goes into a model catalog: only into one with the
/// public catalog's bodies, and only when there is one.
pub fn remote_models_dev_reasoning_catalog<T>(projected: Option<T>, include_catalog: bool) -> (r:
    Option<T>)
    ensures
        r == (if include_catalog {
            projected
        } else {
            None
        }),
{
    if include_catalog {
        projected
    } else {
        None
    }
}

/// A selection of model and reasoning preset.
#[derive(Debug)]
pub struct RemoteSessionModelSelection {
    pub model_id: String,
    pub reasoning_preset: Option<String>,
}

/// What a remote client selects.
pub enum SelectionModel {
    /// Nothing.
    Blank,
    /// The primary model, under either of its names.
    Primary,
    /// The fast model.
    Fast,
    /// A model by its name.
    Named(Seq<char>),
}

/// What a remote client selects with a text.
pub open spec fn selection_of(requested: Seq<char>) -> SelectionModel {
    let name = trimmed(requested);
    if name.len() == 0 {
        SelectionModel::Blank
    } else if name == "default"@ || name == "primary"@ {
        SelectionModel::Primary
    } else if name == "fast"@ {
        SelectionModel::Fast
    } else {
        SelectionModel::Named(name)
    }
}

/// Whether the configuration has to be read for a selection: only a named model
/// is looked up in it.
pub fn remote_model_selection_needs_config(requested_model_id: &str) -> (r: bool)
    ensures
        r == (selection_of(requested_model_id@) is Named),
{
    let name = trim(requested_model_id);
    !name.as_str().is_empty() && !same_text(name.as_str(), "default") && !same_text(
        name.as_str(),
        "primary",
    ) && !same_text(name.as_str(), "fast")
}

/// Whether the configuration has to be read to change a model: when the model is
/// named or a preset is asked for.
pub fn model_update_needs_config(
    requested_model_id: &str,
    reasoning_preset: Option<Option<&str>>,
) -> (r: bool)
    ensures
        r == (selection_of(requested_model_id@) is Named || reasoning_preset matches Some(Some(_))),
{
    remote_model_selection_needs_config(requested_model_id) || match reasoning_preset {
        Some(Some(_)) => true,
        _ => false,
    }
}

/// The model that is selected. `resolved` is what looking a named model up in
/// the configuration came to, or nothing without a configuration.
pub fn normalize_remote_model_selection(
    requested_model_id: &str,
    resolved: Option<Result<String, String>>,
) -> (r: Result<String, String>)
    ensures
        match selection_of(requested_model_id@) {
            SelectionModel::Blank => r matches Err(e) && e@ == "model_id is required"@,
            SelectionModel::Primary => r matches Ok(id) && id@ == "primary"@,
            SelectionModel::Fast => r matches Ok(id) && id@ == "fast"@,
            SelectionModel::Named(name) => match resolved {
                Some(result) => r == result,
                None => r matches Err(e) && e@ == "Config service not available"@,
            },
        },
{
    let name = trim(requested_model_id);
    if name.as_str().is_empty() {
        Err("model_id is required".to_owned())
    } else if same_text(name.as_str(), "default") || same_text(name.as_str(), "primary") {
        Ok("primary".to_owned())
    } else if same_text(name.as_str(), "fast") {
        Ok("fast".to_owned())
    } else {
        match resolved {
            Some(result) => result,
            None => Err("Config service not available".to_owned()),
        }
    }
}

/// The model of a session as remote clients know it: one that is not set is the
/// primary one.
pub open spec fn session_model_of(model_id: Option<Seq<char>>) -> Seq<char> {
    match model_id {
        Some(id) => if trimmed(id).len() == 0 || trimmed(id) == "default"@ {
            "primary"@
        } else {
            trimmed(id)
        },
        None => "primary"@,
    }
}

/// Decides [`session_model_of`].
pub fn normalize_remote_session_model_id(model_id: Option<&str>) -> (r: Option<String>)
    ensures
        text_option(r) == Some(
            session_model_of(
                match model_id {
                    Some(id) => Some(id@),
                    None => None,
                },
            ),
        ),
{
    match model_id {
        Some(id) => {
            let name = trim(id);
            if name.as_str().is_empty() || same_text(name.as_str(), "default") {
                Some("primary".to_owned())
            } else {
                Some(name)
            }
        },
        None => Some("primary".to_owned()),
    }
}

/// Whether `c` is one of two letters.
pub open spec fn is_letter(c: char, lower: char, upper: char) -> bool {
    c == lower || c == upper
}

/// Whether `s` is `auto` in any case.
pub open spec fn is_auto(s: Seq<char>) -> bool {
    s.len() == 4 && is_letter(s[0], 'a', 'A') && is_letter(s[1], 'u', 'U') && is_letter(
        s[2],
        't',
        'T',
    ) && is_letter(s[3], 'o', 'O')
}

/// Decides [`is_auto`].
fn means_auto(s: &str) -> (r: bool)
    ensures
        r == is_auto(s@),
{
    let c = chars_of(s);
    c.len() == 4 && (c[0] == 'a' || c[0] == 'A') && (c[1] == 'u' || c[1] == 'U') && (c[2] == 't'
        || c[2] == 'T') && (c[3] == 'o' || c[3] == 'O')
}

/// The preset that is asked for: blank and `auto` ask for none.
pub open spec fn wanted_preset(preset: Option<&str>) -> Option<Seq<char>> {
    match preset {
        Some(p) => if trimmed(p@).len() > 0 && !is_auto(trimmed(p@)) {
            Some(trimmed(p@))
        } else {
            None
        },
        None => None,
    }
}

/// The preset that is asked for. The outer `None` leaves the preset alone.
pub fn normalize_reasoning_preset(reasoning_preset: Option<Option<&str>>) -> (r: Option<
    Option<String>,
>)
    ensures
        match reasoning_preset {
            Some(preset) => r matches Some(wanted) && text_option(wanted) == wanted_preset(preset),
            None => r is None,
        },
{
    match reasoning_preset {
        Some(Some(preset)) => {
            let p = trim(preset);
            if p.as_str().is_empty() || means_auto(p.as_str()) {
                Some(None)
            } else {
                Some(Some(p))
            }
        },
        Some(None) => Some(None),
        None => None,
    }
}

/// How the model behind a selection is looked up.
#[derive(Debug, Clone, Copy, PartialEq, Eq, Structural)]
pub enum ModelLookup {
    Primary,
    Fast,
    Reference,
}

/// Decides how the model behind a selection is looked up.
pub fn concrete_model_lookup(normalized_model_id: &str) -> (r: ModelLookup)
    ensures
        r == (if normalized_model_id@ == "primary"@ {
            ModelLookup::Primary
        } else if normalized_model_id@ == "fast"@ {
            ModelLookup::Fast
        } else {
            ModelLookup::Reference
        }),
{
    if same_text(normalized_model_id, "primary") {
        ModelLookup::Primary
    } else if same_text(normalized_model_id, "fast") {
        ModelLookup::Fast
    } else {
        ModelLookup::Reference
    }
}

/// A configured model.
#[derive(Debug)]
pub struct ConfiguredModel {
    pub id: String,
    pub enabled: bool,
}

/// The position of the first enabled model with this id, or the number of
/// models.
pub open spec fn enabled_model(models: Seq<ConfiguredModel>, id: Seq<char>, from: int) -> int
    decreases models.len() - from,
{
    if from < 0 || from >= models.len() {
        models.len() as int
    } else if models[from].enabled && models[from].id@ == id {
        from
    } else {
        enabled_model(models, id, from + 1)
    }
}

/// The model for which a preset is asked for: the one that the selection was
/// resolved to, when it is configured and enabled.
pub fn model_for_preset(
    normalized_model_id: &str,
    resolved: &Option<String>,
    models: &Vec<ConfiguredModel>,
) -> (r: Result<usize, String>)
    ensures
        match *resolved {
            None => r matches Err(e) && e@
                == "Cannot resolve a concrete model for reasoning preset: "@
                + normalized_model_id@,
            Some(id) => {
                let at = enabled_model(models@, id@, 0);
                if at < models@.len() {
                    r matches Ok(k) && k == at
                } else {
                    r matches Err(e) && e@ == "Model is unavailable: "@ + id@
                }
            },
        },
{
    let id = match resolved {
        None => {
            return Err(
                joined(
                    "Cannot resolve a concrete model for reasoning preset: ",
                    normalized_model_id,
                ),
            );
        },
        Some(id) => id,
    };
    let mut i: usize = 0;
    while i < models.len()
        invariant
            *resolved == Some(*id),
            i <= models@.len(),
            enabled_model(models@, id@, 0) == enabled_model(models@, id@, i as int),
        decreases models@.len() - i,
    {
        if models[i].enabled && same_text(models[i].id.as_str(), id.as_str()) {
            return Ok(i);
        }
        i += 1;
    }
    Err(joined("Model is unavailable: ", id.as_str()))
}

/// The error for a preset that a model lacks.
pub fn preset_unavailable_error(preset_id: &str, model_id: &str) -> (r: String)
    ensures
        r@ == "Reasoning preset '"@ + preset_id@ + "' is not available for model '"@ + model_id@
            + "'"@,
{
    let mut text: String = "Reasoning preset '".to_owned();
    text.append(preset_id);
    text.append("' is not available for model '");
    text.append(model_id);
    text.append("'");
    text
}

/// How a model is changed: alone when no preset was named, else both.
#[derive(Debug)]
pub enum SessionModelUpdate {
    Model { model_id: String },
    Selection { model_id: String, reasoning_preset: Option<String> },
}

/// Decides how a model is changed.
pub fn session_model_update(
    normalized_model_id: &str,
    normalized_preset: &Option<Option<String>>,
) -> (r: SessionModelUpdate)
    ensures
        match *normalized_preset {
            None => r matches SessionModelUpdate::Model { model_id } && model_id@
                == normalized_model_id@,
            Some(preset) => r matches SessionModelUpdate::Selection { model_id, reasoning_preset }
                && model_id@ == normalized_model_id@ && reasoning_preset == preset,
        },
{
    match normalized_preset {
        None => SessionModelUpdate::Model { model_id: normalized_model_id.to_owned() },
        Some(preset) => SessionModelUpdate::Selection {
            model_id: normalized_model_id.to_owned(),
            reasoning_preset: copy_text_option(preset),
        },
    }
}

/// The model of a session as remote clients know it.
fn shown_session_model(model_id: &Option<String>) -> (r: String)
    ensures
        r@ == session_model_of(text_option(*model_id)),
{
    let shown = match model_id {
        Some(id) => normalize_remote_session_model_id(Some(id.as_str())),
        None => normalize_remote_session_model_id(None),
    };
    match shown {
        Some(id) => id,
        None => "primary".to_owned(),
    }
}

/// Whether a changed model becomes the default of new sessions: when it differs
/// from the one that the session had before, under whatever name, and the session
/// shares its default with others.
pub fn becomes_mode_default(
    previous_model_id: &Option<String>,
    normalized_model_id: &str,
    session_kind: Option<SessionKind>,
) -> (r: bool)
    ensures
        r == (session_kind == Some(SessionKind::Standard) && normalized_model_id@
            != session_model_of(text_option(*previous_model_id))),
{
    let previous = shown_session_model(previous_model_id);
    match session_kind {
        Some(kind) => kind == SessionKind::Standard && !same_text(
            previous.as_str(),
            normalized_model_id,
        ),
        None => false,
    }
}

/// The selection that is reported after a change: what the session has by then,
/// as remote clients know it, or what was asked for when the session is gone.
pub fn reported_model_selection(
    session: Option<(Option<String>, Option<String>)>,
    normalized_model_id: String,
    normalized_preset: Option<Option<String>>,
) -> (r: RemoteSessionModelSelection)
    ensures
        match session {
            Some((model_id, preset)) => r.model_id@ == session_model_of(text_option(model_id))
                && r.reasoning_preset == preset,
            None => r.model_id == normalized_model_id && r.reasoning_preset == (
            match normalized_preset {
                Some(preset) => preset,
                None => None,
            }),
        },
{
    match session {
        Some((model_id, preset)) => RemoteSessionModelSelection {
            model_id: shown_session_model(&model_id),
            reasoning_preset: preset,
        },
        None => RemoteSessionModelSelection {
            model_id: normalized_model_id,
            reasoning_preset: match normalized_preset {
                Some(preset) => preset,
                None => None,
            },
        },
    }
}

/// A step of looking up the model of a session. A session that is not loaded is
/// looked at in storage, under no lock; it is never restored for this.
#[derive(Debug, Clone, Copy, PartialEq, Eq, Structural)]
pub enum ModelLookupStep {
    FindLoadedSession,
    ResolveStorage,
    ReadStoredView,
    ReportSession,
    ReportNothing,
}

/// Goes on with looking up the model of a session.
pub fn next_model_lookup_step(step: ModelLookupStep, found: bool) -> (r: ModelLookupStep)
    requires
        !(step is ReportSession) && !(step is ReportNothing),
    ensures
        match step {
            ModelLookupStep::FindLoadedSession => if found {
                r is ReportSession
            } else {
                r is ResolveStorage
            },
            ModelLookupStep::ResolveStorage => if found {
                r is ReadStoredView
            } else {
                r is ReportNothing
            },
            _ => if found {
                r is ReportSession
            } else {
                r is ReportNothing
            },
        },
{
    match step {
        ModelLookupStep::FindLoadedSession => if found {
            ModelLookupStep::ReportSession
        } else {
            ModelLookupStep::ResolveStorage
        },
        ModelLookupStep::ResolveStorage => if found {
            ModelLookupStep::ReadStoredView
        } else {
            ModelLookupStep::ReportNothing
        },
        _ => if found {
            ModelLookupStep::ReportSession
        } else {
            ModelLookupStep::ReportNothing
        },
    }
}

/// A configured model with all that remote clients learn of it. `R` is what is
/// known of its reasoning.
#[derive(Debug)]
pub struct ModelSettings<R> {
    pub id: String,
    pub name: String,
    pub provider: String,
    pub base_url: String,
    pub model_name: String,
    pub context_window: Option<u32>,
    pub enabled: bool,
    pub capabilities: Vec<ModelCapability>,
    pub reasoning: R,
}

/// What remote clients know of a model.
#[derive(Debug)]
pub struct RemoteModelFacts<R> {
    pub id: String,
    pub name: String,
    pub provider: String,
    pub base_url: String,
    pub model_name: String,
    pub context_window: Option<u32>,
    pub enabled: bool,
    pub capabilities: Vec<RemoteModelCapabilityFact>,
    pub reasoning: Option<R>,
}

/// Whether facts are those of a model.
pub open spec fn shows_model<R>(facts: RemoteModelFacts<R>, model: ModelSettings<R>) -> bool {
    &&& facts.id == model.id
    &&& facts.name == model.name
    &&& facts.provider == model.provider
    &&& facts.base_url == model.base_url
    &&& facts.model_name == model.model_name
    &&& facts.context_window == model.context_window
    &&& facts.enabled == model.enabled
    &&& facts.capabilities@ == model.capabilities@.map_values(
        |c: ModelCapability| shown_capability(c),
    )
    &&& facts.reasoning == Some(model.reasoning)
}

/// Shows the capabilities of a model.
fn show_capabilities(capabilities: &Vec<ModelCapability>) -> (r: Vec<RemoteModelCapabilityFact>)
    ensures
        r@ == capabilities@.map_values(|c: ModelCapability| shown_capability(c)),
{
    let mut r: Vec<RemoteModelCapabilityFact> = Vec::new();
    let mut i: usize = 0;
    while i < capabilities.len()
        invariant
            i <= capabilities@.len(),
            r@.len() == i,
            forall|j: int| 0 <= j < i ==> #[trigger] r@[j] == shown_capability(capabilities@[j]),
        decreases capabilities@.len() - i,
    {
        r.push(remote_model_capability_fact(capabilities[i]));
        i += 1;
    }
    assert(r@ =~= capabilities@.map_values(|c: ModelCapability| shown_capability(c)));
    r
}

/// Shows the configured models, in their order.
pub fn remote_model_facts<R>(models: Vec<ModelSettings<R>>) -> (r: Vec<RemoteModelFacts<R>>)
    ensures
        r@.len() == models@.len(),
        forall|i: int| 0 <= i < r@.len() ==> shows_model(#[trigger] r@[i], models@[i]),
{
    let ghost all = models@;
    let mut r: Vec<RemoteModelFacts<R>> = Vec::new();
    for model in it: models
        invariant
            it.seq() == all,
            r@.len() == it.index(),
            forall|i: int| 0 <= i < r@.len() ==> shows_model(#[trigger] r@[i], all[i]),
    {
        assert(model == all[it.index() as int]);
        let capabilities = show_capabilities(&model.capabilities);
        r.push(
            RemoteModelFacts {
                id: model.id,
                name: model.name,
                provider: model.provider,
                base_url: model.base_url,
                model_name: model.model_name,
                context_window: model.context_window,
                enabled: model.enabled,
                capabilities,
                reasoning: Some(model.reasoning),
            },
        );
    }
    r
}

/// What is known of a model change before anything is done.
#[derive(Debug, Clone, Copy, PartialEq, Eq, Structural)]
pub struct ModelUpdateFacts {
    /// The configuration has to be read.
    pub needs_config: bool,
    /// A preset was named, if only to take it away.
    pub names_preset: bool,
    /// A preset is asked for, which the model has to have.
    pub wants_preset: bool,
}

/// The facts of a model change.
pub open spec fn model_update_facts_of(
    requested_model_id: Seq<char>,
    reasoning_preset: Option<Option<&str>>,
) -> ModelUpdateFacts {
    ModelUpdateFacts {
        needs_config: selection_of(requested_model_id) is Named || reasoning_preset matches Some(
            Some(_),
        ),
        names_preset: reasoning_preset is Some,
        wants_preset: reasoning_preset matches Some(preset) && wanted_preset(preset) is Some,
    }
}

/// Takes the facts of a model change.
pub fn model_update_facts(
    requested_model_id: &str,
    reasoning_preset: Option<Option<&str>>,
) -> (r: ModelUpdateFacts)
    ensures
        r == model_update_facts_of(requested_model_id@, reasoning_preset),
        r.wants_preset ==> r.needs_config && r.names_preset,
{
    let wants_preset = match normalize_reasoning_preset(reasoning_preset) {
        Some(Some(_)) => true,
        _ => false,
    };
    ModelUpdateFacts {
        needs_config: model_update_needs_config(requested_model_id, reasoning_preset),
        names_preset: reasoning_preset.is_some(),
        wants_preset,
    }
}

/// A step of changing a session's model, or its end.
#[derive(Debug, Clone, Copy, PartialEq, Eq, Structural)]
pub enum ModelUpdateStep {
    ReadConfig,
    NormalizeSelection,
    ResolvePresetModel,
    CheckPreset,
    /// Own the session's workspace and have the session loaded.
    AdmitSession,
    UpdateModel,
    UpdateSelection,
    PersistModeDefault,
    Report,
    Fail,
}

/// What a step of changing a session's model came to.
#[derive(Debug, Clone, Copy, PartialEq, Eq, Structural)]
pub enum ModelUpdateEvent {
    Done,
    Failed,
    Updated { becomes_default: bool },
}

/// Whether an event can come of a step.
pub open spec fn model_event_comes_of(step: ModelUpdateStep, event: ModelUpdateEvent) -> bool {
    match event {
        ModelUpdateEvent::Updated { becomes_default } => step is UpdateModel || step
            is UpdateSelection,
        ModelUpdateEvent::Done => !(step is UpdateModel || step is UpdateSelection || step
            is Report || step is Fail),
        ModelUpdateEvent::Failed => !(step is PersistModeDefault || step is Report || step
            is Fail),
    }
}

/// The first step of changing a session's model.
pub fn first_model_update_step(facts: ModelUpdateFacts) -> (r: ModelUpdateStep)
    ensures
        r == (if facts.needs_config {
            ModelUpdateStep::ReadConfig
        } else {
            ModelUpdateStep::NormalizeSelection
        }),
{
    if facts.needs_config {
        ModelUpdateStep::ReadConfig
    } else {
        ModelUpdateStep::NormalizeSelection
    }
}

/// What follows a step of changing a session's model.
pub open spec fn model_update_step(
    facts: ModelUpdateFacts,
    step: ModelUpdateStep,
    event: ModelUpdateEvent,
) -> ModelUpdateStep {
    match event {
        ModelUpdateEvent::Failed => ModelUpdateStep::Fail,
        ModelUpdateEvent::Updated { becomes_default } => if becomes_default {
            ModelUpdateStep::PersistModeDefault
        } else {
            ModelUpdateStep::Report
        },
        ModelUpdateEvent::Done => match step {
            ModelUpdateStep::ReadConfig => ModelUpdateStep::NormalizeSelection,
            ModelUpdateStep::NormalizeSelection => if facts.wants_preset {
                ModelUpdateStep::ResolvePresetModel
            } else {
                ModelUpdateStep::AdmitSession
            },
            ModelUpdateStep::ResolvePresetModel => ModelUpdateStep::CheckPreset,
            ModelUpdateStep::CheckPreset => ModelUpdateStep::AdmitSession,
            ModelUpdateStep::AdmitSession => if facts.names_preset {
                ModelUpdateStep::UpdateSelection
            } else {
                ModelUpdateStep::UpdateModel
            },
            _ => ModelUpdateStep::Report,
        },
    }
}

/// Goes on with changing a session's model.
pub fn next_model_update_step(
    facts: ModelUpdateFacts,
    step: ModelUpdateStep,
    event: ModelUpdateEvent,
) -> (r: ModelUpdateStep)
    requires
        model_event_comes_of(step, event),
    ensures
        r == model_update_step(facts, step, event),
{
    match event {
        ModelUpdateEvent::Failed => ModelUpdateStep::Fail,
        ModelUpdateEvent::Updated { becomes_default } => if becomes_default {
            ModelUpdateStep::PersistModeDefault
        } else {
            ModelUpdateStep::Report
        },
        ModelUpdateEvent::Done => match step {
            ModelUpdateStep::ReadConfig => ModelUpdateStep::NormalizeSelection,
            ModelUpdateStep::NormalizeSelection => if facts.wants_preset {
                ModelUpdateStep::ResolvePresetModel
            } else {
                ModelUpdateStep::AdmitSession
            },
            ModelUpdateStep::ResolvePresetModel => ModelUpdateStep::CheckPreset,
            ModelUpdateStep::CheckPreset => ModelUpdateStep::AdmitSession,
            ModelUpdateStep::AdmitSession => if facts.names_preset {
                ModelUpdateStep::UpdateSelection
            } else {
                ModelUpdateStep::UpdateModel
            },
            _ => ModelUpdateStep::Report,
        },
    }
}

/// Whether one step of changing a model may follow another.
pub open spec fn model_update_follows(
    facts: ModelUpdateFacts,
    step: ModelUpdateStep,
    next: ModelUpdateStep,
) -> bool {
    exists|event: ModelUpdateEvent|
        #[trigger] model_event_comes_of(step, event) && model_update_step(facts, step, event)
            == next
}

/// Whether these are the steps of changing a model from the beginning.
pub open spec fn is_model_update_run(facts: ModelUpdateFacts, run: Seq<ModelUpdateStep>) -> bool {
    &&& run.len() > 0
    &&& run[0] == (if facts.needs_config {
        ModelUpdateStep::ReadConfig
    } else {
        ModelUpdateStep::NormalizeSelection
    })
    &&& forall|i: int|
        0 <= i < run.len() - 1 ==> #[trigger] model_update_follows(facts, run[i], run[i + 1])
}

/// Whether a step stands among the first `n` of a run.
pub open spec fn stands_before(run: Seq<ModelUpdateStep>, n: int, step: ModelUpdateStep) -> bool {
    exists|j: int| 0 <= j < n && #[trigger] run[j] == step
}

/// A session is admitted to a model change only when the selection was
/// understood, and when a preset is asked for, only when the model has it; and
/// it is changed only when it was admitted.
pub proof fn models_are_checked_before_sessions_are_touched(
    facts: ModelUpdateFacts,
    run: Seq<ModelUpdateStep>,
    i: int,
)
    requires
        is_model_update_run(facts, run),
        0 <= i < run.len(),
    ensures
        run[i] is ResolvePresetModel || run[i] is CheckPreset || run[i] is AdmitSession || run[i]
            is UpdateModel || run[i] is UpdateSelection ==> stands_before(
            run,
            i,
            ModelUpdateStep::NormalizeSelection,
        ),
        (run[i] is AdmitSession || run[i] is UpdateModel || run[i] is UpdateSelection)
            && facts.wants_preset ==> stands_before(run, i, ModelUpdateStep::CheckPreset),
        run[i] is UpdateModel || run[i] is UpdateSelection ==> stands_before(
            run,
            i,
            ModelUpdateStep::AdmitSession,
        ),
    decreases i,
{
    if i > 0 {
        assert(model_update_follows(facts, run[i - 1], run[i - 1 + 1]));
        models_are_checked_before_sessions_are_touched(facts, run, i - 1);
        lemma_stands_longer(run, i - 1, ModelUpdateStep::NormalizeSelection);
        lemma_stands_longer(run, i - 1, ModelUpdateStep::CheckPreset);
        lemma_stands_longer(run, i - 1, ModelUpdateStep::AdmitSession);
    }
}

proof fn lemma_stands_longer(run: Seq<ModelUpdateStep>, n: int, step: ModelUpdateStep)
    requires
        0 <= n < run.len(),
    ensures
        stands_before(run, n, step) ==> stands_before(run, n + 1, step),
        run[n] == step ==> stands_before(run, n + 1, step),
{
    if stands_before(run, n, step) {
        let j = choose|j: int| 0 <= j < n && #[trigger] run[j] == step;
        assert(run[j] == step);
    }
}

/// Every capability is shown as what it is.
pub proof fn capabilities_are_shown_as_they_are(capability: ModelCapability)
    ensures
        shown_capability(capability) == RemoteModelCapabilityFact::TextChat <==> capability
            == ModelCapability::TextChat,
        shown_capability(capability) == RemoteModelCapabilityFact::ImageUnderstanding
            <==> capability == ModelCapability::ImageUnderstanding,
        shown_capability(capability) == RemoteModelCapabilityFact::ImageGeneration <==> capability
            == ModelCapability::ImageGeneration,
        shown_capability(capability) == RemoteModelCapabilityFact::Embedding <==> capability
            == ModelCapability::Embedding,
        shown_capability(capability) == RemoteModelCapabilityFact::Search <==> capability
            == ModelCapability::Search,
        shown_capability(capability) == RemoteModelCapabilityFact::CodeSpecialized <==> capability
            == ModelCapability::CodeSpecialized,
        shown_capability(capability) == RemoteModelCapabilityFact::FunctionCalling <==> capability
            == ModelCapability::FunctionCalling,
        shown_capability(capability) == RemoteModelCapabilityFact::SpeechRecognition <==> capability
            == ModelCapability::SpeechRecognition,
{
}

/// A blank text selects nothing, the words for the primary and the fast model
/// select these, and any other text selects the model of that name; white space
/// around it does not count.
pub proof fn a_selection_is_read_without_white_space(requested: Seq<char>)
    ensures
        selection_of(trimmed(requested)) == selection_of(requested),
        selection_of(requested) is Blank <==> trimmed(requested).len() == 0,
        selection_of(requested) is Primary <==> trimmed(requested) == "default"@ || trimmed(
            requested,
        ) == "primary"@,
        selection_of(requested) is Fast <==> trimmed(requested) == "fast"@,
        selection_of(requested) matches SelectionModel::Named(name) ==> name == trimmed(requested),
{
    lemma_trimmed_idempotent(requested);
    reveal_strlit("default");
    reveal_strlit("primary");
    reveal_strlit("fast");
    assert("default"@.len() == 7 && "primary"@.len() == 7 && "fast"@.len() == 4);
}

/// A session without a model, with a blank one or with the default one uses the
/// primary model; any other model is known by its name without white space.
pub proof fn a_session_without_a_model_uses_the_primary_one(id: Seq<char>)
    ensures
        session_model_of(None) == "primary"@,
        trimmed(id).len() == 0 || trimmed(id) == "default"@ ==> session_model_of(Some(id))
            == "primary"@,
        trimmed(id).len() > 0 && trimmed(id) != "default"@ ==> session_model_of(Some(id)) == trimmed(
            id,
        ),
        session_model_of(Some(id)).len() > 0,
{
    reveal_strlit("primary");
}

/// `auto` is meant in any mixture of small and capital letters, and by nothing
/// else.
pub proof fn auto_is_meant_in_any_case(s: Seq<char>)
    ensures
        is_auto(s) ==> s.len() == 4,
        is_auto(seq!['a', 'u', 't', 'o']) && is_auto(seq!['A', 'U', 'T', 'O']),
        is_auto(s) <==> s.len() == 4 && (s[0] == 'a' || s[0] == 'A') && (s[1] == 'u' || s[1] == 'U')
            && (s[2] == 't' || s[2] == 'T') && (s[3] == 'o' || s[3] == 'O'),
{
}

/// A preset is wanted only where one is named that is neither blank nor `auto`.
pub proof fn a_preset_is_wanted_where_it_is_named(preset: &str)
    ensures
        wanted_preset(None) is None,
        trimmed(preset@).len() == 0 ==> wanted_preset(Some(preset)) is None,
        is_auto(trimmed(preset@)) ==> wanted_preset(Some(preset)) is None,
        trimmed(preset@).len() > 0 && !is_auto(trimmed(preset@)) ==> wanted_preset(Some(preset))
            == Some(trimmed(preset@)),
{
}

/// A configured model is the first that is enabled and has the id.
pub proof fn a_model_is_the_first_enabled_one(
    models: Seq<ConfiguredModel>,
    id: Seq<char>,
    from: int,
)
    requires
        0 <= from <= models.len(),
    ensures
        from <= enabled_model(models, id, from) <= models.len(),
        forall|i: int|
            from <= i < enabled_model(models, id, from) ==> !(#[trigger] models[i]).enabled
                || models[i].id@ != id,
        enabled_model(models, id, from) < models.len() ==> models[enabled_model(
            models,
            id,
            from,
        )].enabled && models[enabled_model(models, id, from)].id@ == id,
    decreases models.len() - from,
{
    if from < models.len() && !(models[from].enabled && models[from].id@ == id) {
        a_model_is_the_first_enabled_one(models, id, from + 1);
    }
}

/// The configuration is read for a named model or a preset that was given, a
/// preset is named also when it is taken away, and wanted only when one is left
/// to look for.
pub proof fn a_change_is_known_by_what_it_names(requested: Seq<char>, preset: &str)
    ensures
        ({
            let named = trimmed(requested).len() > 0 && trimmed(requested) != "default"@ && trimmed(
                requested,
            ) != "primary"@ && trimmed(requested) != "fast"@;
            let alone = model_update_facts_of(requested, None);
            let without = model_update_facts_of(requested, Some(None));
            let with = model_update_facts_of(requested, Some(Some(preset)));
            &&& alone.needs_config <==> named
            &&& without.needs_config <==> named
            &&& with.needs_config
            &&& !alone.names_preset && without.names_preset && with.names_preset
            &&& !alone.wants_preset && !without.wants_preset
            &&& with.wants_preset <==> trimmed(preset@).len() > 0 && !is_auto(trimmed(preset@))
        }),
{
}

/// Whether these are the steps of changing a model from the beginning, and what
/// each but the last came to.
pub open spec fn is_model_update_course(
    facts: ModelUpdateFacts,
    run: Seq<ModelUpdateStep>,
    events: Seq<ModelUpdateEvent>,
) -> bool {
    &&& run.len() == events.len() + 1
    &&& run[0] == (if facts.needs_config {
        ModelUpdateStep::ReadConfig
    } else {
        ModelUpdateStep::NormalizeSelection
    })
    &&& forall|i: int|
        0 <= i < events.len() ==> model_event_comes_of(run[i], #[trigger] events[i]) && run[i + 1]
            == model_update_step(facts, run[i], events[i])
}

/// The steps of a change in which nothing fails.
pub open spec fn unfailed_model_update(
    facts: ModelUpdateFacts,
    becomes_default: bool,
) -> Seq<ModelUpdateStep> {
    (if facts.needs_config {
        seq![ModelUpdateStep::ReadConfig]
    } else {
        Seq::empty()
    }) + seq![ModelUpdateStep::NormalizeSelection] + (if facts.wants_preset {
        seq![ModelUpdateStep::ResolvePresetModel, ModelUpdateStep::CheckPreset]
    } else {
        Seq::empty()
    }) + seq![
        ModelUpdateStep::AdmitSession,
        if facts.names_preset {
            ModelUpdateStep::UpdateSelection
        } else {
            ModelUpdateStep::UpdateModel
        },
    ] + (if becomes_default {
        seq![ModelUpdateStep::PersistModeDefault]
    } else {
        Seq::empty()
    }) + seq![ModelUpdateStep::Report]
}

proof fn lemma_model_update_course(
    facts: ModelUpdateFacts,
    run: Seq<ModelUpdateStep>,
    events: Seq<ModelUpdateEvent>,
    becomes_default: bool,
    i: int,
)
    requires
        is_model_update_course(facts, run, events),
        forall|k: int|
            0 <= k < events.len() ==> !(#[trigger] events[k] is Failed) && (events[k] is Updated
                ==> events[k] == (ModelUpdateEvent::Updated { becomes_default })),
        0 <= i < run.len(),
    ensures
        i < unfailed_model_update(facts, becomes_default).len(),
        run[i] == unfailed_model_update(facts, becomes_default)[i],
    decreases i,
{
    if i > 0 {
        lemma_model_update_course(facts, run, events, becomes_default, i - 1);
        assert(model_event_comes_of(run[i - 1], events[i - 1]));
        assert(run[i - 1 + 1] == model_update_step(facts, run[i - 1], events[i - 1]));
    }
}

/// A change of a model in which nothing fails reads the configuration where it is
/// needed, normalizes the selection, checks a preset that is wanted, has the
/// session admitted, updates the model alone or with its preset, makes it the
/// default where it becomes one, and reports.
pub proof fn a_model_change_takes_the_steps_that_it_needs(
    facts: ModelUpdateFacts,
    run: Seq<ModelUpdateStep>,
    events: Seq<ModelUpdateEvent>,
    becomes_default: bool,
)
    requires
        is_model_update_course(facts, run, events),
        run.last() is Report || run.last() is Fail,
        forall|k: int|
            0 <= k < events.len() ==> !(#[trigger] events[k] is Failed) && (events[k] is Updated
                ==> events[k] == (ModelUpdateEvent::Updated { becomes_default })),
    ensures
        run == unfailed_model_update(facts, becomes_default),
        run.last() is Report,
{
    let all = unfailed_model_update(facts, becomes_default);
    assert forall|i: int| 0 <= i < run.len() implies i < all.len() && run[i] == all[i] by {
        lemma_model_update_course(facts, run, events, becomes_default, i);
    }
    assert(run.len() - 1 < all.len());
    assert(all[run.len() - 1] == run.last());
    assert forall|i: int| 0 <= i < all.len() - 1 implies !(#[trigger] all[i] is Report) && !(
    all[i] is Fail) by {}
    assert(run =~= all);
}

/// A step of changing a model that fails ends the change, and nothing else does
/// before the report.
pub proof fn a_failed_model_change_ends_at_once(
    facts: ModelUpdateFacts,
    step: ModelUpdateStep,
    event: ModelUpdateEvent,
)
    requires
        model_event_comes_of(step, event),
    ensures
        model_update_step(facts, step, event) is Fail <==> event is Failed,
{
}

/// What remote clients know of a model is what is configured of it, with every
/// capability in its place.
pub proof fn facts_are_those_of_their_model<R>(
    facts: RemoteModelFacts<R>,
    model: ModelSettings<R>,
    i: int,
)
    requires
        shows_model(facts, model),
    ensures
        facts.id@ == model.id@,
        facts.name@ == model.name@,
        facts.provider@ == model.provider@,
        facts.base_url@ == model.base_url@,
        facts.model_name@ == model.model_name@,
        facts.context_window == model.context_window,
        facts.enabled == model.enabled,
        facts.reasoning == Some(model.reasoning),
        facts.capabilities@.len() == model.capabilities@.len(),
        0 <= i < facts.capabilities@.len() ==> facts.capabilities@[i] == shown_capability(
            model.capabilities@[i],
        ),
{
}

} // verus!
