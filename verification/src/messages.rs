//! Conversation messages as they are persisted: inline image data is left out.

use vstd::prelude::*;

use crate::json::{
    collect_json_string_stats, contains_data_url, json_contains_data_url, json_ordered,
    leaf_model, longest_text, put_field, redact_data_url_in_json, redacted,
    redaction_keeps_clean_values, redaction_removes_every_data_url, text_leaves, total_chars,
    with_field, field_models, lemma_field_position, lemma_json_model,
    storing_a_member_changes_only_that, the_longest_text_is_the_first_of_its_length, JsonField,
    JsonModel, JsonValue, TextLeaf,
};
use crate::capsule::metadata_model;
use crate::errors::push_number;
use crate::text::decimal;
use crate::turn::{copy_text_option, text_option};

verus! {

/// An image that goes with a user message.
#[derive(Debug)]
pub struct ImageContextData {
    pub id: String,
    pub image_path: Option<String>,
    pub data_url: Option<String>,
    pub mime_type: String,
    pub metadata: Option<JsonValue>,
}

/// An image that a tool returned.
#[derive(Debug)]
pub struct ToolImageAttachment {
    pub mime_type: String,
    pub data_base64: String,
}

/// The content of a message. `Plain` stands for all content without images or
/// tool results.
#[derive(Debug)]
pub enum MessageContent {
    Plain(String),
    Multimodal { text: String, images: Vec<ImageContextData> },
    ToolResult {
        tool_id: String,
        tool_name: String,
        result: JsonValue,
        result_for_assistant: Option<String>,
        is_error: bool,
        image_attachments: Option<Vec<ToolImageAttachment>>,
    },
}

/// A conversation message. `rest` is what else is kept of it, such as its role
/// and its time.
#[derive(Debug)]
pub struct Message {
    pub id: String,
    pub content: MessageContent,
    pub rest: JsonValue,
}

/// What a [`ImageContextData`] holds.
pub struct ImageModel {
    pub id: Seq<char>,
    pub image_path: Option<Seq<char>>,
    pub data_url: Option<Seq<char>>,
    pub mime_type: Seq<char>,
    pub metadata: Option<JsonModel>,
}

/// What a [`MessageContent`] holds. Of tool images it says only whether there
/// are any to keep.
pub enum ContentModel {
    Plain(Seq<char>),
    Multimodal { text: Seq<char>, images: Seq<ImageModel> },
    ToolResult {
        tool_id: Seq<char>,
        tool_name: Seq<char>,
        result: JsonModel,
        result_for_assistant: Option<Seq<char>>,
        is_error: bool,
        has_image_attachments: bool,
    },
}

/// What a [`Message`] holds.
pub struct MessageModel {
    pub id: Seq<char>,
    pub content: ContentModel,
    pub rest: JsonModel,
}

impl View for ImageContextData {
    type V = ImageModel;

    open spec fn view(&self) -> ImageModel {
        ImageModel {
            id: self.id@,
            image_path: text_option(self.image_path),
            data_url: text_option(self.data_url),
            mime_type: self.mime_type@,
            metadata: metadata_model(self.metadata),
        }
    }
}

/// The models of images.
pub open spec fn image_models(images: Seq<ImageContextData>) -> Seq<ImageModel> {
    Seq::new(images.len(), |i: int| images[i]@)
}

impl View for Message {
    type V = MessageModel;

    open spec fn view(&self) -> MessageModel {
        MessageModel {
            id: self.id@,
            content: match self.content {
                MessageContent::Plain(text) => ContentModel::Plain(text@),
                MessageContent::Multimodal { text, images } => ContentModel::Multimodal {
                    text: text@,
                    images: image_models(images@),
                },
                MessageContent::ToolResult {
                    tool_id,
                    tool_name,
                    result,
                    result_for_assistant,
                    is_error,
                    image_attachments,
                } => ContentModel::ToolResult {
                    tool_id: tool_id@,
                    tool_name: tool_name@,
                    result: result@,
                    result_for_assistant: text_option(result_for_assistant),
                    is_error,
                    has_image_attachments: image_attachments is Some,
                },
            },
            rest: self.rest@,
        }
    }
}

/// Whether an image holds inline data.
pub open spec fn has_inline_data(image: ImageModel) -> bool {
    image.data_url matches Some(url) && url.len() > 0
}

/// Image metadata that says that the image had inline data. Metadata that is no
/// object is kept as a member of one.
pub open spec fn marked_metadata(metadata: Option<JsonModel>) -> JsonModel {
    let fields = match metadata {
        None => Seq::empty(),
        Some(JsonModel::Object(fields)) => fields,
        Some(other) => seq![("raw_metadata"@, other)],
    };
    JsonModel::Object(with_field(fields, "has_data_url"@, JsonModel::Bool(true)))
}

/// An image without its inline data.
pub open spec fn sanitized_image(image: ImageModel) -> ImageModel {
    if has_inline_data(image) {
        ImageModel { data_url: None, metadata: Some(marked_metadata(image.metadata)), ..image }
    } else {
        image
    }
}

/// Whether a message holds anything that is not persisted.
pub open spec fn needs_sanitization(message: MessageModel) -> bool {
    match message.content {
        ContentModel::Plain(_) => false,
        ContentModel::Multimodal { text, images } => exists|i: int|
            0 <= i < images.len() && has_inline_data(#[trigger] images[i]),
        ContentModel::ToolResult {
            tool_id,
            tool_name,
            result,
            result_for_assistant,
            is_error,
            has_image_attachments,
        } => has_image_attachments || contains_data_url(result),
    }
}

/// A message as it is persisted.
pub open spec fn sanitized(message: MessageModel) -> MessageModel {
    match message.content {
        ContentModel::Plain(_) => message,
        ContentModel::Multimodal { text, images } => MessageModel {
            content: ContentModel::Multimodal {
                text,
                images: Seq::new(images.len(), |i: int| sanitized_image(images[i])),
            },
            ..message
        },
        ContentModel::ToolResult {
            tool_id,
            tool_name,
            result,
            result_for_assistant,
            is_error,
            has_image_attachments,
        } => MessageModel {
            content: ContentModel::ToolResult {
                tool_id,
                tool_name,
                result: redacted(result),
                result_for_assistant,
                is_error,
                has_image_attachments: false,
            },
            ..message
        },
    }
}

/// A message that holds nothing to leave out is persisted as it is.
pub proof fn clean_messages_are_kept(message: MessageModel)
    requires
        !needs_sanitization(message),
    ensures
        sanitized(message) == message,
{
    match message.content {
        ContentModel::Plain(_) => {},
        ContentModel::Multimodal { text, images } => {
            assert(Seq::new(images.len(), |i: int| sanitized_image(images[i])) =~= images);
        },
        ContentModel::ToolResult {
            tool_id,
            tool_name,
            result,
            result_for_assistant,
            is_error,
            has_image_attachments,
        } => {
            redaction_keeps_clean_values(result);
        },
    }
}

/// Whether the JSON in a message has its members in order.
pub open spec fn message_ordered(message: MessageModel) -> bool {
    match message.content {
        ContentModel::ToolResult {
            tool_id,
            tool_name,
            result,
            result_for_assistant,
            is_error,
            has_image_attachments,
        } => json_ordered(result),
        _ => true,
    }
}

/// A persisted message holds nothing more to leave out, so that persisting it
/// again changes nothing.
pub proof fn persisted_messages_hold_no_inline_data(message: MessageModel)
    requires
        message_ordered(message),
    ensures
        !needs_sanitization(sanitized(message)),
        sanitized(sanitized(message)) == sanitized(message),
{
    match message.content {
        ContentModel::ToolResult {
            tool_id,
            tool_name,
            result,
            result_for_assistant,
            is_error,
            has_image_attachments,
        } => {
            redaction_removes_every_data_url(result);
        },
        _ => {},
    }
    clean_messages_are_kept(sanitized(message));
}

/// A message is changed when it is persisted exactly when it holds something to
/// leave out.
pub proof fn sanitizing_changes_only_what_needs_it(message: MessageModel)
    requires
        message_ordered(message),
    ensures
        needs_sanitization(message) <==> sanitized(message) != message,
{
    if needs_sanitization(message) {
        persisted_messages_hold_no_inline_data(message);
    } else {
        clean_messages_are_kept(message);
    }
}

/// Whether an image holds inline data.
fn image_has_inline_data(image: &ImageContextData) -> (r: bool)
    ensures
        r == has_inline_data(image@),
{
    match &image.data_url {
        Some(url) => !url.as_str().is_empty(),
        None => false,
    }
}

/// Whether a message holds anything that is not persisted.
pub fn message_needs_persistence_sanitization(message: &Message) -> (r: bool)
    ensures
        r == needs_sanitization(message@),
{
    match &message.content {
        MessageContent::Plain(_) => false,
        MessageContent::Multimodal { text: _, images } => {
            let ghost models = image_models(images@);
            let mut i: usize = 0;
            while i < images.len()
                invariant
                    i <= images@.len(),
                    models == image_models(images@),
                    message@.content matches ContentModel::Multimodal { text, images: m } && m
                        == models,
                    forall|j: int| 0 <= j < i ==> !has_inline_data(#[trigger] models[j]),
                decreases images@.len() - i,
            {
                assert(models[i as int] == images@[i as int]@);
                if image_has_inline_data(&images[i]) {
                    return true;
                }
                i += 1;
            }
            false
        },
        MessageContent::ToolResult {
            tool_id: _,
            tool_name: _,
            result,
            result_for_assistant: _,
            is_error: _,
            image_attachments,
        } => image_attachments.is_some() || json_contains_data_url(result),
    }
}

/// A copy of optional metadata.
pub fn copy_metadata(metadata: &Option<JsonValue>) -> (r: Option<JsonValue>)
    ensures
        metadata_model(r) == metadata_model(*metadata),
{
    match metadata {
        Some(v) => Some(v.duplicate()),
        None => None,
    }
}

/// Makes [`marked_metadata`].
fn mark_metadata(metadata: &Option<JsonValue>) -> (r: JsonValue)
    ensures
        r@ == marked_metadata(metadata_model(*metadata)),
{
    let mut fields: Vec<JsonField> = Vec::new();
    match metadata {
        None => {
            assert(field_models(fields@) =~= Seq::empty());
        },
        Some(value) => {
            let copy = value.duplicate();
            proof {
                lemma_json_model(copy);
            }
            match copy {
                JsonValue::Object(members) => {
                    fields = members;
                },
                other => {
                    fields.push(JsonField { key: "raw_metadata".to_owned(), value: other });
                    assert(field_models(fields@) =~= seq![("raw_metadata"@, value@)]);
                },
            }
        },
    }
    put_field(&mut fields, "has_data_url", JsonValue::Bool(true));
    let r = JsonValue::Object(fields);
    proof {
        lemma_json_model(r);
    }
    r
}

/// An image as it is persisted.
fn sanitize_image(image: &ImageContextData) -> (r: ImageContextData)
    ensures
        r@ == sanitized_image(image@),
{
    if image_has_inline_data(image) {
        ImageContextData {
            id: image.id.clone(),
            image_path: copy_text_option(&image.image_path),
            data_url: None,
            mime_type: image.mime_type.clone(),
            metadata: Some(mark_metadata(&image.metadata)),
        }
    } else {
        ImageContextData {
            id: image.id.clone(),
            image_path: copy_text_option(&image.image_path),
            data_url: copy_text_option(&image.data_url),
            mime_type: image.mime_type.clone(),
            metadata: copy_metadata(&image.metadata),
        }
    }
}

/// A message as it is persisted: the message itself when nothing is left out,
/// else a copy without what is left out.
#[derive(Debug)]
pub enum PersistedMessage<'a> {
    Unchanged(&'a Message),
    Rewritten(Message),
}

impl<'a> View for PersistedMessage<'a> {
    type V = MessageModel;

    open spec fn view(&self) -> MessageModel {
        match self {
            PersistedMessage::Unchanged(message) => message@,
            PersistedMessage::Rewritten(message) => message@,
        }
    }
}

/// Leaves out of a message what is not persisted. A message that needs no
/// change is not copied.
pub fn sanitize_message_for_persistence<'a>(message: &'a Message) -> (r: PersistedMessage<'a>)
    ensures
        r@ == sanitized(message@),
        r is Rewritten == needs_sanitization(message@),
{
    if !message_needs_persistence_sanitization(message) {
        proof {
            clean_messages_are_kept(message@);
        }
        return PersistedMessage::Unchanged(message);
    }
    let content = match &message.content {
        MessageContent::Plain(text) => MessageContent::Plain(text.clone()),
        MessageContent::Multimodal { text, images } => {
            let mut kept: Vec<ImageContextData> = Vec::new();
            let mut i: usize = 0;
            while i < images.len()
                invariant
                    i <= images@.len(),
                    kept@.len() == i,
                    forall|j: int|
                        0 <= j < i ==> (#[trigger] kept@[j])@ == sanitized_image(images@[j]@),
                decreases images@.len() - i,
            {
                kept.push(sanitize_image(&images[i]));
                i += 1;
            }
            assert(image_models(kept@) =~= Seq::new(
                images@.len(),
                |j: int| sanitized_image(image_models(images@)[j]),
            ));
            MessageContent::Multimodal { text: text.clone(), images: kept }
        },
        MessageContent::ToolResult {
            tool_id,
            tool_name,
            result,
            result_for_assistant,
            is_error,
            image_attachments: _,
        } => {
            let mut clean = result.duplicate();
            redact_data_url_in_json(&mut clean);
            MessageContent::ToolResult {
                tool_id: tool_id.clone(),
                tool_name: tool_name.clone(),
                result: clean,
                result_for_assistant: copy_text_option(result_for_assistant),
                is_error: *is_error,
                image_attachments: None,
            }
        },
    };
    PersistedMessage::Rewritten(
        Message { id: message.id.clone(), content, rest: message.rest.duplicate() },
    )
}

/// Leaves out of messages what is not persisted.
pub fn sanitize_messages_for_persistence<'a>(messages: &'a Vec<Message>) -> (r: Vec<
    PersistedMessage<'a>,
>)
    ensures
        r@.len() == messages@.len(),
        forall|i: int|
            0 <= i < r@.len() ==> (#[trigger] r@[i])@ == sanitized(messages@[i]@) && r@[i]
                is Rewritten == needs_sanitization(messages@[i]@),
{
    let mut r: Vec<PersistedMessage<'a>> = Vec::new();
    let mut i: usize = 0;
    while i < messages.len()
        invariant
            i <= messages@.len(),
            r@.len() == i,
            forall|j: int|
                0 <= j < i ==> (#[trigger] r@[j])@ == sanitized(messages@[j]@) && r@[j]
                    is Rewritten == needs_sanitization(messages@[j]@),
        decreases messages@.len() - i,
    {
        r.push(sanitize_message_for_persistence(&messages[i]));
        i += 1;
    }
    r
}

/// How large the tool results in a context snapshot are. No content is kept.
#[derive(Debug)]
pub struct ContextSnapshotPayloadStats {
    pub tool_result_count: usize,
    pub raw_result_string_chars: usize,
    pub result_for_assistant_chars: usize,
    pub largest_raw_result_chars: usize,
    pub largest_raw_result_path: String,
}

/// The same as numbers without bound.
pub struct PayloadModel {
    pub tool_results: nat,
    pub raw_chars: nat,
    pub assistant_chars: nat,
    pub largest: TextLeaf,
}

impl View for ContextSnapshotPayloadStats {
    type V = PayloadModel;

    open spec fn view(&self) -> PayloadModel {
        PayloadModel {
            tool_results: self.tool_result_count as nat,
            raw_chars: self.raw_result_string_chars as nat,
            assistant_chars: self.result_for_assistant_chars as nat,
            largest: TextLeaf {
                chars: self.largest_raw_result_chars as nat,
                path: self.largest_raw_result_path@,
            },
        }
    }
}

/// Where the result of a tool stands among messages.
pub open spec fn result_path(index: nat, tool_name: Seq<char>) -> Seq<char> {
    "message["@ + decimal(index) + "]."@ + tool_name
}

/// The texts in the tool result of the message at `index`.
pub open spec fn result_leaves(message: MessageModel, index: nat) -> Seq<TextLeaf> {
    match message.content {
        ContentModel::ToolResult {
            tool_id,
            tool_name,
            result,
            result_for_assistant,
            is_error,
            has_image_attachments,
        } => text_leaves(result, result_path(index, tool_name)),
        _ => Seq::empty(),
    }
}

/// The number of characters in what a tool result tells the assistant.
pub open spec fn assistant_chars(message: MessageModel) -> nat {
    match message.content {
        ContentModel::ToolResult {
            tool_id,
            tool_name,
            result,
            result_for_assistant,
            is_error,
            has_image_attachments,
        } => match result_for_assistant {
            Some(text) => text.len(),
            None => 0,
        },
        _ => 0,
    }
}

/// The sizes of the tool results among these messages. The largest is the first
/// longest text of all, and none when no text has a character.
pub open spec fn payload_of(messages: Seq<Message>) -> PayloadModel
    decreases messages.len(),
{
    if messages.len() == 0 {
        PayloadModel {
            tool_results: 0,
            raw_chars: 0,
            assistant_chars: 0,
            largest: TextLeaf { chars: 0, path: Seq::empty() },
        }
    } else {
        let earlier = payload_of(messages.drop_last());
        let message = messages.last()@;
        let leaves = result_leaves(message, (messages.len() - 1) as nat);
        let best = longest_text(TextLeaf { chars: 0, path: Seq::empty() }, leaves);
        PayloadModel {
            tool_results: earlier.tool_results + (if message.content is ToolResult {
                1nat
            } else {
                0nat
            }),
            raw_chars: earlier.raw_chars + total_chars(leaves),
            assistant_chars: earlier.assistant_chars + assistant_chars(message),
            largest: if best.chars > earlier.largest.chars {
                best
            } else {
                earlier.largest
            },
        }
    }
}

proof fn lemma_payload_grows(messages: Seq<Message>, n: int)
    requires
        0 <= n <= messages.len(),
    ensures
        payload_of(messages.take(n)).raw_chars <= payload_of(messages).raw_chars,
        payload_of(messages.take(n)).assistant_chars <= payload_of(messages).assistant_chars,
        payload_of(messages.take(n)).tool_results <= payload_of(messages).tool_results,
    decreases messages.len() - n,
{
    if n < messages.len() {
        lemma_payload_grows(messages, n + 1);
        assert(messages.take(n + 1).drop_last() =~= messages.take(n));
    } else {
        assert(messages.take(n) =~= messages);
    }
}

/// Measures the tool results among messages. The characters of all of them have
/// to be countable.
pub fn context_snapshot_payload_stats(messages: &Vec<Message>) -> (r: ContextSnapshotPayloadStats)
    requires
        payload_of(messages@).raw_chars <= usize::MAX,
        payload_of(messages@).assistant_chars <= usize::MAX,
    ensures
        r@ == payload_of(messages@),
{
    let mut tool_result_count: usize = 0;
    let mut raw_result_string_chars: usize = 0;
    let mut result_for_assistant_chars: usize = 0;
    let mut largest_raw_result_chars: usize = 0;
    let mut largest_raw_result_path: String = String::new();
    let mut i: usize = 0;
    while i < messages.len()
        invariant
            i <= messages@.len(),
            payload_of(messages@).raw_chars <= usize::MAX,
            payload_of(messages@).assistant_chars <= usize::MAX,
            tool_result_count <= i,
            payload_of(messages@.take(i as int)) == (PayloadModel {
                tool_results: tool_result_count as nat,
                raw_chars: raw_result_string_chars as nat,
                assistant_chars: result_for_assistant_chars as nat,
                largest: TextLeaf {
                    chars: largest_raw_result_chars as nat,
                    path: largest_raw_result_path@,
                },
            }),
        decreases messages@.len() - i,
    {
        let message: &Message = &messages[i];
        proof {
            assert(messages@.take(i + 1).drop_last() =~= messages@.take(i as int));
            assert(messages@.take(i + 1).last() == messages@[i as int]);
            lemma_payload_grows(messages@, i + 1);
            assert(total_chars(Seq::<TextLeaf>::empty()) == 0);
            assert(longest_text(
                TextLeaf { chars: 0, path: Seq::empty() },
                Seq::<TextLeaf>::empty(),
            ) == (TextLeaf { chars: 0, path: Seq::empty() }));
        }
        match &message.content {
            MessageContent::ToolResult {
                tool_id: _,
                tool_name,
                result,
                result_for_assistant,
                is_error: _,
                image_attachments: _,
            } => {
                tool_result_count += 1;
                match result_for_assistant {
                    Some(text) => {
                        result_for_assistant_chars = result_for_assistant_chars
                            + text.as_str().unicode_len();
                    },
                    None => {},
                }
                let mut path: String = "message[".to_owned();
                push_number(&mut path, i as u64);
                path.append("].");
                path.append(tool_name.as_str());
                let mut raw_chars: usize = 0;
                let mut largest: (usize, String) = (0, String::new());
                assert(leaf_model(largest) == (TextLeaf { chars: 0, path: Seq::empty() }));
                collect_json_string_stats(result, path.as_str(), &mut raw_chars, &mut largest);
                raw_result_string_chars = raw_result_string_chars + raw_chars;
                if largest.0 > largest_raw_result_chars {
                    largest_raw_result_chars = largest.0;
                    largest_raw_result_path = largest.1;
                }
            },
            _ => {},
        }
        i += 1;
    }
    assert(messages@.take(i as int) =~= messages@);
    ContextSnapshotPayloadStats {
        tool_result_count,
        raw_result_string_chars,
        result_for_assistant_chars,
        largest_raw_result_chars,
        largest_raw_result_path,
    }
}

/// Persisting a message keeps its id, what else is kept of it and the kind of its
/// content. Of a user message the text stays, and the images stay as many and in
/// their order, each with its id, path and type; an image without inline data
/// stays as it is, and one with inline data loses exactly that. Of a tool result
/// all stays but inline data in the result and the images of the tool.
pub proof fn persisting_loses_only_inline_data(message: MessageModel)
    ensures
        sanitized(message).id == message.id,
        sanitized(message).rest == message.rest,
        match (message.content, sanitized(message).content) {
            (ContentModel::Plain(text), ContentModel::Plain(kept)) => kept == text,
            (
                ContentModel::Multimodal { text, images },
                ContentModel::Multimodal { text: kept_text, images: kept },
            ) => {
                &&& kept_text == text
                &&& kept.len() == images.len()
                &&& forall|i: int|
                    0 <= i < images.len() ==> {
                        &&& (#[trigger] kept[i]).id == images[i].id
                        &&& kept[i].image_path == images[i].image_path
                        &&& kept[i].mime_type == images[i].mime_type
                        &&& (images[i].data_url is None || images[i].data_url == Some(
                            Seq::<char>::empty(),
                        )) ==> kept[i] == images[i]
                        &&& (images[i].data_url matches Some(url) && url.len() > 0)
                            ==> kept[i].data_url is None && kept[i].metadata is Some
                    }
            },
            (
                ContentModel::ToolResult {
                    tool_id,
                    tool_name,
                    result,
                    result_for_assistant,
                    is_error,
                    has_image_attachments,
                },
                ContentModel::ToolResult {
                    tool_id: kept_id,
                    tool_name: kept_name,
                    result: kept_result,
                    result_for_assistant: kept_for_assistant,
                    is_error: kept_error,
                    has_image_attachments: kept_images,
                },
            ) => {
                &&& kept_id == tool_id
                &&& kept_name == tool_name
                &&& kept_for_assistant == result_for_assistant
                &&& kept_error == is_error
                &&& !kept_images
                &&& !contains_data_url(result) ==> kept_result == result
            },
            _ => false,
        },
{
    match message.content {
        ContentModel::ToolResult {
            tool_id,
            tool_name,
            result,
            result_for_assistant,
            is_error,
            has_image_attachments,
        } => {
            if !contains_data_url(result) {
                redaction_keeps_clean_values(result);
            }
        },
        _ => {},
    }
}

/// The metadata of an image that had inline data says so, and keeps what it held:
/// the members of an object under their keys, anything else under a key of its
/// own, and nothing besides.
pub proof fn marked_metadata_keeps_what_it_held(metadata: Option<JsonModel>, key: Seq<char>)
    ensures
        ({
            let marked = marked_metadata(metadata);
            &&& JsonValue::member_model(marked, "has_data_url"@) == Some(JsonModel::Bool(true))
            &&& key != "has_data_url"@ ==> JsonValue::member_model(marked, key) == (match metadata {
                None => None,
                Some(JsonModel::Object(fields)) => JsonValue::member_model(
                    JsonModel::Object(fields),
                    key,
                ),
                Some(other) => if key == "raw_metadata"@ {
                    Some(other)
                } else {
                    None
                },
            })
        }),
{
    reveal_strlit("has_data_url");
    reveal_strlit("raw_metadata");
    let fields = match metadata {
        None => Seq::empty(),
        Some(JsonModel::Object(fields)) => fields,
        Some(other) => seq![("raw_metadata"@, other)],
    };
    storing_a_member_changes_only_that(fields, "has_data_url"@, JsonModel::Bool(true), key);
    lemma_field_position(fields, key, 0);
    match metadata {
        Some(JsonModel::Object(f)) => {},
        Some(other) => {
            assert(fields[0] == ("raw_metadata"@, other));
        },
        None => {},
    }
}

/// Each message adds to the sizes what its own tool result holds, and nothing
/// when it is none; no text of it is longer than the largest.
pub proof fn payloads_add_up(messages: Seq<Message>, message: Message)
    ensures
        ({
            let before = payload_of(messages);
            let after = payload_of(messages.push(message));
            match message@.content {
                ContentModel::ToolResult {
                    tool_id,
                    tool_name,
                    result,
                    result_for_assistant,
                    is_error,
                    has_image_attachments,
                } => {
                    let texts = text_leaves(result, result_path(messages.len(), tool_name));
                    &&& after.tool_results == before.tool_results + 1
                    &&& after.raw_chars == before.raw_chars + total_chars(texts)
                    &&& after.assistant_chars == before.assistant_chars + (
                    match result_for_assistant {
                        Some(text) => text.len(),
                        None => 0,
                    })
                    &&& forall|i: int|
                        0 <= i < texts.len() ==> (#[trigger] texts[i]).chars <= after.largest.chars
                    &&& after.largest == before.largest || texts.contains(after.largest)
                    &&& after.largest.chars >= before.largest.chars
                },
                _ => after == before,
            }
        }),
{
    let all = messages.push(message);
    assert(all.drop_last() =~= messages);
    assert(all.last() == message);
    let none = TextLeaf { chars: 0, path: Seq::empty() };
    assert(total_chars(Seq::<TextLeaf>::empty()) == 0);
    assert(longest_text(none, Seq::<TextLeaf>::empty()) == none);
    match message@.content {
        ContentModel::ToolResult {
            tool_id,
            tool_name,
            result,
            result_for_assistant,
            is_error,
            has_image_attachments,
        } => {
            let texts = text_leaves(result, result_path(messages.len(), tool_name));
            the_longest_text_is_the_first_of_its_length(none, texts);
        },
        _ => {},
    }
}

/// What is persisted of a message has the text, the tool and the number of images
/// of the message, no attachments and no inline image data.
pub proof fn a_persisted_message_holds_what_can_be_kept(message: Message, persisted: Message)
    requires
        persisted@ == sanitized(message@),
    ensures
        persisted.id@ == message.id@,
        persisted.rest@ == message.rest@,
        match (message.content, persisted.content) {
            (MessageContent::Plain(text), MessageContent::Plain(kept)) => kept@ == text@,
            (
                MessageContent::Multimodal { text, images },
                MessageContent::Multimodal { text: kept_text, images: kept },
            ) => {
                &&& kept_text@ == text@
                &&& kept@.len() == images@.len()
                &&& forall|i: int|
                    0 <= i < images@.len() ==> {
                        &&& (#[trigger] kept@[i]).id@ == images@[i].id@
                        &&& kept@[i].mime_type@ == images@[i].mime_type@
                        &&& text_option(kept@[i].image_path) == text_option(images@[i].image_path)
                        &&& kept@[i].data_url matches Some(url) ==> url@.len() == 0
                    }
            },
            (
                MessageContent::ToolResult {
                    tool_id,
                    tool_name,
                    result,
                    result_for_assistant,
                    is_error,
                    image_attachments,
                },
                MessageContent::ToolResult {
                    tool_id: kept_id,
                    tool_name: kept_name,
                    result: kept_result,
                    result_for_assistant: kept_for_assistant,
                    is_error: kept_error,
                    image_attachments: kept_images,
                },
            ) => {
                &&& kept_id@ == tool_id@
                &&& kept_name@ == tool_name@
                &&& text_option(kept_for_assistant) == text_option(result_for_assistant)
                &&& kept_error == is_error
                &&& kept_images is None
            },
            _ => false,
        },
{
    match (message.content, persisted.content) {
        (
            MessageContent::Multimodal { text, images },
            MessageContent::Multimodal { text: kept_text, images: kept },
        ) => {
            let before = image_models(images@);
            let after = image_models(kept@);
            assert(after == Seq::new(before.len(), |i: int| sanitized_image(before[i])));
            assert(after.len() == before.len());
            assert forall|i: int| 0 <= i < images@.len() implies {
                &&& (#[trigger] kept@[i]).id@ == images@[i].id@
                &&& kept@[i].mime_type@ == images@[i].mime_type@
                &&& text_option(kept@[i].image_path) == text_option(images@[i].image_path)
                &&& kept@[i].data_url matches Some(url) ==> url@.len() == 0
            } by {
                assert(after[i] == sanitized_image(before[i]));
                assert(after[i] == kept@[i]@);
            }
        },
        _ => {},
    }
}

} // verus!
